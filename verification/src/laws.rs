//! General properties of the tokenizer, stated over the spec-level scanner
//! that [`crate::lexer::Lexer::next`] is proved to implement.

use vstd::prelude::*;

use crate::lex_spec::{
    digits_end, find_from, is_digit_char, is_word_char, is_word_start, keyword_kind,
    lemma_digits_end, lemma_find_from, lemma_lex_next, lemma_word_end, lex_next, single_kind,
    start_state, token_trace, wf_state, word_end, LexState,
};
use crate::token::{TokenKind, TokenModel};

verus! {

/// Once the scanner has produced an `EOF` token, scanning again changes
/// nothing: the same `EOF` token comes out, at the same row and column, and
/// the state stays exactly as it is.
pub proof fn lemma_eof_idempotent(s: Seq<char>, st: LexState)
    requires
        wf_state(s, st),
        lex_next(s, st).token.kind is EOF,
    ensures
        lex_next(s, lex_next(s, st).next).token == lex_next(s, st).token,
        lex_next(s, lex_next(s, st).next).next == lex_next(s, st).next,
{
    lemma_lex_next(s, st);
}

/// One of the nine single-character structural symbols.
pub open spec fn is_structural(c: char) -> bool {
    c == '(' || c == ')' || c == '[' || c == ']' || c == '{' || c == '}' || c == ':' || c == ';'
        || c == ','
}

/// The token kind of a structural symbol.
pub open spec fn structural_kind(c: char) -> TokenKind {
    if c == '[' {
        TokenKind::LBracket
    } else {
        single_kind(c)
    }
}

proof fn lemma_structural_from(s: Seq<char>, pos: int)
    requires
        forall|i: int| 0 <= i < s.len() ==> is_structural(s[i]),
        0 <= pos <= s.len(),
    ensures
        ({
            let tr = token_trace(s, LexState { pos, row: 1, col: pos });
            &&& tr.len() == s.len() - pos + 1
            &&& forall|i: int|
                0 <= i < s.len() - pos ==> tr[i] == (TokenModel {
                    kind: structural_kind(s[pos + i]),
                    row: 1,
                    col: pos + i + 1,
                })
            &&& tr.last().kind is EOF
        }),
    decreases s.len() - pos,
{
    let st = LexState { pos, row: 1, col: pos };
    let tr = token_trace(s, st);
    if pos < s.len() {
        let c = s[pos];
        let step = lex_next(s, st);
        assert(step.next == LexState { pos: pos + 1, row: 1, col: pos + 1 });
        lemma_structural_from(s, pos + 1);
        let tr2 = token_trace(s, step.next);
        assert(tr == seq![step.token] + tr2);
        assert forall|i: int| 0 <= i < s.len() - pos implies tr[i] == (TokenModel {
            kind: structural_kind(s[pos + i]),
            row: 1,
            col: pos + i + 1,
        }) by {
            if i > 0 {
                assert(tr[i] == tr2[i - 1]);
            }
        }
        assert(tr.last() == tr2.last());
    }
}

/// Tokenizing an input made only of the nine single-character structural
/// symbols yields exactly those structural token kinds, one token per
/// character, in order, each on row 1 at its own column, and then `EOF`.
pub proof fn lemma_structural_symbols(s: Seq<char>)
    requires
        forall|i: int| 0 <= i < s.len() ==> is_structural(s[i]),
    ensures
        token_trace(s, start_state()).len() == s.len() + 1,
        forall|i: int|
            0 <= i < s.len() ==> token_trace(s, start_state())[i] == (TokenModel {
                kind: structural_kind(s[i]),
                row: 1,
                col: i + 1,
            }),
        token_trace(s, start_state()).last().kind is EOF,
{
    lemma_structural_from(s, 0);
}

/// Tokenizing one word alone yields exactly one token before `EOF`: the
/// keyword or type name the fixed table assigns to that word, or an
/// identifier with exactly that spelling if the table has no entry, at
/// row 1, column 1.
pub proof fn lemma_keyword_roundtrip(s: Seq<char>)
    requires
        s.len() > 0,
        is_word_start(s[0]),
        forall|i: int| 0 <= i < s.len() ==> is_word_char(s[i]),
    ensures
        ({
            let tr = token_trace(s, start_state());
            &&& tr.len() == 2
            &&& tr[0] == (TokenModel { kind: keyword_kind(s), row: 1, col: 1 })
            &&& tr[1].kind is EOF
        }),
{
    let st = start_state();
    let step = lex_next(s, st);
    lemma_word_end(s, 1);
    assert(word_end(s, 1) == s.len() as int);
    assert(s.subrange(0, s.len() as int) =~= s);
    assert(step.token == TokenModel { kind: keyword_kind(s), row: 1, col: 1 });
    assert(step.next == LexState { pos: s.len() as int, row: 1, col: s.len() as int });
    let tr2 = token_trace(s, step.next);
    assert(tr2 =~= seq![lex_next(s, step.next).token]);
    assert(token_trace(s, st) == seq![step.token] + tr2);
}

/// One character of lookahead disambiguates the two-character operators: at
/// a `=` the scanner yields `Equal` exactly when another `=` follows, and
/// `Assign` otherwise; at a `!` it yields `NotEqual` exactly when a `=`
/// follows, and `Not` otherwise.
pub proof fn lemma_two_char_operators(s: Seq<char>, st: LexState)
    requires
        wf_state(s, st),
        st.pos < s.len(),
    ensures
        s[st.pos] == '=' ==> lex_next(s, st).token.kind == (if st.pos + 1 < s.len() && s[st.pos
            + 1] == '=' {
            TokenKind::Equal
        } else {
            TokenKind::Assign
        }),
        s[st.pos] == '!' ==> lex_next(s, st).token.kind == (if st.pos + 1 < s.len() && s[st.pos
            + 1] == '=' {
            TokenKind::NotEqual
        } else {
            TokenKind::Not
        }),
{
}

/// The number of line break characters in a sequence.
pub open spec fn count_newlines(s: Seq<char>) -> int
    decreases s.len(),
{
    if s.len() == 0 {
        0
    } else {
        (if s[0] == '\n' {
            1int
        } else {
            0int
        }) + count_newlines(s.drop_first())
    }
}

proof fn lemma_count_push(u: Seq<char>, c: char)
    ensures
        count_newlines(u.push(c)) == count_newlines(u) + (if c == '\n' {
            1int
        } else {
            0int
        }),
    decreases u.len(),
{
    if u.len() == 0 {
        assert(u.push(c).drop_first() =~= Seq::<char>::empty());
        assert(u.push(c)[0] == c);
        assert(count_newlines(u.push(c).drop_first()) == 0);
    } else {
        assert(u.push(c)[0] == u[0]);
        assert(u.push(c).drop_first() =~= u.drop_first().push(c));
        lemma_count_push(u.drop_first(), c);
        assert(count_newlines(u) == (if u[0] == '\n' {
            1int
        } else {
            0int
        }) + count_newlines(u.drop_first()));
    }
}

proof fn lemma_count_nonneg(s: Seq<char>)
    ensures
        count_newlines(s) >= 0,
    decreases s.len(),
{
    if s.len() > 0 {
        lemma_count_nonneg(s.drop_first());
    }
}

proof fn lemma_count_none(s: Seq<char>, a: int, b: int)
    requires
        0 <= a <= b <= s.len(),
        forall|j: int| a <= j < b ==> s[j] != '\n',
    ensures
        count_newlines(s.subrange(a, b)) == 0,
    decreases b - a,
{
    if a < b {
        assert(s.subrange(a, b).drop_first() =~= s.subrange(a + 1, b));
        lemma_count_none(s, a + 1, b);
    }
}

/// Rows track line breaks exactly: a scanner step that does not produce a
/// string, character, or illegal token advances the row by precisely the
/// number of newline characters it consumed, and whenever it consumed one
/// the column count is reset, so the next token's column starts over after
/// the break. (A string, character, or illegal lexeme can swallow a line
/// break without advancing the row; such steps are left out.)
pub proof fn lemma_rows_count_newlines(s: Seq<char>, st: LexState)
    requires
        wf_state(s, st),
        ({
            let step = lex_next(s, st);
            !((step.token.kind is Str || step.token.kind is Character || step.token.kind
                is Illegal) && count_newlines(s.subrange(st.pos, step.next.pos)) > 0)
        }),
    ensures
        ({
            let step = lex_next(s, st);
            let consumed = count_newlines(s.subrange(st.pos, step.next.pos));
            &&& step.next.row == st.row + consumed
            &&& (consumed > 0 ==> step.next.col == 0)
        }),
    decreases s.len() - st.pos,
{
    lemma_lex_next(s, st);
    let step = lex_next(s, st);
    if 0 <= st.pos < s.len() {
        let c = s[st.pos];
        let p = st.pos + 1;
        if c == ' ' || c == '\t' {
            let st1 = LexState { pos: p, row: st.row, col: st.col + 1 };
            lemma_lex_next(s, st1);
            assert(s.subrange(st.pos, step.next.pos).drop_first() =~= s.subrange(
                p,
                step.next.pos,
            ));
            assert(count_newlines(s.subrange(st.pos, step.next.pos)) == count_newlines(
                s.subrange(p, step.next.pos),
            ));
            lemma_rows_count_newlines(s, st1);
        } else if c == '\n' {
            lemma_count_push(Seq::<char>::empty(), '\n');
            assert(s.subrange(st.pos, p) =~= Seq::<char>::empty().push('\n'));
            assert(count_newlines(s.subrange(st.pos, p)) == 1);
        } else if is_word_start(c) {
            lemma_word_end(s, p);
            assert(forall|j: int| st.pos <= j < step.next.pos ==> s[j] != '\n');
            lemma_count_none(s, st.pos, step.next.pos);
        } else if is_digit_char(c) {
            lemma_digits_end(s, p);
            assert(forall|j: int| st.pos <= j < step.next.pos ==> s[j] != '\n');
            lemma_count_none(s, st.pos, step.next.pos);
        } else if c == '-' {
            if p < s.len() && is_digit_char(s[p]) && s[p] != '>' {
                lemma_digits_end(s, p);
            }
            assert(forall|j: int| st.pos <= j < step.next.pos ==> s[j] != '\n');
            lemma_count_none(s, st.pos, step.next.pos);
        } else if c == '"' || c == '\'' {
            lemma_count_nonneg(s.subrange(st.pos, step.next.pos));
            assert(count_newlines(s.subrange(st.pos, step.next.pos)) == 0);
        } else if c == '#' {
            lemma_find_from(s, p, '\n');
            match find_from(s, p, '\n') {
                Option::Some(q) => {
                    assert(forall|j: int| st.pos <= j < q ==> s[j] != '\n');
                    lemma_count_none(s, st.pos, q);
                    lemma_count_push(s.subrange(st.pos, q), '\n');
                    assert(s.subrange(st.pos, q + 1) =~= s.subrange(st.pos, q).push(s[q]));
                    assert(count_newlines(s.subrange(st.pos, q + 1)) == 1);
                },
                Option::None => {
                    assert(forall|j: int| st.pos <= j < s.len() ==> s[j] != '\n');
                    lemma_count_none(s, st.pos, s.len() as int);
                },
            }
        } else {
            assert(forall|j: int| st.pos <= j < step.next.pos ==> s[j] != '\n');
            lemma_count_none(s, st.pos, step.next.pos);
        }
    } else {
        assert(s.subrange(st.pos, step.next.pos) =~= Seq::<char>::empty());
    }
}

/// Row numbers are non-decreasing across the successive tokens of a
/// tokenization, and never fall below the row the scanner starts on.
pub proof fn lemma_rows_monotonic(s: Seq<char>, st: LexState)
    requires
        wf_state(s, st),
    ensures
        ({
            let tr = token_trace(s, st);
            &&& forall|i: int| 0 <= i < tr.len() ==> st.row <= tr[i].row
            &&& forall|i: int, j: int| 0 <= i <= j < tr.len() ==> tr[i].row <= tr[j].row
        }),
    decreases s.len() - st.pos,
{
    lemma_lex_next(s, st);
    let step = lex_next(s, st);
    let tr = token_trace(s, st);
    if !(step.token.kind is EOF) {
        lemma_rows_monotonic(s, step.next);
        let tr2 = token_trace(s, step.next);
        assert(tr == seq![step.token] + tr2);
        assert forall|i: int| 0 <= i < tr.len() implies st.row <= tr[i].row by {
            if i > 0 {
                assert(tr[i] == tr2[i - 1]);
            }
        }
        assert forall|i: int, j: int| 0 <= i <= j < tr.len() implies tr[i].row <= tr[j].row by {
            if i > 0 {
                assert(tr[i] == tr2[i - 1]);
                assert(tr[j] == tr2[j - 1]);
            } else if j > 0 {
                assert(tr[j] == tr2[j - 1]);
                assert(step.next.row <= tr2[j - 1].row);
            }
        }
    }
}

} // verus!
