//! Mathematical model of the tokenizer: a spec-level scanner over the
//! input's character sequence, stepping one token at a time.
//!
//! A scanner state is a cursor position together with the 1-based row and the
//! running column count. One step of the scanner ([`lex_next`]) skips blanks,
//! classifies the next lexeme exactly as the grammar prescribes, and reports
//! the token with the position of its first character. The executable
//! tokenizer is verified to agree with this model step by step.

use vstd::prelude::*;

use crate::token::{TokenKind, TokenModel};

verus! {

/// An ASCII letter.
pub open spec fn is_alpha(c: char) -> bool {
    (97 <= c as u32 && c as u32 <= 122) || (65 <= c as u32 && c as u32 <= 90)
}

/// A character that may start an identifier or keyword.
pub open spec fn is_word_start(c: char) -> bool {
    is_alpha(c) || c == '_'
}

/// A character that may continue an identifier or keyword: letters,
/// underscore, and a `?` (so `name?` is one identifier).
pub open spec fn is_word_char(c: char) -> bool {
    is_alpha(c) || c == '_' || c == '?'
}

/// An ASCII decimal digit.
pub open spec fn is_digit_char(c: char) -> bool {
    48 <= c as u32 && c as u32 <= 57
}

/// The numeric value of one decimal digit character.
pub open spec fn digit_val(c: char) -> int
    recommends
        is_digit_char(c),
{
    c as u32 - 48
}

/// The value of a run of decimal digit characters, most significant first.
pub open spec fn digits_val(s: Seq<char>) -> int
    decreases s.len(),
{
    if s.len() == 0 {
        0
    } else {
        digits_val(s.drop_last()) * 10 + digit_val(s.last())
    }
}

/// Clamp a mathematical integer into `isize` from above. Integer literals
/// whose value exceeds the machine range saturate rather than overflow.
pub open spec fn clip_max(v: int) -> int {
    if v > isize::MAX as int {
        isize::MAX as int
    } else {
        v
    }
}

/// Clamp a mathematical integer into `isize` from below.
pub open spec fn clip_min(v: int) -> int {
    if v < isize::MIN as int {
        isize::MIN as int
    } else {
        v
    }
}

/// The first index at or after `i` that does not hold an identifier
/// character (or the end of the input).
pub open spec fn word_end(s: Seq<char>, i: int) -> int
    decreases s.len() - i,
{
    if 0 <= i < s.len() && is_word_char(s[i]) {
        word_end(s, i + 1)
    } else {
        i
    }
}

/// The first index at or after `i` that does not hold a digit (or the end of
/// the input).
pub open spec fn digits_end(s: Seq<char>, i: int) -> int
    decreases s.len() - i,
{
    if 0 <= i < s.len() && is_digit_char(s[i]) {
        digits_end(s, i + 1)
    } else {
        i
    }
}

/// The first index at or after `i` holding character `c`, if any.
pub open spec fn find_from(s: Seq<char>, i: int, c: char) -> Option<int>
    decreases s.len() - i,
{
    if !(0 <= i < s.len()) {
        Option::None
    } else if s[i] == c {
        Option::Some(i)
    } else {
        find_from(s, i + 1, c)
    }
}

/// The fixed keyword and type-name table: a scanned word is compared against
/// it in full; any other word is an identifier with that spelling.
pub open spec fn keyword_kind(w: Seq<char>) -> TokenKind {
    if w == "let"@ {
        TokenKind::Let
    } else if w == "fn"@ {
        TokenKind::Function
    } else if w == "end"@ {
        TokenKind::End
    } else if w == "string"@ {
        TokenKind::StringType
    } else if w == "bool"@ {
        TokenKind::BoolType
    } else if w == "int"@ {
        TokenKind::IntType
    } else if w == "char"@ {
        TokenKind::CharType
    } else if w == "if"@ {
        TokenKind::If
    } else if w == "else"@ {
        TokenKind::Else
    } else if w == "elif"@ {
        TokenKind::Elif
    } else if w == "and"@ {
        TokenKind::And
    } else if w == "or"@ {
        TokenKind::Or
    } else if w == "True"@ {
        TokenKind::True
    } else if w == "False"@ {
        TokenKind::False
    } else if w == "return"@ {
        TokenKind::Return
    } else {
        TokenKind::Identity(w)
    }
}

/// The token kind of a character that forms a one-character token by itself
/// (after the two-character lookahead cases have been ruled out).
pub open spec fn single_kind(c: char) -> TokenKind {
    if c == '+' {
        TokenKind::Plus
    } else if c == '>' {
        TokenKind::GreaterThan
    } else if c == '<' {
        TokenKind::LessThan
    } else if c == '(' {
        TokenKind::LParen
    } else if c == ')' {
        TokenKind::RParen
    } else if c == ']' {
        TokenKind::RBracket
    } else if c == '{' {
        TokenKind::LBrace
    } else if c == '}' {
        TokenKind::RBrace
    } else if c == ':' {
        TokenKind::Colon
    } else if c == ';' {
        TokenKind::SemiColon
    } else if c == ',' {
        TokenKind::Comma
    } else if c == '^' {
        TokenKind::Pin
    } else {
        TokenKind::Illegal
    }
}

/// A scanner state: cursor position, 1-based row, and the running column
/// count (the column of the last consumed character).
pub ghost struct LexState {
    pub pos: int,
    pub row: int,
    pub col: int,
}

/// One step of the scanner: the token produced and the state after it.
pub ghost struct LexStep {
    pub token: TokenModel,
    pub next: LexState,
}

/// A scanner state that is consistent with the input: the cursor is inside
/// the input, rows start at 1, and the position accounts for every consumed
/// character, so row and column stay bounded by the cursor.
pub open spec fn wf_state(s: Seq<char>, st: LexState) -> bool {
    &&& 0 <= st.pos <= s.len()
    &&& 1 <= st.row
    &&& 0 <= st.col
    &&& st.row - 1 + st.col <= st.pos
}

/// The state in which scanning of an input begins.
pub open spec fn start_state() -> LexState {
    LexState { pos: 0, row: 1, col: 0 }
}

/// A step that produced a one-character token and consumed nothing further.
pub open spec fn single_step(k: TokenKind, p: int, row: int, col: int) -> LexStep {
    LexStep {
        token: TokenModel { kind: k, row, col },
        next: LexState { pos: p, row, col },
    }
}

/// A step for a one-character lookahead pair: if the character at `p` is
/// `second`, both characters form one token; otherwise the first character
/// stands alone.
pub open spec fn pair_step(
    s: Seq<char>,
    p: int,
    row: int,
    col: int,
    second: char,
    both: TokenKind,
    alone: TokenKind,
) -> LexStep {
    if p < s.len() && s[p] == second {
        LexStep {
            token: TokenModel { kind: both, row, col },
            next: LexState { pos: p + 1, row, col: col + 1 },
        }
    } else {
        single_step(alone, p, row, col)
    }
}

/// One step of the scanner: skip blanks, consume one lexeme, and report the
/// token at the position of its first character. At the end of the input the
/// token is `EOF` and the state does not change.
pub open spec fn lex_next(s: Seq<char>, st: LexState) -> LexStep
    decreases s.len() - st.pos,
{
    if !(0 <= st.pos < s.len()) {
        LexStep { token: TokenModel { kind: TokenKind::EOF, row: st.row, col: st.col }, next: st }
    } else {
        let c = s[st.pos];
        let p = st.pos + 1;
        let row = st.row;
        let col = st.col + 1;
        if c == ' ' || c == '\t' {
            lex_next(s, LexState { pos: p, row, col })
        } else if c == '\n' {
            LexStep {
                token: TokenModel { kind: TokenKind::NewLine, row, col },
                next: LexState { pos: p, row: row + 1, col: 0 },
            }
        } else if is_word_start(c) {
            let end = word_end(s, p);
            LexStep {
                token: TokenModel { kind: keyword_kind(s.subrange(st.pos, end)), row, col },
                next: LexState { pos: end, row, col: col + (end - p) },
            }
        } else if is_digit_char(c) {
            let end = digits_end(s, p);
            LexStep {
                token: TokenModel {
                    kind: TokenKind::Int(clip_max(digits_val(s.subrange(st.pos, end)))),
                    row,
                    col,
                },
                next: LexState { pos: end, row, col: col + (end - p) },
            }
        } else if c == '-' {
            if p < s.len() && s[p] == '>' {
                LexStep {
                    token: TokenModel { kind: TokenKind::Output, row, col },
                    next: LexState { pos: p + 1, row, col: col + 1 },
                }
            } else if p < s.len() && is_digit_char(s[p]) {
                let end = digits_end(s, p);
                LexStep {
                    token: TokenModel {
                        kind: TokenKind::Int(clip_min(-digits_val(s.subrange(p, end)))),
                        row,
                        col,
                    },
                    next: LexState { pos: end, row, col: col + (end - p) },
                }
            } else {
                single_step(TokenKind::Minus, p, row, col)
            }
        } else if c == '=' {
            pair_step(s, p, row, col, '=', TokenKind::Equal, TokenKind::Assign)
        } else if c == '!' {
            pair_step(s, p, row, col, '=', TokenKind::NotEqual, TokenKind::Not)
        } else if c == '/' {
            pair_step(s, p, row, col, ']', TokenKind::RArray, TokenKind::Divide)
        } else if c == '[' {
            pair_step(s, p, row, col, '/', TokenKind::LArray, TokenKind::LBracket)
        } else if c == '"' {
            match find_from(s, p, '"') {
                Option::Some(q) => LexStep {
                    token: TokenModel { kind: TokenKind::Str(s.subrange(p, q)), row, col },
                    next: LexState { pos: q + 1, row, col: col + (q + 1 - p) },
                },
                Option::None => LexStep {
                    token: TokenModel { kind: TokenKind::Illegal, row, col },
                    next: LexState { pos: s.len() as int, row, col: col + (s.len() - p) },
                },
            }
        } else if c == '\'' {
            match find_from(s, p, '\'') {
                Option::Some(q) => {
                    if q == p + 1 {
                        LexStep {
                            token: TokenModel { kind: TokenKind::Character(s[p]), row, col },
                            next: LexState { pos: q + 1, row, col: col + (q + 1 - p) },
                        }
                    } else if q == p && q + 1 < s.len() && s[q + 1] == '\'' {
                        LexStep {
                            token: TokenModel { kind: TokenKind::Character('\''), row, col },
                            next: LexState { pos: q + 2, row, col: col + (q + 2 - p) },
                        }
                    } else {
                        LexStep {
                            token: TokenModel { kind: TokenKind::Illegal, row, col },
                            next: LexState { pos: q + 1, row, col: col + (q + 1 - p) },
                        }
                    }
                },
                Option::None => LexStep {
                    token: TokenModel { kind: TokenKind::Illegal, row, col },
                    next: LexState { pos: s.len() as int, row, col: col + (s.len() - p) },
                },
            }
        } else if c == '#' {
            match find_from(s, p, '\n') {
                Option::Some(q) => LexStep {
                    token: TokenModel { kind: TokenKind::NewLine, row, col: col + (q - p) + 1 },
                    next: LexState { pos: q + 1, row: row + 1, col: 0 },
                },
                Option::None => LexStep {
                    token: TokenModel { kind: TokenKind::EOF, row, col: col + (s.len() - p) },
                    next: LexState { pos: s.len() as int, row, col: col + (s.len() - p) },
                },
            }
        } else {
            single_step(single_kind(c), p, row, col)
        }
    }
}

/// The tokens produced from a state, in order, up to and including the first
/// `EOF` token.
pub open spec fn token_trace(s: Seq<char>, st: LexState) -> Seq<TokenModel>
    decreases s.len() - st.pos,
{
    let step = lex_next(s, st);
    if step.token.kind is EOF {
        seq![step.token]
    } else if !(st.pos < step.next.pos && step.next.pos <= s.len()) {
        seq![step.token]
    } else {
        seq![step.token] + token_trace(s, step.next)
    }
}

/// Basic facts about a maximal identifier run.
pub proof fn lemma_word_end(s: Seq<char>, i: int)
    requires
        0 <= i <= s.len(),
    ensures
        i <= word_end(s, i) <= s.len(),
        forall|j: int| i <= j < word_end(s, i) ==> is_word_char(s[j]),
        word_end(s, i) < s.len() ==> !is_word_char(s[word_end(s, i)]),
    decreases s.len() - i,
{
    if i < s.len() && is_word_char(s[i]) {
        lemma_word_end(s, i + 1);
    }
}

/// Basic facts about a maximal digit run.
pub proof fn lemma_digits_end(s: Seq<char>, i: int)
    requires
        0 <= i <= s.len(),
    ensures
        i <= digits_end(s, i) <= s.len(),
        forall|j: int| i <= j < digits_end(s, i) ==> is_digit_char(s[j]),
        digits_end(s, i) < s.len() ==> !is_digit_char(s[digits_end(s, i)]),
    decreases s.len() - i,
{
    if i < s.len() && is_digit_char(s[i]) {
        lemma_digits_end(s, i + 1);
    }
}

/// Basic facts about the first occurrence of a character.
pub proof fn lemma_find_from(s: Seq<char>, i: int, c: char)
    requires
        0 <= i <= s.len(),
    ensures
        match find_from(s, i, c) {
            Option::Some(q) => i <= q < s.len() && s[q] == c && (forall|j: int|
                i <= j < q ==> s[j] != c),
            Option::None => forall|j: int| i <= j < s.len() ==> s[j] != c,
        },
    decreases s.len() - i,
{
    if i < s.len() && s[i] != c {
        lemma_find_from(s, i + 1, c);
    }
}

/// The value of a run of digits is never negative.
pub proof fn lemma_digits_val_nonneg(s: Seq<char>)
    requires
        forall|j: int| 0 <= j < s.len() ==> is_digit_char(s[j]),
    ensures
        digits_val(s) >= 0,
    decreases s.len(),
{
    if s.len() > 0 {
        lemma_digits_val_nonneg(s.drop_last());
    }
}

/// One scanner step preserves consistency with the input, never moves the
/// cursor backwards, advances it whenever a token other than `EOF` comes
/// out, and reports the row it started on. An `EOF` token leaves the cursor
/// at the end of the input, at the very position and column the token
/// reports, so that scanning again changes nothing.
pub proof fn lemma_lex_next(s: Seq<char>, st: LexState)
    requires
        wf_state(s, st),
    ensures
        ({
            let step = lex_next(s, st);
            &&& wf_state(s, step.next)
            &&& st.pos <= step.next.pos <= s.len()
            &&& step.token.row == st.row
            &&& st.row <= step.next.row
            &&& (!(step.token.kind is EOF) ==> st.pos < step.next.pos)
            &&& (step.token.kind is EOF ==> step.next.pos == s.len() && step.next.row
                == step.token.row && step.next.col == step.token.col)
        }),
    decreases s.len() - st.pos,
{
    if 0 <= st.pos < s.len() {
        let c = s[st.pos];
        let p = st.pos + 1;
        if c == ' ' || c == '\t' {
            lemma_lex_next(s, LexState { pos: p, row: st.row, col: st.col + 1 });
        } else if is_word_start(c) {
            lemma_word_end(s, p);
        } else if is_digit_char(c) {
            lemma_digits_end(s, p);
        } else if c == '-' {
            if p < s.len() && is_digit_char(s[p]) && s[p] != '>' {
                lemma_digits_end(s, p);
            }
        } else if c == '"' {
            lemma_find_from(s, p, '"');
        } else if c == '\'' {
            lemma_find_from(s, p, '\'');
        } else if c == '#' {
            lemma_find_from(s, p, '\n');
        }
    }
}

} // verus!
