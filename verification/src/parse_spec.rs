//! Mathematical model of the parser: a spec-level recursive-descent parse
//! over scanner states, including the exact diagnostic for every failure.

use vstd::prelude::*;

use crate::ast::{ExprModel, LetModel, StmtModel};
use crate::decimal::dec_digits;
use crate::lex_spec::{lemma_lex_next, lex_next, wf_state, LexState};
use crate::token::{kind_text, TokenKind, TokenModel};

verus! {

/// A parser state: the scanner state of the underlying tokenizer together
/// with the two-token lookahead buffer.
pub ghost struct ParseState {
    pub st: LexState,
    pub cur: TokenModel,
    pub peek: TokenModel,
}

/// The placeholder left in the lookahead buffer when a buffered token is
/// moved into the tree. It is always overwritten before it can be observed.
pub open spec fn tmp_token() -> TokenModel {
    TokenModel { kind: TokenKind::TMP, row: 0, col: 0 }
}

/// The parser state after the buffered current token was moved into the
/// tree: the placeholder stands in its place.
pub open spec fn take_state(p: ParseState) -> ParseState {
    ParseState { st: p.st, cur: tmp_token(), peek: p.peek }
}

/// Advancing the lookahead in lock-step: the peeked token becomes current
/// and the scanner produces a fresh peek token.
pub open spec fn p_adv(s: Seq<char>, p: ParseState) -> ParseState {
    let step = lex_next(s, p.st);
    ParseState { st: step.next, cur: p.peek, peek: step.token }
}

/// The parser state right after construction: the first two tokens fill the
/// lookahead buffer.
pub open spec fn p_init(s: Seq<char>, st: LexState) -> ParseState {
    let step1 = lex_next(s, st);
    let step2 = lex_next(s, step1.next);
    ParseState { st: step2.next, cur: step1.token, peek: step2.token }
}

/// The diagnostic for an unexpected token: what was expected, then the
/// offending token's textual form, row, and column.
pub open spec fn unexpected_msg(what: Seq<char>, t: TokenModel) -> Seq<char> {
    "Unexpected token expected "@ + what + ", got "@ + kind_text(t.kind) + " "@ + dec_digits(
        t.row as nat,
    ) + "."@ + dec_digits(t.col as nat)
}

/// The diagnostic for an `end` that is not followed by a line break.
pub open spec fn newline_msg(t: TokenModel) -> Seq<char> {
    "Expected new line, got "@ + kind_text(t.kind) + " "@ + dec_digits(t.row as nat) + "."@
        + dec_digits(t.col as nat)
}

/// A token kind that can stand alone as an expression: a literal or an
/// identifier.
pub open spec fn is_value_kind(k: TokenKind) -> bool {
    match k {
        TokenKind::Str(_) => true,
        TokenKind::Int(_) => true,
        TokenKind::Character(_) => true,
        TokenKind::False => true,
        TokenKind::Identity(_) => true,
        TokenKind::True => true,
        _ => false,
    }
}

/// A type-name token kind, required after the colon of a `let`.
pub open spec fn is_type_kind(k: TokenKind) -> bool {
    match k {
        TokenKind::StringType => true,
        TokenKind::IntType => true,
        TokenKind::CharType => true,
        TokenKind::BoolType => true,
        _ => false,
    }
}

/// Parsing one expression: the current token wrapped as a literal value, or
/// a diagnostic if it cannot start an expression.
pub open spec fn sp_expression(p: ParseState) -> Result<(ExprModel, ParseState), (Seq<char>, ParseState)> {
    if is_value_kind(p.cur.kind) {
        Ok((ExprModel::Value(p.cur), take_state(p)))
    } else {
        Err((unexpected_msg("value"@, p.cur), p))
    }
}

/// Parsing a type name: the current token, or a diagnostic.
pub open spec fn sp_type(p: ParseState) -> Result<(TokenModel, ParseState), (Seq<char>, ParseState)> {
    if is_type_kind(p.cur.kind) {
        Ok((p.cur, take_state(p)))
    } else {
        Err((unexpected_msg("type"@, p.cur), p))
    }
}

/// Parsing an identifier: the current token, or a diagnostic.
pub open spec fn sp_identifier(p: ParseState) -> Result<(TokenModel, ParseState), (Seq<char>, ParseState)> {
    if p.cur.kind is Identity {
        Ok((p.cur, take_state(p)))
    } else {
        Err((unexpected_msg("Identity"@, p.cur), p))
    }
}

/// Parsing a `let` statement: identifier, colon, type name, assignment
/// sign, and initializer expression, in that order, each with its own
/// diagnostic.
pub open spec fn sp_let(s: Seq<char>, p: ParseState) -> Result<(StmtModel, ParseState), (Seq<char>, ParseState)> {
    let p1 = p_adv(s, p);
    match sp_identifier(p1) {
        Err(m) => Err(m),
        Ok((name, p2)) => {
            let p3 = p_adv(s, p2);
            if p3.cur.kind is Colon {
                let p4 = p_adv(s, p3);
                match sp_type(p4) {
                    Err(m) => Err(m),
                    Ok((ty, p5)) => {
                        let p6 = p_adv(s, p5);
                        if p6.cur.kind is Assign {
                            let p7 = p_adv(s, p6);
                            match sp_expression(p7) {
                                Err(m) => Err(m),
                                Ok((e, p8)) => {
                                    let p9 = p_adv(s, p8);
                                    Ok(
                                        (
                                            StmtModel::Let(
                                                (LetModel {
                                                    name,
                                                    var_type: ty,
                                                    expression: e,
                                                }),
                                            ),
                                            p9,
                                        ),
                                    )
                                },
                            }
                        } else {
                            Err((unexpected_msg("'='"@, p6.cur), p6))
                        }
                    },
                }
            } else {
                Err((unexpected_msg("':'"@, p3.cur), p3))
            }
        },
    }
}

/// Parsing a `return` statement: the value expression after the keyword.
pub open spec fn sp_return(s: Seq<char>, p: ParseState) -> Result<
    (StmtModel, ParseState),
    (Seq<char>, ParseState),
> {
    let p1 = p_adv(s, p);
    match sp_expression(p1) {
        Err(m) => Err(m),
        Ok((e, p2)) => Ok((StmtModel::Return(e), p2)),
    }
}

/// Parsing an `end` statement: the next token must be a line break.
pub open spec fn sp_end(s: Seq<char>, p: ParseState) -> Result<
    (StmtModel, ParseState),
    (Seq<char>, ParseState),
> {
    if p.peek.kind is NewLine {
        Ok((StmtModel::End, p_adv(s, p)))
    } else {
        Err((newline_msg(p.peek), p))
    }
}

/// Parsing a prefix-expression statement: the operator token, then its
/// operand expression.
pub open spec fn sp_not(s: Seq<char>, p: ParseState) -> Result<
    (StmtModel, ParseState),
    (Seq<char>, ParseState),
> {
    let op = p.cur;
    let p1 = p_adv(s, take_state(p));
    match sp_expression(p1) {
        Err(m) => Err(m),
        Ok((e, p2)) => Ok(
            (StmtModel::Expr((ExprModel::Prefix { operator: op, right: Box::new(e) })), p2),
        ),
    }
}

/// Statement dispatch on the current token's kind. Any token that cannot
/// start a statement is a failure.
pub open spec fn sp_statement(s: Seq<char>, p: ParseState) -> Result<
    (StmtModel, ParseState),
    (Seq<char>, ParseState),
> {
    if p.cur.kind is Let {
        sp_let(s, p)
    } else if p.cur.kind is Return {
        sp_return(s, p)
    } else if p.cur.kind is End {
        sp_end(s, p)
    } else if p.cur.kind is Not || p.cur.kind is Minus {
        sp_not(s, p)
    } else {
        Err((unexpected_msg("statement"@, p.cur), p))
    }
}

/// 1 for a token that still makes progress, 0 for `EOF`.
pub open spec fn flag(t: TokenModel) -> int {
    if t.kind is EOF {
        0
    } else {
        1
    }
}

/// Termination measure of a parse: unread input weighs double so that
/// refilling the lookahead buffer strictly shrinks it.
pub open spec fn p_measure(s: Seq<char>, p: ParseState) -> int {
    let rem = if p.st.pos <= s.len() {
        s.len() - p.st.pos
    } else {
        0
    };
    2 * rem + flag(p.cur) + flag(p.peek)
}

/// Advancing the lookahead never grows the measure, and shrinks it strictly
/// while the current token is not `EOF`.
pub proof fn lemma_p_adv_measure(s: Seq<char>, p: ParseState)
    requires
        wf_state(s, p.st),
    ensures
        wf_state(s, p_adv(s, p).st),
        p_measure(s, p_adv(s, p)) <= p_measure(s, p),
        !(p.cur.kind is EOF) ==> p_measure(s, p_adv(s, p)) < p_measure(s, p),
{
    lemma_lex_next(s, p.st);
}

/// A successfully parsed statement strictly shrinks the measure (the
/// current token of a parseable statement is never `EOF`).
pub proof fn lemma_sp_statement_measure(s: Seq<char>, p: ParseState)
    requires
        wf_state(s, p.st),
    ensures
        match sp_statement(s, p) {
            Ok(pair) => wf_state(s, pair.1.st) && p_measure(s, pair.1) <= p_measure(s, p) && (!(
            p.cur.kind is EOF) ==> p_measure(s, pair.1) < p_measure(s, p)),
            Err(_) => true,
        },
{
    if p.cur.kind is Let {
        let p1 = p_adv(s, p);
        lemma_p_adv_measure(s, p);
        if sp_identifier(p1) is Ok {
            let p2 = take_state(p1);
            let p3 = p_adv(s, p2);
            lemma_p_adv_measure(s, p2);
            if p3.cur.kind is Colon {
                let p4 = p_adv(s, p3);
                lemma_p_adv_measure(s, p3);
                if sp_type(p4) is Ok {
                    let p5 = take_state(p4);
                    let p6 = p_adv(s, p5);
                    lemma_p_adv_measure(s, p5);
                    if p6.cur.kind is Assign {
                        let p7 = p_adv(s, p6);
                        lemma_p_adv_measure(s, p6);
                        if sp_expression(p7) is Ok {
                            let p8 = take_state(p7);
                            lemma_p_adv_measure(s, p8);
                        }
                    }
                }
            }
        }
    } else if p.cur.kind is Return {
        lemma_p_adv_measure(s, p);
    } else if p.cur.kind is End {
        lemma_p_adv_measure(s, p);
    } else if p.cur.kind is Not || p.cur.kind is Minus {
        lemma_p_adv_measure(s, take_state(p));
    }
}

/// Parsing a whole program: statements in source order until the current
/// token is `EOF`; the first failure aborts the parse with its diagnostic.
pub open spec fn sp_program(s: Seq<char>, p: ParseState) -> Result<Seq<StmtModel>, Seq<char>>
    decreases p_measure(s, p),
    when wf_state(s, p.st)
{
    if p.cur.kind is EOF {
        Ok(Seq::empty())
    } else {
        match sp_statement(s, p) {
            Err(e) => Err(e.0),
            Ok((stmt, p2)) => {
                proof {
                    lemma_sp_statement_measure(s, p);
                    lemma_p_adv_measure(s, p2);
                }
                let p3 = p_adv(s, p2);
                match sp_program(s, p3) {
                    Err(m) => Err(m),
                    Ok(rest) => Ok(seq![stmt] + rest),
                }
            },
        }
    }
}

} // verus!
