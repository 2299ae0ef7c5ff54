//! The parser: recursive descent over the token stream with a two-token
//! lookahead buffer, verified against the spec-level parse in
//! [`crate::parse_spec`].

use vstd::prelude::*;

use crate::ast::{prog_model, Ast, Expression, Statement, StmtModel};
use crate::decimal::u32_decimal;
use crate::lex_spec::wf_state;
use crate::lexer::Lexer;
use crate::parse_spec::{
    lemma_p_adv_measure, lemma_sp_statement_measure, newline_msg, p_adv, p_init, p_measure,
    sp_end, sp_expression, sp_identifier, sp_let, sp_not, sp_program, sp_return, sp_statement,
    sp_type, take_state, unexpected_msg, ParseState,
};
use crate::token::{Token, TokenType};

verus! {

/// Builds the diagnostic for an unexpected token.
fn unexpected_message(what: &str, t: &Token) -> (s: String)
    ensures
        s@ == unexpected_msg(what@, t@),
{
    let mut s = String::from_str("Unexpected token expected ");
    s.append(what);
    s.append(", got ");
    let text = t.text();
    s.append(text.as_str());
    s.append(" ");
    let row = u32_decimal(t.row);
    s.append(row.as_str());
    s.append(".");
    let col = u32_decimal(t.col);
    s.append(col.as_str());
    proof {
        assert(s@ =~= unexpected_msg(what@, t@));
    }
    s
}

/// Builds the diagnostic for an `end` that is not followed by a line break.
fn newline_message(t: &Token) -> (s: String)
    ensures
        s@ == newline_msg(t@),
{
    let mut s = String::from_str("Expected new line, got ");
    let text = t.text();
    s.append(text.as_str());
    s.append(" ");
    let row = u32_decimal(t.row);
    s.append(row.as_str());
    s.append(".");
    let col = u32_decimal(t.col);
    s.append(col.as_str());
    proof {
        assert(s@ =~= newline_msg(t@));
    }
    s
}

/// A recursive-descent parser over a tokenizer, holding the current and the
/// peeked token.
pub struct Parser<'a> {
    lexer: Lexer<'a>,
    current_token: Token,
    peek_token: Token,
}

impl<'a> Parser<'a> {
    /// The character sequence the underlying tokenizer scans.
    pub closed spec fn src(&self) -> Seq<char> {
        self.lexer.src()
    }

    /// The parser state: scanner state plus lookahead buffer.
    pub closed spec fn model(&self) -> ParseState {
        ParseState { st: self.lexer.state(), cur: self.current_token@, peek: self.peek_token@ }
    }

    /// The underlying tokenizer is consistent with its input.
    pub closed spec fn wf(&self) -> bool {
        self.lexer.wf()
    }

    /// A parser over `lexer`, with the first two tokens pulled into the
    /// lookahead buffer.
    pub fn new(mut lexer: Lexer<'a>) -> (p: Parser<'a>)
        requires
            lexer.wf(),
        ensures
            p.wf(),
            p.src() == lexer.src(),
            p.model() == p_init(lexer.src(), lexer.state()),
    {
        let current_token = lexer.next();
        let peek_token = lexer.next();
        Parser { lexer, current_token, peek_token }
    }

    /// Shifts the peeked token into current and pulls a fresh peek token.
    fn advance_tokens(&mut self)
        requires
            old(self).wf(),
        ensures
            final(self).wf(),
            final(self).src() == old(self).src(),
            final(self).model() == p_adv(old(self).src(), old(self).model()),
    {
        core::mem::swap(&mut self.peek_token, &mut self.current_token);
        self.peek_token = self.lexer.next();
    }

    /// Moves the current token out of the buffer, leaving the placeholder.
    fn take_current(&mut self) -> (t: Token)
        requires
            old(self).wf(),
        ensures
            final(self).wf(),
            final(self).src() == old(self).src(),
            t@ == old(self).model().cur,
            final(self).model() == take_state(old(self).model()),
    {
        let mut t = Token::new(TokenType::TMP, 0, 0);
        core::mem::swap(&mut t, &mut self.current_token);
        t
    }

    /// Drains the token stream and returns the parsed program, or the
    /// diagnostic of the first failure (no partial result, no recovery).
    pub fn parse_program(&mut self) -> (r: Result<Ast, String>)
        requires
            old(self).wf(),
        ensures
            final(self).wf(),
            (match sp_program(old(self).src(), old(self).model()) {
                Ok(ms) => r is Ok && prog_model(r->Ok_0@) == ms,
                Err(m) => r is Err && r->Err_0@ == m,
            }),
    {
        let ghost s = self.src();
        let ghost p0 = self.model();
        let mut ast: Ast = Vec::new();
        proof {
            self.lexer.wf_state_facts();
            if sp_program(s, p0) is Ok {
                let ms = sp_program(s, p0)->Ok_0;
                assert(prog_model(ast@) + ms =~= ms);
            }
        }
        loop
            invariant
                s == old(self).src(),
                p0 == old(self).model(),
                self.wf(),
                self.src() == s,
                wf_state(s, self.model().st),
                (match sp_program(s, self.model()) {
                    Ok(rest) => sp_program(s, p0) == Result::<Seq<StmtModel>, Seq<char>>::Ok(
                        prog_model(ast@) + rest,
                    ),
                    Err(m) => sp_program(s, p0) == Result::<Seq<StmtModel>, Seq<char>>::Err(m),
                }),
            decreases p_measure(s, self.model()),
        {
            match self.current_token.token_type {
                TokenType::EOF => {
                    proof {
                        assert(prog_model(ast@) + Seq::<StmtModel>::empty() =~= prog_model(ast@));
                    }
                    return Ok(ast);
                },
                _ => {},
            }
            let ghost before = self.model();
            let stmt = match self.parse_statement() {
                Ok(stmt) => stmt,
                Err(e) => {
                    return Err(e);
                },
            };
            let ghost prev = ast@;
            ast.push(stmt);
            self.advance_tokens();
            proof {
                self.lexer.wf_state_facts();
                lemma_sp_statement_measure(s, before);
                let pair = sp_statement(s, before)->Ok_0;
                lemma_p_adv_measure(s, pair.1);
                assert(prog_model(ast@) =~= prog_model(prev).push(stmt@));
                assert(self.model() == p_adv(s, pair.1));
                if sp_program(s, self.model()) is Ok {
                    let rest = sp_program(s, self.model())->Ok_0;
                    assert(sp_program(s, before) == Result::<Seq<StmtModel>, Seq<char>>::Ok(
                        seq![stmt@] + rest,
                    ));
                    assert(prog_model(prev) + (seq![stmt@] + rest) =~= prog_model(ast@) + rest);
                } else {
                    let m = sp_program(s, self.model())->Err_0;
                    assert(sp_program(s, before) == Result::<Seq<StmtModel>, Seq<char>>::Err(m));
                }
            }
        }
    }

    /// Dispatches on the current token's kind to the statement form it
    /// starts, and fails on any token that starts none.
    fn parse_statement(&mut self) -> (r: Result<Statement, String>)
        requires
            old(self).wf(),
        ensures
            final(self).wf(),
            final(self).src() == old(self).src(),
            (match sp_statement(old(self).src(), old(self).model()) {
                Ok(pair) => r is Ok && r->Ok_0@ == pair.0 && final(self).model() == pair.1,
                Err(e) => r is Err && r->Err_0@ == e.0 && final(self).model() == e.1,
            }),
    {
        match self.current_token.token_type {
            TokenType::Let => self.parse_let(),
            TokenType::Return => self.parse_return(),
            TokenType::End => self.parse_end(),
            TokenType::Not => self.parse_not(),
            TokenType::Minus => self.parse_not(),
            _ => Err(unexpected_message("statement", &self.current_token)),
        }
    }

    /// Parses a prefix-expression statement: the operator token, then its
    /// operand expression.
    fn parse_not(&mut self) -> (r: Result<Statement, String>)
        requires
            old(self).wf(),
            old(self).model().cur.kind is Not || old(self).model().cur.kind is Minus,
        ensures
            final(self).wf(),
            final(self).src() == old(self).src(),
            (match sp_not(old(self).src(), old(self).model()) {
                Ok(pair) => r is Ok && r->Ok_0@ == pair.0 && final(self).model() == pair.1,
                Err(e) => r is Err && r->Err_0@ == e.0 && final(self).model() == e.1,
            }),
    {
        let operator = self.take_current();
        self.advance_tokens();
        let expression = match self.parse_expression() {
            Ok(e) => e,
            Err(e) => {
                return Err(e);
            },
        };
        Ok(Statement::new_prefix_statement(operator, expression))
    }

    /// Parses a `let` statement: identifier, colon, type name, assignment
    /// sign, and initializer expression, in that order.
    fn parse_let(&mut self) -> (r: Result<Statement, String>)
        requires
            old(self).wf(),
        ensures
            final(self).wf(),
            final(self).src() == old(self).src(),
            (match sp_let(old(self).src(), old(self).model()) {
                Ok(pair) => r is Ok && r->Ok_0@ == pair.0 && final(self).model() == pair.1,
                Err(e) => r is Err && r->Err_0@ == e.0 && final(self).model() == e.1,
            }),
    {
        self.advance_tokens();
        let identifier = match self.parse_identifier() {
            Ok(t) => t,
            Err(e) => {
                return Err(e);
            },
        };
        self.advance_tokens();
        match self.current_token.token_type {
            TokenType::Colon => self.advance_tokens(),
            _ => {
                return Err(unexpected_message("':'", &self.current_token));
            },
        }
        let let_type = match self.parse_type() {
            Ok(t) => t,
            Err(e) => {
                return Err(e);
            },
        };
        self.advance_tokens();
        match self.current_token.token_type {
            TokenType::Assign => self.advance_tokens(),
            _ => {
                return Err(unexpected_message("'='", &self.current_token));
            },
        }
        let expr = match self.parse_expression() {
            Ok(e) => e,
            Err(e) => {
                return Err(e);
            },
        };
        self.advance_tokens();
        Ok(Statement::new_let_statement(identifier, let_type, expr))
    }

    /// Parses a `return` statement: the value expression after the keyword.
    fn parse_return(&mut self) -> (r: Result<Statement, String>)
        requires
            old(self).wf(),
        ensures
            final(self).wf(),
            final(self).src() == old(self).src(),
            (match sp_return(old(self).src(), old(self).model()) {
                Ok(pair) => r is Ok && r->Ok_0@ == pair.0 && final(self).model() == pair.1,
                Err(e) => r is Err && r->Err_0@ == e.0 && final(self).model() == e.1,
            }),
    {
        self.advance_tokens();
        match self.parse_expression() {
            Ok(expr) => Ok(Statement::Return(expr)),
            Err(e) => Err(e),
        }
    }

    /// Parses an `end` statement: the next token must be a line break.
    fn parse_end(&mut self) -> (r: Result<Statement, String>)
        requires
            old(self).wf(),
        ensures
            final(self).wf(),
            final(self).src() == old(self).src(),
            (match sp_end(old(self).src(), old(self).model()) {
                Ok(pair) => r is Ok && r->Ok_0@ == pair.0 && final(self).model() == pair.1,
                Err(e) => r is Err && r->Err_0@ == e.0 && final(self).model() == e.1,
            }),
    {
        match self.peek_token.token_type {
            TokenType::NewLine => {
                self.advance_tokens();
                Ok(Statement::End)
            },
            _ => Err(newline_message(&self.peek_token)),
        }
    }

    /// Parses one expression: a literal or identifier token wrapped as a
    /// value (the full extent of expression parsing in this core).
    fn parse_expression(&mut self) -> (r: Result<Expression, String>)
        requires
            old(self).wf(),
        ensures
            final(self).wf(),
            final(self).src() == old(self).src(),
            (match sp_expression(old(self).model()) {
                Ok(pair) => r is Ok && r->Ok_0@ == pair.0 && final(self).model() == pair.1,
                Err(e) => r is Err && r->Err_0@ == e.0 && final(self).model() == e.1,
            }),
    {
        match self.current_token.token_type {
            TokenType::Str(_) => Ok(Expression::Value(self.take_current())),
            TokenType::Int(_) => Ok(Expression::Value(self.take_current())),
            TokenType::Character(_) => Ok(Expression::Value(self.take_current())),
            TokenType::False => Ok(Expression::Value(self.take_current())),
            TokenType::Identity(_) => Ok(Expression::Value(self.take_current())),
            TokenType::True => Ok(Expression::Value(self.take_current())),
            _ => Err(unexpected_message("value", &self.current_token)),
        }
    }

    /// Requires the current token to be a type name and takes it.
    fn parse_type(&mut self) -> (r: Result<Token, String>)
        requires
            old(self).wf(),
        ensures
            final(self).wf(),
            final(self).src() == old(self).src(),
            (match sp_type(old(self).model()) {
                Ok(pair) => r is Ok && r->Ok_0@ == pair.0 && final(self).model() == pair.1,
                Err(e) => r is Err && r->Err_0@ == e.0 && final(self).model() == e.1,
            }),
    {
        match self.current_token.token_type {
            TokenType::StringType => Ok(self.take_current()),
            TokenType::IntType => Ok(self.take_current()),
            TokenType::CharType => Ok(self.take_current()),
            TokenType::BoolType => Ok(self.take_current()),
            _ => Err(unexpected_message("type", &self.current_token)),
        }
    }

    /// Requires the current token to be an identifier and takes it.
    fn parse_identifier(&mut self) -> (r: Result<Token, String>)
        requires
            old(self).wf(),
        ensures
            final(self).wf(),
            final(self).src() == old(self).src(),
            (match sp_identifier(old(self).model()) {
                Ok(pair) => r is Ok && r->Ok_0@ == pair.0 && final(self).model() == pair.1,
                Err(e) => r is Err && r->Err_0@ == e.0 && final(self).model() == e.1,
            }),
    {
        match self.current_token.token_type {
            TokenType::Identity(_) => Ok(self.take_current()),
            _ => Err(unexpected_message("Identity", &self.current_token)),
        }
    }
}

} // verus!
