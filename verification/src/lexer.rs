//! The tokenizer: a stateful, pull-based scanner producing one token per
//! call, verified against the spec-level scanner in [`crate::lex_spec`].

use vstd::prelude::*;

use crate::lex_spec::{
    clip_max, clip_min, digits_end, digits_val, find_from, is_alpha, is_digit_char, is_word_char,
    keyword_kind, lemma_digits_end, lemma_digits_val_nonneg, lemma_find_from, lemma_lex_next,
    lemma_word_end, lex_next, pair_step, single_kind, start_state, wf_state, word_end, LexState,
    LexStep,
};
use crate::token::{Token, TokenKind, TokenModel, TokenType};

verus! {

/// A stateful tokenizer over an in-memory source text. It tracks the cursor
/// position, the 1-based row, and the running column count.
pub struct Lexer<'a> {
    input: &'a str,
    len: usize,
    pos: usize,
    row: u32,
    col: u32,
}

impl<'a> Lexer<'a> {
    /// The character sequence being scanned.
    pub closed spec fn src(&self) -> Seq<char> {
        self.input@
    }

    /// The scanner state this tokenizer is in.
    pub closed spec fn state(&self) -> LexState {
        LexState { pos: self.pos as int, row: self.row as int, col: self.col as int }
    }

    /// The cursor is consistent with the input and the input is short enough
    /// that every row and column fits in its machine type.
    pub closed spec fn wf(&self) -> bool {
        &&& wf_state(self.src(), self.state())
        &&& self.len == self.src().len()
        &&& self.src().len() < u32::MAX as int
    }

    /// A consistent tokenizer is in a scanner state consistent with its
    /// input.
    pub proof fn wf_state_facts(&self)
        requires
            self.wf(),
        ensures
            wf_state(self.src(), self.state()),
    {
    }

    /// A fresh tokenizer at the start of `input`: row 1, column count 0.
    pub fn new(input: &'a str) -> (l: Lexer<'a>)
        requires
            input@.len() < u32::MAX as nat,
        ensures
            l.wf(),
            l.src() == input@,
            l.state() == start_state(),
    {
        let len = input.unicode_len();
        Lexer { input, len, pos: 0, row: 1, col: 0 }
    }

    /// An identifier continuation character: a letter, `_`, or `?`.
    fn is_letter(c: char) -> (b: bool)
        ensures
            b == is_word_char(c),
    {
        let u = c as u32;
        (97 <= u && u <= 122) || (65 <= u && u <= 90) || c == '_' || c == '?'
    }

    /// An ASCII letter.
    fn is_alpha_char(c: char) -> (b: bool)
        ensures
            b == is_alpha(c),
    {
        let u = c as u32;
        (97 <= u && u <= 122) || (65 <= u && u <= 90)
    }

    /// An ASCII decimal digit.
    fn is_digit(c: char) -> (b: bool)
        ensures
            b == is_digit_char(c),
    {
        let u = c as u32;
        48 <= u && u <= 57
    }

    /// Scans past the remainder of an identifier: returns the first index at
    /// or after `from` that does not hold an identifier character.
    fn get_rest_of_word(&self, from: usize) -> (end: usize)
        requires
            self.wf(),
            from <= self.src().len(),
        ensures
            end == word_end(self.src(), from as int),
            from <= end <= self.src().len(),
    {
        let mut i = from;
        while i < self.len && Self::is_letter(self.input.get_char(i))
            invariant
                self.wf(),
                from <= i <= self.src().len(),
                word_end(self.src(), from as int) == word_end(self.src(), i as int),
            decreases self.src().len() - i,
        {
            i = i + 1;
        }
        i
    }

    /// Scans past the remainder of an integer literal: returns the first
    /// index at or after `from` that does not hold a digit.
    fn get_rest_of_int(&self, from: usize) -> (end: usize)
        requires
            self.wf(),
            from <= self.src().len(),
        ensures
            end == digits_end(self.src(), from as int),
            from <= end <= self.src().len(),
    {
        let mut i = from;
        while i < self.len && Self::is_digit(self.input.get_char(i))
            invariant
                self.wf(),
                from <= i <= self.src().len(),
                digits_end(self.src(), from as int) == digits_end(self.src(), i as int),
            decreases self.src().len() - i,
        {
            i = i + 1;
        }
        i
    }

    /// Scans for the next occurrence of `c`: returns its index, or the input
    /// length if the input ends first.
    fn scan_for(&self, from: usize, c: char) -> (stop: usize)
        requires
            self.wf(),
            from <= self.src().len(),
        ensures
            from <= stop <= self.src().len(),
            match find_from(self.src(), from as int, c) {
                Option::Some(q) => stop == q,
                Option::None => stop == self.src().len(),
            },
    {
        let mut i = from;
        while i < self.len && self.input.get_char(i) != c
            invariant
                self.wf(),
                from <= i <= self.src().len(),
                find_from(self.src(), from as int, c) == find_from(self.src(), i as int, c),
            decreases self.src().len() - i,
        {
            i = i + 1;
        }
        i
    }
    /// The value of the digit run `src[start..end]`, clamped from above into
    /// the machine integer range (an overlong literal saturates).
    fn digits_to_value(&self, start: usize, end: usize) -> (v: isize)
        requires
            self.wf(),
            start <= end <= self.src().len(),
            forall|j: int| start <= j < end ==> is_digit_char(self.src()[j]),
        ensures
            v as int == clip_max(digits_val(self.src().subrange(start as int, end as int))),
    {
        let mut acc: isize = 0;
        let mut i = start;
        proof {
            assert(self.src().subrange(start as int, start as int) =~= Seq::<char>::empty());
        }
        while i < end
            invariant
                self.wf(),
                start <= i <= end <= self.src().len(),
                forall|j: int| start <= j < end ==> is_digit_char(self.src()[j]),
                acc as int == clip_max(digits_val(self.src().subrange(start as int, i as int))),
                acc >= 0,
            decreases end - i,
        {
            let ch = self.input.get_char(i);
            let d: isize = ((ch as u32) - 48) as isize;
            proof {
                let s = self.src();
                let pre = s.subrange(start as int, i as int);
                let post = s.subrange(start as int, i as int + 1);
                assert(forall|j: int| 0 <= j < pre.len() ==> is_digit_char(pre[j]));
                lemma_digits_val_nonneg(pre);
                assert(post.drop_last() =~= pre);
                assert(digits_val(post) == digits_val(pre) * 10 + d);
            }
            acc = match acc.checked_mul(10) {
                Option::Some(x) => match x.checked_add(d) {
                    Option::Some(y) => y,
                    Option::None => isize::MAX,
                },
                Option::None => isize::MAX,
            };
            i = i + 1;
        }
        acc
    }

    /// The negated value of the digit run `src[start..end]`, clamped from
    /// below into the machine integer range (an overlong literal saturates).
    fn digits_to_negative_value(&self, start: usize, end: usize) -> (v: isize)
        requires
            self.wf(),
            start <= end <= self.src().len(),
            forall|j: int| start <= j < end ==> is_digit_char(self.src()[j]),
        ensures
            v as int == clip_min(-digits_val(self.src().subrange(start as int, end as int))),
    {
        let mut acc: isize = 0;
        let mut i = start;
        proof {
            assert(self.src().subrange(start as int, start as int) =~= Seq::<char>::empty());
        }
        while i < end
            invariant
                self.wf(),
                start <= i <= end <= self.src().len(),
                forall|j: int| start <= j < end ==> is_digit_char(self.src()[j]),
                acc as int == clip_min(-digits_val(self.src().subrange(start as int, i as int))),
                acc <= 0,
            decreases end - i,
        {
            let ch = self.input.get_char(i);
            let d: isize = ((ch as u32) - 48) as isize;
            proof {
                let s = self.src();
                let pre = s.subrange(start as int, i as int);
                let post = s.subrange(start as int, i as int + 1);
                assert(forall|j: int| 0 <= j < pre.len() ==> is_digit_char(pre[j]));
                lemma_digits_val_nonneg(pre);
                assert(post.drop_last() =~= pre);
                assert(digits_val(post) == digits_val(pre) * 10 + d);
            }
            acc = match acc.checked_mul(10) {
                Option::Some(x) => match x.checked_sub(d) {
                    Option::Some(y) => y,
                    Option::None => isize::MIN,
                },
                Option::None => isize::MIN,
            };
            i = i + 1;
        }
        acc
    }

    /// Produces the next token. Repeatable: once the input is exhausted it
    /// returns `EOF` forever, without moving the cursor.
    pub fn next(&mut self) -> (t: Token)
        requires
            old(self).wf(),
        ensures
            final(self).wf(),
            final(self).src() == old(self).src(),
            t@ == lex_next(old(self).src(), old(self).state()).token,
            final(self).state() == lex_next(old(self).src(), old(self).state()).next,
    {
        let ghost s0 = self.src();
        let ghost st0 = self.state();
        loop
            invariant
                s0 == old(self).src(),
                st0 == old(self).state(),
                self.wf(),
                self.src() == s0,
                lex_next(s0, self.state()) == lex_next(s0, st0),
            decreases s0.len() - self.state().pos,
        {
            if self.pos >= self.len {
                return Token::new(TokenType::EOF, self.row, self.col);
            }
            let c = self.input.get_char(self.pos);
            if c == ' ' || c == '\t' {
                self.pos = self.pos + 1;
                self.col = self.col + 1;
            } else {
                return self.scan_token(c);
            }
        }
    }

    /// Consumes one lexeme that starts with the non-blank character `c` at
    /// the cursor and returns its token.
    fn scan_token(&mut self, c: char) -> (t: Token)
        requires
            old(self).wf(),
            old(self).state().pos < old(self).src().len(),
            old(self).src()[old(self).state().pos] == c,
            c != ' ' && c != '\t',
        ensures
            final(self).wf(),
            final(self).src() == old(self).src(),
            t@ == lex_next(old(self).src(), old(self).state()).token,
            final(self).state() == lex_next(old(self).src(), old(self).state()).next,
    {
        let ghost s = self.src();
        let start = self.pos;
        self.pos = self.pos + 1;
        self.col = self.col + 1;
        let row = self.row;
        let col = self.col;
        if Self::is_alpha_char(c) || c == '_' {
            let end = self.get_rest_of_word(self.pos);
            let add = end - self.pos;
            self.col = self.col + add as u32;
            self.pos = end;
            let w = self.input.substring_char(start, end);
            let tt = keyword_token(w);
            Token::new(tt, row, col)
        } else if Self::is_digit(c) {
            let end = self.get_rest_of_int(self.pos);
            proof {
                lemma_digits_end(s, start as int + 1);
            }
            let v = self.digits_to_value(start, end);
            let add = end - self.pos;
            self.col = self.col + add as u32;
            self.pos = end;
            Token::new(TokenType::Int(v), row, col)
        } else {
            match c {
                '=' => self.get_assign_or_equal(),
                '+' => Token::new(TokenType::Plus, row, col),
                '-' => self.minus_or_pipe_or_negative(),
                '!' => self.get_not_or_not_equal(),
                '>' => Token::new(TokenType::GreaterThan, row, col),
                '<' => Token::new(TokenType::LessThan, row, col),
                '/' => self.get_slash_or_array(),
                '(' => Token::new(TokenType::LParen, row, col),
                ')' => Token::new(TokenType::RParen, row, col),
                '[' => self.get_lbracket_or_array(),
                ']' => Token::new(TokenType::RBracket, row, col),
                '{' => Token::new(TokenType::LBrace, row, col),
                '}' => Token::new(TokenType::RBrace, row, col),
                ':' => Token::new(TokenType::Colon, row, col),
                ';' => Token::new(TokenType::SemiColon, row, col),
                ',' => Token::new(TokenType::Comma, row, col),
                '"' => self.get_string(),
                '^' => Token::new(TokenType::Pin, row, col),
                '#' => self.token_after_comment(),
                '\'' => self.get_character(self.col),
                '\n' => {
                    let t = Token::new(TokenType::NewLine, row, col);
                    self.row = self.row + 1;
                    self.col = 0;
                    t
                },
                _ => Token::new(TokenType::Illegal, row, col),
            }
        }
    }

    /// Disambiguates `=` from `==` by one character of lookahead.
    fn get_assign_or_equal(&mut self) -> (t: Token)
        requires
            old(self).wf(),
        ensures
            final(self).wf(),
            final(self).src() == old(self).src(),
            ({
                let st = old(self).state();
                let step = pair_step(
                    old(self).src(),
                    st.pos,
                    st.row,
                    st.col,
                    '=',
                    TokenKind::Equal,
                    TokenKind::Assign,
                );
                t@ == step.token && final(self).state() == step.next
            }),
    {
        let row = self.row;
        let col = self.col;
        if self.pos < self.len && self.input.get_char(self.pos) == '=' {
            self.pos = self.pos + 1;
            self.col = self.col + 1;
            Token::new(TokenType::Equal, row, col)
        } else {
            Token::new(TokenType::Assign, row, col)
        }
    }

    /// Disambiguates `!` from `!=` by one character of lookahead.
    fn get_not_or_not_equal(&mut self) -> (t: Token)
        requires
            old(self).wf(),
        ensures
            final(self).wf(),
            final(self).src() == old(self).src(),
            ({
                let st = old(self).state();
                let step = pair_step(
                    old(self).src(),
                    st.pos,
                    st.row,
                    st.col,
                    '=',
                    TokenKind::NotEqual,
                    TokenKind::Not,
                );
                t@ == step.token && final(self).state() == step.next
            }),
    {
        let row = self.row;
        let col = self.col;
        if self.pos < self.len && self.input.get_char(self.pos) == '=' {
            self.pos = self.pos + 1;
            self.col = self.col + 1;
            Token::new(TokenType::NotEqual, row, col)
        } else {
            Token::new(TokenType::Not, row, col)
        }
    }

    /// Disambiguates `/` from the array close `/]` by one character of
    /// lookahead.
    fn get_slash_or_array(&mut self) -> (t: Token)
        requires
            old(self).wf(),
        ensures
            final(self).wf(),
            final(self).src() == old(self).src(),
            ({
                let st = old(self).state();
                let step = pair_step(
                    old(self).src(),
                    st.pos,
                    st.row,
                    st.col,
                    ']',
                    TokenKind::RArray,
                    TokenKind::Divide,
                );
                t@ == step.token && final(self).state() == step.next
            }),
    {
        let row = self.row;
        let col = self.col;
        if self.pos < self.len && self.input.get_char(self.pos) == ']' {
            self.pos = self.pos + 1;
            self.col = self.col + 1;
            Token::new(TokenType::RArray, row, col)
        } else {
            Token::new(TokenType::Divide, row, col)
        }
    }

    /// Disambiguates `[` from the array open `[/` by one character of
    /// lookahead.
    fn get_lbracket_or_array(&mut self) -> (t: Token)
        requires
            old(self).wf(),
        ensures
            final(self).wf(),
            final(self).src() == old(self).src(),
            ({
                let st = old(self).state();
                let step = pair_step(
                    old(self).src(),
                    st.pos,
                    st.row,
                    st.col,
                    '/',
                    TokenKind::LArray,
                    TokenKind::LBracket,
                );
                t@ == step.token && final(self).state() == step.next
            }),
    {
        let row = self.row;
        let col = self.col;
        if self.pos < self.len && self.input.get_char(self.pos) == '/' {
            self.pos = self.pos + 1;
            self.col = self.col + 1;
            Token::new(TokenType::LArray, row, col)
        } else {
            Token::new(TokenType::LBracket, row, col)
        }
    }

    /// Disambiguates the three readings of `-`: the output arrow `->`, a
    /// negative integer literal (the sign folded into the value), or a plain
    /// minus.
    fn minus_or_pipe_or_negative(&mut self) -> (t: Token)
        requires
            old(self).wf(),
        ensures
            final(self).wf(),
            final(self).src() == old(self).src(),
            ({
                let s = old(self).src();
                let st = old(self).state();
                if st.pos < s.len() && s[st.pos] == '>' {
                    t@ == TokenModel { kind: TokenKind::Output, row: st.row, col: st.col }
                        && final(self).state() == LexState {
                        pos: st.pos + 1,
                        row: st.row,
                        col: st.col + 1,
                    }
                } else if st.pos < s.len() && is_digit_char(s[st.pos]) {
                    let end = digits_end(s, st.pos);
                    t@ == TokenModel {
                        kind: TokenKind::Int(clip_min(-digits_val(s.subrange(st.pos, end)))),
                        row: st.row,
                        col: st.col,
                    } && final(self).state() == LexState {
                        pos: end,
                        row: st.row,
                        col: st.col + (end - st.pos),
                    }
                } else {
                    t@ == TokenModel { kind: TokenKind::Minus, row: st.row, col: st.col }
                        && final(self).state() == st
                }
            }),
    {
        let row = self.row;
        let col = self.col;
        if self.pos < self.len {
            let nc = self.input.get_char(self.pos);
            if nc == '>' {
                self.pos = self.pos + 1;
                self.col = self.col + 1;
                return Token::new(TokenType::Output, row, col);
            }
            if Self::is_digit(nc) {
                let end = self.get_rest_of_int(self.pos);
                proof {
                    lemma_digits_end(self.src(), self.pos as int);
                }
                let v = self.digits_to_negative_value(self.pos, end);
                let add = end - self.pos;
                self.col = self.col + add as u32;
                self.pos = end;
                return Token::new(TokenType::Int(v), row, col);
            }
        }
        Token::new(TokenType::Minus, row, col)
    }

    /// Scans a string literal: everything up to the next closing quote,
    /// taken verbatim. If the input ends first, the lexeme is illegal.
    fn get_string(&mut self) -> (t: Token)
        requires
            old(self).wf(),
        ensures
            final(self).wf(),
            final(self).src() == old(self).src(),
            ({
                let s = old(self).src();
                let st = old(self).state();
                match find_from(s, st.pos, '"') {
                    Option::Some(q) => t@ == TokenModel {
                        kind: TokenKind::Str(s.subrange(st.pos, q)),
                        row: st.row,
                        col: st.col,
                    } && final(self).state() == LexState {
                        pos: q + 1,
                        row: st.row,
                        col: st.col + (q + 1 - st.pos),
                    },
                    Option::None => t@ == TokenModel {
                        kind: TokenKind::Illegal,
                        row: st.row,
                        col: st.col,
                    } && final(self).state() == LexState {
                        pos: s.len() as int,
                        row: st.row,
                        col: st.col + (s.len() - st.pos),
                    },
                }
            }),
    {
        let row = self.row;
        let col = self.col;
        let stop = self.scan_for(self.pos, '"');
        proof {
            lemma_find_from(self.src(), self.pos as int, '"');
        }
        if stop < self.len {
            let content = self.input.substring_char(self.pos, stop);
            let string = String::from_str(content);
            let add = stop + 1 - self.pos;
            self.col = self.col + add as u32;
            self.pos = stop + 1;
            Token::new(TokenType::Str(string), row, col)
        } else {
            let add = self.len - self.pos;
            self.col = self.col + add as u32;
            self.pos = self.len;
            Token::new(TokenType::Illegal, row, col)
        }
    }

    /// Scans a character literal: exactly one character between single
    /// quotes, or the quote character itself written `'''`. Anything longer,
    /// empty, or unterminated is illegal.
    fn get_character(&mut self, col: u32) -> (t: Token)
        requires
            old(self).wf(),
            col == old(self).state().col,
        ensures
            final(self).wf(),
            final(self).src() == old(self).src(),
            ({
                let s = old(self).src();
                let st = old(self).state();
                match find_from(s, st.pos, '\'') {
                    Option::Some(q) => {
                        if q == st.pos + 1 {
                            t@ == TokenModel {
                                kind: TokenKind::Character(s[st.pos]),
                                row: st.row,
                                col: st.col,
                            } && final(self).state() == LexState {
                                pos: q + 1,
                                row: st.row,
                                col: st.col + (q + 1 - st.pos),
                            }
                        } else if q == st.pos && q + 1 < s.len() && s[q + 1] == '\'' {
                            t@ == TokenModel {
                                kind: TokenKind::Character('\''),
                                row: st.row,
                                col: st.col,
                            } && final(self).state() == LexState {
                                pos: q + 2,
                                row: st.row,
                                col: st.col + (q + 2 - st.pos),
                            }
                        } else {
                            t@ == TokenModel {
                                kind: TokenKind::Illegal,
                                row: st.row,
                                col: st.col,
                            } && final(self).state() == LexState {
                                pos: q + 1,
                                row: st.row,
                                col: st.col + (q + 1 - st.pos),
                            }
                        }
                    },
                    Option::None => t@ == TokenModel {
                        kind: TokenKind::Illegal,
                        row: st.row,
                        col: st.col,
                    } && final(self).state() == LexState {
                        pos: s.len() as int,
                        row: st.row,
                        col: st.col + (s.len() - st.pos),
                    },
                }
            }),
    {
        let row = self.row;
        let stop = self.scan_for(self.pos, '\'');
        proof {
            lemma_find_from(self.src(), self.pos as int, '\'');
        }
        if stop < self.len {
            if stop == self.pos + 1 {
                let ch = self.input.get_char(self.pos);
                let add = stop + 1 - self.pos;
                self.col = self.col + add as u32;
                self.pos = stop + 1;
                Token::new(TokenType::Character(ch), row, col)
            } else if stop == self.pos && stop + 1 < self.len && self.input.get_char(stop + 1)
                == '\'' {
                let add = stop + 2 - self.pos;
                self.col = self.col + add as u32;
                self.pos = stop + 2;
                Token::new(TokenType::Character('\''), row, col)
            } else {
                let add = stop + 1 - self.pos;
                self.col = self.col + add as u32;
                self.pos = stop + 1;
                Token::new(TokenType::Illegal, row, col)
            }
        } else {
            let add = self.len - self.pos;
            self.col = self.col + add as u32;
            self.pos = self.len;
            Token::new(TokenType::Illegal, row, col)
        }
    }

    /// Discards a line comment through the end of the line, then reports the
    /// newline that ended it (or `EOF` if the input ended first).
    fn token_after_comment(&mut self) -> (t: Token)
        requires
            old(self).wf(),
        ensures
            final(self).wf(),
            final(self).src() == old(self).src(),
            ({
                let s = old(self).src();
                let st = old(self).state();
                match find_from(s, st.pos, '\n') {
                    Option::Some(q) => t@ == TokenModel {
                        kind: TokenKind::NewLine,
                        row: st.row,
                        col: st.col + (q - st.pos) + 1,
                    } && final(self).state() == LexState { pos: q + 1, row: st.row + 1, col: 0 },
                    Option::None => ({
                        let ecol = st.col + (s.len() - st.pos);
                        t@ == TokenModel { kind: TokenKind::EOF, row: st.row, col: ecol }
                            && final(self).state() == LexState {
                            pos: s.len() as int,
                            row: st.row,
                            col: ecol,
                        }
                    }),
                }
            }),
    {
        let stop = self.scan_for(self.pos, '\n');
        proof {
            lemma_find_from(self.src(), self.pos as int, '\n');
        }
        if stop < self.len {
            let add = stop + 1 - self.pos;
            let ncol = self.col + add as u32;
            let t = Token::new(TokenType::NewLine, self.row, ncol);
            self.row = self.row + 1;
            self.col = 0;
            self.pos = stop + 1;
            t
        } else {
            let add = self.len - self.pos;
            self.col = self.col + add as u32;
            self.pos = self.len;
            Token::new(TokenType::EOF, self.row, self.col)
        }
    }
}

/// Whether two strings hold the same characters.
fn str_eq(a: &str, b: &str) -> (r: bool)
    ensures
        r == (a@ == b@),
{
    let la = a.unicode_len();
    let lb = b.unicode_len();
    if la != lb {
        return false;
    }
    let mut i: usize = 0;
    while i < la
        invariant
            i <= la,
            la == a@.len(),
            la == b@.len(),
            forall|j: int| 0 <= j < i ==> a@[j] == b@[j],
        decreases la - i,
    {
        if a.get_char(i) != b.get_char(i) {
            return false;
        }
        i = i + 1;
    }
    proof {
        assert(a@ =~= b@);
    }
    true
}

/// The token for a scanned word: the keyword or type name it spells, or an
/// identifier with that spelling.
fn keyword_token(w: &str) -> (t: TokenType)
    ensures
        t@ == keyword_kind(w@),
{
    if str_eq(w, "let") {
        TokenType::Let
    } else if str_eq(w, "fn") {
        TokenType::Function
    } else if str_eq(w, "end") {
        TokenType::End
    } else if str_eq(w, "string") {
        TokenType::StringType
    } else if str_eq(w, "bool") {
        TokenType::BoolType
    } else if str_eq(w, "int") {
        TokenType::IntType
    } else if str_eq(w, "char") {
        TokenType::CharType
    } else if str_eq(w, "if") {
        TokenType::If
    } else if str_eq(w, "else") {
        TokenType::Else
    } else if str_eq(w, "elif") {
        TokenType::Elif
    } else if str_eq(w, "and") {
        TokenType::And
    } else if str_eq(w, "or") {
        TokenType::Or
    } else if str_eq(w, "True") {
        TokenType::True
    } else if str_eq(w, "False") {
        TokenType::False
    } else if str_eq(w, "return") {
        TokenType::Return
    } else {
        TokenType::Identity(String::from_str(w))
    }
}

} // verus!
