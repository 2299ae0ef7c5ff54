//! Token data types and their mathematical models.

use vstd::prelude::*;

use crate::decimal::{dec_int, isize_decimal};
use crate::strbuild::push_char;

verus! {

/// Classification of one lexical unit, carrying any payload extracted while
/// scanning: the spelling of an identifier, the value of a literal.
#[derive(Debug, Clone, PartialEq)]
pub enum TokenType {
    /// Placeholder left behind when a buffered token is moved into the tree.
    TMP,
    /// A malformed lexeme (bad literal or unrecognized character).
    Illegal,
    /// End of the input; produced forever once the input is exhausted.
    EOF,
    /// An identifier, with its exact source spelling.
    Identity(String),
    /// An integer literal; a leading minus sign is folded into the value.
    Int(isize),
    /// A string literal, content taken verbatim (no escape processing).
    Str(String),
    /// A character literal: exactly one character between single quotes.
    Character(char),
    True,
    False,
    Assign,
    And,
    Or,
    Not,
    Equal,
    NotEqual,
    GreaterThan,
    LessThan,
    Plus,
    If,
    Else,
    Elif,
    Minus,
    Divide,
    Comma,
    SemiColon,
    Colon,
    LParen,
    RParen,
    LBrace,
    RBrace,
    LBracket,
    RBracket,
    LArray,
    RArray,
    Function,
    Let,
    End,
    Pin,
    NewLine,
    StringType,
    BoolType,
    IntType,
    CharType,
    Output,
    Return,
}

/// Model of a token kind: the same variants as `TokenType`, with payloads as
/// character sequences and unbounded integers.
pub ghost enum TokenKind {
    TMP,
    Illegal,
    EOF,
    Identity(Seq<char>),
    Int(int),
    Str(Seq<char>),
    Character(char),
    True,
    False,
    Assign,
    And,
    Or,
    Not,
    Equal,
    NotEqual,
    GreaterThan,
    LessThan,
    Plus,
    If,
    Else,
    Elif,
    Minus,
    Divide,
    Comma,
    SemiColon,
    Colon,
    LParen,
    RParen,
    LBrace,
    RBrace,
    LBracket,
    RBracket,
    LArray,
    RArray,
    Function,
    Let,
    End,
    Pin,
    NewLine,
    StringType,
    BoolType,
    IntType,
    CharType,
    Output,
    Return,
}

impl View for TokenType {
    type V = TokenKind;

    open spec fn view(&self) -> TokenKind {
        match self {
            TokenType::TMP => TokenKind::TMP,
            TokenType::Illegal => TokenKind::Illegal,
            TokenType::EOF => TokenKind::EOF,
            TokenType::Identity(w) => TokenKind::Identity(w@),
            TokenType::Int(v) => TokenKind::Int(*v as int),
            TokenType::Str(s) => TokenKind::Str(s@),
            TokenType::Character(c) => TokenKind::Character(*c),
            TokenType::True => TokenKind::True,
            TokenType::False => TokenKind::False,
            TokenType::Assign => TokenKind::Assign,
            TokenType::And => TokenKind::And,
            TokenType::Or => TokenKind::Or,
            TokenType::Not => TokenKind::Not,
            TokenType::Equal => TokenKind::Equal,
            TokenType::NotEqual => TokenKind::NotEqual,
            TokenType::GreaterThan => TokenKind::GreaterThan,
            TokenType::LessThan => TokenKind::LessThan,
            TokenType::Plus => TokenKind::Plus,
            TokenType::If => TokenKind::If,
            TokenType::Else => TokenKind::Else,
            TokenType::Elif => TokenKind::Elif,
            TokenType::Minus => TokenKind::Minus,
            TokenType::Divide => TokenKind::Divide,
            TokenType::Comma => TokenKind::Comma,
            TokenType::SemiColon => TokenKind::SemiColon,
            TokenType::Colon => TokenKind::Colon,
            TokenType::LParen => TokenKind::LParen,
            TokenType::RParen => TokenKind::RParen,
            TokenType::LBrace => TokenKind::LBrace,
            TokenType::RBrace => TokenKind::RBrace,
            TokenType::LBracket => TokenKind::LBracket,
            TokenType::RBracket => TokenKind::RBracket,
            TokenType::LArray => TokenKind::LArray,
            TokenType::RArray => TokenKind::RArray,
            TokenType::Function => TokenKind::Function,
            TokenType::Let => TokenKind::Let,
            TokenType::End => TokenKind::End,
            TokenType::Pin => TokenKind::Pin,
            TokenType::NewLine => TokenKind::NewLine,
            TokenType::StringType => TokenKind::StringType,
            TokenType::BoolType => TokenKind::BoolType,
            TokenType::IntType => TokenKind::IntType,
            TokenType::CharType => TokenKind::CharType,
            TokenType::Output => TokenKind::Output,
            TokenType::Return => TokenKind::Return,
        }
    }
}

/// A classified, position-tagged lexical unit. `row` is 1-based; `col` is the
/// 1-based column of the token's first character.
#[derive(Debug, Clone)]
pub struct Token {
    pub token_type: TokenType,
    pub row: u32,
    pub col: u32,
}

/// Model of a token: its kind together with its position.
pub ghost struct TokenModel {
    pub kind: TokenKind,
    pub row: int,
    pub col: int,
}

impl View for Token {
    type V = TokenModel;

    open spec fn view(&self) -> TokenModel {
        TokenModel { kind: self.token_type@, row: self.row as int, col: self.col as int }
    }
}

impl Token {
    pub fn new(token_type: TokenType, row: u32, col: u32) -> (t: Token)
        ensures
            t.token_type == token_type,
            t.row == row,
            t.col == col,
    {
        Token { token_type, row, col }
    }

    /// Debug-style rendering of the token's kind, used verbatim in
    /// diagnostics. Payloads appear as scanned, with no escape processing.
    pub fn text(&self) -> (s: String)
        ensures
            s@ == kind_text(self.token_type@),
    {
        match &self.token_type {
            TokenType::TMP => String::from_str("TMP"),
            TokenType::Illegal => String::from_str("Illegal"),
            TokenType::EOF => String::from_str("EOF"),
            TokenType::Identity(w) => {
                let mut s = String::from_str("Identity(\"");
                s.append(w.as_str());
                s.append("\")");
                proof {
                    assert(s@ =~= kind_text(self.token_type@));
                }
                s
            },
            TokenType::Int(v) => {
                let mut s = String::from_str("Int(");
                let digits = isize_decimal(*v);
                s.append(digits.as_str());
                s.append(")");
                proof {
                    assert(s@ =~= kind_text(self.token_type@));
                }
                s
            },
            TokenType::Str(content) => {
                let mut s = String::from_str("Str(\"");
                s.append(content.as_str());
                s.append("\")");
                proof {
                    assert(s@ =~= kind_text(self.token_type@));
                }
                s
            },
            TokenType::Character(c) => {
                let mut s = String::from_str("Character('");
                push_char(&mut s, *c);
                s.append("')");
                proof {
                    assert(s@ =~= kind_text(self.token_type@));
                }
                s
            },
            TokenType::True => String::from_str("True"),
            TokenType::False => String::from_str("False"),
            TokenType::Assign => String::from_str("Assign"),
            TokenType::And => String::from_str("And"),
            TokenType::Or => String::from_str("Or"),
            TokenType::Not => String::from_str("Not"),
            TokenType::Equal => String::from_str("Equal"),
            TokenType::NotEqual => String::from_str("NotEqual"),
            TokenType::GreaterThan => String::from_str("GreaterThan"),
            TokenType::LessThan => String::from_str("LessThan"),
            TokenType::Plus => String::from_str("Plus"),
            TokenType::If => String::from_str("If"),
            TokenType::Else => String::from_str("Else"),
            TokenType::Elif => String::from_str("Elif"),
            TokenType::Minus => String::from_str("Minus"),
            TokenType::Divide => String::from_str("Divide"),
            TokenType::Comma => String::from_str("Comma"),
            TokenType::SemiColon => String::from_str("SemiColon"),
            TokenType::Colon => String::from_str("Colon"),
            TokenType::LParen => String::from_str("LParen"),
            TokenType::RParen => String::from_str("RParen"),
            TokenType::LBrace => String::from_str("LBrace"),
            TokenType::RBrace => String::from_str("RBrace"),
            TokenType::LBracket => String::from_str("LBracket"),
            TokenType::RBracket => String::from_str("RBracket"),
            TokenType::LArray => String::from_str("LArray"),
            TokenType::RArray => String::from_str("RArray"),
            TokenType::Function => String::from_str("Function"),
            TokenType::Let => String::from_str("Let"),
            TokenType::End => String::from_str("End"),
            TokenType::Pin => String::from_str("Pin"),
            TokenType::NewLine => String::from_str("NewLine"),
            TokenType::StringType => String::from_str("StringType"),
            TokenType::BoolType => String::from_str("BoolType"),
            TokenType::IntType => String::from_str("IntType"),
            TokenType::CharType => String::from_str("CharType"),
            TokenType::Output => String::from_str("Output"),
            TokenType::Return => String::from_str("Return"),
        }
    }
}

/// The textual form of a token kind, as rendered by [`Token::text`]: the
/// variant name, with any payload in parentheses.
pub open spec fn kind_text(k: TokenKind) -> Seq<char> {
    match k {
        TokenKind::TMP => "TMP"@,
        TokenKind::Illegal => "Illegal"@,
        TokenKind::EOF => "EOF"@,
        TokenKind::Identity(w) => "Identity(\""@ + w + "\")"@,
        TokenKind::Int(v) => "Int("@ + dec_int(v) + ")"@,
        TokenKind::Str(content) => "Str(\""@ + content + "\")"@,
        TokenKind::Character(c) => "Character('"@ + seq![c] + "')"@,
        TokenKind::True => "True"@,
        TokenKind::False => "False"@,
        TokenKind::Assign => "Assign"@,
        TokenKind::And => "And"@,
        TokenKind::Or => "Or"@,
        TokenKind::Not => "Not"@,
        TokenKind::Equal => "Equal"@,
        TokenKind::NotEqual => "NotEqual"@,
        TokenKind::GreaterThan => "GreaterThan"@,
        TokenKind::LessThan => "LessThan"@,
        TokenKind::Plus => "Plus"@,
        TokenKind::If => "If"@,
        TokenKind::Else => "Else"@,
        TokenKind::Elif => "Elif"@,
        TokenKind::Minus => "Minus"@,
        TokenKind::Divide => "Divide"@,
        TokenKind::Comma => "Comma"@,
        TokenKind::SemiColon => "SemiColon"@,
        TokenKind::Colon => "Colon"@,
        TokenKind::LParen => "LParen"@,
        TokenKind::RParen => "RParen"@,
        TokenKind::LBrace => "LBrace"@,
        TokenKind::RBrace => "RBrace"@,
        TokenKind::LBracket => "LBracket"@,
        TokenKind::RBracket => "RBracket"@,
        TokenKind::LArray => "LArray"@,
        TokenKind::RArray => "RArray"@,
        TokenKind::Function => "Function"@,
        TokenKind::Let => "Let"@,
        TokenKind::End => "End"@,
        TokenKind::Pin => "Pin"@,
        TokenKind::NewLine => "NewLine"@,
        TokenKind::StringType => "StringType"@,
        TokenKind::BoolType => "BoolType"@,
        TokenKind::IntType => "IntType"@,
        TokenKind::CharType => "CharType"@,
        TokenKind::Output => "Output"@,
        TokenKind::Return => "Return"@,
    }
}

} // verus!
