use minilang::ast::{Expression, Statement};
use minilang::lexer::Lexer;
use minilang::parser::Parser;
use minilang::token::TokenType;

#[test]
fn structural_symbols_map_one_to_one() {
    let input = "()[]{}:;,";
    let expected = [
        TokenType::LParen,
        TokenType::RParen,
        TokenType::LBracket,
        TokenType::RBracket,
        TokenType::LBrace,
        TokenType::RBrace,
        TokenType::Colon,
        TokenType::SemiColon,
        TokenType::Comma,
    ];

    let mut lexer = Lexer::new(input);

    for i in 0..expected.len() {
        let token = lexer.next();
        assert_eq!(token.token_type, expected[i]);
        assert_eq!(token.row, 1);
        assert_eq!(token.col, (i + 1) as u32);
    }
    assert_eq!(lexer.next().token_type, TokenType::EOF);
}

#[test]
fn keyword_table_roundtrip() {
    let words = [
        ("let", TokenType::Let),
        ("fn", TokenType::Function),
        ("end", TokenType::End),
        ("string", TokenType::StringType),
        ("bool", TokenType::BoolType),
        ("int", TokenType::IntType),
        ("char", TokenType::CharType),
        ("if", TokenType::If),
        ("else", TokenType::Else),
        ("elif", TokenType::Elif),
        ("and", TokenType::And),
        ("or", TokenType::Or),
        ("True", TokenType::True),
        ("False", TokenType::False),
        ("return", TokenType::Return),
    ];
    for (word, expected) in words.iter() {
        let mut lexer = Lexer::new(word);
        assert_eq!(lexer.next().token_type, *expected);
        assert_eq!(lexer.next().token_type, TokenType::EOF);
    }

    let mut lexer = Lexer::new("true");
    assert_eq!(
        lexer.next().token_type,
        TokenType::Identity(String::from("true"))
    );

    let mut lexer = Lexer::new("letx");
    assert_eq!(
        lexer.next().token_type,
        TokenType::Identity(String::from("letx"))
    );
}

#[test]
fn negative_number_is_one_token() {
    let mut lexer = Lexer::new("-23456");
    assert_eq!(lexer.next().token_type, TokenType::Int(-23456));
    assert_eq!(lexer.next().token_type, TokenType::EOF);
}

#[test]
fn ambiguous_two_character_operators() {
    let mut lexer = Lexer::new("=");
    assert_eq!(lexer.next().token_type, TokenType::Assign);

    let mut lexer = Lexer::new("==");
    assert_eq!(lexer.next().token_type, TokenType::Equal);

    let mut lexer = Lexer::new("!");
    assert_eq!(lexer.next().token_type, TokenType::Not);

    let mut lexer = Lexer::new("!=");
    assert_eq!(lexer.next().token_type, TokenType::NotEqual);
}

#[test]
fn string_edges() {
    let mut lexer = Lexer::new("\"abc");
    assert_eq!(lexer.next().token_type, TokenType::Illegal);

    let mut lexer = Lexer::new("\"\"");
    assert_eq!(lexer.next().token_type, TokenType::Str(String::from("")));
}

#[test]
fn parse_let_full_structure() {
    let input = "let x: int = 5";
    let lexer = Lexer::new(input);

    let mut parser = Parser::new(lexer);
    let ast = parser.parse_program().unwrap();

    assert_eq!(ast.len(), 1);
    match &ast[0] {
        Statement::Let(ls) => {
            assert_eq!(ls.name.token_type, TokenType::Identity(String::from("x")));
            assert_eq!(ls.var_type.token_type, TokenType::IntType);
            match &ls.expression {
                Expression::Value(t) => assert_eq!(t.token_type, TokenType::Int(5)),
                _ => panic!("expected a literal initializer"),
            }
        }
        _ => panic!("expected a let statement"),
    }
}

#[test]
fn parse_let_char_type() {
    let input = "let c: char = 'a'";
    let lexer = Lexer::new(input);

    let mut parser = Parser::new(lexer);
    let ast = parser.parse_program().unwrap();

    assert_eq!(ast.len(), 1);
    match &ast[0] {
        Statement::Let(ls) => {
            assert_eq!(ls.name.token_type, TokenType::Identity(String::from("c")));
            assert_eq!(ls.var_type.token_type, TokenType::CharType);
            match &ls.expression {
                Expression::Value(t) => assert_eq!(t.token_type, TokenType::Character('a')),
                _ => panic!("expected a literal initializer"),
            }
        }
        _ => panic!("expected a let statement"),
    }
}

#[test]
fn parse_missing_colon_reports_position() {
    let input = "let x int = 5";
    let lexer = Lexer::new(input);

    let mut parser = Parser::new(lexer);
    let err = parser.parse_program().unwrap_err();

    assert_eq!(err, "Unexpected token expected ':', got IntType 1.7");
}

#[test]
fn eof_is_idempotent() {
    let mut lexer = Lexer::new("x ");
    assert_eq!(
        lexer.next().token_type,
        TokenType::Identity(String::from("x"))
    );
    let first = lexer.next();
    assert_eq!(first.token_type, TokenType::EOF);
    for _ in 0..3 {
        let again = lexer.next();
        assert_eq!(again.token_type, TokenType::EOF);
        assert_eq!(again.row, first.row);
        assert_eq!(again.col, first.col);
    }
}

#[test]
fn integer_literals_saturate() {
    let mut lexer = Lexer::new("99999999999999999999999999");
    assert_eq!(lexer.next().token_type, TokenType::Int(isize::MAX));

    let mut lexer = Lexer::new("-99999999999999999999999999");
    assert_eq!(lexer.next().token_type, TokenType::Int(isize::MIN));
}

#[test]
fn most_negative_literal_is_exact() {
    let mut lexer = Lexer::new("-9223372036854775808");
    assert_eq!(lexer.next().token_type, TokenType::Int(isize::MIN));

    let mut lexer = Lexer::new("9223372036854775807");
    assert_eq!(lexer.next().token_type, TokenType::Int(isize::MAX));
}

#[test]
fn comment_swallows_line() {
    let mut lexer = Lexer::new("# a comment\nx");
    let nl = lexer.next();
    assert_eq!(nl.token_type, TokenType::NewLine);
    assert_eq!(nl.row, 1);
    assert_eq!(nl.col, 12);
    let x = lexer.next();
    assert_eq!(x.token_type, TokenType::Identity(String::from("x")));
    assert_eq!(x.row, 2);
    assert_eq!(x.col, 1);

    let mut lexer = Lexer::new("# only a comment");
    assert_eq!(lexer.next().token_type, TokenType::EOF);
}

#[test]
fn positive_int_records_first_column() {
    let mut lexer = Lexer::new("  123 ");
    let t = lexer.next();
    assert_eq!(t.token_type, TokenType::Int(123));
    assert_eq!(t.row, 1);
    assert_eq!(t.col, 3);
}

#[test]
fn tab_advances_column() {
    let mut lexer = Lexer::new("\tx");
    let t = lexer.next();
    assert_eq!(t.token_type, TokenType::Identity(String::from("x")));
    assert_eq!(t.col, 2);
}

#[test]
fn unknown_character_is_illegal() {
    let mut lexer = Lexer::new("@");
    let t = lexer.next();
    assert_eq!(t.token_type, TokenType::Illegal);
    assert_eq!(t.row, 1);
    assert_eq!(t.col, 1);
}

#[test]
fn token_text_renders_kind_and_payload() {
    let mut lexer = Lexer::new("foo -3 \"hi\" 'a' =");
    assert_eq!(lexer.next().text(), "Identity(\"foo\")");
    assert_eq!(lexer.next().text(), "Int(-3)");
    assert_eq!(lexer.next().text(), "Str(\"hi\")");
    assert_eq!(lexer.next().text(), "Character('a')");
    assert_eq!(lexer.next().text(), "Assign");
    assert_eq!(lexer.next().text(), "EOF");
}

#[test]
fn parse_errors_name_each_expectation() {
    let failures = [
        ("let 3 = 5", "Unexpected token expected Identity, got Int(3) 1.5"),
        (
            "let x: yes = 5",
            "Unexpected token expected type, got Identity(\"yes\") 1.8",
        ),
        ("let x: int 5", "Unexpected token expected '=', got Int(5) 1.12"),
        (
            "let x: int = +",
            "Unexpected token expected value, got Plus 1.14",
        ),
        ("end", "Expected new line, got EOF 1.3"),
        ("+", "Unexpected token expected statement, got Plus 1.1"),
    ];
    for (input, message) in failures.iter() {
        let lexer = Lexer::new(input);
        let mut parser = Parser::new(lexer);
        let err = parser.parse_program().unwrap_err();
        assert_eq!(&err, message);
    }
}

#[test]
fn return_missing_value_fails() {
    let lexer = Lexer::new("return let");
    let mut parser = Parser::new(lexer);
    let err = parser.parse_program().unwrap_err();
    assert_eq!(err, "Unexpected token expected value, got Let 1.8");
}

#[test]
fn prefix_statement_structure() {
    let lexer = Lexer::new("-foo");
    let mut parser = Parser::new(lexer);
    let ast = parser.parse_program().unwrap();

    assert_eq!(ast.len(), 1);
    match &ast[0] {
        Statement::Expr(Expression::Prefix(p)) => {
            assert_eq!(p.operator.token_type, TokenType::Minus);
            match &*p.right {
                Expression::Value(t) => {
                    assert_eq!(t.token_type, TokenType::Identity(String::from("foo")));
                }
                _ => panic!("expected a literal operand"),
            }
        }
        _ => panic!("expected a prefix expression statement"),
    }
}

#[test]
fn multi_statement_program() {
    let input = "let x: int = 5\nreturn x";
    let lexer = Lexer::new(input);
    let mut parser = Parser::new(lexer);
    let ast = parser.parse_program().unwrap();
    assert_eq!(ast.len(), 2);
    assert!(matches!(ast[0], Statement::Let(_)));
    assert!(matches!(ast[1], Statement::Return(_)));
}
