use lib::ast::{BinaryOp, Expr, Stmt, Type};
use lib::lexer::{LexError, Lexer};
use lib::parser::{ParseError, Parser};
use lib::token::TokenType;

fn tokens_of(src: &str) -> Vec<lib::token::Token> {
    let mut lexer = Lexer::new(src.to_owned());
    lexer.tokenize().expect("source should split into tokens")
}

fn parse_src(src: &str) -> Result<Vec<Stmt>, ParseError> {
    let mut parser = Parser::new(tokens_of(src));
    parser.parse()
}

#[test]
fn lexer_ends_with_single_eof() {
    let tokens = tokens_of("let x: int = 42;");
    assert!(matches!(tokens.last().unwrap().token_type, TokenType::Eof));
    let eofs = tokens.iter().filter(|t| matches!(t.token_type, TokenType::Eof)).count();
    assert_eq!(eofs, 1);
}

#[test]
fn lexer_empty_source_is_eof_only() {
    let tokens = tokens_of("");
    assert_eq!(tokens.len(), 1);
    assert!(matches!(tokens[0].token_type, TokenType::Eof));
}

#[test]
fn lexer_keywords_and_literals() {
    let tokens = tokens_of("let x: int = 42;");
    assert!(matches!(tokens[0].token_type, TokenType::Let));
    assert!(matches!(&tokens[1].token_type, TokenType::Identifier(s) if s == "x"));
    assert!(matches!(tokens[2].token_type, TokenType::Colon));
    assert!(matches!(tokens[3].token_type, TokenType::Int));
    assert!(matches!(tokens[4].token_type, TokenType::Equal));
    assert!(matches!(tokens[5].token_type, TokenType::IntLiteral(42)));
    assert!(matches!(tokens[6].token_type, TokenType::Semicolon));
    assert_eq!(tokens.len(), 8);
}

#[test]
fn lexer_rejects_invalid_character() {
    let mut lexer = Lexer::new("let x = $;".to_owned());
    let r = lexer.tokenize();
    assert!(matches!(r, Err(LexError::InvalidCharacter('$', 1, _))));
}

#[test]
fn lexer_unterminated_string_gives_none() {
    let mut lexer = Lexer::new("\"abc".to_owned());
    assert!(lexer.try_tokenize().is_none());
}

#[test]
fn parser_var_decl_with_precedence() {
    let stmts = parse_src("let x: int = 1 + 2 * 3;").expect("should parse");
    assert_eq!(stmts.len(), 1);
    match &stmts[0] {
        Stmt::VarDecl { name, var_type, value } => {
            assert_eq!(name, "x");
            assert!(matches!(var_type, Type::Int));
            match value {
                Expr::Binary { left, op, right, .. } => {
                    assert!(matches!(**left, Expr::IntLiteral(1)));
                    assert!(matches!(op, BinaryOp::Add));
                    assert!(matches!(**right, Expr::Binary { op: BinaryOp::Mul, .. }));
                }
                other => panic!("unexpected value {other:?}"),
            }
        }
        other => panic!("unexpected statement {other:?}"),
    }
}

#[test]
fn parser_empty_program() {
    let stmts = parse_src("").expect("should parse");
    assert!(stmts.is_empty());
}

#[test]
fn parser_missing_semicolon_is_expected_error() {
    let r = parse_src("let x: int = 1");
    assert!(matches!(r, Err(ParseError::Expected { expected: TokenType::Semicolon, .. })));
}

#[test]
fn parser_invalid_assignment_target() {
    let r = parse_src("1 = 2;");
    assert!(matches!(r, Err(ParseError::InvalidAssignmentTarget)));
}

#[test]
fn parser_unexpected_token() {
    let r = parse_src(")");
    assert!(matches!(r, Err(ParseError::UnexpectedToken(_))));
}

#[test]
fn parser_if_else_and_while() {
    let stmts = parse_src("if (true) { let a: int = 1; } else { let b: int = 2; } while (false) { }")
        .expect("should parse");
    assert_eq!(stmts.len(), 2);
    assert!(matches!(stmts[0], Stmt::If { else_stmt: Some(_), .. }));
    assert!(matches!(stmts[1], Stmt::While { .. }));
}
