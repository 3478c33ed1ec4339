use lox::diagnostics::{decimal_string, error, error_token, report};
use lox::expr::Expr;
use lox::parser::{ParseErr, Parser};
use lox::runner::run;
use lox::scanner::Scanner;
use lox::token::{LiteralValue, Token, TokenType};
use lox::visitors::{AstVisitor, PrintVisitor, RpnVisitor};

fn parse_source(src: &str) -> Option<Expr> {
    let tokens = Scanner::new(src.to_owned()).scan();
    Parser::new(tokens).parse()
}

fn parse_error(src: &str) -> (Token, &'static str) {
    let tokens = Scanner::new(src.to_owned()).scan();
    match Parser::new(tokens).expression() {
        Err(ParseErr::TokenErr { token, message }) => (token, message),
        Err(ParseErr::FooErr) => panic!("unexpected error kind"),
        Ok(e) => panic!("parsed: {:?}", e),
    }
}

fn number_is(e: &Expr, text: &str) -> bool {
    matches!(e, Expr::Literal(l) if matches!(&l.value, LiteralValue::Number(n) if n == text))
}

#[test]
fn precedence_of_factor_over_term() {
    let e = parse_source("1 + 2 * 3").unwrap();
    match &e {
        Expr::Binary(b) => {
            assert_eq!(b.operator.token_type, TokenType::Plus);
            assert!(number_is(&b.left, "1"));
            match &b.right {
                Expr::Binary(r) => {
                    assert_eq!(r.operator.token_type, TokenType::Star);
                    assert!(number_is(&r.left, "2"));
                    assert!(number_is(&r.right, "3"));
                }
                _ => panic!("right operand is not a product"),
            }
        }
        _ => panic!("not a binary node"),
    }
    assert_eq!(e.visit(&AstVisitor), "(+ 1 (* 2 3))");
}

#[test]
fn subtraction_is_left_associative() {
    let e = parse_source("1 - 2 - 3").unwrap();
    match &e {
        Expr::Binary(b) => {
            assert_eq!(b.operator.lexeme, "-");
            assert!(number_is(&b.right, "3"));
            match &b.left {
                Expr::Binary(l) => {
                    assert!(number_is(&l.left, "1"));
                    assert!(number_is(&l.right, "2"));
                }
                _ => panic!("left operand is not a difference"),
            }
        }
        _ => panic!("not a binary node"),
    }
    assert_eq!(e.visit(&AstVisitor), "(- (- 1 2) 3)");
}

#[test]
fn grouping_in_sexpr() {
    let e = parse_source("(1 + 2) * 3").unwrap();
    assert_eq!(e.visit(&AstVisitor), "(* (Group (+ 1 2)) 3)");
}

#[test]
fn rpn_of_parsed_source() {
    let e = parse_source("(1 + 2) * (4 - 3)").unwrap();
    assert_eq!(e.visit(&RpnVisitor), "1 2 + 4 3 - * ");
}

#[test]
fn infix_of_parsed_source() {
    let e = parse_source("-(1 + 2)").unwrap();
    assert_eq!(e.visit(&PrintVisitor), "- ( 1 + 2 ) ");
}

#[test]
fn unmatched_paren_is_one_error() {
    assert!(parse_source("(1 + 2").is_none());
    let (token, message) = parse_error("(1 + 2");
    assert_eq!(message, "Expect ')' after expression.");
    assert_eq!(token.token_type, TokenType::Eof);
}

#[test]
fn eof_only_is_an_error() {
    let tokens = vec![Token::new_not_literal(TokenType::Eof, String::new(), 1)];
    let mut p = Parser::new(tokens);
    assert!(p.parse().is_none());
    let tokens = vec![Token::new_not_literal(TokenType::Eof, String::new(), 1)];
    match Parser::new(tokens).expression() {
        Err(ParseErr::TokenErr { token, message }) => {
            assert_eq!(message, "Expect expression.");
            assert_eq!(token.token_type, TokenType::Eof);
        }
        _ => panic!("expected a parse error"),
    }
}

#[test]
fn missing_operand_names_the_token() {
    let (token, message) = parse_error("1 + )");
    assert_eq!(message, "Expect expression.");
    assert_eq!(token.lexeme, ")");
}

#[test]
fn all_levels_and_unary_chain() {
    let e = parse_source("!--1 <= 2 == 3 > 4 != \"s\" / nil").unwrap();
    assert_eq!(e.visit(&AstVisitor), "(!= (== (<= (! (- (- 1))) 2) (> 3 4)) (/ s nil))");
}

#[test]
fn level_methods_from_the_cursor() {
    let tokens = Scanner::new("2 * 3 + 4".to_owned()).scan();
    let mut p = Parser::new(tokens);
    let f = p.factor();
    assert!(matches!(&f, Ok(e) if e.visit(&AstVisitor) == "(* 2 3)"));
    let tokens = Scanner::new("true".to_owned()).scan();
    let mut p = Parser::new(tokens);
    assert!(matches!(p.primary(), Ok(e) if e.visit(&AstVisitor) == "true"));
    let tokens = Scanner::new("1 < 2 + 3".to_owned()).scan();
    let mut p = Parser::new(tokens);
    assert!(matches!(p.comparison(), Ok(e) if e.visit(&AstVisitor) == "(< 1 (+ 2 3))"));
    let tokens = Scanner::new("1 - 2 * 3".to_owned()).scan();
    let mut p = Parser::new(tokens);
    assert!(matches!(p.term(), Ok(e) if e.visit(&AstVisitor) == "(- 1 (* 2 3))"));
    let tokens = Scanner::new("1 == 1".to_owned()).scan();
    let mut p = Parser::new(tokens);
    assert!(matches!(p.equality(), Ok(e) if e.visit(&AstVisitor) == "(== 1 1)"));
    let tokens = Scanner::new("-x".to_owned()).scan();
    let mut p = Parser::new(tokens);
    assert!(matches!(p.unary(), Err(ParseErr::TokenErr { token, .. }) if token.lexeme == "x"));
}

#[test]
fn synchronize_stops_at_boundaries() {
    let tokens = Scanner::new("1 2 ; 3 var x".to_owned()).scan();
    let mut p = Parser::new(tokens);
    p.synchronize();
    // after the `;`
    assert!(matches!(p.primary(), Ok(e) if e.visit(&AstVisitor) == "3"));
    let tokens = Scanner::new("a b print c".to_owned()).scan();
    let mut p = Parser::new(tokens);
    p.synchronize();
    assert!(matches!(p.primary(), Err(ParseErr::TokenErr { token, .. }) if token.token_type == TokenType::Print));
}

#[test]
fn diagnostics_text() {
    assert_eq!(decimal_string(0), "0");
    assert_eq!(decimal_string(1234), "1234");
    assert_eq!(decimal_string(4294967295), "4294967295");
    assert_eq!(report(7, " here", "bad"), "[line7] Error here: bad");
    assert_eq!(error(3, "Unexpected character."), "[line3] Error: Unexpected character.");
    let eof = Token::new_not_literal(TokenType::Eof, String::new(), 2);
    assert_eq!(error_token(&eof, "Expect expression."), "[line2] Error at end: Expect expression.");
    let rp = Token::new_not_literal(TokenType::RightParen, ")".to_owned(), 5);
    assert_eq!(error_token(&rp, "Expect expression."), "[line5] Error at ')': Expect expression.");
}

#[test]
fn run_renders_or_reports() {
    let out = run("(1 + 2) * 3".to_owned());
    assert!(out.diagnostics.is_empty());
    assert_eq!(out.rendered.as_deref(), Some("(* (Group (+ 1 2)) 3)"));

    let out = run("(1 + 2".to_owned());
    assert_eq!(out.diagnostics, vec!["[line1] Error at end: Expect ')' after expression.".to_owned()]);
    assert!(out.rendered.is_none());

    let out = run("1 @ 2".to_owned());
    assert_eq!(out.diagnostics, vec!["[line1] Error: Unexpected character.".to_owned()]);
    assert!(out.rendered.is_none());

    let out = run("".to_owned());
    assert_eq!(out.diagnostics, vec!["[line1] Error at end: Expect expression.".to_owned()]);
}
