use lox::lexical::LexErrorKind;
use lox::scanner::Scanner;
use lox::token::{LiteralValue, Token, TokenType};

fn scan(src: &str) -> Vec<Token> {
    Scanner::new(src.to_owned()).scan()
}

fn kinds(tokens: &[Token]) -> Vec<TokenType> {
    tokens.iter().map(|t| t.token_type).collect()
}

fn number_text(t: &Token) -> String {
    match &t.literal {
        Some(LiteralValue::Number(n)) => n.clone(),
        other => panic!("not a number literal: {:?}", other),
    }
}

#[test]
fn empty_source_gives_only_eof() {
    let t = scan("");
    assert_eq!(kinds(&t), vec![TokenType::Eof]);
    assert_eq!(t[0].lexeme, "");
    assert_eq!(t[0].line, 1);
}

#[test]
fn eof_is_last_and_on_final_line() {
    let t = scan("a\nb\n\nc");
    assert_eq!(kinds(&t), vec![TokenType::Identifier, TokenType::Identifier, TokenType::Identifier, TokenType::Eof]);
    assert_eq!(t.iter().filter(|x| x.token_type == TokenType::Eof).count(), 1);
    assert_eq!(t[3].line, 4);
    assert_eq!(t[1].line, 2);
}

#[test]
fn lexemes_are_source_text() {
    let src = "var x = (12.5 >= y) // note";
    let t = scan(src);
    let lexemes: Vec<&str> = t.iter().map(|x| x.lexeme.as_str()).collect();
    assert_eq!(lexemes, vec!["var", "x", "=", "(", "12.5", ">=", "y", ")", ""]);
    let mut at = 0;
    for tok in &t[..t.len() - 1] {
        let found = src[at..].find(tok.lexeme.as_str()).unwrap() + at;
        at = found + tok.lexeme.len();
    }
}

#[test]
fn two_character_operators_are_one_token() {
    for (src, kind) in [
        ("!=", TokenType::BangEqual),
        ("==", TokenType::EqualEqual),
        ("<=", TokenType::LessEqual),
        (">=", TokenType::GreaterEqual),
    ] {
        let t = scan(src);
        assert_eq!(kinds(&t), vec![kind, TokenType::Eof]);
        assert_eq!(t[0].lexeme, src);
    }
    assert_eq!(kinds(&scan("! = < >")), vec![
        TokenType::Bang,
        TokenType::Equal,
        TokenType::Less,
        TokenType::Greater,
        TokenType::Eof
    ]);
}

#[test]
fn number_with_trailing_dot() {
    let t = scan("123.");
    assert_eq!(kinds(&t), vec![TokenType::Number, TokenType::Dot, TokenType::Eof]);
    assert_eq!(number_text(&t[0]), "123");
    assert_eq!(t[0].lexeme, "123");
}

#[test]
fn number_canonical_text() {
    let t = scan("007.50 3.0 0.25 10");
    let texts: Vec<String> = t[..4].iter().map(number_text).collect();
    assert_eq!(texts, vec!["7.5", "3", "0.25", "10"]);
    assert_eq!(t[0].lexeme, "007.50");
}

#[test]
fn comments_are_skipped() {
    let t = scan("1 // comment\n2");
    assert_eq!(kinds(&t), vec![TokenType::Number, TokenType::Number, TokenType::Eof]);
    assert_eq!(number_text(&t[0]), "1");
    assert_eq!(number_text(&t[1]), "2");
    assert_eq!(t[1].line, 2);

    let t = scan("1 /* a\nb */ 2");
    assert_eq!(kinds(&t), vec![TokenType::Number, TokenType::Number, TokenType::Eof]);
    assert_eq!(t[0].line, 1);
    assert_eq!(t[1].line, 2);
    assert_eq!(t[2].line, 2);
}

#[test]
fn slash_alone_is_an_operator() {
    assert_eq!(kinds(&scan("6 / 3")), vec![TokenType::Number, TokenType::Slash, TokenType::Number, TokenType::Eof]);
}

#[test]
fn strings_and_keywords() {
    let t = scan("\"hi\nthere\" and nil true false orchid");
    assert_eq!(kinds(&t), vec![
        TokenType::String,
        TokenType::And,
        TokenType::Nil,
        TokenType::True,
        TokenType::False,
        TokenType::Identifier,
        TokenType::Eof
    ]);
    assert!(matches!(&t[0].literal, Some(LiteralValue::String(s)) if s == "hi\nthere"));
    assert_eq!(t[0].lexeme, "\"hi\nthere\"");
    assert_eq!(t[0].line, 2);
    assert!(matches!(t[2].literal, Some(LiteralValue::Nil)));
    assert!(matches!(t[3].literal, Some(LiteralValue::Bool(true))));
    assert!(matches!(t[4].literal, Some(LiteralValue::Bool(false))));
    assert!(t[1].literal.is_none());
    assert!(t[5].literal.is_none());
}

#[test]
fn all_keywords() {
    let t = scan("and class else false fun for if nil or print return super this true var while And");
    assert_eq!(kinds(&t), vec![
        TokenType::And,
        TokenType::Class,
        TokenType::Else,
        TokenType::False,
        TokenType::Fun,
        TokenType::For,
        TokenType::If,
        TokenType::Nil,
        TokenType::Or,
        TokenType::Print,
        TokenType::Return,
        TokenType::Super,
        TokenType::This,
        TokenType::True,
        TokenType::Var,
        TokenType::While,
        TokenType::Identifier,
        TokenType::Eof
    ]);
}

#[test]
fn punctuation() {
    assert_eq!(kinds(&scan("(){},.-+;*")), vec![
        TokenType::LeftParen,
        TokenType::RightParen,
        TokenType::LeftBrace,
        TokenType::RightBrace,
        TokenType::Comma,
        TokenType::Dot,
        TokenType::Minus,
        TokenType::Plus,
        TokenType::SemiColon,
        TokenType::Star,
        TokenType::Eof
    ]);
}

#[test]
fn unexpected_character_is_dropped() {
    let (t, e) = Scanner::new("1 @ 2".to_owned()).scan_with_errors();
    assert_eq!(kinds(&t), vec![TokenType::Number, TokenType::Number, TokenType::Eof]);
    assert_eq!(e.len(), 1);
    assert_eq!(e[0].kind, LexErrorKind::UnexpectedCharacter);
    assert_eq!(e[0].line, 1);
    assert_eq!(e[0].kind.message(), "Unexpected character.");
}

#[test]
fn unterminated_string_emits_nothing() {
    let (t, e) = Scanner::new("1 \"abc\ndef".to_owned()).scan_with_errors();
    assert_eq!(kinds(&t), vec![TokenType::Number, TokenType::Eof]);
    assert_eq!(e.len(), 1);
    assert_eq!(e[0].kind, LexErrorKind::UnterminatedString);
    assert_eq!(e[0].line, 2);
    assert_eq!(e[0].kind.message(), "string unclosed.");
}

#[test]
fn unclosed_block_comment() {
    let (t, e) = Scanner::new("1 /* a\n b".to_owned()).scan_with_errors();
    assert_eq!(kinds(&t), vec![TokenType::Number, TokenType::Eof]);
    assert_eq!(e.len(), 1);
    assert_eq!(e[0].kind, LexErrorKind::UnclosedBlockComment);
    assert_eq!(e[0].line, 2);
    assert_eq!(t[1].line, 2);
    assert_eq!(e[0].kind.message(), "Block comment unclosed.");
}

#[test]
fn non_ascii_text_in_strings() {
    let t = scan("\"héllo\" x");
    assert_eq!(kinds(&t), vec![TokenType::String, TokenType::Identifier, TokenType::Eof]);
    assert!(matches!(&t[0].literal, Some(LiteralValue::String(s)) if s == "héllo"));
}
