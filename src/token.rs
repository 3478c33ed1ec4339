use vstd::prelude::*;

verus! {

/// The lexical categories of the language.
#[derive(Debug, Clone, Copy, PartialEq, Eq, Structural)]
pub enum TokenType {
    // single character
    LeftParen,
    RightParen,
    LeftBrace,
    RightBrace,
    Comma,
    Dot,
    Minus,
    Plus,
    SemiColon,
    Slash,
    Star,
    // one or two characters
    Equal,
    EqualEqual,
    Bang,
    BangEqual,
    Less,
    LessEqual,
    Greater,
    GreaterEqual,
    Identifier,
    // literal-bearing
    String,
    Number,
    // keywords
    And,
    Class,
    Else,
    False,
    Fun,
    For,
    If,
    Nil,
    Or,
    Print,
    Return,
    Super,
    This,
    True,
    Var,
    While,
    Eof,
}

/// The constant carried by a literal token.
///
/// A number is held as its canonical decimal text: no leading zeros before
/// the units digit, no trailing zeros after the point, and no point when the
/// value is whole (`007.50` is held as `7.5`, `3.0` as `3`).
#[derive(Debug)]
pub enum LiteralValue {
    String(String),
    Number(String),
    Bool(bool),
    Nil,
}

impl Clone for LiteralValue {
    fn clone(&self) -> (r: Self)
        ensures
            r == *self,
    {
        match self {
            LiteralValue::String(s) => LiteralValue::String(s.clone()),
            LiteralValue::Number(s) => LiteralValue::Number(s.clone()),
            LiteralValue::Bool(b) => LiteralValue::Bool(*b),
            LiteralValue::Nil => LiteralValue::Nil,
        }
    }
}

/// One lexical unit: its category, the exact source text it was read from,
/// its constant (for literal-bearing kinds) and the 1-based line it ends on.
#[derive(Debug)]
pub struct Token {
    pub token_type: TokenType,
    pub lexeme: String,
    pub literal: Option<LiteralValue>,
    pub line: u32,
}

impl Clone for Token {
    fn clone(&self) -> (r: Self)
        ensures
            r == *self,
    {
        let literal = match &self.literal {
            Some(v) => Some(v.clone()),
            None => None,
        };
        Token { token_type: self.token_type, lexeme: self.lexeme.clone(), literal, line: self.line }
    }
}

impl Token {
    pub fn new(token_type: TokenType, lexeme: String, literal: Option<LiteralValue>, line: u32) -> (r:
        Self)
        ensures
            r == (Token { token_type, lexeme, literal, line }),
    {
        Self { token_type, lexeme, literal, line }
    }

    pub fn new_not_literal(token_type: TokenType, lexeme: String, line: u32) -> (r: Self)
        ensures
            r == (Token { token_type, lexeme, literal: None, line }),
    {
        Self { token_type, lexeme, literal: None, line }
    }
}

/// Kinds whose tokens carry a constant.
pub open spec fn is_literal_kind(k: TokenType) -> bool {
    k == TokenType::Number || k == TokenType::String || k == TokenType::Nil || k
        == TokenType::True || k == TokenType::False
}

/// The reserved word spelled by `w`, if any (case-sensitive).
pub open spec fn keyword_spec(w: Seq<char>) -> Option<TokenType> {
    if w == "and"@ {
        Some(TokenType::And)
    } else if w == "class"@ {
        Some(TokenType::Class)
    } else if w == "else"@ {
        Some(TokenType::Else)
    } else if w == "false"@ {
        Some(TokenType::False)
    } else if w == "for"@ {
        Some(TokenType::For)
    } else if w == "fun"@ {
        Some(TokenType::Fun)
    } else if w == "if"@ {
        Some(TokenType::If)
    } else if w == "nil"@ {
        Some(TokenType::Nil)
    } else if w == "or"@ {
        Some(TokenType::Or)
    } else if w == "print"@ {
        Some(TokenType::Print)
    } else if w == "return"@ {
        Some(TokenType::Return)
    } else if w == "super"@ {
        Some(TokenType::Super)
    } else if w == "this"@ {
        Some(TokenType::This)
    } else if w == "true"@ {
        Some(TokenType::True)
    } else if w == "var"@ {
        Some(TokenType::Var)
    } else if w == "while"@ {
        Some(TokenType::While)
    } else {
        None
    }
}

/// Whether `s[start..end]` spells exactly `word`.
pub fn span_is(s: &Vec<char>, start: usize, end: usize, word: &str) -> (r: bool)
    requires
        start <= end <= s@.len(),
    ensures
        r == (s@.subrange(start as int, end as int) == word@),
{
    let n = word.unicode_len();
    if end - start != n {
        return false;
    }
    let mut i: usize = 0;
    while i < n
        invariant
            0 <= i <= n,
            n == word@.len(),
            end - start == n,
            start <= end <= s@.len(),
            forall|j: int| 0 <= j < i ==> s@[start + j] == word@[j],
        decreases n - i,
    {
        if s[start + i] != word.get_char(i) {
            assert(s@.subrange(start as int, end as int)[i as int] != word@[i as int]);
            return false;
        }
        i = i + 1;
    }
    assert(s@.subrange(start as int, end as int) =~= word@);
    true
}

/// Looks up the reserved word spelled by `s[start..end]`.
pub fn keyword(s: &Vec<char>, start: usize, end: usize) -> (r: Option<TokenType>)
    requires
        start <= end <= s@.len(),
    ensures
        r == keyword_spec(s@.subrange(start as int, end as int)),
{
    if span_is(s, start, end, "and") {
        Some(TokenType::And)
    } else if span_is(s, start, end, "class") {
        Some(TokenType::Class)
    } else if span_is(s, start, end, "else") {
        Some(TokenType::Else)
    } else if span_is(s, start, end, "false") {
        Some(TokenType::False)
    } else if span_is(s, start, end, "for") {
        Some(TokenType::For)
    } else if span_is(s, start, end, "fun") {
        Some(TokenType::Fun)
    } else if span_is(s, start, end, "if") {
        Some(TokenType::If)
    } else if span_is(s, start, end, "nil") {
        Some(TokenType::Nil)
    } else if span_is(s, start, end, "or") {
        Some(TokenType::Or)
    } else if span_is(s, start, end, "print") {
        Some(TokenType::Print)
    } else if span_is(s, start, end, "return") {
        Some(TokenType::Return)
    } else if span_is(s, start, end, "super") {
        Some(TokenType::Super)
    } else if span_is(s, start, end, "this") {
        Some(TokenType::This)
    } else if span_is(s, start, end, "true") {
        Some(TokenType::True)
    } else if span_is(s, start, end, "var") {
        Some(TokenType::Var)
    } else if span_is(s, start, end, "while") {
        Some(TokenType::While)
    } else {
        None
    }
}

} // verus!
