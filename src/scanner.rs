use vstd::prelude::*;
use crate::token::{TokenType, LiteralValue, Token, keyword};
use crate::lexical::{
    lex_error_text, LexErrorKind, LexFault, Lexed, char_at, comment_close, digits_end, find_char, is_alnum, is_alpha,
    is_digit, newlines, number_text, scan_errors, scan_from, scan_spec, step, token_matches,
    tokens_match, trim_fraction, trim_leading_zeros, word_end,
};

verus! {

/// A lexical error: what went wrong and on which line.
#[derive(Debug, Clone, Copy, PartialEq, Eq, Structural)]
pub struct LexError {
    pub line: u32,
    pub kind: LexErrorKind,
}

impl LexErrorKind {
    /// The diagnostic text of this kind of error.
    pub fn message(&self) -> (r: &'static str)
        ensures
            r@ == lex_error_text(*self),
    {
        match self {
            LexErrorKind::UnexpectedCharacter => "Unexpected character.",
            LexErrorKind::UnterminatedString => "string unclosed.",
            LexErrorKind::UnclosedBlockComment => "Block comment unclosed.",
        }
    }
}

/// `es` are the errors `fs`, one for one.
pub open spec fn errors_match(fs: Seq<LexFault>, es: Seq<LexError>) -> bool {
    &&& fs.len() == es.len()
    &&& forall|i: int|
        0 <= i < fs.len() ==> #[trigger] es[i].kind == fs[i].kind && es[i].line as int == fs[i].line
}

/// Single pass over a source text that cuts it into tokens.
pub struct Scanner {
    source: String,
    chars: Vec<char>,
    tokens: Vec<Token>,
    errors: Vec<LexError>,
    start: usize,
    current: usize,
    line: u32,
}

/// `new_ts` is `old_ts` with one more token, which is `l` of text `s`.
spec fn pushed_token(old_ts: Seq<Token>, new_ts: Seq<Token>, s: Seq<char>, l: Lexed) -> bool {
    &&& new_ts.len() == old_ts.len() + 1
    &&& new_ts == old_ts.push(new_ts[old_ts.len() as int])
    &&& token_matches(s, l, new_ts[old_ts.len() as int])
}

impl Scanner {
    /// The text being scanned.
    pub closed spec fn text(&self) -> Seq<char> {
        self.chars@
    }

    /// Nothing has been scanned yet.
    pub closed spec fn ready(&self) -> bool {
        &&& self.wf()
        &&& self.start == 0
        &&& self.current == 0
        &&& self.line == 1
        &&& self.tokens@.len() == 0
        &&& self.errors@.len() == 0
    }

    closed spec fn wf(&self) -> bool {
        &&& self.chars@ == self.source@
        &&& self.chars@.len() < u32::MAX
        &&& self.start <= self.current <= self.chars@.len()
        &&& 1 <= self.line <= self.current + 1
    }

    /// Only the cursor and the line count may differ between `a` and `b`.
    closed spec fn moved(a: Scanner, b: Scanner) -> bool {
        &&& b.source == a.source
        &&& b.chars == a.chars
        &&& b.tokens == a.tokens
        &&& b.errors == a.errors
        &&& b.start == a.start
    }

    /// One scanning step from `old.start` took `old` to `new`.
    closed spec fn stepped(old: Scanner, new: Scanner) -> bool {
        let s = old.chars@;
        let pos = old.start as int;
        let st = step(s, pos, old.line as int);
        &&& new.wf()
        &&& new.source == old.source
        &&& new.chars == old.chars
        &&& new.current == st.next
        &&& old.start < new.current
        &&& new.line == st.line
        &&& match st.token {
            Some(k) => pushed_token(
                old.tokens@,
                new.tokens@,
                s,
                Lexed { kind: k, start: pos, end: st.next, line: st.line },
            ),
            None => new.tokens@ == old.tokens@,
        }
        &&& match st.error {
            Some(e) => new.errors@ == old.errors@.push(LexError { line: st.line as u32, kind: e }),
            None => new.errors@ == old.errors@,
        }
    }

    pub fn new(source: String) -> (r: Self)
        requires
            source@.len() < u32::MAX,
        ensures
            r.ready(),
            r.text() == source@,
    {
        let n = source.as_str().unicode_len();
        let mut chars: Vec<char> = Vec::new();
        let mut i: usize = 0;
        while i < n
            invariant
                n == source@.len(),
                i <= n,
                chars@ == source@.take(i as int),
            decreases n - i,
        {
            chars.push(source.as_str().get_char(i));
            i = i + 1;
            assert(chars@ =~= source@.take(i as int));
        }
        assert(chars@ =~= source@);
        Self { source, chars, tokens: Vec::new(), errors: Vec::new(), start: 0, current: 0, line: 1 }
    }

    /// Cuts the whole text into tokens, ending with `Eof`. Lexical errors do
    /// not stop the scan: the offending text yields no token.
    pub fn scan(self) -> (r: Vec<Token>)
        requires
            self.ready(),
        ensures
            tokens_match(self.text(), scan_spec(self.text()), r@),
    {
        let (tokens, _errors) = self.scan_with_errors();
        tokens
    }

    /// Like `scan`, and also hands back the lexical errors in the order found.
    pub fn scan_with_errors(self) -> (r: (Vec<Token>, Vec<LexError>))
        requires
            self.ready(),
        ensures
            tokens_match(self.text(), scan_spec(self.text()), r.0@),
            errors_match(scan_errors(self.text()), r.1@),
    {
        let mut scanner = self;
        let ghost s = scanner.chars@;
        let ghost all = scan_from(s, 0, 1);
        let ghost mut done_tokens: Seq<Lexed> = Seq::empty();
        let ghost mut done_errors: Seq<LexFault> = Seq::empty();
        assert(done_tokens + all.tokens =~= all.tokens);
        assert(done_errors + all.errors =~= all.errors);
        while !scanner.is_at_end()
            invariant
                scanner.wf(),
                scanner.chars@ == s,
                scanner.start == scanner.current,
                tokens_match(s, done_tokens, scanner.tokens@),
                errors_match(done_errors, scanner.errors@),
                done_tokens + scan_from(s, scanner.current as int, scanner.line as int).tokens == all.tokens,
                done_errors + scan_from(s, scanner.current as int, scanner.line as int).errors == all.errors,
                scan_from(s, scanner.current as int, scanner.line as int).line == all.line,
            decreases s.len() - scanner.current,
        {
            let ghost pos = scanner.current as int;
            let ghost line0 = scanner.line as int;
            let ghost before = scanner.tokens@;
            scanner.scan_token();
            let ghost st = step(s, pos, line0);
            let ghost rest = scan_from(s, st.next, st.line);
            proof {
                match st.token {
                    Some(k) => {
                        let l = Lexed { kind: k, start: pos, end: st.next, line: st.line };
                        assert(done_tokens + (seq![l] + rest.tokens) =~= done_tokens.push(l) + rest.tokens);
                        done_tokens = done_tokens.push(l);
                        assert forall|i: int| 0 <= i < done_tokens.len() implies #[trigger] token_matches(
                            s,
                            done_tokens[i],
                            scanner.tokens@[i],
                        ) by {
                            if i < before.len() {
                                assert(scanner.tokens@[i] == before[i]);
                            }
                        }
                    },
                    None => {},
                }
                match st.error {
                    Some(e) => {
                        let f = LexFault { kind: e, line: st.line };
                        assert(done_errors + (seq![f] + rest.errors) =~= done_errors.push(f) + rest.errors);
                        done_errors = done_errors.push(f);
                    },
                    None => {},
                }
            }
            scanner.start = scanner.current;
        }
        assert(done_tokens =~= all.tokens);
        assert(done_errors =~= all.errors);
        let ghost before = scanner.tokens@;
        scanner.add_token(TokenType::Eof);
        proof {
            let l = Lexed { kind: TokenType::Eof, start: s.len() as int, end: s.len() as int, line: all.line };
            assert(scan_spec(s) == done_tokens.push(l));
            assert forall|i: int| 0 <= i < scan_spec(s).len() implies #[trigger] token_matches(
                s,
                scan_spec(s)[i],
                scanner.tokens@[i],
            ) by {
                if i < before.len() {
                    assert(scanner.tokens@[i] == before[i]);
                }
            }
        }
        (scanner.tokens, scanner.errors)
    }

    /// Scans one token, comment, blank or error, starting at `start`.
    fn scan_token(&mut self)
        requires
            old(self).wf(),
            old(self).start == old(self).current,
            old(self).current < old(self).chars@.len(),
        ensures
            Self::stepped(*old(self), *final(self)),
    {
        proof {
            reveal(step);
        }
        let c = self.advance();
        match c {
            '(' => self.add_token(TokenType::LeftParen),
            ')' => self.add_token(TokenType::RightParen),
            '{' => self.add_token(TokenType::LeftBrace),
            '}' => self.add_token(TokenType::RightBrace),
            ',' => self.add_token(TokenType::Comma),
            '.' => self.add_token(TokenType::Dot),
            '-' => self.add_token(TokenType::Minus),
            '+' => self.add_token(TokenType::Plus),
            ';' => self.add_token(TokenType::SemiColon),
            '*' => self.add_token(TokenType::Star),
            '/' => {
                if self.is_match('/') {
                    while !self.is_at_end() && !self.peek_is('\n')
                        invariant
                            self.wf(),
                            self.source == old(self).source,
                            self.chars == old(self).chars,
                            self.tokens == old(self).tokens,
                            self.errors == old(self).errors,
                            self.start == old(self).start,
                            self.line == old(self).line,
                            self.start + 2 <= self.current,
                            find_char(self.chars@, self.start + 2, '\n') == find_char(
                                self.chars@,
                                self.current as int,
                                '\n',
                            ),
                        decreases self.chars@.len() - self.current,
                    {
                        self.advance();
                    }
                } else if self.is_match('*') {
                    self.block_comment();
                } else {
                    self.add_token(TokenType::Slash);
                }
            },
            '!' => {
                if self.is_match('=') {
                    self.add_token(TokenType::BangEqual);
                } else {
                    self.add_token(TokenType::Bang);
                }
            },
            '=' => {
                if self.is_match('=') {
                    self.add_token(TokenType::EqualEqual);
                } else {
                    self.add_token(TokenType::Equal);
                }
            },
            '<' => {
                if self.is_match('=') {
                    self.add_token(TokenType::LessEqual);
                } else {
                    self.add_token(TokenType::Less);
                }
            },
            '>' => {
                if self.is_match('=') {
                    self.add_token(TokenType::GreaterEqual);
                } else {
                    self.add_token(TokenType::Greater);
                }
            },
            ' ' | '\r' | '\t' => {},
            '\n' => self.line = self.line + 1,
            '"' => self.string(),
            c if Self::is_digit(c) => self.digital(),
            c if Self::is_alpha(c) => self.identifier(),
            _ => self.errors.push(LexError { line: self.line, kind: LexErrorKind::UnexpectedCharacter }),
        }
    }

    /// Reads the rest of a number literal.
    fn digital(&mut self)
        requires
            old(self).wf(),
            old(self).current == old(self).start + 1,
            is_digit(old(self).chars@[old(self).start as int]),
        ensures
            Self::stepped(*old(self), *final(self)),
    {
        proof {
            reveal(step);
        }
        let ghost s = self.chars@;
        while !self.is_at_end() && Self::is_digit(self.chars[self.current])
            invariant
                self.wf(),
                Self::moved(*old(self), *self),
                self.chars@ == s,
                self.line == old(self).line,
                self.start < self.current,
                digits_end(s, self.start + 1) == digits_end(s, self.current as int),
                forall|j: int| self.start <= j < self.current ==> is_digit(s[j]),
            decreases s.len() - self.current,
        {
            self.advance();
        }
        let mut dot: Option<usize> = None;
        if self.peek_is('.') && self.current + 1 < self.chars.len() && Self::is_digit(
            self.chars[self.current + 1],
        ) {
            dot = Some(self.current);
            self.advance();
            let ghost e = self.current;
            while !self.is_at_end() && Self::is_digit(self.chars[self.current])
                invariant
                    self.wf(),
                    Self::moved(*old(self), *self),
                    self.chars@ == s,
                self.chars@ == s,
                self.line == old(self).line,
                    e <= self.current,
                    dot == Some((e - 1) as usize),
                    self.start < e - 1,
                    s[e - 1] == '.',
                    digits_end(s, e as int) == digits_end(s, self.current as int),
                    forall|j: int| self.start <= j < self.current && j != e - 1 ==> is_digit(s[j]),
                decreases s.len() - self.current,
            {
                self.advance();
            }
        }
        let (a, b) = number_span(&self.chars, self.start, dot, self.current);
        let text = String::from_str(self.source.as_str().substring_char(a, b));
        self.add_token_with_literal(TokenType::Number, Some(LiteralValue::Number(text)));
    }

    /// Reads the rest of a string literal, or reports it unterminated.
    fn string(&mut self)
        requires
            old(self).wf(),
            old(self).current == old(self).start + 1,
            old(self).chars@[old(self).start as int] == '"',
        ensures
            Self::stepped(*old(self), *final(self)),
    {
        proof {
            reveal(step);
        }
        let ghost s = self.chars@;
        while !self.is_at_end() && !self.peek_is('"')
            invariant
                self.wf(),
                Self::moved(*old(self), *self),
                self.chars@ == s,
                self.start < self.current,
                find_char(s, self.start + 1, '"') == find_char(s, self.current as int, '"'),
                self.line == old(self).line + newlines(s, self.start + 1, self.current as int),
            decreases s.len() - self.current,
        {
            if self.advance() == '\n' {
                self.line = self.line + 1;
            }
        }
        if self.is_at_end() {
            self.errors.push(LexError { line: self.line, kind: LexErrorKind::UnterminatedString });
            return ;
        }
        self.advance();
        let value = String::from_str(self.source.as_str().substring_char(self.start + 1, self.current - 1));
        let ghost text = s.subrange(self.start as int, self.current as int);
        assert(text.subrange(1, text.len() - 1) =~= s.subrange(self.start + 1, self.current - 1));
        self.add_token_with_literal(TokenType::String, Some(LiteralValue::String(value)));
    }

    /// Reads the rest of an identifier or reserved word.
    fn identifier(&mut self)
        requires
            old(self).wf(),
            old(self).current == old(self).start + 1,
            is_alpha(old(self).chars@[old(self).start as int]),
        ensures
            Self::stepped(*old(self), *final(self)),
    {
        proof {
            reveal(step);
        }
        let ghost s = self.chars@;
        while !self.is_at_end() && Self::is_alphanumeric(self.chars[self.current])
            invariant
                self.wf(),
                Self::moved(*old(self), *self),
                self.chars@ == s,
                self.line == old(self).line,
                self.start < self.current,
                word_end(s, self.start + 1) == word_end(s, self.current as int),
            decreases s.len() - self.current,
        {
            self.advance();
        }
        match keyword(&self.chars, self.start, self.current) {
            Some(TokenType::Nil) => self.add_token_with_literal(TokenType::Nil, Some(LiteralValue::Nil)),
            Some(TokenType::True) => self.add_token_with_literal(
                TokenType::True,
                Some(LiteralValue::Bool(true)),
            ),
            Some(TokenType::False) => self.add_token_with_literal(
                TokenType::False,
                Some(LiteralValue::Bool(false)),
            ),
            Some(k) => {
                proof {
                    assert(k != TokenType::String && k != TokenType::Number);
                }
                self.add_token(k)
            },
            None => self.add_token(TokenType::Identifier),
        }
    }

    /// Skips a block comment, or reports it unclosed.
    fn block_comment(&mut self)
        requires
            old(self).wf(),
            old(self).current == old(self).start + 2,
            old(self).chars@[old(self).start as int] == '/',
            old(self).chars@[old(self).start + 1] == '*',
        ensures
            Self::stepped(*old(self), *final(self)),
    {
        proof {
            reveal(step);
        }
        let ghost s = self.chars@;
        while !self.is_at_end() && !(self.peek_is('*') && self.peek_next_is('/'))
            invariant
                self.wf(),
                Self::moved(*old(self), *self),
                self.chars@ == s,
                self.start + 2 <= self.current,
                comment_close(s, self.start + 2) == comment_close(s, self.current as int),
                self.line == old(self).line + newlines(s, self.start + 2, self.current as int),
            decreases s.len() - self.current,
        {
            if self.advance() == '\n' {
                self.line = self.line + 1;
            }
        }
        if self.is_at_end() {
            self.errors.push(LexError { line: self.line, kind: LexErrorKind::UnclosedBlockComment });
            return ;
        }
        self.advance();
        self.advance();
    }

    fn is_at_end(&self) -> (r: bool)
        ensures
            r == (self.current >= self.chars@.len()),
    {
        self.current >= self.chars.len()
    }

    /// Whether the next unread character is `c`.
    fn peek_is(&self, c: char) -> (r: bool)
        ensures
            r == char_at(self.chars@, self.current as int, c),
    {
        self.current < self.chars.len() && self.chars[self.current] == c
    }

    /// Whether the character after the next one is `c`.
    fn peek_next_is(&self, c: char) -> (r: bool)
        requires
            self.current < usize::MAX,
        ensures
            r == char_at(self.chars@, self.current + 1, c),
    {
        self.current + 1 < self.chars.len() && self.chars[self.current + 1] == c
    }

    fn advance(&mut self) -> (r: char)
        requires
            old(self).wf(),
            old(self).current < old(self).chars@.len(),
        ensures
            r == old(self).chars@[old(self).current as int],
            Self::moved(*old(self), *final(self)),
            final(self).current == old(self).current + 1,
            final(self).line == old(self).line,
    {
        let r = self.chars[self.current];
        self.current = self.current + 1;
        r
    }

    fn is_match(&mut self, c: char) -> (r: bool)
        requires
            old(self).wf(),
        ensures
            r == char_at(old(self).chars@, old(self).current as int, c),
            r ==> Self::moved(*old(self), *final(self)) && final(self).current == old(self).current + 1
                && final(self).line == old(self).line,
            !r ==> *final(self) == *old(self),
    {
        if self.peek_is(c) {
            self.current = self.current + 1;
            true
        } else {
            false
        }
    }

    fn is_digit(c: char) -> (r: bool)
        ensures
            r == is_digit(c),
    {
        '0' <= c && c <= '9'
    }

    fn is_alpha(c: char) -> (r: bool)
        ensures
            r == is_alpha(c),
    {
        ('a' <= c && c <= 'z') || ('A' <= c && c <= 'Z') || c == '_'
    }

    fn is_alphanumeric(c: char) -> (r: bool)
        ensures
            r == is_alnum(c),
    {
        Self::is_digit(c) || Self::is_alpha(c)
    }

    fn add_token(&mut self, token_type: TokenType)
        requires
            old(self).wf(),
        ensures
            final(self).wf(),
            final(self).tokens@ == old(self).tokens@.push(final(self).tokens@.last()),
            final(self).tokens@.last().token_type == token_type,
            final(self).tokens@.last().lexeme@ == old(self).chars@.subrange(
                old(self).start as int,
                old(self).current as int,
            ),
            final(self).tokens@.last().literal is None,
            final(self).tokens@.last().line == old(self).line,
            final(self).errors == old(self).errors,
            final(self).source == old(self).source,
            final(self).chars == old(self).chars,
            final(self).start == old(self).start,
            final(self).current == old(self).current,
            final(self).line == old(self).line,
    {
        self.add_token_with_literal(token_type, None);
    }

    fn add_token_with_literal(&mut self, token_type: TokenType, literal: Option<LiteralValue>)
        requires
            old(self).wf(),
        ensures
            final(self).wf(),
            final(self).tokens@ == old(self).tokens@.push(final(self).tokens@.last()),
            final(self).tokens@.last().token_type == token_type,
            final(self).tokens@.last().lexeme@ == old(self).chars@.subrange(
                old(self).start as int,
                old(self).current as int,
            ),
            final(self).tokens@.last().literal == literal,
            final(self).tokens@.last().line == old(self).line,
            final(self).errors == old(self).errors,
            final(self).source == old(self).source,
            final(self).chars == old(self).chars,
            final(self).start == old(self).start,
            final(self).current == old(self).current,
            final(self).line == old(self).line,
    {
        let lexeme = String::from_str(self.source.as_str().substring_char(self.start, self.current));
        self.tokens.push(Token::new(token_type, lexeme, literal, self.line));
    }
}

/// Where the canonical text of the number lexeme `s[start..end]` lies in it.
/// The lexeme is digits, with one point at `dot` when there is one.
fn number_span(s: &Vec<char>, start: usize, dot: Option<usize>, end: usize) -> (r: (usize, usize))
    requires
        start < end <= s@.len(),
        forall|j: int| start <= j < end && Some(j as usize) != dot ==> is_digit(#[trigger] s@[j]),
        dot matches Some(d) ==> start < d && d + 1 < end && s@[d as int] == '.',
    ensures
        r.0 <= r.1 <= end,
        s@.subrange(r.0 as int, r.1 as int) == number_text(s@.subrange(start as int, end as int)),
{
    let ghost t = s@.subrange(start as int, end as int);
    let mut a = start;
    while a + 1 < end && s[a] == '0' && s[a + 1] != '.'
        invariant
            start <= a < end <= s@.len(),
            trim_leading_zeros(t) == trim_leading_zeros(s@.subrange(a as int, end as int)),
            dot is Some ==> a < dot->0,
            dot is Some ==> s@[dot->0 as int] == '.',
        decreases end - a,
    {
        assert(s@.subrange(a as int, end as int).drop_first() =~= s@.subrange(a + 1, end as int));
        a = a + 1;
    }
    let ghost u = s@.subrange(a as int, end as int);
    assert(trim_leading_zeros(u) == u);
    match dot {
        Some(d) => {
            assert(u[d - a] == '.');
            assert(u.contains('.'));
            let mut b = end;
            while s[b - 1] == '0'
                invariant
                    d < b <= end,
                    a < d,
                    end <= s@.len(),
                    s@[d as int] == '.',
                    trim_fraction(u) == trim_fraction(s@.subrange(a as int, b as int)),
                decreases b,
            {
                assert(s@.subrange(a as int, b as int).drop_last() =~= s@.subrange(a as int, b - 1));
                b = b - 1;
            }
            if s[b - 1] == '.' {
                assert(s@.subrange(a as int, b as int).drop_last() =~= s@.subrange(a as int, b - 1));
                (a, b - 1)
            } else {
                (a, b)
            }
        },
        None => {
            assert(!u.contains('.')) by {
                assert forall|i: int| 0 <= i < u.len() implies u[i] != '.' by {
                    assert(is_digit(s@[a + i]));
                }
            }
            (a, end)
        },
    }
}

} // verus!
