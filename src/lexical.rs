use vstd::prelude::*;
use crate::token::{TokenType, LiteralValue, Token, keyword_spec};

verus! {

pub open spec fn is_digit(c: char) -> bool {
    '0' <= c && c <= '9'
}

pub open spec fn is_alpha(c: char) -> bool {
    ('a' <= c && c <= 'z') || ('A' <= c && c <= 'Z') || c == '_'
}

pub open spec fn is_alnum(c: char) -> bool {
    is_digit(c) || is_alpha(c)
}

/// `s[i] == c`, false outside the text.
pub open spec fn char_at(s: Seq<char>, i: int, c: char) -> bool {
    0 <= i < s.len() && s[i] == c
}

/// Number of line feeds in `s[a..b]`.
pub open spec fn newlines(s: Seq<char>, a: int, b: int) -> nat
    decreases b - a,
{
    if b <= a {
        0
    } else {
        newlines(s, a, b - 1) + if s[b - 1] == '\n' { 1nat } else { 0nat }
    }
}

/// First index from `i` on that does not hold a digit.
pub open spec fn digits_end(s: Seq<char>, i: int) -> int
    decreases s.len() - i,
{
    if 0 <= i < s.len() && is_digit(s[i]) {
        digits_end(s, i + 1)
    } else {
        i
    }
}

/// First index from `i` on that does not hold a letter, digit or `_`.
pub open spec fn word_end(s: Seq<char>, i: int) -> int
    decreases s.len() - i,
{
    if 0 <= i < s.len() && is_alnum(s[i]) {
        word_end(s, i + 1)
    } else {
        i
    }
}

/// First index from `i` on that holds `c`, or the length of the text.
pub open spec fn find_char(s: Seq<char>, i: int, c: char) -> int
    decreases s.len() - i,
{
    if 0 <= i < s.len() && s[i] != c {
        find_char(s, i + 1, c)
    } else if i < s.len() {
        i
    } else {
        s.len() as int
    }
}

/// First index from `i` on where `*/` starts, or the length of the text.
pub open spec fn comment_close(s: Seq<char>, i: int) -> int
    decreases s.len() - i,
{
    if 0 <= i < s.len() && !(s[i] == '*' && char_at(s, i + 1, '/')) {
        comment_close(s, i + 1)
    } else if i < s.len() {
        i
    } else {
        s.len() as int
    }
}

/// End of a number literal that starts at `pos`: a digit run, then a point
/// and a second digit run only when a digit follows the point.
pub open spec fn number_end(s: Seq<char>, pos: int) -> int {
    let e = digits_end(s, pos + 1);
    if char_at(s, e, '.') && e + 1 < s.len() && is_digit(s[e + 1]) {
        digits_end(s, e + 1)
    } else {
        e
    }
}

/// The kinds of lexical error.
#[derive(Debug, Clone, Copy, PartialEq, Eq, Structural)]
pub enum LexErrorKind {
    UnexpectedCharacter,
    UnterminatedString,
    UnclosedBlockComment,
}

/// The diagnostic text of a kind of lexical error.
pub open spec fn lex_error_text(k: LexErrorKind) -> Seq<char> {
    match k {
        LexErrorKind::UnexpectedCharacter => "Unexpected character."@,
        LexErrorKind::UnterminatedString => "string unclosed."@,
        LexErrorKind::UnclosedBlockComment => "Block comment unclosed."@,
    }
}

/// What one scanning step at a position does: the kind of the token it emits
/// (spanning from that position to `next`), the error it reports, where it
/// stops and the line count after it.
pub struct LexStep {
    pub token: Option<TokenType>,
    pub error: Option<LexErrorKind>,
    pub next: int,
    pub line: int,
}

pub open spec fn emit(k: TokenType, next: int, line: int) -> LexStep {
    LexStep { token: Some(k), error: None, next, line }
}

pub open spec fn skip(next: int, line: int) -> LexStep {
    LexStep { token: None, error: None, next, line }
}

pub open spec fn fail(e: LexErrorKind, next: int, line: int) -> LexStep {
    LexStep { token: None, error: Some(e), next, line }
}

/// One- or two-character operator: `two` when `=` follows, else `one`.
pub open spec fn with_equal(s: Seq<char>, pos: int, line: int, one: TokenType, two: TokenType) -> LexStep {
    if char_at(s, pos + 1, '=') {
        emit(two, pos + 2, line)
    } else {
        emit(one, pos + 1, line)
    }
}

pub open spec fn single_kind(c: char) -> Option<TokenType> {
    if c == '(' {
        Some(TokenType::LeftParen)
    } else if c == ')' {
        Some(TokenType::RightParen)
    } else if c == '{' {
        Some(TokenType::LeftBrace)
    } else if c == '}' {
        Some(TokenType::RightBrace)
    } else if c == ',' {
        Some(TokenType::Comma)
    } else if c == '.' {
        Some(TokenType::Dot)
    } else if c == '-' {
        Some(TokenType::Minus)
    } else if c == '+' {
        Some(TokenType::Plus)
    } else if c == ';' {
        Some(TokenType::SemiColon)
    } else if c == '*' {
        Some(TokenType::Star)
    } else {
        None
    }
}

/// The scanning step at `pos` (which must be inside the text), with `line`
/// the line count before it.
#[verifier::opaque]
pub open spec fn step(s: Seq<char>, pos: int, line: int) -> LexStep {
    let c = s[pos];
    if single_kind(c) is Some {
        emit(single_kind(c)->0, pos + 1, line)
    } else if c == '/' {
        if char_at(s, pos + 1, '/') {
            skip(find_char(s, pos + 2, '\n'), line)
        } else if char_at(s, pos + 1, '*') {
            let close = comment_close(s, pos + 2);
            if close < s.len() {
                skip(close + 2, line + newlines(s, pos + 2, close))
            } else {
                fail(LexErrorKind::UnclosedBlockComment, s.len() as int, line + newlines(s, pos + 2, close))
            }
        } else {
            emit(TokenType::Slash, pos + 1, line)
        }
    } else if c == '!' {
        with_equal(s, pos, line, TokenType::Bang, TokenType::BangEqual)
    } else if c == '=' {
        with_equal(s, pos, line, TokenType::Equal, TokenType::EqualEqual)
    } else if c == '<' {
        with_equal(s, pos, line, TokenType::Less, TokenType::LessEqual)
    } else if c == '>' {
        with_equal(s, pos, line, TokenType::Greater, TokenType::GreaterEqual)
    } else if c == ' ' || c == '\r' || c == '\t' {
        skip(pos + 1, line)
    } else if c == '\n' {
        skip(pos + 1, line + 1)
    } else if c == '"' {
        let close = find_char(s, pos + 1, '"');
        if close < s.len() {
            emit(TokenType::String, close + 1, line + newlines(s, pos + 1, close))
        } else {
            fail(LexErrorKind::UnterminatedString, s.len() as int, line + newlines(s, pos + 1, close))
        }
    } else if is_digit(c) {
        emit(TokenType::Number, number_end(s, pos), line)
    } else if is_alpha(c) {
        let end = word_end(s, pos + 1);
        match keyword_spec(s.subrange(pos, end)) {
            Some(k) => emit(k, end, line),
            None => emit(TokenType::Identifier, end, line),
        }
    } else {
        fail(LexErrorKind::UnexpectedCharacter, pos + 1, line)
    }
}

/// A token as the scanner finds it: kind, the span `[start, end)` of the text
/// it was read from, and its line.
pub struct Lexed {
    pub kind: TokenType,
    pub start: int,
    pub end: int,
    pub line: int,
}

/// A lexical error and the line it was reported on.
pub struct LexFault {
    pub kind: LexErrorKind,
    pub line: int,
}

/// Everything scanning finds from a position to the end of the text.
pub struct Scanned {
    pub tokens: Seq<Lexed>,
    pub errors: Seq<LexFault>,
    pub line: int,
}

pub open spec fn scan_from(s: Seq<char>, pos: int, line: int) -> Scanned
    decreases s.len() - pos,
{
    if pos < 0 || pos >= s.len() {
        Scanned { tokens: Seq::empty(), errors: Seq::empty(), line }
    } else {
        let st = step(s, pos, line);
        if st.next <= pos || st.next > s.len() {
            Scanned { tokens: Seq::empty(), errors: Seq::empty(), line }
        } else {
            let rest = scan_from(s, st.next, st.line);
            let tokens = match st.token {
                Some(k) => seq![Lexed { kind: k, start: pos, end: st.next, line: st.line }] + rest.tokens,
                None => rest.tokens,
            };
            let errors = match st.error {
                Some(e) => seq![LexFault { kind: e, line: st.line }] + rest.errors,
                None => rest.errors,
            };
            Scanned { tokens, errors, line: rest.line }
        }
    }
}

/// The tokens of a whole text: what scanning finds, then `Eof` on the last line.
pub open spec fn scan_spec(s: Seq<char>) -> Seq<Lexed> {
    let r = scan_from(s, 0, 1);
    r.tokens.push(Lexed { kind: TokenType::Eof, start: s.len() as int, end: s.len() as int, line: r.line })
}

/// The lexical errors of a whole text, in order.
pub open spec fn scan_errors(s: Seq<char>) -> Seq<LexFault> {
    scan_from(s, 0, 1).errors
}

/// Drops leading zeros that stand before another digit.
pub open spec fn trim_leading_zeros(t: Seq<char>) -> Seq<char>
    decreases t.len(),
{
    if t.len() > 1 && t[0] == '0' && t[1] != '.' {
        trim_leading_zeros(t.drop_first())
    } else {
        t
    }
}

/// Drops trailing zeros of a fraction, then the point if nothing is left after it.
pub open spec fn trim_fraction(t: Seq<char>) -> Seq<char>
    decreases t.len(),
{
    if t.len() > 0 && t.last() == '0' {
        trim_fraction(t.drop_last())
    } else if t.len() > 0 && t.last() == '.' {
        t.drop_last()
    } else {
        t
    }
}

/// The canonical decimal text of a number lexeme.
pub open spec fn number_text(t: Seq<char>) -> Seq<char> {
    let u = trim_leading_zeros(t);
    if u.contains('.') {
        trim_fraction(u)
    } else {
        u
    }
}

/// The constant a token of kind `k` read from `text` carries.
pub open spec fn literal_matches(k: TokenType, text: Seq<char>, lit: Option<LiteralValue>) -> bool {
    match k {
        TokenType::String => lit matches Some(LiteralValue::String(v)) && v@ == text.subrange(
            1,
            text.len() - 1,
        ),
        TokenType::Number => lit matches Some(LiteralValue::Number(v)) && v@ == number_text(text),
        TokenType::True => lit == Some(LiteralValue::Bool(true)),
        TokenType::False => lit == Some(LiteralValue::Bool(false)),
        TokenType::Nil => lit == Some(LiteralValue::Nil),
        _ => lit is None,
    }
}

/// `t` is the token `l` of text `s`.
pub open spec fn token_matches(s: Seq<char>, l: Lexed, t: Token) -> bool {
    &&& t.token_type == l.kind
    &&& t.lexeme@ == s.subrange(l.start, l.end)
    &&& t.line == l.line
    &&& literal_matches(l.kind, s.subrange(l.start, l.end), t.literal)
}

pub open spec fn tokens_match(s: Seq<char>, ls: Seq<Lexed>, ts: Seq<Token>) -> bool {
    &&& ls.len() == ts.len()
    &&& forall|i: int| 0 <= i < ls.len() ==> #[trigger] token_matches(s, ls[i], ts[i])
}

proof fn lemma_newlines_split(s: Seq<char>, a: int, b: int, c: int)
    requires
        a <= b <= c,
    ensures
        newlines(s, a, c) == newlines(s, a, b) + newlines(s, b, c),
    decreases c - b,
{
    if c > b {
        lemma_newlines_split(s, a, b, c - 1);
    }
}

proof fn lemma_no_newlines(s: Seq<char>, a: int, b: int)
    requires
        a <= b,
        forall|j: int| a <= j < b ==> s[j] != '\n',
    ensures
        newlines(s, a, b) == 0,
    decreases b - a,
{
    if b > a {
        lemma_no_newlines(s, a, b - 1);
    }
}

proof fn lemma_digits_end(s: Seq<char>, i: int)
    requires
        0 <= i <= s.len(),
    ensures
        i <= digits_end(s, i) <= s.len(),
        forall|j: int| i <= j < digits_end(s, i) ==> is_digit(s[j]),
    decreases s.len() - i,
{
    if i < s.len() && is_digit(s[i]) {
        lemma_digits_end(s, i + 1);
    }
}

proof fn lemma_word_end(s: Seq<char>, i: int)
    requires
        0 <= i <= s.len(),
    ensures
        i <= word_end(s, i) <= s.len(),
        forall|j: int| i <= j < word_end(s, i) ==> is_alnum(s[j]),
    decreases s.len() - i,
{
    if i < s.len() && is_alnum(s[i]) {
        lemma_word_end(s, i + 1);
    }
}

proof fn lemma_find_char(s: Seq<char>, i: int, c: char)
    requires
        0 <= i <= s.len(),
    ensures
        i <= find_char(s, i, c) <= s.len(),
        find_char(s, i, c) < s.len() ==> s[find_char(s, i, c)] == c,
        forall|j: int| i <= j < find_char(s, i, c) ==> s[j] != c,
    decreases s.len() - i,
{
    if i < s.len() && s[i] != c {
        lemma_find_char(s, i + 1, c);
    }
}

proof fn lemma_comment_close(s: Seq<char>, i: int)
    requires
        0 <= i <= s.len(),
    ensures
        i <= comment_close(s, i) <= s.len(),
        comment_close(s, i) < s.len() ==> s[comment_close(s, i)] == '*' && char_at(
            s,
            comment_close(s, i) + 1,
            '/',
        ),
    decreases s.len() - i,
{
    if i < s.len() && !(s[i] == '*' && char_at(s, i + 1, '/')) {
        lemma_comment_close(s, i + 1);
    }
}

/// A step moves forward, counts the line feeds it passes, and never emits `Eof`.
proof fn lemma_step(s: Seq<char>, pos: int, line: int)
    requires
        0 <= pos < s.len(),
    ensures
        pos < step(s, pos, line).next <= s.len(),
        step(s, pos, line).line == line + newlines(s, pos, step(s, pos, line).next),
        step(s, pos, line).token != Some(TokenType::Eof),
{
    reveal(step);
    let c = s[pos];
    let st = step(s, pos, line);
    assert(newlines(s, pos, pos) == 0);
    if single_kind(c) is Some {
        assert(newlines(s, pos, pos + 1) == 0);
    } else if c == '/' {
        if char_at(s, pos + 1, '/') {
            lemma_find_char(s, pos + 2, '\n');
            lemma_no_newlines(s, pos, st.next);
        } else if char_at(s, pos + 1, '*') {
            lemma_comment_close(s, pos + 2);
            let close = comment_close(s, pos + 2);
            lemma_no_newlines(s, pos, pos + 2);
            lemma_newlines_split(s, pos, pos + 2, close);
            if close < s.len() {
                lemma_no_newlines(s, close, close + 2);
                lemma_newlines_split(s, pos, close, close + 2);
            }
        } else {
            assert(newlines(s, pos, pos + 1) == 0);
        }
    } else if c == '!' || c == '=' || c == '<' || c == '>' {
        lemma_no_newlines(s, pos, st.next);
    } else if c == ' ' || c == '\r' || c == '\t' || c == '\n' {
        assert(newlines(s, pos, pos + 1) == (if c == '\n' { 1nat } else { 0nat }));
    } else if c == '"' {
        lemma_find_char(s, pos + 1, '"');
        let close = find_char(s, pos + 1, '"');
        lemma_no_newlines(s, pos, pos + 1);
        lemma_newlines_split(s, pos, pos + 1, close);
        if close < s.len() {
            lemma_no_newlines(s, close, close + 1);
            lemma_newlines_split(s, pos, close, close + 1);
        }
    } else if is_digit(c) {
        lemma_digits_end(s, pos + 1);
        let e = digits_end(s, pos + 1);
        if char_at(s, e, '.') && e + 1 < s.len() && is_digit(s[e + 1]) {
            lemma_digits_end(s, e + 1);
        }
        lemma_no_newlines(s, pos, st.next);
    } else if is_alpha(c) {
        lemma_word_end(s, pos + 1);
        lemma_no_newlines(s, pos, st.next);
    } else {
        assert(newlines(s, pos, pos + 1) == 0);
    }
}

/// Tokens that are not `Eof`, each read from a non-empty stretch of
/// `[lo, hi)`.
pub open spec fn spans_within(ts: Seq<Lexed>, lo: int, hi: int) -> bool {
    forall|i: int|
        0 <= i < ts.len() ==> (#[trigger] ts[i]).kind != TokenType::Eof && lo <= ts[i].start
            < ts[i].end <= hi
}

/// Each token's stretch ends before any later one's starts.
pub open spec fn spans_in_order(ts: Seq<Lexed>) -> bool {
    forall|i: int, j: int| 0 <= i < j < ts.len() ==> (#[trigger] ts[i]).end <= (#[trigger] ts[j]).start
}

proof fn lemma_prepend_span(l: Lexed, rest: Seq<Lexed>, lo: int, hi: int)
    requires
        l.kind != TokenType::Eof,
        lo <= l.start < l.end <= hi,
        spans_within(rest, l.end, hi),
        spans_in_order(rest),
    ensures
        spans_within(seq![l] + rest, lo, hi),
        spans_in_order(seq![l] + rest),
{
    let ts = seq![l] + rest;
    assert forall|i: int, j: int| 0 <= i < j < ts.len() implies (#[trigger] ts[i]).end <= (
    #[trigger] ts[j]).start by {
        assert(ts[j] == rest[j - 1]);
        if i > 0 {
            assert(ts[i] == rest[i - 1]);
        }
    }
    assert forall|i: int| 0 <= i < ts.len() implies (#[trigger] ts[i]).kind != TokenType::Eof && lo
        <= ts[i].start < ts[i].end <= hi by {
        if i > 0 {
            assert(ts[i] == rest[i - 1]);
        }
    }
}

/// What scanning finds from `pos`: the line count at the end, and tokens read
/// one after another from the text after `pos`.
proof fn lemma_scan_from(s: Seq<char>, pos: int, line: int)
    requires
        0 <= pos <= s.len(),
    ensures
        scan_from(s, pos, line).line == line + newlines(s, pos, s.len() as int),
        spans_within(scan_from(s, pos, line).tokens, pos, s.len() as int),
        spans_in_order(scan_from(s, pos, line).tokens),
    decreases s.len() - pos,
{
    if pos < s.len() {
        lemma_step(s, pos, line);
        let st = step(s, pos, line);
        lemma_scan_from(s, st.next, st.line);
        lemma_newlines_split(s, pos, st.next, s.len() as int);
        let rest = scan_from(s, st.next, st.line);
        if st.token is Some {
            let l = Lexed { kind: st.token->0, start: pos, end: st.next, line: st.line };
            lemma_prepend_span(l, rest.tokens, pos, s.len() as int);
        } else {
            assert(spans_within(rest.tokens, pos, s.len() as int));
        }
    }
}

/// Scanning any text yields a non-empty sequence that ends with the one and
/// only `Eof` token, which stands on the last line: one more than the number
/// of line feeds in the text.
pub proof fn lemma_scan_ends_with_eof(s: Seq<char>)
    ensures
        scan_spec(s).len() > 0,
        scan_spec(s).last().kind == TokenType::Eof,
        scan_spec(s).last().line == 1 + newlines(s, 0, s.len() as int),
        forall|i: int| 0 <= i < scan_spec(s).len() - 1 ==> (#[trigger] scan_spec(s)[i]).kind != TokenType::Eof,
{
    lemma_scan_from(s, 0, 1);
    let r = scan_from(s, 0, 1);
    assert forall|i: int| 0 <= i < scan_spec(s).len() - 1 implies (#[trigger] scan_spec(s)[i]).kind
        != TokenType::Eof by {
        assert(scan_spec(s)[i] == r.tokens[i]);
    }
}

/// Every token but the final `Eof` is read from `[start, end)`, a non-empty
/// stretch of the text, and these stretches follow one another in order
/// without overlapping; `Eof` stands at the end of the text.
pub proof fn lemma_token_spans(s: Seq<char>)
    ensures
        spans_within(scan_spec(s).drop_last(), 0, s.len() as int),
        spans_in_order(scan_spec(s).drop_last()),
        scan_spec(s).last().start == s.len(),
        scan_spec(s).last().end == s.len(),
{
    lemma_scan_from(s, 0, 1);
    assert(scan_spec(s).drop_last() =~= scan_from(s, 0, 1).tokens);
}

} // verus!
