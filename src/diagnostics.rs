use vstd::prelude::*;
use crate::token::{Token, TokenType};

verus! {

pub open spec fn digit_char(d: nat) -> char {
    if d == 0 {
        '0'
    } else if d == 1 {
        '1'
    } else if d == 2 {
        '2'
    } else if d == 3 {
        '3'
    } else if d == 4 {
        '4'
    } else if d == 5 {
        '5'
    } else if d == 6 {
        '6'
    } else if d == 7 {
        '7'
    } else if d == 8 {
        '8'
    } else {
        '9'
    }
}

/// Decimal digits of `n`, most significant first, no leading zeros.
pub open spec fn decimal(n: nat) -> Seq<char>
    decreases n,
{
    if n < 10 {
        seq![digit_char(n)]
    } else {
        decimal(n / 10).push(digit_char(n % 10))
    }
}

/// `[line<n>] Error<position>: <message>`.
pub open spec fn report_text(line: nat, position: Seq<char>, message: Seq<char>) -> Seq<char> {
    "[line"@ + decimal(line) + "] Error"@ + position + ": "@ + message
}

/// Where a parse error stands: ` at end` for `Eof`, else ` at '<lexeme>'`.
pub open spec fn position_text(token: Token) -> Seq<char> {
    if token.token_type == TokenType::Eof {
        " at end"@
    } else {
        " at '"@ + token.lexeme@ + "'"@
    }
}

fn digit_str(d: u32) -> (r: &'static str)
    requires
        d < 10,
    ensures
        r@ == seq![digit_char(d as nat)],
{
    proof {
        reveal_strlit("0");
        reveal_strlit("1");
        reveal_strlit("2");
        reveal_strlit("3");
        reveal_strlit("4");
        reveal_strlit("5");
        reveal_strlit("6");
        reveal_strlit("7");
        reveal_strlit("8");
        reveal_strlit("9");
    }
    let r = if d == 0 {
        "0"
    } else if d == 1 {
        "1"
    } else if d == 2 {
        "2"
    } else if d == 3 {
        "3"
    } else if d == 4 {
        "4"
    } else if d == 5 {
        "5"
    } else if d == 6 {
        "6"
    } else if d == 7 {
        "7"
    } else if d == 8 {
        "8"
    } else {
        "9"
    };
    assert(r@ =~= seq![digit_char(d as nat)]);
    r
}

/// The decimal text of `n`.
pub fn decimal_string(n: u32) -> (r: String)
    ensures
        r@ == decimal(n as nat),
    decreases n,
{
    if n < 10 {
        String::from_str(digit_str(n))
    } else {
        let mut r = decimal_string(n / 10);
        r.append(digit_str(n % 10));
        r
    }
}

/// Renders a diagnostic for `line`, with `position` telling where on it.
pub fn report(line: u32, position: &str, message: &str) -> (r: String)
    ensures
        r@ == report_text(line as nat, position@, message@),
{
    let mut r = String::from_str("[line");
    let digits = decimal_string(line);
    r.append(digits.as_str());
    r.append("] Error");
    r.append(position);
    r.append(": ");
    r.append(message);
    r
}

/// Renders a lexical diagnostic: `[line<n>] Error: <message>`.
pub fn error(line: u32, message: &str) -> (r: String)
    ensures
        r@ == report_text(line as nat, ""@, message@),
{
    report(line, "", message)
}

/// Renders a parse diagnostic, placed at `token`.
pub fn error_token(token: &Token, message: &str) -> (r: String)
    ensures
        r@ == report_text(token.line as nat, position_text(*token), message@),
{
    if token.token_type == TokenType::Eof {
        report(token.line, " at end", message)
    } else {
        let mut position = String::from_str(" at '");
        position.append(token.lexeme.as_str());
        position.append("'");
        report(token.line, position.as_str(), message)
    }
}

} // verus!
