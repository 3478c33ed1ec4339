use vstd::prelude::*;
use crate::token::{TokenType, Token, is_literal_kind};
use crate::expr::{Expr, LiteralExpr, UnaryExpr, BinaryExpr, GroupingExpr};

verus! {

/// Why a parse failed.
#[derive(Debug, Clone, Copy, PartialEq, Eq, Structural)]
pub enum ParseFailure {
    /// A `(` group was not closed.
    MissingRightParen,
    /// No operand where one was required.
    MissingExpression,
}

/// The outcome of parsing from a position: a tree and the position after it,
/// or the position of the offending token and the reason.
pub enum Parsed {
    Done(Expr, int),
    Fail(int, ParseFailure),
}

/// The token at `i` has kind `k`.
pub open spec fn kind_at(t: Seq<Token>, i: int, k: TokenType) -> bool {
    0 <= i < t.len() && t[i].token_type == k
}

/// The operators of each binary level: 4 equality, 3 comparison, 2 term, 1 factor.
pub open spec fn level_op(level: nat, k: TokenType) -> bool {
    if level == 4 {
        k == TokenType::EqualEqual || k == TokenType::BangEqual
    } else if level == 3 {
        k == TokenType::Less || k == TokenType::LessEqual || k == TokenType::Greater || k
            == TokenType::GreaterEqual
    } else if level == 2 {
        k == TokenType::Minus || k == TokenType::Plus
    } else if level == 1 {
        k == TokenType::Star || k == TokenType::Slash
    } else {
        false
    }
}

/// An operator of `level` stands at `i`.
pub open spec fn op_at(t: Seq<Token>, i: int, level: nat) -> bool {
    0 <= i < t.len() && level_op(level, t[i].token_type)
}

pub open spec fn binary_node(left: Expr, op: Token, right: Expr) -> Expr {
    Expr::Binary(Box::new(BinaryExpr { left, right, operator: op }))
}

/// `expression → equality`.
pub open spec fn parse_expression(t: Seq<Token>, p: int) -> Parsed
    decreases t.len() - p, 5nat, 0nat,
{
    if p < 0 || p > t.len() {
        Parsed::Fail(p, ParseFailure::MissingExpression)
    } else {
        parse_binary(t, p, 4)
    }
}

/// The operand of a binary level: the next level up, or `unary` above factor.
pub open spec fn parse_operand(t: Seq<Token>, p: int, level: nat) -> Parsed
    decreases t.len() - p, level, 2nat,
{
    if p < 0 || p > t.len() {
        Parsed::Fail(p, ParseFailure::MissingExpression)
    } else if level <= 1 {
        parse_unary(t, p)
    } else {
        parse_binary(t, p, (level - 1) as nat)
    }
}

/// A binary level: one operand, then any number of `op operand`, folded to
/// the left.
pub open spec fn parse_binary(t: Seq<Token>, p: int, level: nat) -> Parsed
    decreases t.len() - p, level, 3nat,
{
    if p < 0 || p > t.len() {
        Parsed::Fail(p, ParseFailure::MissingExpression)
    } else {
        match parse_operand(t, p, level) {
            Parsed::Done(e, q) => if p < q <= t.len() {
                fold_binary(t, q, level, e)
            } else {
                Parsed::Fail(p, ParseFailure::MissingExpression)
            },
            f => f,
        }
    }
}

/// The rest of a binary level after `left`, which ends at `q`.
pub open spec fn fold_binary(t: Seq<Token>, q: int, level: nat, left: Expr) -> Parsed
    decreases t.len() - q, level, 1nat,
{
    if q < 0 || q > t.len() {
        Parsed::Fail(q, ParseFailure::MissingExpression)
    } else if op_at(t, q, level) {
        match parse_operand(t, q + 1, level) {
            Parsed::Done(right, q2) => if q < q2 <= t.len() {
                fold_binary(t, q2, level, binary_node(left, t[q], right))
            } else {
                Parsed::Fail(q, ParseFailure::MissingExpression)
            },
            f => f,
        }
    } else {
        Parsed::Done(left, q)
    }
}

/// `unary → ("!" | "-") unary | primary`.
pub open spec fn parse_unary(t: Seq<Token>, p: int) -> Parsed
    decreases t.len() - p, 0nat, 1nat,
{
    if p < 0 || p > t.len() {
        Parsed::Fail(p, ParseFailure::MissingExpression)
    } else if kind_at(t, p, TokenType::Bang) || kind_at(t, p, TokenType::Minus) {
        match parse_unary(t, p + 1) {
            Parsed::Done(right, q) => Parsed::Done(
                Expr::Unary(Box::new(UnaryExpr { operator: t[p], right })),
                q,
            ),
            f => f,
        }
    } else {
        parse_primary(t, p)
    }
}

/// `primary → literal | "(" expression ")"`.
pub open spec fn parse_primary(t: Seq<Token>, p: int) -> Parsed
    decreases t.len() - p, 0nat, 0nat,
{
    if p < 0 || p >= t.len() {
        Parsed::Fail(p, ParseFailure::MissingExpression)
    } else if is_literal_kind(t[p].token_type) {
        Parsed::Done(Expr::Literal(Box::new(LiteralExpr { value: t[p].literal->0 })), p + 1)
    } else if t[p].token_type == TokenType::LeftParen {
        match parse_expression(t, p + 1) {
            Parsed::Done(e, q) => if kind_at(t, q, TokenType::RightParen) {
                Parsed::Done(Expr::Grouping(Box::new(GroupingExpr { expression: e })), q + 1)
            } else {
                Parsed::Fail(q, ParseFailure::MissingRightParen)
            },
            f => f,
        }
    } else {
        Parsed::Fail(p, ParseFailure::MissingExpression)
    }
}

/// The tree of a whole token sequence, if it has one.
pub open spec fn parse_spec(t: Seq<Token>) -> Option<Expr> {
    match parse_expression(t, 0) {
        Parsed::Done(e, _) => Some(e),
        Parsed::Fail(_, _) => None,
    }
}

/// A sequence that holds only `Eof` has no expression: parsing it fails at
/// that token for want of an expression.
pub proof fn lemma_eof_only_fails(t: Seq<Token>)
    requires
        t.len() == 1,
        t[0].token_type == TokenType::Eof,
    ensures
        parse_expression(t, 0) == Parsed::Fail(0, ParseFailure::MissingExpression),
        parse_spec(t) is None,
{
    assert(parse_primary(t, 0) == Parsed::Fail(0, ParseFailure::MissingExpression));
    assert(parse_unary(t, 0) == Parsed::Fail(0, ParseFailure::MissingExpression));
    assert(parse_binary(t, 0, 1) == Parsed::Fail(0, ParseFailure::MissingExpression));
    assert(parse_binary(t, 0, 2) == Parsed::Fail(0, ParseFailure::MissingExpression));
    assert(parse_binary(t, 0, 3) == Parsed::Fail(0, ParseFailure::MissingExpression));
    assert(parse_binary(t, 0, 4) == Parsed::Fail(0, ParseFailure::MissingExpression));
}

} // verus!
