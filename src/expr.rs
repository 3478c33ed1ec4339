use vstd::prelude::*;
use crate::token::{LiteralValue, Token};

verus! {

/// An expression tree. Every node owns its children.
#[derive(Debug)]
pub enum Expr {
    Literal(Box<LiteralExpr>),
    Unary(Box<UnaryExpr>),
    Binary(Box<BinaryExpr>),
    Grouping(Box<GroupingExpr>),
}

#[derive(Debug)]
pub struct LiteralExpr {
    pub value: LiteralValue,
}

#[derive(Debug)]
pub struct UnaryExpr {
    pub operator: Token,
    pub right: Expr,
}

#[derive(Debug)]
pub struct BinaryExpr {
    pub left: Expr,
    pub right: Expr,
    pub operator: Token,
}

#[derive(Debug)]
pub struct GroupingExpr {
    pub expression: Expr,
}

/// A traversal of expression trees that renders each tree as text;
/// `rendering` says what each tree becomes.
pub trait Visitor {
    spec fn rendering(&self, e: Expr) -> Seq<char>;

    /// Renders `expr`, picking the operation for the kind of its root.
    fn visit(&self, expr: &Expr) -> (r: String)
        ensures
            r@ == self.rendering(*expr),
    ;
}

/// One operation per kind of node. A new traversal implements these (and
/// `visit`, which picks among them) without touching `Expr`.
pub trait ExprVisitor: Visitor {

    fn visit_literal(&self, expr: &LiteralExpr) -> (r: String)
        ensures
            r@ == self.rendering(Expr::Literal(Box::new(*expr))),
    ;

    fn visit_unary(&self, expr: &UnaryExpr) -> (r: String)
        ensures
            r@ == self.rendering(Expr::Unary(Box::new(*expr))),
    ;

    fn visit_binary(&self, expr: &BinaryExpr) -> (r: String)
        ensures
            r@ == self.rendering(Expr::Binary(Box::new(*expr))),
    ;

    fn visit_grouping(&self, expr: &GroupingExpr) -> (r: String)
        ensures
            r@ == self.rendering(Expr::Grouping(Box::new(*expr))),
    ;
}

impl Expr {
    /// Renders this tree with `visitor`.
    pub fn visit<V: Visitor>(&self, visitor: &V) -> (r: String)
        ensures
            r@ == visitor.rendering(*self),
    {
        visitor.visit(self)
    }
}

} // verus!
