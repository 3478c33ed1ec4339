use vstd::prelude::*;
use crate::expr::{BinaryExpr, Expr, ExprVisitor, GroupingExpr, LiteralExpr, UnaryExpr, Visitor};
use crate::token::LiteralValue;

verus! {

/// The text of a constant: a string as it is, a number in its canonical
/// decimal form, `true`, `false` or `nil`.
pub open spec fn literal_text(v: LiteralValue) -> Seq<char> {
    match v {
        LiteralValue::String(s) => s@,
        LiteralValue::Number(t) => t@,
        LiteralValue::Bool(b) => if b {
            "true"@
        } else {
            "false"@
        },
        LiteralValue::Nil => "nil"@,
    }
}

/// Infix rendering: each literal followed by a space, operators followed by
/// a space, groups as `( ... ) `.
pub open spec fn print_text(e: Expr) -> Seq<char>
    decreases e,
{
    match e {
        Expr::Literal(l) => literal_text(l.value) + " "@,
        Expr::Unary(u) => u.operator.lexeme@ + " "@ + print_text(u.right),
        Expr::Binary(b) => print_text(b.left) + b.operator.lexeme@ + " "@ + print_text(b.right),
        Expr::Grouping(g) => "( "@ + print_text(g.expression) + ")"@ + " "@,
    }
}

/// Reverse-Polish rendering: operands first, then the operator; every item
/// followed by a space; groups add nothing.
pub open spec fn rpn_text(e: Expr) -> Seq<char>
    decreases e,
{
    match e {
        Expr::Literal(l) => literal_text(l.value) + " "@,
        Expr::Unary(u) => rpn_text(u.right) + u.operator.lexeme@ + " "@,
        Expr::Binary(b) => rpn_text(b.left) + rpn_text(b.right) + b.operator.lexeme@ + " "@,
        Expr::Grouping(g) => rpn_text(g.expression),
    }
}

/// Each part preceded by a space.
pub open spec fn spaced(parts: Seq<Seq<char>>) -> Seq<char>
    decreases parts.len(),
{
    if parts.len() == 0 {
        Seq::empty()
    } else {
        spaced(parts.drop_last()) + " "@ + parts.last()
    }
}

/// `(name part1 part2 ...)`.
pub open spec fn parenthesized(name: Seq<char>, parts: Seq<Seq<char>>) -> Seq<char> {
    "("@ + name + spaced(parts) + ")"@
}

/// S-expression rendering: literals bare, operators as `(op a b)`, groups as
/// `(Group e)`.
pub open spec fn sexpr_text(e: Expr) -> Seq<char>
    decreases e,
{
    match e {
        Expr::Literal(l) => literal_text(l.value),
        Expr::Unary(u) => parenthesized(u.operator.lexeme@, seq![sexpr_text(u.right)]),
        Expr::Binary(b) => parenthesized(b.operator.lexeme@, seq![sexpr_text(b.left), sexpr_text(b.right)]),
        Expr::Grouping(g) => parenthesized("Group"@, seq![sexpr_text(g.expression)]),
    }
}

fn literal_string(v: &LiteralValue) -> (r: String)
    ensures
        r@ == literal_text(*v),
{
    match v {
        LiteralValue::String(s) => s.clone(),
        LiteralValue::Number(t) => t.clone(),
        LiteralValue::Bool(b) => if *b {
            String::from_str("true")
        } else {
            String::from_str("false")
        },
        LiteralValue::Nil => String::from_str("nil"),
    }
}

/// Renders trees in infix form.
pub struct PrintVisitor;

impl Visitor for PrintVisitor {
    open spec fn rendering(&self, e: Expr) -> Seq<char> {
        print_text(e)
    }

    fn visit(&self, expr: &Expr) -> (r: String)
        decreases expr,
    {
        match expr {
            Expr::Literal(v) => self.visit_literal(v),
            Expr::Unary(v) => self.visit_unary(v),
            Expr::Binary(v) => self.visit_binary(v),
            Expr::Grouping(v) => self.visit_grouping(v),
        }
    }
}

impl ExprVisitor for PrintVisitor {

    fn visit_literal(&self, expr: &LiteralExpr) -> (r: String)
        decreases expr,
    {
        let mut r = literal_string(&expr.value);
        r.append(" ");
        r
    }

    fn visit_unary(&self, expr: &UnaryExpr) -> (r: String)
        decreases expr,
    {
        let mut r = expr.operator.lexeme.clone();
        r.append(" ");
        let right = self.visit(&expr.right);
        r.append(right.as_str());
        r
    }

    fn visit_binary(&self, expr: &BinaryExpr) -> (r: String)
        decreases expr,
    {
        let mut r = self.visit(&expr.left);
        r.append(expr.operator.lexeme.as_str());
        r.append(" ");
        let right = self.visit(&expr.right);
        r.append(right.as_str());
        r
    }

    fn visit_grouping(&self, expr: &GroupingExpr) -> (r: String)
        decreases expr,
    {
        let mut r = String::from_str("( ");
        let inner = self.visit(&expr.expression);
        r.append(inner.as_str());
        r.append(")");
        r.append(" ");
        r
    }
}

/// Renders trees as S-expressions.
pub struct AstVisitor;

impl Visitor for AstVisitor {
    open spec fn rendering(&self, e: Expr) -> Seq<char> {
        sexpr_text(e)
    }

    fn visit(&self, expr: &Expr) -> (r: String)
        decreases expr,
    {
        match expr {
            Expr::Literal(v) => self.visit_literal(v),
            Expr::Unary(v) => self.visit_unary(v),
            Expr::Binary(v) => self.visit_binary(v),
            Expr::Grouping(v) => self.visit_grouping(v),
        }
    }
}

impl ExprVisitor for AstVisitor {

    fn visit_literal(&self, expr: &LiteralExpr) -> (r: String)
        decreases expr,
    {
        literal_string(&expr.value)
    }

    fn visit_unary(&self, expr: &UnaryExpr) -> (r: String)
        decreases expr,
    {
        let right = self.visit(&expr.right);
        let parts = vec![right];
        proof {
            assert(parts@.map_values(|p: String| p@) =~= seq![sexpr_text(expr.right)]);
        }
        Self::parenthesize(expr.operator.lexeme.as_str(), &parts)
    }

    fn visit_binary(&self, expr: &BinaryExpr) -> (r: String)
        decreases expr,
    {
        let left = self.visit(&expr.left);
        let right = self.visit(&expr.right);
        let parts = vec![left, right];
        proof {
            assert(parts@.map_values(|p: String| p@) =~= seq![sexpr_text(expr.left), sexpr_text(expr.right)]);
        }
        Self::parenthesize(expr.operator.lexeme.as_str(), &parts)
    }

    fn visit_grouping(&self, expr: &GroupingExpr) -> (r: String)
        decreases expr,
    {
        let inner = self.visit(&expr.expression);
        let parts = vec![inner];
        proof {
            assert(parts@.map_values(|p: String| p@) =~= seq![sexpr_text(expr.expression)]);
        }
        Self::parenthesize("Group", &parts)
    }
}

impl AstVisitor {
    /// `(name part1 part2 ...)` from already rendered parts.
    fn parenthesize(name: &str, parts: &Vec<String>) -> (r: String)
        ensures
            r@ == parenthesized(name@, parts@.map_values(|p: String| p@)),
    {
        let ghost views = parts@.map_values(|p: String| p@);
        let mut r = String::from_str("(");
        r.append(name);
        let mut i: usize = 0;
        while i < parts.len()
            invariant
                i <= parts@.len(),
                views == parts@.map_values(|p: String| p@),
                r@ == "("@ + name@ + spaced(views.take(i as int)),
            decreases parts@.len() - i,
        {
            r.append(" ");
            r.append(parts[i].as_str());
            proof {
                assert(views.take(i + 1).drop_last() =~= views.take(i as int));
                assert(r@ =~= "("@ + name@ + spaced(views.take(i + 1)));
            }
            i = i + 1;
        }
        assert(views.take(i as int) =~= views);
        r.append(")");
        r
    }
}

/// Renders trees in reverse-Polish notation.
pub struct RpnVisitor;

impl Visitor for RpnVisitor {
    open spec fn rendering(&self, e: Expr) -> Seq<char> {
        rpn_text(e)
    }

    fn visit(&self, expr: &Expr) -> (r: String)
        decreases expr,
    {
        match expr {
            Expr::Literal(v) => self.visit_literal(v),
            Expr::Unary(v) => self.visit_unary(v),
            Expr::Binary(v) => self.visit_binary(v),
            Expr::Grouping(v) => self.visit_grouping(v),
        }
    }
}

impl ExprVisitor for RpnVisitor {

    fn visit_literal(&self, expr: &LiteralExpr) -> (r: String)
        decreases expr,
    {
        let mut r = literal_string(&expr.value);
        r.append(" ");
        r
    }

    fn visit_unary(&self, expr: &UnaryExpr) -> (r: String)
        decreases expr,
    {
        let mut r = self.visit(&expr.right);
        r.append(expr.operator.lexeme.as_str());
        r.append(" ");
        r
    }

    fn visit_binary(&self, expr: &BinaryExpr) -> (r: String)
        decreases expr,
    {
        let mut r = self.visit(&expr.left);
        let right = self.visit(&expr.right);
        r.append(right.as_str());
        r.append(expr.operator.lexeme.as_str());
        r.append(" ");
        r
    }

    fn visit_grouping(&self, expr: &GroupingExpr) -> (r: String)
        decreases expr,
    {
        self.visit(&expr.expression)
    }
}

} // verus!
