use lox::expr::{BinaryExpr, Expr, ExprVisitor, GroupingExpr, LiteralExpr, UnaryExpr, Visitor};
use lox::token::{LiteralValue, Token, TokenType};
use lox::visitors::{AstVisitor, PrintVisitor, RpnVisitor};

fn number(text: &str) -> Expr {
    Expr::Literal(Box::new(LiteralExpr { value: LiteralValue::Number(text.to_owned()) }))
}

#[test]
fn print_visitor_test() {
    // 1
    let one = number("1");
    // 2
    let two = number("2");
    // 1 + 2
    let b = Expr::Binary(Box::new(BinaryExpr {
        left: one,
        right: two,
        operator: Token::new_not_literal(TokenType::Plus, "+".to_owned(), 1),
    }));
    // (1 + 2)
    let g = Expr::Grouping(Box::new(GroupingExpr { expression: b }));
    // - (1 + 2)
    let u = Expr::Unary(Box::new(UnaryExpr {
        operator: Token::new_not_literal(TokenType::Minus, "-".to_owned(), 1),
        right: g,
    }));

    assert_eq!(u.visit(&PrintVisitor), "- ( 1 + 2 ) ");
}

#[test]
fn rpn_test() {
    let one = number("1");
    let two = number("2");
    let three = number("3");
    let four = number("4");
    // (1 + 2)
    let a = Expr::Grouping(Box::new(GroupingExpr {
        expression: Expr::Binary(Box::new(BinaryExpr {
            left: one,
            right: two,
            operator: Token::new_not_literal(TokenType::Plus, "+".to_owned(), 1),
        })),
    }));
    // (4 - 3)
    let b = Expr::Grouping(Box::new(GroupingExpr {
        expression: Expr::Binary(Box::new(BinaryExpr {
            left: four,
            right: three,
            operator: Token::new_not_literal(TokenType::Plus, "-".to_owned(), 1),
        })),
    }));
    // (1 + 2) * (4 - 3)
    let c = Expr::Binary(Box::new(BinaryExpr {
        left: a,
        right: b,
        operator: Token::new_not_literal(TokenType::Star, "*".to_owned(), 1),
    }));

    assert_eq!(c.visit(&RpnVisitor), "1 2 + 4 3 - * ");
}

#[test]
fn sexpr_of_literals_and_unary() {
    let t = Expr::Literal(Box::new(LiteralExpr { value: LiteralValue::Bool(true) }));
    assert_eq!(t.visit(&AstVisitor), "true");
    let n = Expr::Literal(Box::new(LiteralExpr { value: LiteralValue::Nil }));
    assert_eq!(n.visit(&AstVisitor), "nil");
    let s = Expr::Literal(Box::new(LiteralExpr { value: LiteralValue::String("hi".to_owned()) }));
    assert_eq!(AstVisitor.visit(&s), "hi");
    let u = Expr::Unary(Box::new(UnaryExpr {
        operator: Token::new_not_literal(TokenType::Bang, "!".to_owned(), 1),
        right: Expr::Literal(Box::new(LiteralExpr { value: LiteralValue::Bool(false) })),
    }));
    assert_eq!(u.visit(&AstVisitor), "(! false)");
    assert_eq!(u.visit(&RpnVisitor), "false ! ");
    assert_eq!(u.visit(&PrintVisitor), "! false ");
}

#[test]
fn visit_parts_directly() {
    let lit = LiteralExpr { value: LiteralValue::Number("2.5".to_owned()) };
    assert_eq!(PrintVisitor.visit_literal(&lit), "2.5 ");
    assert_eq!(RpnVisitor.visit_literal(&lit), "2.5 ");
    assert_eq!(AstVisitor.visit_literal(&lit), "2.5");
    let g = GroupingExpr { expression: number("7") };
    assert_eq!(AstVisitor.visit_grouping(&g), "(Group 7)");
    assert_eq!(RpnVisitor.visit_grouping(&g), "7 ");
    assert_eq!(PrintVisitor.visit_grouping(&g), "( 7 ) ");
}
