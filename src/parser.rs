use vstd::prelude::*;
use crate::token::{TokenType, Token, LiteralValue, is_literal_kind};
use crate::expr::{Expr, LiteralExpr, UnaryExpr, BinaryExpr, GroupingExpr};
use crate::grammar::{
    ParseFailure, Parsed, kind_at, parse_binary, parse_expression, parse_operand, parse_primary,
    parse_unary, fold_binary, op_at,
};

verus! {

/// A parse error: the offending token and what was expected there.
#[derive(Debug)]
pub enum ParseErr {
    TokenErr { token: Token, message: &'static str },
    FooErr,
}

/// The diagnostic text of a parse failure.
pub open spec fn failure_text(f: ParseFailure) -> Seq<char> {
    match f {
        ParseFailure::MissingRightParen => "Expect ')' after expression."@,
        ParseFailure::MissingExpression => "Expect expression."@,
    }
}

/// A token sequence the parser can run on: it ends with `Eof`, and every
/// literal-bearing token carries its constant.
pub open spec fn tokens_wf(t: Seq<Token>) -> bool {
    &&& t.len() > 0
    &&& t.last().token_type == TokenType::Eof
    &&& forall|i: int| 0 <= i < t.len() && is_literal_kind(#[trigger] t[i].token_type) ==> t[i].literal is Some
}

/// `r`, with the cursor left at `cur`, is what the grammar gives (`p`).
pub open spec fn outcome(t: Seq<Token>, p: Parsed, r: Result<Expr, ParseErr>, cur: int) -> bool {
    match p {
        Parsed::Done(e, q) => r == Ok::<Expr, ParseErr>(e) && cur == q,
        Parsed::Fail(at, why) => 0 <= at < t.len() && (r matches Err(
            ParseErr::TokenErr { token, message },
        ) && token == t[at] && message@ == failure_text(why)),
    }
}

/// Kinds that begin a statement.
pub open spec fn starts_statement(k: TokenType) -> bool {
    k == TokenType::Class || k == TokenType::Fun || k == TokenType::Var || k == TokenType::For || k
        == TokenType::If || k == TokenType::While || k == TokenType::Print || k == TokenType::Return
}

/// Position `i` is a statement boundary: the end of the tokens, just after a
/// `;`, or at a token that begins a statement.
pub open spec fn at_boundary(t: Seq<Token>, i: int) -> bool {
    i >= t.len() || t[i - 1].token_type == TokenType::SemiColon || starts_statement(t[i].token_type)
}

/// Recursive-descent parser over a token sequence.
pub struct Parser {
    pub tokens: Vec<Token>,
    current: usize,
}

impl Parser {
    /// Index of the next unread token.
    pub closed spec fn position(&self) -> int {
        self.current as int
    }

    /// The tokens being parsed.
    pub closed spec fn token_list(&self) -> Seq<Token> {
        self.tokens@
    }

    pub closed spec fn wf(&self) -> bool {
        &&& tokens_wf(self.tokens@)
        &&& self.current < self.tokens@.len()
    }

    pub fn new(tokens: Vec<Token>) -> (r: Self)
        requires
            tokens_wf(tokens@),
        ensures
            r.wf(),
            r.token_list() == tokens@,
            r.position() == 0,
    {
        Self { tokens, current: 0 }
    }

    /// Parses one expression from the cursor; nothing on the first error.
    pub fn parse(&mut self) -> (r: Option<Expr>)
        requires
            old(self).wf(),
        ensures
            final(self).wf(),
            final(self).token_list() == old(self).token_list(),
            match parse_expression(old(self).token_list(), old(self).position()) {
                Parsed::Done(e, _) => r == Some(e),
                Parsed::Fail(_, _) => r is None,
            },
    {
        match self.expression() {
            Ok(e) => Some(e),
            Err(_) => None,
        }
    }

    pub fn expression(&mut self) -> (r: Result<Expr, ParseErr>)
        requires
            old(self).wf(),
        ensures
            final(self).wf(),
            final(self).token_list() == old(self).token_list(),
            outcome(old(self).token_list(), parse_expression(old(self).token_list(), old(self).position()), r, final(self).position()),
            r is Ok ==> final(self).position() > old(self).position(),
        decreases old(self).token_list().len() - old(self).position(), 7nat,
    {
        self.equality()
    }

    pub fn equality(&mut self) -> (r: Result<Expr, ParseErr>)
        requires
            old(self).wf(),
        ensures
            final(self).wf(),
            final(self).token_list() == old(self).token_list(),
            outcome(old(self).token_list(), parse_binary(old(self).token_list(), old(self).position(), 4), r, final(self).position()),
            r is Ok ==> final(self).position() > old(self).position(),
        decreases old(self).token_list().len() - old(self).position(), 6nat,
    {
        let ghost t = self.tokens@;
        let ghost p = self.current as int;
        let mut expr = match self.comparison() {
            Ok(e) => e,
            Err(e) => return Err(e),
        };
        while self.is_match(&[TokenType::EqualEqual, TokenType::BangEqual])
            invariant
                self.wf(),
                self.tokens@ == t,
                t == old(self).tokens@,
                p == old(self).current,
                p < self.current,
                parse_binary(t, p, 4) == fold_binary(t, self.current as int, 4, expr),
            decreases t.len() - self.current,
        {
            let operator = self.previous().clone();
            let ghost q = self.current - 1;
            proof {
                assert(op_at(t, q, 4));
                assert(parse_operand(t, q + 1, 4) == parse_binary(t, q + 1, 3));
            }
            let right = match self.comparison() {
                Ok(e) => e,
                Err(e) => return Err(e),
            };
            expr = Expr::Binary(Box::new(BinaryExpr { left: expr, right, operator }));
        }
        Ok(expr)
    }

    pub fn comparison(&mut self) -> (r: Result<Expr, ParseErr>)
        requires
            old(self).wf(),
        ensures
            final(self).wf(),
            final(self).token_list() == old(self).token_list(),
            outcome(old(self).token_list(), parse_binary(old(self).token_list(), old(self).position(), 3), r, final(self).position()),
            r is Ok ==> final(self).position() > old(self).position(),
        decreases old(self).token_list().len() - old(self).position(), 5nat,
    {
        let ghost t = self.tokens@;
        let ghost p = self.current as int;
        let mut expr = match self.term() {
            Ok(e) => e,
            Err(e) => return Err(e),
        };
        while self.is_match(&[
            TokenType::Less,
            TokenType::LessEqual,
            TokenType::Greater,
            TokenType::GreaterEqual,
        ])
            invariant
                self.wf(),
                self.tokens@ == t,
                t == old(self).tokens@,
                p == old(self).current,
                p < self.current,
                parse_binary(t, p, 3) == fold_binary(t, self.current as int, 3, expr),
            decreases t.len() - self.current,
        {
            let operator = self.previous().clone();
            let ghost q = self.current - 1;
            proof {
                assert(op_at(t, q, 3));
                assert(parse_operand(t, q + 1, 3) == parse_binary(t, q + 1, 2));
            }
            let right = match self.term() {
                Ok(e) => e,
                Err(e) => return Err(e),
            };
            expr = Expr::Binary(Box::new(BinaryExpr { left: expr, right, operator }));
        }
        Ok(expr)
    }

    pub fn term(&mut self) -> (r: Result<Expr, ParseErr>)
        requires
            old(self).wf(),
        ensures
            final(self).wf(),
            final(self).token_list() == old(self).token_list(),
            outcome(old(self).token_list(), parse_binary(old(self).token_list(), old(self).position(), 2), r, final(self).position()),
            r is Ok ==> final(self).position() > old(self).position(),
        decreases old(self).token_list().len() - old(self).position(), 4nat,
    {
        let ghost t = self.tokens@;
        let ghost p = self.current as int;
        let mut expr = match self.factor() {
            Ok(e) => e,
            Err(e) => return Err(e),
        };
        while self.is_match(&[TokenType::Minus, TokenType::Plus])
            invariant
                self.wf(),
                self.tokens@ == t,
                t == old(self).tokens@,
                p == old(self).current,
                p < self.current,
                parse_binary(t, p, 2) == fold_binary(t, self.current as int, 2, expr),
            decreases t.len() - self.current,
        {
            let operator = self.previous().clone();
            let ghost q = self.current - 1;
            proof {
                assert(op_at(t, q, 2));
                assert(parse_operand(t, q + 1, 2) == parse_binary(t, q + 1, 1));
            }
            let right = match self.factor() {
                Ok(e) => e,
                Err(e) => return Err(e),
            };
            expr = Expr::Binary(Box::new(BinaryExpr { left: expr, right, operator }));
        }
        Ok(expr)
    }

    pub fn factor(&mut self) -> (r: Result<Expr, ParseErr>)
        requires
            old(self).wf(),
        ensures
            final(self).wf(),
            final(self).token_list() == old(self).token_list(),
            outcome(old(self).token_list(), parse_binary(old(self).token_list(), old(self).position(), 1), r, final(self).position()),
            r is Ok ==> final(self).position() > old(self).position(),
        decreases old(self).token_list().len() - old(self).position(), 3nat,
    {
        let ghost t = self.tokens@;
        let ghost p = self.current as int;
        let mut expr = match self.unary() {
            Ok(e) => e,
            Err(e) => return Err(e),
        };
        while self.is_match(&[TokenType::Star, TokenType::Slash])
            invariant
                self.wf(),
                self.tokens@ == t,
                t == old(self).tokens@,
                p == old(self).current,
                p < self.current,
                parse_binary(t, p, 1) == fold_binary(t, self.current as int, 1, expr),
            decreases t.len() - self.current,
        {
            let operator = self.previous().clone();
            let ghost q = self.current - 1;
            proof {
                assert(op_at(t, q, 1));
                assert(parse_operand(t, q + 1, 1) == parse_unary(t, q + 1));
            }
            let right = match self.unary() {
                Ok(e) => e,
                Err(e) => return Err(e),
            };
            expr = Expr::Binary(Box::new(BinaryExpr { left: expr, right, operator }));
        }
        Ok(expr)
    }

    pub fn unary(&mut self) -> (r: Result<Expr, ParseErr>)
        requires
            old(self).wf(),
        ensures
            final(self).wf(),
            final(self).token_list() == old(self).token_list(),
            outcome(old(self).token_list(), parse_unary(old(self).token_list(), old(self).position()), r, final(self).position()),
            r is Ok ==> final(self).position() > old(self).position(),
        decreases old(self).token_list().len() - old(self).position(), 2nat,
    {
        if self.is_match(&[TokenType::Bang, TokenType::Minus]) {
            let operator = self.previous().clone();
            let right = match self.unary() {
                Ok(e) => e,
                Err(e) => return Err(e),
            };
            Ok(Expr::Unary(Box::new(UnaryExpr { operator, right })))
        } else {
            self.primary()
        }
    }

    pub fn primary(&mut self) -> (r: Result<Expr, ParseErr>)
        requires
            old(self).wf(),
        ensures
            final(self).wf(),
            final(self).token_list() == old(self).token_list(),
            outcome(old(self).token_list(), parse_primary(old(self).token_list(), old(self).position()), r, final(self).position()),
            r is Ok ==> final(self).position() > old(self).position(),
        decreases old(self).token_list().len() - old(self).position(), 1nat,
    {
        if self.is_match(
            &[
                TokenType::Number,
                TokenType::String,
                TokenType::Nil,
                TokenType::True,
                TokenType::False,
            ],
        ) {
            let value = match &self.previous().literal {
                Some(v) => v.clone(),
                None => LiteralValue::Nil,
            };
            return Ok(Expr::Literal(Box::new(LiteralExpr { value })));
        }
        if self.is_match(&[TokenType::LeftParen]) {
            let expr = match self.expression() {
                Ok(e) => e,
                Err(e) => return Err(e),
            };
            match self.consume(TokenType::RightParen, "Expect ')' after expression.") {
                Ok(()) => {},
                Err(e) => return Err(e),
            }
            Ok(Expr::Grouping(Box::new(GroupingExpr { expression: expr })))
        } else {
            Err(self.error(self.peek(), "Expect expression."))
        }
    }

    fn error(&self, token: &Token, message: &'static str) -> (r: ParseErr)
        ensures
            r == (ParseErr::TokenErr { token: *token, message }),
    {
        ParseErr::TokenErr { token: token.clone(), message }
    }

    fn consume(&mut self, token_type: TokenType, message: &'static str) -> (r: Result<(), ParseErr>)
        requires
            old(self).wf(),
            token_type != TokenType::Eof,
        ensures
            final(self).wf(),
            final(self).token_list() == old(self).token_list(),
            r is Ok == kind_at(old(self).token_list(), old(self).current as int, token_type),
            r is Ok ==> final(self).current == old(self).current + 1,
            r is Err ==> final(self).current == old(self).current && r == Err::<(), ParseErr>(
                ParseErr::TokenErr { token: old(self).token_list()[old(self).current as int], message },
            ),
    {
        if self.check(token_type) {
            self.advance();
            Ok(())
        } else {
            Err(self.error(self.peek(), message))
        }
    }

    /// Skips at least one token, then on to the next statement boundary.
    pub fn synchronize(&mut self)
        requires
            old(self).wf(),
        ensures
            final(self).token_list() == old(self).token_list(),
            old(self).position() < final(self).position() <= final(self).token_list().len(),
            final(self).position() < final(self).token_list().len() ==> final(self).wf(),
            at_boundary(final(self).token_list(), final(self).position()),
            forall|j: int|
                old(self).position() < j < final(self).position() ==> !at_boundary(
                    final(self).token_list(),
                    j,
                ),
    {
        self.advance();
        while !self.is_at_end()
            invariant
                self.tokens@ == old(self).tokens@,
                tokens_wf(self.tokens@),
                old(self).current < self.current <= self.tokens@.len(),
                forall|j: int| old(self).current < j < self.current ==> !at_boundary(self.tokens@, j),
            decreases self.tokens@.len() - self.current,
        {
            if self.previous().token_type == TokenType::SemiColon {
                return;
            }
            match self.peek().token_type {
                TokenType::Class | TokenType::Fun | TokenType::Var | TokenType::For | TokenType::If
                | TokenType::While | TokenType::Print | TokenType::Return => return,
                _ => {},
            }
            self.advance();
        }
    }

    fn is_match(&mut self, token_types: &[TokenType]) -> (r: bool)
        requires
            old(self).wf(),
            !token_types@.contains(TokenType::Eof),
        ensures
            final(self).wf(),
            final(self).token_list() == old(self).token_list(),
            r == token_types@.contains(old(self).token_list()[old(self).current as int].token_type),
            r ==> final(self).current == old(self).current + 1,
            !r ==> final(self).current == old(self).current,
    {
        let mut i: usize = 0;
        while i < token_types.len()
            invariant
                self.wf(),
                *self == *old(self),
                !token_types@.contains(TokenType::Eof),
                i <= token_types@.len(),
                forall|j: int| 0 <= j < i ==> token_types@[j] != self.tokens@[self.current as int].token_type,
            decreases token_types@.len() - i,
        {
            if self.check(token_types[i]) {
                assert(token_types@[i as int] != TokenType::Eof);
                self.advance();
                return true;
            }
            i = i + 1;
        }
        false
    }

    fn check(&self, token_type: TokenType) -> (r: bool)
        requires
            self.wf(),
        ensures
            r == kind_at(self.tokens@, self.current as int, token_type),
    {
        !self.is_at_end() && self.peek().token_type == token_type
    }

    fn peek(&self) -> (r: &Token)
        requires
            self.current < self.tokens@.len(),
        ensures
            *r == self.tokens@[self.current as int],
    {
        &self.tokens[self.current]
    }

    fn previous(&self) -> (r: &Token)
        requires
            0 < self.current <= self.tokens@.len(),
        ensures
            *r == self.tokens@[self.current - 1],
    {
        &self.tokens[self.current - 1]
    }

    fn advance(&mut self)
        ensures
            final(self).token_list() == old(self).token_list(),
            final(self).current == if old(self).current < old(self).token_list().len() {
                old(self).current + 1
            } else {
                old(self).current as int
            },
    {
        if self.current < self.tokens.len() {
            self.current = self.current + 1;
        }
    }

    fn is_at_end(&self) -> (r: bool)
        ensures
            r == (self.current >= self.tokens@.len()),
    {
        self.current >= self.tokens.len()
    }
}

} // verus!
