use vstd::prelude::*;

use crate::lexer::{Token, TokenModel};
use crate::text::{SpanModel, TextSpan};

verus! {

#[derive(Debug, Clone, Copy, PartialEq, Eq, Structural)]
pub enum ASTUnaryOperatorKind {
    Plus,
    Minus,
    BitwiseNot,
}

#[derive(Debug, Clone, Copy, PartialEq, Eq, Structural)]
pub enum ASTBinaryOperatorKind {
    Plus,
    Minus,
    Multiply,
    Divide,
    Power,
    BitwiseAnd,
    BitwiseOr,
    BitwiseXor,
}

/// How tightly a binary operator binds. The bitwise operators share the
/// lowest band, below the additive ones; `**` binds tightest.
pub open spec fn precedence_of(kind: ASTBinaryOperatorKind) -> u8 {
    match kind {
        ASTBinaryOperatorKind::BitwiseAnd => 0,
        ASTBinaryOperatorKind::BitwiseOr => 0,
        ASTBinaryOperatorKind::BitwiseXor => 0,
        ASTBinaryOperatorKind::Plus => 1,
        ASTBinaryOperatorKind::Minus => 1,
        ASTBinaryOperatorKind::Multiply => 2,
        ASTBinaryOperatorKind::Divide => 2,
        ASTBinaryOperatorKind::Power => 3,
    }
}

/// An expression as a mathematical tree. Operators and names keep the token
/// they were read from.
pub ghost enum Expr {
    Number(i64),
    Variable(TokenModel),
    Unary(ASTUnaryOperatorKind, TokenModel, Box<Expr>),
    Binary(ASTBinaryOperatorKind, TokenModel, Box<Expr>, Box<Expr>),
    Parenthesized(Box<Expr>),
    Error(SpanModel),
}

pub ghost enum Stmt {
    Expression(Expr),
    Let(TokenModel, Expr),
}

pub struct ASTUnaryOperator {
    pub kind: ASTUnaryOperatorKind,
    pub token: Token,
}

impl ASTUnaryOperator {
    pub fn new(kind: ASTUnaryOperatorKind, token: Token) -> (r: ASTUnaryOperator)
        ensures
            r.kind == kind,
            r.token@ == token@,
    {
        ASTUnaryOperator { kind, token }
    }
}

pub struct ASTBinaryOperator {
    pub kind: ASTBinaryOperatorKind,
    pub token: Token,
}

impl ASTBinaryOperator {
    pub fn new(kind: ASTBinaryOperatorKind, token: Token) -> (r: ASTBinaryOperator)
        ensures
            r.kind == kind,
            r.token@ == token@,
    {
        ASTBinaryOperator { kind, token }
    }

    pub fn precedence(&self) -> (r: u8)
        ensures
            r == precedence_of(self.kind),
    {
        match self.kind {
            ASTBinaryOperatorKind::BitwiseAnd => 0,
            ASTBinaryOperatorKind::BitwiseOr => 0,
            ASTBinaryOperatorKind::BitwiseXor => 0,
            ASTBinaryOperatorKind::Plus => 1,
            ASTBinaryOperatorKind::Minus => 1,
            ASTBinaryOperatorKind::Multiply => 2,
            ASTBinaryOperatorKind::Divide => 2,
            ASTBinaryOperatorKind::Power => 3,
        }
    }
}

pub struct ASTNumberExpression {
    pub number: i64,
}

pub struct ASTVariableExpression {
    pub identifier: Token,
}

impl ASTVariableExpression {
    /// The name the variable is referred to by.
    pub fn identifier(&self) -> (r: &str)
        ensures
            r@ == self.identifier.span.literal@,
    {
        self.identifier.span.literal.as_str()
    }
}

pub struct ASTUnaryExpression {
    pub operator: ASTUnaryOperator,
    pub operand: Box<ASTExpression>,
}

pub struct ASTBinaryExpression {
    pub left: Box<ASTExpression>,
    pub operator: ASTBinaryOperator,
    pub right: Box<ASTExpression>,
}

pub struct ASTParenthesizedExpression {
    pub expression: Box<ASTExpression>,
}

pub enum ASTExpressionKind {
    Number(ASTNumberExpression),
    Binary(ASTBinaryExpression),
    Unary(ASTUnaryExpression),
    Parenthesized(ASTParenthesizedExpression),
    Variable(ASTVariableExpression),
    Error(TextSpan),
}

pub struct ASTExpression {
    pub kind: ASTExpressionKind,
}

impl View for ASTExpression {
    type V = Expr;

    open spec fn view(&self) -> Expr
        decreases self,
    {
        match &self.kind {
            ASTExpressionKind::Number(n) => Expr::Number(n.number),
            ASTExpressionKind::Binary(b) => Expr::Binary(
                b.operator.kind,
                b.operator.token@,
                Box::new((*b.left).view()),
                Box::new((*b.right).view()),
            ),
            ASTExpressionKind::Unary(u) => Expr::Unary(
                u.operator.kind,
                u.operator.token@,
                Box::new((*u.operand).view()),
            ),
            ASTExpressionKind::Parenthesized(p) => Expr::Parenthesized(
                Box::new((*p.expression).view()),
            ),
            ASTExpressionKind::Variable(v) => Expr::Variable(v.identifier@),
            ASTExpressionKind::Error(span) => Expr::Error(span@),
        }
    }
}

impl ASTExpression {
    pub fn new(kind: ASTExpressionKind) -> (r: ASTExpression)
        ensures
            r.kind == kind,
    {
        ASTExpression { kind }
    }

    pub fn number(number: i64) -> (r: ASTExpression)
        ensures
            r@ == Expr::Number(number),
    {
        ASTExpression::new(ASTExpressionKind::Number(ASTNumberExpression { number }))
    }

    pub fn binary(operator: ASTBinaryOperator, left: ASTExpression, right: ASTExpression) -> (r:
        ASTExpression)
        ensures
            r@ == Expr::Binary(
                operator.kind,
                operator.token@,
                Box::new(left@),
                Box::new(right@),
            ),
    {
        ASTExpression::new(
            ASTExpressionKind::Binary(
                ASTBinaryExpression { left: Box::new(left), operator, right: Box::new(right) },
            ),
        )
    }

    pub fn unary(operator: ASTUnaryOperator, operand: ASTExpression) -> (r: ASTExpression)
        ensures
            r@ == Expr::Unary(operator.kind, operator.token@, Box::new(operand@)),
    {
        ASTExpression::new(
            ASTExpressionKind::Unary(ASTUnaryExpression { operator, operand: Box::new(operand) }),
        )
    }

    pub fn parenthesized(expression: ASTExpression) -> (r: ASTExpression)
        ensures
            r@ == Expr::Parenthesized(Box::new(expression@)),
    {
        ASTExpression::new(
            ASTExpressionKind::Parenthesized(
                ASTParenthesizedExpression { expression: Box::new(expression) },
            ),
        )
    }

    pub fn identifier(identifier: Token) -> (r: ASTExpression)
        ensures
            r@ == Expr::Variable(identifier@),
    {
        ASTExpression::new(ASTExpressionKind::Variable(ASTVariableExpression { identifier }))
    }

    pub fn error(span: TextSpan) -> (r: ASTExpression)
        ensures
            r@ == Expr::Error(span@),
    {
        ASTExpression::new(ASTExpressionKind::Error(span))
    }
}

pub struct ASTLetStatement {
    pub identifier: Token,
    pub initializer: ASTExpression,
}

pub enum ASTStatementKind {
    Expression(ASTExpression),
    LetStatement(ASTLetStatement),
}

pub struct ASTStatement {
    pub kind: ASTStatementKind,
}

impl View for ASTStatement {
    type V = Stmt;

    open spec fn view(&self) -> Stmt {
        match &self.kind {
            ASTStatementKind::Expression(e) => Stmt::Expression(e@),
            ASTStatementKind::LetStatement(l) => Stmt::Let(l.identifier@, l.initializer@),
        }
    }
}

impl ASTStatement {
    pub fn new(kind: ASTStatementKind) -> (r: ASTStatement)
        ensures
            r.kind == kind,
    {
        ASTStatement { kind }
    }

    pub fn expression(expr: ASTExpression) -> (r: ASTStatement)
        ensures
            r@ == Stmt::Expression(expr@),
    {
        ASTStatement::new(ASTStatementKind::Expression(expr))
    }

    pub fn let_statement(identifier: Token, initializer: ASTExpression) -> (r: ASTStatement)
        ensures
            r@ == Stmt::Let(identifier@, initializer@),
    {
        ASTStatement::new(ASTStatementKind::LetStatement(ASTLetStatement { identifier, initializer }))
    }
}

/// A parsed program: its statements in source order.
pub struct Ast {
    pub statements: Vec<ASTStatement>,
}

impl View for Ast {
    type V = Seq<Stmt>;

    open spec fn view(&self) -> Seq<Stmt> {
        self.statements@.map_values(|s: ASTStatement| s@)
    }
}

impl Ast {
    pub fn new() -> (r: Ast)
        ensures
            r@ == Seq::<Stmt>::empty(),
    {
        Ast { statements: Vec::new() }
    }

    pub fn add_statement(&mut self, statement: ASTStatement)
        ensures
            final(self)@ == old(self)@.push(statement@),
    {
        self.statements.push(statement);
        assert(final(self)@ =~= old(self)@.push(statement@));
    }
}

} // verus!
