use vstd::prelude::*;

use crate::ast::{
    precedence_of, ASTBinaryOperator, ASTBinaryOperatorKind, ASTExpression, ASTStatement,
    ASTUnaryOperator, ASTUnaryOperatorKind, Expr, Stmt,
};
use crate::diagnostics::{
    error_at, expected_expression_message, unexpected_token_message, DiagnosticModel,
    DiagnosticsBag,
};
use crate::lexer::{Token, TokenKind, TokenModel};

verus! {

/// A token stream the parser can work on: it ends with `Eof`.
pub open spec fn tokens_wf(ts: Seq<TokenModel>) -> bool {
    ts.len() > 0 && ts.last().kind == TokenKind::Eof
}

/// The tokens of `ts` but its whitespace, in order.
pub open spec fn without_whitespace(ts: Seq<TokenModel>) -> Seq<TokenModel>
    decreases ts.len(),
{
    if ts.len() == 0 {
        ts
    } else if ts.last().kind == TokenKind::Whitespace {
        without_whitespace(ts.drop_last())
    } else {
        without_whitespace(ts.drop_last()).push(ts.last())
    }
}

pub open spec fn binary_operator_kind(kind: TokenKind) -> Option<ASTBinaryOperatorKind> {
    match kind {
        TokenKind::Plus => Some(ASTBinaryOperatorKind::Plus),
        TokenKind::Minus => Some(ASTBinaryOperatorKind::Minus),
        TokenKind::Asterisk => Some(ASTBinaryOperatorKind::Multiply),
        TokenKind::Slash => Some(ASTBinaryOperatorKind::Divide),
        TokenKind::Ampersand => Some(ASTBinaryOperatorKind::BitwiseAnd),
        TokenKind::Pipe => Some(ASTBinaryOperatorKind::BitwiseOr),
        TokenKind::Caret => Some(ASTBinaryOperatorKind::BitwiseXor),
        TokenKind::DoubleAsterisk => Some(ASTBinaryOperatorKind::Power),
        _ => None,
    }
}

pub open spec fn unary_operator_kind(kind: TokenKind) -> Option<ASTUnaryOperatorKind> {
    match kind {
        TokenKind::Plus => Some(ASTUnaryOperatorKind::Plus),
        TokenKind::Minus => Some(ASTUnaryOperatorKind::Minus),
        TokenKind::Tilde => Some(ASTUnaryOperatorKind::BitwiseNot),
        _ => None,
    }
}

/// The position after consuming the token at `pos`: the cursor never moves
/// past the final token.
pub open spec fn next_pos(ts: Seq<TokenModel>, pos: int) -> int {
    if pos + 1 < ts.len() {
        pos + 1
    } else {
        pos
    }
}

/// What parsing leaves behind: a result, the cursor, and the diagnostics.
pub type Parsed<T> = (T, int, Seq<DiagnosticModel>);

/// Consumes the token at `pos`, reporting it when it is not of kind `kind`.
pub open spec fn spec_consume_and_check(
    ts: Seq<TokenModel>,
    pos: int,
    kind: TokenKind,
    ds: Seq<DiagnosticModel>,
) -> Parsed<TokenModel> {
    let t = ts[pos];
    (
        t,
        next_pos(ts, pos),
        if t.kind != kind {
            ds.push(error_at(unexpected_token_message(kind, t.kind), t.span))
        } else {
            ds
        },
    )
}

/// A number, a parenthesized expression or a variable; anything else is
/// reported and stands as an error node.
pub open spec fn spec_parse_primary(
    ts: Seq<TokenModel>,
    pos: int,
    ds: Seq<DiagnosticModel>,
) -> Parsed<Expr>
    decreases ts.len() - pos, 0int,
{
    let t = ts[pos];
    let p1 = next_pos(ts, pos);
    match t.kind {
        TokenKind::Number(n) => (Expr::Number(n), p1, ds),
        TokenKind::Identifier => (Expr::Variable(t), p1, ds),
        TokenKind::LeftParen => {
            if pos < p1 <= ts.len() {
                let (inner, p2, d2) = spec_parse_binary(ts, p1, 0, ds);
                let (_, p3, d3) = spec_consume_and_check(ts, p2, TokenKind::RightParen, d2);
                (Expr::Parenthesized(Box::new(inner)), p3, d3)
            } else {
                (Expr::Error(t.span), p1, ds)
            }
        },
        _ => (Expr::Error(t.span), p1, ds.push(error_at(expected_expression_message(t.kind), t.span))),
    }
}

/// A chain of prefix operators, innermost last, around a primary expression.
pub open spec fn spec_parse_unary(
    ts: Seq<TokenModel>,
    pos: int,
    ds: Seq<DiagnosticModel>,
) -> Parsed<Expr>
    decreases ts.len() - pos, 1int,
{
    let t = ts[pos];
    match unary_operator_kind(t.kind) {
        Some(kind) => {
            let p1 = next_pos(ts, pos);
            if ts[p1].kind == TokenKind::Eof {
                (Expr::Error(t.span), p1, ds.push(error_at(expected_expression_message(t.kind), t.span)))
            } else if pos < p1 <= ts.len() {
                let (operand, p2, d2) = spec_parse_unary(ts, p1, ds);
                (Expr::Unary(kind, t, Box::new(operand)), p2, d2)
            } else {
                (Expr::Error(t.span), p1, ds)
            }
        },
        None => spec_parse_primary(ts, pos, ds),
    }
}

/// Folds `left` with each following binary operator that binds at least as
/// tightly as `min`, left to right.
pub open spec fn spec_climb(
    ts: Seq<TokenModel>,
    left: Expr,
    pos: int,
    min: int,
    ds: Seq<DiagnosticModel>,
) -> Parsed<Expr>
    decreases ts.len() - pos, 2int,
{
    let t = ts[pos];
    match binary_operator_kind(t.kind) {
        Some(kind) => {
            if precedence_of(kind) >= min {
                let p1 = next_pos(ts, pos);
                if pos < p1 <= ts.len() {
                    let (right, p2, d2) = spec_parse_binary(ts, p1, precedence_of(kind) + 1, ds);
                    if p1 <= p2 <= ts.len() {
                        spec_climb(ts, Expr::Binary(kind, t, Box::new(left), Box::new(right)), p2, min, d2)
                    } else {
                        (left, p2, d2)
                    }
                } else {
                    (left, pos, ds)
                }
            } else {
                (left, pos, ds)
            }
        },
        None => (left, pos, ds),
    }
}

/// An expression whose binary operators all bind at least as tightly as `min`.
pub open spec fn spec_parse_binary(
    ts: Seq<TokenModel>,
    pos: int,
    min: int,
    ds: Seq<DiagnosticModel>,
) -> Parsed<Expr>
    decreases ts.len() - pos, 3int,
{
    if 0 <= pos < ts.len() {
        let (left, p1, d1) = spec_parse_unary(ts, pos, ds);
        if pos <= p1 <= ts.len() {
            spec_climb(ts, left, p1, min, d1)
        } else {
            (left, p1, d1)
        }
    } else {
        (Expr::Error(ts[pos].span), pos, ds)
    }
}

pub open spec fn spec_parse_expression(
    ts: Seq<TokenModel>,
    pos: int,
    ds: Seq<DiagnosticModel>,
) -> Parsed<Expr> {
    spec_parse_binary(ts, pos, 0, ds)
}

/// `let`, a name, `=`, an expression; each missing piece is reported.
pub open spec fn spec_parse_let(
    ts: Seq<TokenModel>,
    pos: int,
    ds: Seq<DiagnosticModel>,
) -> Parsed<Stmt> {
    let (_, p1, d1) = spec_consume_and_check(ts, pos, TokenKind::Let, ds);
    let (name, p2, d2) = spec_consume_and_check(ts, p1, TokenKind::Identifier, d1);
    let (_, p3, d3) = spec_consume_and_check(ts, p2, TokenKind::Equals, d2);
    let (init, p4, d4) = spec_parse_expression(ts, p3, d3);
    (Stmt::Let(name, init), p4, d4)
}

pub open spec fn spec_parse_statement(
    ts: Seq<TokenModel>,
    pos: int,
    ds: Seq<DiagnosticModel>,
) -> Parsed<Stmt> {
    if ts[pos].kind == TokenKind::Let {
        spec_parse_let(ts, pos, ds)
    } else {
        let (e, p, d) = spec_parse_expression(ts, pos, ds);
        (Stmt::Expression(e), p, d)
    }
}

/// The statements from `pos` up to `Eof`, and the diagnostics after them.
pub open spec fn spec_parse_program(
    ts: Seq<TokenModel>,
    pos: int,
    ds: Seq<DiagnosticModel>,
) -> (Seq<Stmt>, Seq<DiagnosticModel>)
    decreases ts.len() - pos,
{
    if pos < 0 || pos >= ts.len() || ts[pos].kind == TokenKind::Eof {
        (Seq::empty(), ds)
    } else {
        let (s, p, d) = spec_parse_statement(ts, pos, ds);
        if pos < p <= ts.len() {
            let (rest, d2) = spec_parse_program(ts, p, d);
            (seq![s] + rest, d2)
        } else {
            (seq![s], d)
        }
    }
}

/// A position into the token stream that only moves forward.
pub struct Counter {
    value: usize,
}

impl Counter {
    pub fn new() -> (r: Counter)
        ensures
            r.get() == 0,
    {
        Counter { value: 0 }
    }

    pub closed spec fn get(&self) -> nat {
        self.value as nat
    }

    pub fn increment(&mut self)
        requires
            old(self).get() < usize::MAX,
        ensures
            final(self).get() == old(self).get() + 1,
    {
        self.value = self.value + 1;
    }

    pub fn get_value(&self) -> (r: usize)
        ensures
            r == self.get(),
    {
        self.value
    }
}

pub struct Parser {
    tokens: Vec<Token>,
    current: Counter,
}

impl Parser {
    /// The tokens being parsed.
    pub closed spec fn tokens(&self) -> Seq<TokenModel> {
        self.tokens@.map_values(|t: Token| t@)
    }

    /// The index of the current token.
    pub closed spec fn position(&self) -> int {
        self.current.get() as int
    }

    pub open spec fn wf(&self) -> bool {
        &&& tokens_wf(self.tokens())
        &&& 0 <= self.position() < self.tokens().len()
    }

    /// A parser over `tokens` with its whitespace left out.
    pub fn new(tokens: Vec<Token>) -> (r: Parser)
        requires
            tokens_wf(tokens@.map_values(|t: Token| t@)),
        ensures
            r.wf(),
            r.tokens() == without_whitespace(tokens@.map_values(|t: Token| t@)),
            r.position() == 0,
    {
        let ghost all = tokens@.map_values(|t: Token| t@);
        let mut kept: Vec<Token> = Vec::new();
        let mut i: usize = 0;
        while i < tokens.len()
            invariant
                0 <= i <= tokens.len(),
                all == tokens@.map_values(|t: Token| t@),
                kept@.map_values(|t: Token| t@) == without_whitespace(all.take(i as int)),
            decreases tokens.len() - i,
        {
            let ghost before = kept@.map_values(|t: Token| t@);
            assert(all.take(i + 1).drop_last() =~= all.take(i as int));
            if tokens[i].kind != TokenKind::Whitespace {
                kept.push(tokens[i].clone());
                assert(kept@.map_values(|t: Token| t@) =~= before.push(all[i as int]));
            }
            i = i + 1;
        }
        assert(all.take(all.len() as int) =~= all);
        proof {
            assert(without_whitespace(all) == without_whitespace(all.drop_last()).push(all.last()));
        }
        Parser { tokens: kept, current: Counter::new() }
    }

    /// The next statement, or `None` once the parser stands at `Eof`.
    pub fn next_statement(&mut self, bag: &mut DiagnosticsBag) -> (r: Option<ASTStatement>)
        requires
            old(self).wf(),
        ensures
            final(self).wf(),
            final(self).tokens() == old(self).tokens(),
            old(self).tokens()[old(self).position()].kind == TokenKind::Eof ==> {
                &&& r is None
                &&& final(self).position() == old(self).position()
                &&& final(bag)@ == old(bag)@
            },
            old(self).tokens()[old(self).position()].kind != TokenKind::Eof ==> {
                &&& r is Some
                &&& (r->0@, final(self).position(), final(bag)@) == spec_parse_statement(
                    old(self).tokens(),
                    old(self).position(),
                    old(bag)@,
                )
                &&& final(self).position() > old(self).position()
            },
    {
        if self.is_at_end() {
            return None;
        }
        Some(self.parse_statement(bag))
    }

    fn is_at_end(&self) -> (r: bool)
        requires
            self.wf(),
        ensures
            r == (self.tokens()[self.position()].kind == TokenKind::Eof),
    {
        self.current().kind == TokenKind::Eof
    }

    fn parse_statement(&mut self, bag: &mut DiagnosticsBag) -> (r: ASTStatement)
        requires
            old(self).wf(),
            old(self).tokens()[old(self).position()].kind != TokenKind::Eof,
        ensures
            final(self).wf(),
            final(self).tokens() == old(self).tokens(),
            (r@, final(self).position(), final(bag)@) == spec_parse_statement(
                old(self).tokens(),
                old(self).position(),
                old(bag)@,
            ),
            final(self).position() > old(self).position(),
    {
        if self.current().kind == TokenKind::Let {
            self.parse_let_statement(bag)
        } else {
            self.parse_expression_statement(bag)
        }
    }

    fn parse_expression_statement(&mut self, bag: &mut DiagnosticsBag) -> (r: ASTStatement)
        requires
            old(self).wf(),
            old(self).tokens()[old(self).position()].kind != TokenKind::Eof,
        ensures
            final(self).wf(),
            final(self).tokens() == old(self).tokens(),
            ({
                let (e, p, d) = spec_parse_expression(
                    old(self).tokens(),
                    old(self).position(),
                    old(bag)@,
                );
                r@ == Stmt::Expression(e) && final(self).position() == p && final(bag)@ == d
            }),
            final(self).position() > old(self).position(),
    {
        let expr = self.parse_expression(bag);
        ASTStatement::expression(expr)
    }

    fn parse_let_statement(&mut self, bag: &mut DiagnosticsBag) -> (r: ASTStatement)
        requires
            old(self).wf(),
            old(self).tokens()[old(self).position()].kind == TokenKind::Let,
        ensures
            final(self).wf(),
            final(self).tokens() == old(self).tokens(),
            (r@, final(self).position(), final(bag)@) == spec_parse_let(
                old(self).tokens(),
                old(self).position(),
                old(bag)@,
            ),
            final(self).position() > old(self).position(),
    {
        self.consume_and_check(bag, TokenKind::Let);
        let identifier = self.consume_and_check(bag, TokenKind::Identifier);
        self.consume_and_check(bag, TokenKind::Equals);
        let expr = self.parse_expression(bag);
        ASTStatement::let_statement(identifier, expr)
    }

    fn parse_expression(&mut self, bag: &mut DiagnosticsBag) -> (r: ASTExpression)
        requires
            old(self).wf(),
        ensures
            final(self).wf(),
            final(self).tokens() == old(self).tokens(),
            (r@, final(self).position(), final(bag)@) == spec_parse_expression(
                old(self).tokens(),
                old(self).position(),
                old(bag)@,
            ),
            final(self).position() >= old(self).position(),
            old(self).tokens()[old(self).position()].kind != TokenKind::Eof
                ==> final(self).position() > old(self).position(),
        decreases old(self).tokens@.len() - old(self).current.get(), 4int,
    {
        self.parse_binary_expression(bag, 0)
    }

    fn parse_binary_expression(&mut self, bag: &mut DiagnosticsBag, precedence: u8) -> (r:
        ASTExpression)
        requires
            old(self).wf(),
            precedence <= 4,
        ensures
            final(self).wf(),
            final(self).tokens() == old(self).tokens(),
            (r@, final(self).position(), final(bag)@) == spec_parse_binary(
                old(self).tokens(),
                old(self).position(),
                precedence as int,
                old(bag)@,
            ),
            final(self).position() >= old(self).position(),
            old(self).tokens()[old(self).position()].kind != TokenKind::Eof
                ==> final(self).position() > old(self).position(),
        decreases old(self).tokens@.len() - old(self).current.get(), 3int,
    {
        let ghost ts = self.tokens();
        let ghost start = self.position();
        let ghost d0 = bag@;
        let mut left = self.parse_unary_expression(bag);
        let ghost target = spec_climb(ts, left@, self.position(), precedence as int, bag@);
        assert(target == spec_parse_binary(ts, start, precedence as int, d0));
        loop
            invariant
                self.wf(),
                self.tokens() == ts,
                self.position() >= start,
                ts[start].kind != TokenKind::Eof ==> self.position() > start,
                precedence <= 4,
                spec_climb(ts, left@, self.position(), precedence as int, bag@) == target,
                target == spec_parse_binary(ts, start, precedence as int, d0),
                ts == old(self).tokens(),
                start == old(self).position(),
                d0 == old(bag)@,
            ensures
                self.wf(),
                self.tokens() == ts,
                self.position() >= start,
                ts[start].kind != TokenKind::Eof ==> self.position() > start,
                (left@, self.position(), bag@) == target,
            decreases ts.len() - self.position(),
        {
            let operator = match self.parse_binary_operator() {
                Some(operator) => operator,
                None => break,
            };
            let operator_precedence = operator.precedence();
            if operator_precedence < precedence {
                break;
            }
            self.consume();
            let right = self.parse_binary_expression(bag, operator_precedence + 1);
            left = ASTExpression::binary(operator, left, right);
        }
        left
    }

    fn parse_unary_expression(&mut self, bag: &mut DiagnosticsBag) -> (r: ASTExpression)
        requires
            old(self).wf(),
        ensures
            final(self).wf(),
            final(self).tokens() == old(self).tokens(),
            (r@, final(self).position(), final(bag)@) == spec_parse_unary(
                old(self).tokens(),
                old(self).position(),
                old(bag)@,
            ),
            final(self).position() >= old(self).position(),
            old(self).tokens()[old(self).position()].kind != TokenKind::Eof
                ==> final(self).position() > old(self).position(),
        decreases old(self).tokens@.len() - old(self).current.get(), 1int,
    {
        if let Some(operator) = self.parse_unary_operator() {
            let operator_token = self.consume();
            if self.is_at_end() {
                bag.report_expected_expression(&operator_token);
                return ASTExpression::error(operator_token.span);
            }
            let operand = self.parse_unary_expression(bag);
            return ASTExpression::unary(operator, operand);
        }
        self.parse_primary_expression(bag)
    }

    fn parse_unary_operator(&self) -> (r: Option<ASTUnaryOperator>)
        requires
            self.wf(),
        ensures
            match unary_operator_kind(self.tokens()[self.position()].kind) {
                Some(kind) => r is Some && r->0.kind == kind && r->0.token@ == self.tokens()[self.position()],
                None => r is None,
            },
    {
        let token = self.current();
        let kind = match token.kind {
            TokenKind::Plus => Some(ASTUnaryOperatorKind::Plus),
            TokenKind::Minus => Some(ASTUnaryOperatorKind::Minus),
            TokenKind::Tilde => Some(ASTUnaryOperatorKind::BitwiseNot),
            _ => None,
        };
        match kind {
            Some(kind) => Some(ASTUnaryOperator::new(kind, token.clone())),
            None => None,
        }
    }

    fn parse_binary_operator(&self) -> (r: Option<ASTBinaryOperator>)
        requires
            self.wf(),
        ensures
            match binary_operator_kind(self.tokens()[self.position()].kind) {
                Some(kind) => r is Some && r->0.kind == kind && r->0.token@ == self.tokens()[self.position()],
                None => r is None,
            },
    {
        let token = self.current();
        let kind = match token.kind {
            TokenKind::Plus => Some(ASTBinaryOperatorKind::Plus),
            TokenKind::Minus => Some(ASTBinaryOperatorKind::Minus),
            TokenKind::Asterisk => Some(ASTBinaryOperatorKind::Multiply),
            TokenKind::Slash => Some(ASTBinaryOperatorKind::Divide),
            TokenKind::Ampersand => Some(ASTBinaryOperatorKind::BitwiseAnd),
            TokenKind::Pipe => Some(ASTBinaryOperatorKind::BitwiseOr),
            TokenKind::Caret => Some(ASTBinaryOperatorKind::BitwiseXor),
            TokenKind::DoubleAsterisk => Some(ASTBinaryOperatorKind::Power),
            _ => None,
        };
        match kind {
            Some(kind) => Some(ASTBinaryOperator::new(kind, token.clone())),
            None => None,
        }
    }

    fn parse_primary_expression(&mut self, bag: &mut DiagnosticsBag) -> (r: ASTExpression)
        requires
            old(self).wf(),
        ensures
            final(self).wf(),
            final(self).tokens() == old(self).tokens(),
            (r@, final(self).position(), final(bag)@) == spec_parse_primary(
                old(self).tokens(),
                old(self).position(),
                old(bag)@,
            ),
            final(self).position() >= old(self).position(),
            old(self).tokens()[old(self).position()].kind != TokenKind::Eof
                ==> final(self).position() > old(self).position(),
        decreases old(self).tokens@.len() - old(self).current.get(), 0int,
    {
        let token = self.consume();
        match token.kind {
            TokenKind::Number(number) => ASTExpression::number(number),
            TokenKind::LeftParen => {
                let expr = self.parse_expression(bag);
                self.consume_and_check(bag, TokenKind::RightParen);
                ASTExpression::parenthesized(expr)
            },
            TokenKind::Identifier => ASTExpression::identifier(token),
            _ => {
                bag.report_expected_expression(&token);
                ASTExpression::error(token.span)
            },
        }
    }

    /// The token `offset` places ahead, or the final token where that runs
    /// past the end.
    pub fn peek(&self, offset: usize) -> (r: &Token)
        requires
            self.wf(),
        ensures
            self.position() + offset < self.tokens().len() ==> r@ == self.tokens()[self.position() + offset],
            self.position() + offset >= self.tokens().len() ==> r@ == self.tokens().last(),
    {
        let last = self.tokens.len() - 1;
        let position = self.current.get_value();
        let index = if offset <= last - position {
            position + offset
        } else {
            last
        };
        &self.tokens[index]
    }

    pub fn current(&self) -> (r: &Token)
        requires
            self.wf(),
        ensures
            r@ == self.tokens()[self.position()],
    {
        self.peek(0)
    }

    /// Hands out the current token and moves past it, unless it is the last.
    fn consume(&mut self) -> (r: Token)
        requires
            old(self).wf(),
        ensures
            final(self).wf(),
            final(self).tokens() == old(self).tokens(),
            r@ == old(self).tokens()[old(self).position()],
            final(self).position() == next_pos(old(self).tokens(), old(self).position()),
    {
        let token = self.current().clone();
        if self.current.get_value() < self.tokens.len() - 1 {
            self.current.increment();
        }
        token
    }

    fn consume_and_check(&mut self, bag: &mut DiagnosticsBag, kind: TokenKind) -> (r: Token)
        requires
            old(self).wf(),
        ensures
            final(self).wf(),
            final(self).tokens() == old(self).tokens(),
            (r@, final(self).position(), final(bag)@) == spec_consume_and_check(
                old(self).tokens(),
                old(self).position(),
                kind,
                old(bag)@,
            ),
    {
        let token = self.consume();
        if token.kind != kind {
            bag.report_unexpected_token(&kind, &token);
        }
        token
    }
}

} // verus!
