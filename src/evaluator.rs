use vstd::prelude::*;
use vstd::arithmetic::power::*;

use crate::ast::{
    ASTBinaryOperatorKind, ASTExpression, ASTExpressionKind, ASTStatement, ASTStatementKind,
    ASTUnaryOperatorKind, Ast, Expr, Stmt,
};

verus! {

/// Why evaluation stopped.
#[derive(Debug, Clone, Copy, PartialEq, Eq, Structural)]
pub enum EvalError {
    /// The right operand of `/` was zero.
    DivisionByZero,
    /// The result does not fit in an `i64`.
    Overflow,
    /// `**` was given a negative exponent.
    NegativeExponent,
    /// A variable was read before any `let` bound it.
    UndeclaredVariable,
    /// The tree holds an error node left by parsing.
    InvalidExpression,
}

/// The environment: each binding in the order it was made.
pub type Env = Seq<(Seq<char>, i64)>;

/// The value most recently bound to `name`.
pub open spec fn lookup(env: Env, name: Seq<char>) -> Option<i64>
    decreases env.len(),
{
    if env.len() == 0 {
        None
    } else if env.last().0 == name {
        Some(env.last().1)
    } else {
        lookup(env.drop_last(), name)
    }
}

pub open spec fn abs(x: int) -> int {
    if x < 0 {
        -x
    } else {
        x
    }
}

/// Division rounding toward zero.
pub open spec fn truncated_quotient(a: int, b: int) -> int {
    let q = abs(a) / abs(b);
    if (a < 0) == (b < 0) {
        q
    } else {
        -q
    }
}

/// `x` as an `i64`, or `Overflow` where it does not fit.
pub open spec fn checked(x: int) -> Result<i64, EvalError> {
    if i64::MIN <= x <= i64::MAX {
        Ok(x as i64)
    } else {
        Err(EvalError::Overflow)
    }
}

pub open spec fn apply_unary(kind: ASTUnaryOperatorKind, v: i64) -> Result<i64, EvalError> {
    match kind {
        ASTUnaryOperatorKind::Plus => Ok(v),
        ASTUnaryOperatorKind::Minus => checked(-v),
        ASTUnaryOperatorKind::BitwiseNot => Ok(!v),
    }
}

pub open spec fn apply_binary(kind: ASTBinaryOperatorKind, a: i64, b: i64) -> Result<
    i64,
    EvalError,
> {
    match kind {
        ASTBinaryOperatorKind::Plus => checked(a + b),
        ASTBinaryOperatorKind::Minus => checked(a - b),
        ASTBinaryOperatorKind::Multiply => checked(a * b),
        ASTBinaryOperatorKind::Divide => {
            if b == 0 {
                Err(EvalError::DivisionByZero)
            } else {
                checked(truncated_quotient(a as int, b as int))
            }
        },
        ASTBinaryOperatorKind::Power => {
            if b < 0 {
                Err(EvalError::NegativeExponent)
            } else {
                checked(pow(a as int, b as nat))
            }
        },
        ASTBinaryOperatorKind::BitwiseAnd => Ok(a & b),
        ASTBinaryOperatorKind::BitwiseOr => Ok(a | b),
        ASTBinaryOperatorKind::BitwiseXor => Ok(a ^ b),
    }
}

/// The value of `e` in `env`; operands are evaluated left to right and the
/// first failure is the result.
pub open spec fn eval_expr(e: Expr, env: Env) -> Result<i64, EvalError>
    decreases e,
{
    match e {
        Expr::Number(n) => Ok(n),
        Expr::Variable(t) => match lookup(env, t.span.literal) {
            Some(v) => Ok(v),
            None => Err(EvalError::UndeclaredVariable),
        },
        Expr::Unary(kind, _, operand) => match eval_expr(*operand, env) {
            Ok(v) => apply_unary(kind, v),
            Err(err) => Err(err),
        },
        Expr::Binary(kind, _, left, right) => match eval_expr(*left, env) {
            Ok(a) => match eval_expr(*right, env) {
                Ok(b) => apply_binary(kind, a, b),
                Err(err) => Err(err),
            },
            Err(err) => Err(err),
        },
        Expr::Parenthesized(inner) => eval_expr(*inner, env),
        Expr::Error(_) => Err(EvalError::InvalidExpression),
    }
}

/// The environment and last value after running `ss`, or the first failure.
pub open spec fn eval_stmts(ss: Seq<Stmt>, env: Env, last: Option<i64>) -> Result<
    (Env, Option<i64>),
    EvalError,
>
    decreases ss.len(),
{
    if ss.len() == 0 {
        Ok((env, last))
    } else {
        match ss[0] {
            Stmt::Expression(e) => match eval_expr(e, env) {
                Ok(v) => eval_stmts(ss.drop_first(), env, Some(v)),
                Err(err) => Err(err),
            },
            Stmt::Let(name, e) => match eval_expr(e, env) {
                Ok(v) => eval_stmts(ss.drop_first(), env.push((name.span.literal, v)), Some(v)),
                Err(err) => Err(err),
            },
        }
    }
}

/// The value of a program: that of its last statement, `None` when it has
/// none.
pub open spec fn eval_program(ss: Seq<Stmt>) -> Result<Option<i64>, EvalError> {
    match eval_stmts(ss, Seq::empty(), None) {
        Ok((_, last)) => Ok(last),
        Err(err) => Err(err),
    }
}

/// Running a list of statements is running its first, then the rest.
proof fn lemma_eval_stmts_step(ss: Seq<Stmt>, env: Env, last: Option<i64>)
    requires
        ss.len() > 0,
    ensures
        eval_stmts(ss, env, last) == match eval_stmts(seq![ss[0]], env, last) {
            Ok((env1, last1)) => eval_stmts(ss.drop_first(), env1, last1),
            Err(err) => Err(err),
        },
{
    reveal_with_fuel(eval_stmts, 2);
    let one = seq![ss[0]];
    assert(one[0] == ss[0]);
    assert(one.drop_first() =~= Seq::<Stmt>::empty());
}

proof fn lemma_pow_step(b: int, k: nat)
    ensures
        pow(b, k + 1) == b * pow(b, k),
{
    reveal(pow);
}

/// Powers of a base of magnitude at least two grow strictly in magnitude.
proof fn lemma_pow_abs_grows(b: int, k: nat, e: nat)
    requires
        abs(b) >= 2,
        k < e,
    ensures
        abs(pow(b, k)) < abs(pow(b, e)),
        abs(pow(b, k)) >= 1,
    decreases e - k,
{
    lemma_pow_step(b, k);
    lemma_pow_nonzero(b, k);
    let x = pow(b, k);
    assert(abs(b * x) == abs(b) * abs(x)) by (nonlinear_arith);
    assert(abs(b) * abs(x) > abs(x)) by (nonlinear_arith)
        requires
            abs(b) >= 2,
            x != 0,
    ;
    if k + 1 < e {
        lemma_pow_abs_grows(b, k + 1, e);
    }
}

proof fn lemma_pow_nonzero(b: int, k: nat)
    requires
        b != 0,
    ensures
        pow(b, k) != 0,
    decreases k,
{
    reveal(pow);
    if k > 0 {
        lemma_pow_nonzero(b, (k - 1) as nat);
        let x = pow(b, (k - 1) as nat);
        assert(b * x != 0) by (nonlinear_arith)
            requires
                b != 0,
                x != 0,
        ;
    }
}

proof fn lemma_pow_minus_one(e: nat)
    ensures
        pow(-1, e) == if e % 2 == 0 {
            1int
        } else {
            -1int
        },
    decreases e,
{
    reveal(pow);
    if e > 0 {
        lemma_pow_minus_one((e - 1) as nat);
    }
}

/// `base ** exp`, checked.
fn power(base: i64, exp: i64) -> (r: Result<i64, EvalError>)
    ensures
        r == apply_binary(ASTBinaryOperatorKind::Power, base, exp),
{
    if exp < 0 {
        return Err(EvalError::NegativeExponent);
    }
    let ghost e = exp as nat;
    if base == 0 || base == 1 {
        proof {
            if e > 0 {
                lemma0_pow(e);
            }
            lemma1_pow(e);
            lemma_pow0(base as int);
        }
        return if base == 0 && exp > 0 {
            Ok(0)
        } else {
            Ok(1)
        };
    }
    if base == -1 {
        proof {
            lemma_pow_minus_one(e);
        }
        return if exp % 2 == 0 {
            Ok(1)
        } else {
            Ok(-1)
        };
    }
    let mut acc: i64 = 1;
    let mut i: i64 = 0;
    proof {
        lemma_pow0(base as int);
    }
    while i < exp
        invariant
            0 <= i <= exp,
            e == exp as nat,
            abs(base as int) >= 2,
            acc == pow(base as int, i as nat),
        decreases exp - i,
    {
        proof {
            lemma_pow_step(base as int, i as nat);
        }
        match acc.checked_mul(base) {
            Some(next) => {
                acc = next;
            },
            None => {
                proof {
                    let x = pow(base as int, (i + 1) as nat);
                    assert(x > i64::MAX || x < i64::MIN);
                    assert(abs(x) >= 0x8000_0000_0000_0000);
                    if i + 1 < exp {
                        lemma_pow_abs_grows(base as int, (i + 1) as nat, e);
                        assert(abs(pow(base as int, e)) > 0x8000_0000_0000_0000);
                    }
                }
                return Err(EvalError::Overflow);
            },
        }
        i = i + 1;
    }
    Ok(acc)
}

fn apply_binary_operator(kind: ASTBinaryOperatorKind, a: i64, b: i64) -> (r: Result<i64, EvalError>)
    ensures
        r == apply_binary(kind, a, b),
{
    match kind {
        ASTBinaryOperatorKind::Plus => match a.checked_add(b) {
            Some(v) => Ok(v),
            None => Err(EvalError::Overflow),
        },
        ASTBinaryOperatorKind::Minus => match a.checked_sub(b) {
            Some(v) => Ok(v),
            None => Err(EvalError::Overflow),
        },
        ASTBinaryOperatorKind::Multiply => match a.checked_mul(b) {
            Some(v) => Ok(v),
            None => Err(EvalError::Overflow),
        },
        ASTBinaryOperatorKind::Divide => {
            if b == 0 {
                Err(EvalError::DivisionByZero)
            } else {
                match a.checked_div(b) {
                    Some(v) => Ok(v),
                    None => Err(EvalError::Overflow),
                }
            }
        },
        ASTBinaryOperatorKind::Power => power(a, b),
        ASTBinaryOperatorKind::BitwiseAnd => Ok(a & b),
        ASTBinaryOperatorKind::BitwiseOr => Ok(a | b),
        ASTBinaryOperatorKind::BitwiseXor => Ok(a ^ b),
    }
}

fn apply_unary_operator(kind: ASTUnaryOperatorKind, v: i64) -> (r: Result<i64, EvalError>)
    ensures
        r == apply_unary(kind, v),
{
    match kind {
        ASTUnaryOperatorKind::Plus => Ok(v),
        ASTUnaryOperatorKind::Minus => {
            if v == i64::MIN {
                Err(EvalError::Overflow)
            } else {
                Ok(-v)
            }
        },
        ASTUnaryOperatorKind::BitwiseNot => Ok(!v),
    }
}

/// The evaluation pass: walks the tree and computes values in one flat
/// environment.
pub struct ASTEvaluator {
    pub last_value: Option<i64>,
    pub variables: Vec<(String, i64)>,
}

impl ASTEvaluator {
    /// The bindings made so far, in order.
    pub open spec fn env(&self) -> Env {
        self.variables@.map_values(|b: (String, i64)| (b.0@, b.1))
    }

    pub fn new() -> (r: ASTEvaluator)
        ensures
            r.env() == Seq::<(Seq<char>, i64)>::empty(),
            r.last_value is None,
    {
        ASTEvaluator { last_value: None, variables: Vec::new() }
    }

    fn lookup(&self, name: &String) -> (r: Option<i64>)
        ensures
            r == lookup(self.env(), name@),
    {
        let mut i: usize = self.variables.len();
        assert(self.env().take(i as int) =~= self.env());
        while i > 0
            invariant
                i <= self.variables.len(),
                lookup(self.env(), name@) == lookup(self.env().take(i as int), name@),
            decreases i,
        {
            assert(self.env().take(i as int).drop_last() =~= self.env().take(i - 1));
            if self.variables[i - 1].0 == *name {
                return Some(self.variables[i - 1].1);
            }
            i = i - 1;
        }
        None
    }

    /// The value of `expression` in the current environment.
    pub fn evaluate_expression(&self, expression: &ASTExpression) -> (r: Result<i64, EvalError>)
        ensures
            r == eval_expr(expression@, self.env()),
        decreases expression,
    {
        match &expression.kind {
            ASTExpressionKind::Number(number) => Ok(number.number),
            ASTExpressionKind::Variable(variable) => {
                match self.lookup(&variable.identifier.span.literal) {
                    Some(v) => Ok(v),
                    None => Err(EvalError::UndeclaredVariable),
                }
            },
            ASTExpressionKind::Unary(unary) => {
                let v = self.evaluate_expression(&unary.operand)?;
                apply_unary_operator(unary.operator.kind, v)
            },
            ASTExpressionKind::Binary(binary) => {
                let a = self.evaluate_expression(&binary.left)?;
                let b = self.evaluate_expression(&binary.right)?;
                apply_binary_operator(binary.operator.kind, a, b)
            },
            ASTExpressionKind::Parenthesized(parenthesized) => {
                self.evaluate_expression(&parenthesized.expression)
            },
            ASTExpressionKind::Error(_) => Err(EvalError::InvalidExpression),
        }
    }

    /// Runs one statement: its value becomes the last value, and a `let`
    /// binds it to the name.
    pub fn visit_statement(&mut self, statement: &ASTStatement) -> (r: Result<(), EvalError>)
        ensures
            match eval_stmts(seq![statement@], old(self).env(), old(self).last_value) {
                Ok((env, last)) => r is Ok && final(self).env() == env && final(self).last_value
                    == last,
                Err(err) => r == Err::<(), EvalError>(err),
            },
    {
        proof {
            reveal_with_fuel(eval_stmts, 2);
            assert(seq![statement@][0] == statement@);
            assert(seq![statement@].drop_first() =~= Seq::<Stmt>::empty());
        }
        match &statement.kind {
            ASTStatementKind::Expression(expr) => {
                let v = self.evaluate_expression(expr)?;
                self.last_value = Some(v);
            },
            ASTStatementKind::LetStatement(let_statement) => {
                let v = self.evaluate_expression(&let_statement.initializer)?;
                self.variables.push((let_statement.identifier.span.literal.clone(), v));
                self.last_value = Some(v);
                assert(self.env() =~= old(self).env().push((let_statement.identifier.span.literal@, v)));
            },
        }
        Ok(())
    }

    /// Runs every statement of `ast` in order; the value of the last one, or
    /// the first failure.
    pub fn run(&mut self, ast: &Ast) -> (r: Result<Option<i64>, EvalError>)
        ensures
            r == match eval_stmts(ast@, old(self).env(), old(self).last_value) {
                Ok((_, last)) => Ok(last),
                Err(err) => Err::<Option<i64>, EvalError>(err),
            },
    {
        let mut i: usize = 0;
        assert(ast@.skip(0) =~= ast@);
        while i < ast.statements.len()
            invariant
                0 <= i <= ast.statements.len(),
                eval_stmts(ast@, old(self).env(), old(self).last_value) == eval_stmts(
                    ast@.skip(i as int),
                    self.env(),
                    self.last_value,
                ),
            decreases ast.statements.len() - i,
        {
            let ghost rest = ast@.skip(i as int);
            assert(rest[0] == ast.statements[i as int]@);
            assert(rest.drop_first() =~= ast@.skip(i + 1));
            proof {
                lemma_eval_stmts_step(rest, self.env(), self.last_value);
            }
            self.visit_statement(&ast.statements[i])?;
            i = i + 1;
        }
        Ok(self.last_value)
    }
}

} // verus!
