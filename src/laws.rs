use vstd::prelude::*;

use crate::ast::{precedence_of, ASTBinaryOperatorKind, ASTUnaryOperatorKind, Expr, Stmt};
use crate::diagnostics::DiagnosticModel;
use crate::evaluator::{eval_expr, eval_program, Env, EvalError};
use crate::lexer::{eof_token, TokenKind, TokenModel};
use crate::parser::{
    binary_operator_kind, next_pos, spec_climb, spec_parse_binary,
    spec_parse_expression, spec_parse_primary, spec_parse_program, spec_parse_unary, tokens_wf,
    unary_operator_kind,
};
use crate::text::SpanModel;

verus! {

/// The tree of `n` prefix minus signs, read from `ts[pos..pos + n]`, around
/// `inner`: the first sign is the outermost.
pub open spec fn minus_chain(ts: Seq<TokenModel>, pos: int, n: nat, inner: Expr) -> Expr
    decreases n,
{
    if n == 0 {
        inner
    } else {
        Expr::Unary(
            ASTUnaryOperatorKind::Minus,
            ts[pos],
            Box::new(minus_chain(ts, pos + 1, (n - 1) as nat, inner)),
        )
    }
}

/// A run of prefix operators parses right-associatively: `n` minus signs
/// followed by a number give `n` nested negations around that number, the
/// first sign outermost, and parsing stops right after the number.
pub proof fn lemma_unary_chain_parses_nested(
    ts: Seq<TokenModel>,
    pos: int,
    n: nat,
    ds: Seq<DiagnosticModel>,
)
    requires
        tokens_wf(ts),
        0 <= pos,
        pos + n < ts.len(),
        forall|i: int| pos <= i < pos + n ==> (#[trigger] ts[i]).kind == TokenKind::Minus,
        ts[pos + n].kind is Number,
    ensures
        spec_parse_unary(ts, pos, ds) == (
            minus_chain(ts, pos, n, Expr::Number(ts[pos + n].kind->Number_0)),
            pos + n + 1,
            ds,
        ),
    decreases n,
{
    assert(ts[ts.len() - 1].kind == TokenKind::Eof);
    if n > 0 {
        assert(ts[pos].kind == TokenKind::Minus);
        assert(ts[pos + 1].kind != TokenKind::Eof);
        lemma_unary_chain_parses_nested(ts, pos + 1, (n - 1) as nat, ds);
    } else {
        assert(pos + 1 < ts.len());
        assert(spec_parse_unary(ts, pos, ds) == spec_parse_primary(ts, pos, ds));
    }
}

/// Each minus sign flips the sign: an even number of them gives the value
/// back, an odd number its negation (for any value but `i64::MIN`, whose
/// negation does not fit).
pub proof fn lemma_minus_chain_flips_sign(
    ts: Seq<TokenModel>,
    pos: int,
    n: nat,
    v: i64,
    env: Env,
)
    requires
        v > i64::MIN,
    ensures
        eval_expr(minus_chain(ts, pos, n, Expr::Number(v)), env) == Ok::<i64, EvalError>(
            if n % 2 == 0 {
                v
            } else {
                (-v) as i64
            },
        ),
    decreases n,
{
    if n > 0 {
        lemma_minus_chain_flips_sign(ts, pos + 1, (n - 1) as nat, v, env);
    }
}

/// Dividing by an operand that evaluates to zero is a failure of its own
/// kind, never a value.
pub proof fn lemma_division_by_zero_fails(
    token: TokenModel,
    left: Expr,
    right: Expr,
    env: Env,
)
    requires
        eval_expr(left, env) is Ok,
        eval_expr(right, env) == Ok::<i64, EvalError>(0),
    ensures
        eval_expr(
            Expr::Binary(ASTBinaryOperatorKind::Divide, token, Box::new(left), Box::new(right)),
            env,
        ) == Err::<i64, EvalError>(EvalError::DivisionByZero),
{
}

/// A token of kind `kind` with an empty span.
pub open spec fn bare_token(kind: TokenKind) -> TokenModel {
    TokenModel { kind, span: SpanModel { start: 0, end: 0, literal: Seq::empty() } }
}

/// The tokens an expression is printed as: numbers and parentheses as bare
/// tokens, each binary operator as the token it was read from.
pub open spec fn expr_tokens(e: Expr) -> Seq<TokenModel>
    decreases e,
{
    match e {
        Expr::Number(n) => seq![bare_token(TokenKind::Number(n))],
        Expr::Binary(_, t, left, right) => expr_tokens(*left) + seq![t] + expr_tokens(*right),
        Expr::Parenthesized(inner) => seq![bare_token(TokenKind::LeftParen)] + expr_tokens(*inner)
            + seq![bare_token(TokenKind::RightParen)],
        _ => Seq::empty(),
    }
}

/// `e` is built of numbers, binary operators and parentheses only, and each
/// operator's operands are arranged as precedence and left associativity
/// require when `e` stands where operators binding at least as tightly as
/// `min` are read: a left operand binds at least as tightly as its operator,
/// a right operand strictly more tightly.
pub open spec fn well_formed_arithmetic(e: Expr, min: int) -> bool
    decreases e,
{
    match e {
        Expr::Number(_) => true,
        Expr::Parenthesized(inner) => well_formed_arithmetic(*inner, 0),
        Expr::Binary(kind, t, left, right) => {
            &&& binary_operator_kind(t.kind) == Some(kind)
            &&& precedence_of(kind) >= min
            &&& well_formed_arithmetic(*left, precedence_of(kind) as int)
            &&& well_formed_arithmetic(*right, precedence_of(kind) + 1)
        },
        _ => false,
    }
}

/// The operand at the bottom of the left spine of `e`.
pub open spec fn leftmost_operand(e: Expr) -> Expr
    decreases e,
{
    match e {
        Expr::Binary(_, _, left, _) => leftmost_operand(*left),
        _ => e,
    }
}

/// `s` sits in `ts` from `pos` on.
pub open spec fn tokens_at(ts: Seq<TokenModel>, pos: int, s: Seq<TokenModel>) -> bool {
    &&& 0 <= pos
    &&& pos + s.len() <= ts.len()
    &&& forall|i: int| 0 <= i < s.len() ==> ts[pos + i] == #[trigger] s[i]
}

/// The token at `pos` does not continue an expression whose operators bind
/// at least as tightly as `min`.
pub open spec fn stops_at(ts: Seq<TokenModel>, pos: int, min: int) -> bool {
    match binary_operator_kind(ts[pos].kind) {
        Some(kind) => precedence_of(kind) < min,
        None => true,
    }
}

proof fn lemma_tokens_at_split(ts: Seq<TokenModel>, pos: int, a: Seq<TokenModel>, b: Seq<TokenModel>)
    requires
        tokens_at(ts, pos, a + b),
    ensures
        tokens_at(ts, pos, a),
        tokens_at(ts, pos + a.len(), b),
{
    assert forall|i: int| 0 <= i < a.len() implies ts[pos + i] == #[trigger] a[i] by {
        assert((a + b)[i] == a[i]);
    }
    assert forall|i: int| 0 <= i < b.len() implies ts[pos + a.len() + i] == #[trigger] b[i] by {
        assert((a + b)[a.len() + i] == b[i]);
    }
}

proof fn lemma_expr_tokens_nonempty(e: Expr, min: int)
    requires
        well_formed_arithmetic(e, min),
    ensures
        expr_tokens(e).len() > 0,
    decreases e,
{
    match e {
        Expr::Binary(kind, _, left, _) => {
            lemma_expr_tokens_nonempty(*left, precedence_of(kind) as int)
        },
        _ => {},
    }
}

proof fn lemma_well_formed_weakens(e: Expr, min: int, lower: int)
    requires
        well_formed_arithmetic(e, min),
        lower <= min,
    ensures
        well_formed_arithmetic(e, lower),
{
}

/// The tokens of the leftmost operand start those of the whole expression.
proof fn lemma_leftmost_operand(e: Expr, min: int)
    requires
        well_formed_arithmetic(e, min),
    ensures
        well_formed_arithmetic(leftmost_operand(e), 0),
        !(leftmost_operand(e) is Binary),
        expr_tokens(leftmost_operand(e)).len() > 0,
        expr_tokens(e).len() >= expr_tokens(leftmost_operand(e)).len(),
        forall|i: int|
            0 <= i < expr_tokens(leftmost_operand(e)).len() ==> expr_tokens(e)[i]
                == #[trigger] expr_tokens(leftmost_operand(e))[i],
    decreases e,
{
    lemma_expr_tokens_nonempty(e, min);
    match e {
        Expr::Binary(kind, t, left, right) => {
            lemma_leftmost_operand(*left, precedence_of(kind) as int);
            let whole = expr_tokens(*left) + seq![t] + expr_tokens(*right);
            assert forall|i: int| 0 <= i < expr_tokens(leftmost_operand(e)).len() implies expr_tokens(e)[i]
                == #[trigger] expr_tokens(leftmost_operand(e))[i] by {
                assert(whole[i] == expr_tokens(*left)[i]);
            }
        },
        Expr::Parenthesized(_) => {},
        _ => {},
    }
}

/// Climbing from the leftmost operand over the tokens of `e` rebuilds `e`.
proof fn lemma_climb_rebuilds(
    ts: Seq<TokenModel>,
    e: Expr,
    pos: int,
    min: int,
    ds: Seq<DiagnosticModel>,
)
    requires
        tokens_wf(ts),
        well_formed_arithmetic(e, min),
        min >= 0,
        tokens_at(ts, pos, expr_tokens(e)),
        pos + expr_tokens(e).len() < ts.len(),
        e is Binary ==> stops_at(ts, pos + expr_tokens(e).len(), precedence_of(e->Binary_0) + 1),
    ensures
        spec_climb(
            ts,
            leftmost_operand(e),
            pos + expr_tokens(leftmost_operand(e)).len(),
            min,
            ds,
        ) == spec_climb(ts, e, pos + expr_tokens(e).len(), min, ds),
    decreases expr_tokens(e).len(), 0int,
{
    match e {
        Expr::Binary(kind, t, left, right) => {
            let l = *left;
            let r = *right;
            let p = precedence_of(kind) as int;
            let q_l = pos + expr_tokens(l).len();
            let q = pos + expr_tokens(e).len();
            assert(expr_tokens(e) == expr_tokens(l) + seq![t] + expr_tokens(r));
            lemma_tokens_at_split(ts, pos, expr_tokens(l) + seq![t], expr_tokens(r));
            lemma_tokens_at_split(ts, pos, expr_tokens(l), seq![t]);
            assert(seq![t][0] == t);
            assert(ts[q_l] == t);
            lemma_expr_tokens_nonempty(r, p + 1);
            lemma_expr_tokens_nonempty(l, p);
            lemma_well_formed_weakens(l, p, min);
            if l is Binary {
                assert(well_formed_arithmetic(l, p));
                assert(precedence_of(l->Binary_0) >= p);
                assert(binary_operator_kind(ts[q_l].kind) == Some(kind));
                assert(stops_at(ts, q_l, precedence_of(l->Binary_0) + 1));
            }
            lemma_climb_rebuilds(ts, l, pos, min, ds);
            assert(leftmost_operand(e) == leftmost_operand(l));
            lemma_parse_rebuilds(ts, r, q_l + 1, p + 1, ds);
            assert(q_l + 1 < ts.len());
            assert(spec_climb(ts, l, q_l, min, ds) == spec_climb(ts, e, q, min, ds));
        },
        _ => {},
    }
}

/// Parsing the tokens of a well-formed arithmetic expression, followed by a
/// token that ends it, gives the expression back and stops after it, with
/// nothing reported.
proof fn lemma_parse_rebuilds(
    ts: Seq<TokenModel>,
    e: Expr,
    pos: int,
    min: int,
    ds: Seq<DiagnosticModel>,
)
    requires
        tokens_wf(ts),
        well_formed_arithmetic(e, min),
        min >= 0,
        tokens_at(ts, pos, expr_tokens(e)),
        pos + expr_tokens(e).len() < ts.len(),
        stops_at(ts, pos + expr_tokens(e).len(), min),
    ensures
        spec_parse_binary(ts, pos, min, ds) == (e, pos + expr_tokens(e).len(), ds),
    decreases expr_tokens(e).len(), 1int,
{
    let a = leftmost_operand(e);
    lemma_leftmost_operand(e, min);
    let q_a = pos + expr_tokens(a).len();
    assert(q_a <= pos + expr_tokens(e).len() < ts.len());
    assert(tokens_at(ts, pos, expr_tokens(a)));
    assert(ts[pos] == expr_tokens(a)[0]);
    match a {
        Expr::Number(n) => {
            assert(expr_tokens(a)[0] == bare_token(TokenKind::Number(n)));
            assert(spec_parse_unary(ts, pos, ds) == (a, q_a, ds));
        },
        Expr::Parenthesized(inner) => {
            let i = *inner;
            let open = seq![bare_token(TokenKind::LeftParen)];
            let close = seq![bare_token(TokenKind::RightParen)];
            assert(expr_tokens(a) == open + expr_tokens(i) + close);
            lemma_tokens_at_split(ts, pos, open + expr_tokens(i), close);
            lemma_tokens_at_split(ts, pos, open, expr_tokens(i));
            let q_i = pos + 1 + expr_tokens(i).len();
            assert(close[0] == bare_token(TokenKind::RightParen));
            assert(open[0] == bare_token(TokenKind::LeftParen));
            assert(ts[q_i] == bare_token(TokenKind::RightParen));
            lemma_parse_rebuilds(ts, i, pos + 1, 0, ds);
            assert(spec_parse_primary(ts, pos, ds) == (a, q_a, ds));
            assert(spec_parse_unary(ts, pos, ds) == (a, q_a, ds));
        },
        _ => {},
    }
    if e is Binary {
        lemma_climb_rebuilds(ts, e, pos, min, ds);
    }
}

/// Printing a well-formed arithmetic expression as tokens and parsing them
/// again gives back exactly that expression, as one statement, with nothing
/// reported.
pub proof fn lemma_print_parse_round_trip(e: Expr)
    requires
        well_formed_arithmetic(e, 0),
    ensures
        spec_parse_program(expr_tokens(e).push(eof_token()), 0, Seq::empty()) == (
            seq![Stmt::Expression(e)],
            Seq::<DiagnosticModel>::empty(),
        ),
{
    let ts = expr_tokens(e).push(eof_token());
    let n = expr_tokens(e).len() as int;
    lemma_expr_tokens_nonempty(e, 0);
    assert(tokens_at(ts, 0, expr_tokens(e))) by {
        assert forall|i: int| 0 <= i < n implies ts[0 + i] == #[trigger] expr_tokens(e)[i] by {}
    }
    assert(ts[n] == eof_token());
    lemma_parse_rebuilds(ts, e, 0, 0, Seq::empty());
    lemma_leftmost_operand(e, 0);
    assert(ts[0] == expr_tokens(leftmost_operand(e))[0]);
    assert(ts[0].kind != TokenKind::Let);
    assert(spec_parse_program(ts, n, Seq::empty()) == (Seq::<Stmt>::empty(), Seq::<DiagnosticModel>::empty()));
    assert(seq![Stmt::Expression(e)] + Seq::<Stmt>::empty() =~= seq![Stmt::Expression(e)]);
}

/// A well-formed arithmetic expression, printed as tokens and parsed again,
/// evaluates as the expression itself does: by standard integer arithmetic
/// with the precedence and left associativity its shape records.
pub proof fn lemma_parsed_arithmetic_evaluates(e: Expr)
    requires
        well_formed_arithmetic(e, 0),
    ensures
        eval_program(spec_parse_program(expr_tokens(e).push(eof_token()), 0, Seq::empty()).0)
            == match eval_expr(e, Seq::empty()) {
            Ok(v) => Ok(Some(v)),
            Err(err) => Err::<Option<i64>, EvalError>(err),
        },
{
    lemma_print_parse_round_trip(e);
    reveal_with_fuel(crate::evaluator::eval_stmts, 2);
    assert(seq![Stmt::Expression(e)][0] == Stmt::Expression(e));
    assert(seq![Stmt::Expression(e)].drop_first() =~= Seq::<Stmt>::empty());
}

/// `e` is built of numbers, binary operators and parentheses only.
pub open spec fn is_arithmetic(e: Expr) -> bool
    decreases e,
{
    match e {
        Expr::Number(_) => true,
        Expr::Binary(_, _, left, right) => is_arithmetic(*left) && is_arithmetic(*right),
        Expr::Parenthesized(inner) => is_arithmetic(*inner),
        _ => false,
    }
}

/// What the parser builds from a primary or prefix expression: where it is
/// arithmetic, it is a number or a well-formed parenthesized expression.
proof fn lemma_unary_shape(ts: Seq<TokenModel>, pos: int, ds: Seq<DiagnosticModel>)
    requires
        tokens_wf(ts),
        0 <= pos < ts.len(),
    ensures
        pos <= spec_parse_unary(ts, pos, ds).1 < ts.len(),
        !(spec_parse_unary(ts, pos, ds).0 is Binary),
        is_arithmetic(spec_parse_unary(ts, pos, ds).0) ==> well_formed_arithmetic(
            spec_parse_unary(ts, pos, ds).0,
            0,
        ),
    decreases ts.len() - pos, 1int,
{
    let t = ts[pos];
    let p1 = next_pos(ts, pos);
    match unary_operator_kind(t.kind) {
        Some(_) => {
            if ts[p1].kind != TokenKind::Eof && pos < p1 <= ts.len() {
                lemma_unary_shape(ts, p1, ds);
            }
        },
        None => {
            lemma_primary_shape(ts, pos, ds);
        },
    }
}

proof fn lemma_primary_shape(ts: Seq<TokenModel>, pos: int, ds: Seq<DiagnosticModel>)
    requires
        tokens_wf(ts),
        0 <= pos < ts.len(),
    ensures
        pos <= spec_parse_primary(ts, pos, ds).1 < ts.len(),
        !(spec_parse_primary(ts, pos, ds).0 is Binary),
        is_arithmetic(spec_parse_primary(ts, pos, ds).0) ==> well_formed_arithmetic(
            spec_parse_primary(ts, pos, ds).0,
            0,
        ),
    decreases ts.len() - pos, 0int,
{
    let t = ts[pos];
    let p1 = next_pos(ts, pos);
    if t.kind == TokenKind::LeftParen && pos < p1 <= ts.len() {
        lemma_binary_shape(ts, p1, 0, ds);
    }
}

/// Climbing keeps the tree well formed: a left operand that is a binary
/// expression binds at least as tightly as the operator that follows it.
proof fn lemma_climb_shape(
    ts: Seq<TokenModel>,
    left: Expr,
    pos: int,
    min: int,
    ds: Seq<DiagnosticModel>,
)
    requires
        tokens_wf(ts),
        0 <= pos < ts.len(),
        min >= 0,
        is_arithmetic(left) ==> well_formed_arithmetic(left, min),
        left is Binary ==> stops_at(ts, pos, precedence_of(left->Binary_0) + 1),
    ensures
        pos <= spec_climb(ts, left, pos, min, ds).1 < ts.len(),
        stops_at(ts, spec_climb(ts, left, pos, min, ds).1, min),
        is_arithmetic(spec_climb(ts, left, pos, min, ds).0) ==> well_formed_arithmetic(
            spec_climb(ts, left, pos, min, ds).0,
            min,
        ),
    decreases ts.len() - pos, 2int,
{
    let t = ts[pos];
    match binary_operator_kind(t.kind) {
        Some(kind) => {
            let p = precedence_of(kind) as int;
            if p >= min {
                let p1 = next_pos(ts, pos);
                assert(t.kind != TokenKind::Eof);
                assert(p1 == pos + 1);
                lemma_binary_shape(ts, p1, p + 1, ds);
                let (right, p2, d2) = spec_parse_binary(ts, p1, p + 1, ds);
                let b = Expr::Binary(kind, t, Box::new(left), Box::new(right));
                if is_arithmetic(b) {
                    if left is Binary {
                        assert(well_formed_arithmetic(left, min));
                        assert(precedence_of(left->Binary_0) >= p);
                    }
                    assert(well_formed_arithmetic(left, p));
                    assert(well_formed_arithmetic(b, min));
                }
                lemma_climb_shape(ts, b, p2, min, d2);
            }
        },
        None => {},
    }
}

proof fn lemma_binary_shape(ts: Seq<TokenModel>, pos: int, min: int, ds: Seq<DiagnosticModel>)
    requires
        tokens_wf(ts),
        0 <= pos < ts.len(),
        min >= 0,
    ensures
        pos <= spec_parse_binary(ts, pos, min, ds).1 < ts.len(),
        stops_at(ts, spec_parse_binary(ts, pos, min, ds).1, min),
        is_arithmetic(spec_parse_binary(ts, pos, min, ds).0) ==> well_formed_arithmetic(
            spec_parse_binary(ts, pos, min, ds).0,
            min,
        ),
    decreases ts.len() - pos, 3int,
{
    lemma_unary_shape(ts, pos, ds);
    let (left, p1, d1) = spec_parse_unary(ts, pos, ds);
    lemma_climb_shape(ts, left, p1, min, d1);
    lemma_climb_keeps_left(ts, left, p1, min, d1);
}

/// What climbing returns is built around the left operand it started from:
/// where the result is arithmetic, so is that operand.
proof fn lemma_climb_keeps_left(
    ts: Seq<TokenModel>,
    left: Expr,
    pos: int,
    min: int,
    ds: Seq<DiagnosticModel>,
)
    requires
        tokens_wf(ts),
        0 <= pos < ts.len(),
        min >= 0,
    ensures
        is_arithmetic(spec_climb(ts, left, pos, min, ds).0) ==> is_arithmetic(left),
    decreases ts.len() - pos, 2int,
{
    let t = ts[pos];
    match binary_operator_kind(t.kind) {
        Some(kind) => {
            let p = precedence_of(kind) as int;
            if p >= min {
                let p1 = next_pos(ts, pos);
                assert(t.kind != TokenKind::Eof);
                lemma_binary_shape(ts, p1, p + 1, ds);
                let (right, p2, d2) = spec_parse_binary(ts, p1, p + 1, ds);
                let b = Expr::Binary(kind, t, Box::new(left), Box::new(right));
                lemma_climb_keeps_left(ts, b, p2, min, d2);
            }
        },
        None => {},
    }
}

/// Parsing, printing as tokens and parsing again gives the same tree as
/// parsing once, for every expression of numbers, binary operators and
/// parentheses the parser builds.
pub proof fn lemma_parse_print_parse_stable(ts: Seq<TokenModel>, pos: int, ds: Seq<DiagnosticModel>)
    requires
        tokens_wf(ts),
        0 <= pos < ts.len(),
        is_arithmetic(spec_parse_expression(ts, pos, ds).0),
    ensures
        spec_parse_program(
            expr_tokens(spec_parse_expression(ts, pos, ds).0).push(eof_token()),
            0,
            Seq::empty(),
        ) == (seq![Stmt::Expression(spec_parse_expression(ts, pos, ds).0)], Seq::<DiagnosticModel>::empty()),
{
    lemma_binary_shape(ts, pos, 0, ds);
    lemma_print_parse_round_trip(spec_parse_expression(ts, pos, ds).0);
}

} // verus!
