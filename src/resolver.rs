use vstd::prelude::*;

use crate::ast::{ASTExpression, ASTExpressionKind, ASTStatement, ASTStatementKind, Ast, Expr, Stmt};
use crate::diagnostics::{error_at, undeclared_variable_message, DiagnosticModel, DiagnosticsBag};
use crate::lexer::Token;

verus! {

/// The undeclared-variable diagnostics of `e`, left to right, where the names
/// in `declared` are in scope.
pub open spec fn resolve_expr(e: Expr, declared: Seq<Seq<char>>) -> Seq<DiagnosticModel>
    decreases e,
{
    match e {
        Expr::Number(_) => Seq::empty(),
        Expr::Error(_) => Seq::empty(),
        Expr::Variable(t) => {
            if declared.contains(t.span.literal) {
                Seq::empty()
            } else {
                seq![error_at(undeclared_variable_message(t.span.literal), t.span)]
            }
        },
        Expr::Unary(_, _, operand) => resolve_expr(*operand, declared),
        Expr::Binary(_, _, left, right) => resolve_expr(*left, declared) + resolve_expr(
            *right,
            declared,
        ),
        Expr::Parenthesized(inner) => resolve_expr(*inner, declared),
    }
}

/// The undeclared-variable diagnostics of a statement list. A `let` brings
/// its name into scope for the statements after it, not for its own
/// initializer.
pub open spec fn resolve_stmts(ss: Seq<Stmt>, declared: Seq<Seq<char>>) -> Seq<DiagnosticModel>
    decreases ss.len(),
{
    if ss.len() == 0 {
        Seq::empty()
    } else {
        match ss[0] {
            Stmt::Expression(e) => resolve_expr(e, declared) + resolve_stmts(
                ss.drop_first(),
                declared,
            ),
            Stmt::Let(name, init) => resolve_expr(init, declared) + resolve_stmts(
                ss.drop_first(),
                declared.push(name.span.literal),
            ),
        }
    }
}

/// The undeclared-variable diagnostics of a whole program.
pub open spec fn resolve_program(ss: Seq<Stmt>) -> Seq<DiagnosticModel> {
    resolve_stmts(ss, Seq::empty())
}

/// The symbol-resolution pass: checks each variable reference against the
/// names declared before it.
pub struct SymbolChecker {
    symbols: Vec<String>,
}

impl SymbolChecker {
    /// The names declared so far, in order.
    pub closed spec fn declared(&self) -> Seq<Seq<char>> {
        self.symbols@.map_values(|s: String| s@)
    }

    pub fn new() -> (r: SymbolChecker)
        ensures
            r.declared() == Seq::<Seq<char>>::empty(),
    {
        SymbolChecker { symbols: Vec::new() }
    }

    fn is_declared(&self, name: &String) -> (r: bool)
        ensures
            r == self.declared().contains(name@),
    {
        let mut i: usize = 0;
        while i < self.symbols.len()
            invariant
                0 <= i <= self.symbols.len(),
                forall|k: int| 0 <= k < i ==> self.declared()[k] != name@,
            decreases self.symbols.len() - i,
        {
            if self.symbols[i] == *name {
                assert(self.declared()[i as int] == name@);
                return true;
            }
            i = i + 1;
        }
        false
    }

    /// Resolves every statement of `ast`, appending what it finds to `bag`.
    pub fn check(&mut self, ast: &Ast, bag: &mut DiagnosticsBag)
        ensures
            final(bag)@ == old(bag)@ + resolve_stmts(ast@, old(self).declared()),
    {
        let mut i: usize = 0;
        assert(ast@.skip(0) =~= ast@);
        assert(old(bag)@ + resolve_stmts(ast@, old(self).declared()) == bag@ + resolve_stmts(
            ast@.skip(0),
            self.declared(),
        ));
        while i < ast.statements.len()
            invariant
                0 <= i <= ast.statements.len(),
                old(bag)@ + resolve_stmts(ast@, old(self).declared()) == bag@ + resolve_stmts(
                    ast@.skip(i as int),
                    self.declared(),
                ),
            decreases ast.statements.len() - i,
        {
            assert(ast@.skip(i as int)[0] == ast.statements[i as int]@);
            assert(ast@.skip(i as int).drop_first() =~= ast@.skip(i + 1));
            self.visit_statement(&ast.statements[i], bag);
            i = i + 1;
        }
        assert(ast@.skip(i as int) =~= Seq::<Stmt>::empty());
        assert(bag@ + Seq::<DiagnosticModel>::empty() =~= bag@);
    }

    pub fn visit_statement(&mut self, statement: &ASTStatement, bag: &mut DiagnosticsBag)
        ensures
            final(bag)@ == old(bag)@ + resolve_expr(
                match statement@ {
                    Stmt::Expression(e) => e,
                    Stmt::Let(_, e) => e,
                },
                old(self).declared(),
            ),
            final(self).declared() == match statement@ {
                Stmt::Expression(_) => old(self).declared(),
                Stmt::Let(name, _) => old(self).declared().push(name.span.literal),
            },
    {
        match &statement.kind {
            ASTStatementKind::Expression(expr) => self.visit_expression(expr, bag),
            ASTStatementKind::LetStatement(let_statement) => {
                self.visit_expression(&let_statement.initializer, bag);
                self.declare(&let_statement.identifier);
            },
        }
    }

    fn declare(&mut self, identifier: &Token)
        ensures
            final(self).declared() == old(self).declared().push(identifier.span.literal@),
    {
        self.symbols.push(identifier.span.literal.clone());
        assert(final(self).declared() =~= old(self).declared().push(identifier.span.literal@));
    }

    pub fn visit_expression(&mut self, expression: &ASTExpression, bag: &mut DiagnosticsBag)
        ensures
            final(bag)@ == old(bag)@ + resolve_expr(expression@, old(self).declared()),
            final(self).declared() == old(self).declared(),
        decreases expression,
    {
        match &expression.kind {
            ASTExpressionKind::Number(_) => {
                assert(bag@ =~= bag@ + Seq::<DiagnosticModel>::empty());
            },
            ASTExpressionKind::Error(_) => {
                assert(bag@ =~= bag@ + Seq::<DiagnosticModel>::empty());
            },
            ASTExpressionKind::Variable(variable) => {
                if !self.is_declared(&variable.identifier.span.literal) {
                    bag.report_undeclared_variable(&variable.identifier);
                    assert(bag@ =~= old(bag)@ + resolve_expr(expression@, old(self).declared()));
                } else {
                    assert(bag@ =~= bag@ + Seq::<DiagnosticModel>::empty());
                }
            },
            ASTExpressionKind::Unary(unary) => self.visit_expression(&unary.operand, bag),
            ASTExpressionKind::Binary(binary) => {
                self.visit_expression(&binary.left, bag);
                self.visit_expression(&binary.right, bag);
                assert(bag@ =~= old(bag)@ + resolve_expr(expression@, old(self).declared()));
            },
            ASTExpressionKind::Parenthesized(parenthesized) => {
                self.visit_expression(&parenthesized.expression, bag)
            },
        }
    }
}

} // verus!
