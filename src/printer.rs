use vstd::prelude::*;
use vstd::string::*;

use crate::ast::{ASTExpression, ASTExpressionKind, ASTStatement, ASTStatementKind, Ast, Expr, Stmt};
use crate::text::{decimal, push_decimal};

verus! {

/// The decimal text of an integer, with a leading `-` when it is negative.
pub open spec fn int_text(n: int) -> Seq<char> {
    if n < 0 {
        "-"@ + decimal((-n) as nat)
    } else {
        decimal(n as nat)
    }
}

/// The source text of an expression: operators as they were written, one
/// blank around each binary operator.
pub open spec fn print_expr(e: Expr) -> Seq<char>
    decreases e,
{
    match e {
        Expr::Number(n) => int_text(n as int),
        Expr::Variable(t) => t.span.literal,
        Expr::Unary(_, t, operand) => t.span.literal + print_expr(*operand),
        Expr::Binary(_, t, left, right) => print_expr(*left) + " "@ + t.span.literal + " "@
            + print_expr(*right),
        Expr::Parenthesized(inner) => "("@ + print_expr(*inner) + ")"@,
        Expr::Error(span) => span.literal,
    }
}

pub open spec fn print_stmt(s: Stmt) -> Seq<char> {
    match s {
        Stmt::Expression(e) => print_expr(e),
        Stmt::Let(name, e) => "let "@ + name.span.literal + " = "@ + print_expr(e),
    }
}

/// The source text of a program: one statement per line.
pub open spec fn print_program(ss: Seq<Stmt>) -> Seq<char>
    decreases ss.len(),
{
    if ss.len() == 0 {
        Seq::empty()
    } else {
        print_program(ss.drop_last()) + print_stmt(ss.last()) + "\n"@
    }
}

/// Writes a tree back out as source text.
pub struct ASTPrinter {
    pub indent: usize,
    pub result: String,
}

impl ASTPrinter {
    pub fn new() -> (r: ASTPrinter)
        ensures
            r.result@ == Seq::<char>::empty(),
            r.indent == 0,
    {
        ASTPrinter { indent: 0, result: String::new() }
    }

    fn add_whitespace(&mut self)
        ensures
            final(self).result@ == old(self).result@ + " "@,
            final(self).indent == old(self).indent,
    {
        self.result.append(" ");
    }

    fn add_newline(&mut self)
        ensures
            final(self).result@ == old(self).result@ + "\n"@,
            final(self).indent == old(self).indent,
    {
        self.result.append("\n");
    }

    fn add_number(&mut self, n: i64)
        ensures
            final(self).result@ == old(self).result@ + int_text(n as int),
            final(self).indent == old(self).indent,
    {
        if n < 0 {
            self.result.append("-");
            let magnitude: u64 = if n == i64::MIN {
                0x8000_0000_0000_0000
            } else {
                (-n) as u64
            };
            push_decimal(&mut self.result, magnitude);
        } else {
            push_decimal(&mut self.result, n as u64);
        }
    }

    /// Appends every statement of `ast`, each on a line of its own.
    pub fn print_ast(&mut self, ast: &Ast)
        ensures
            final(self).result@ == old(self).result@ + print_program(ast@),
            final(self).indent == old(self).indent,
    {
        let mut i: usize = 0;
        while i < ast.statements.len()
            invariant
                0 <= i <= ast.statements.len(),
                self.result@ == old(self).result@ + print_program(ast@.take(i as int)),
                self.indent == old(self).indent,
            decreases ast.statements.len() - i,
        {
            assert(ast@.take(i + 1).drop_last() =~= ast@.take(i as int));
            assert(ast@.take(i + 1).last() == ast.statements[i as int]@);
            self.visit_statement(&ast.statements[i]);
            self.add_newline();
            i = i + 1;
        }
        assert(ast@.take(ast@.len() as int) =~= ast@);
    }

    pub fn visit_statement(&mut self, statement: &ASTStatement)
        ensures
            final(self).result@ == old(self).result@ + print_stmt(statement@),
            final(self).indent == old(self).indent,
    {
        match &statement.kind {
            ASTStatementKind::Expression(expr) => self.visit_expression(expr),
            ASTStatementKind::LetStatement(let_statement) => {
                self.result.append("let ");
                self.result.append(let_statement.identifier.span.literal.as_str());
                self.result.append(" = ");
                self.visit_expression(&let_statement.initializer);
            },
        }
    }

    pub fn visit_expression(&mut self, expression: &ASTExpression)
        ensures
            final(self).result@ == old(self).result@ + print_expr(expression@),
            final(self).indent == old(self).indent,
        decreases expression,
    {
        match &expression.kind {
            ASTExpressionKind::Number(number) => self.add_number(number.number),
            ASTExpressionKind::Variable(variable) => {
                self.result.append(variable.identifier.span.literal.as_str());
            },
            ASTExpressionKind::Unary(unary) => {
                self.result.append(unary.operator.token.span.literal.as_str());
                self.visit_expression(&unary.operand);
            },
            ASTExpressionKind::Binary(binary) => {
                self.visit_expression(&binary.left);
                self.add_whitespace();
                self.result.append(binary.operator.token.span.literal.as_str());
                self.add_whitespace();
                self.visit_expression(&binary.right);
            },
            ASTExpressionKind::Parenthesized(parenthesized) => {
                self.result.append("(");
                self.visit_expression(&parenthesized.expression);
                self.result.append(")");
            },
            ASTExpressionKind::Error(span) => {
                self.result.append(span.literal.as_str());
            },
        }
        assert(self.result@ =~= old(self).result@ + print_expr(expression@));
    }
}

} // verus!
