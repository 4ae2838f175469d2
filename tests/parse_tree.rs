use crust::ast::{ASTExpression, ASTExpressionKind, ASTStatementKind, Ast};
use crust::compilation_unit::CompilationUnit;

#[derive(Debug, PartialEq, Eq)]
enum TestASTNode {
    Number(i64),
    Binary,
    Unary,
    Parenthesized,
    LetStmt,
    Variable(String),
    Error,
}

fn flatten_expression(expression: &ASTExpression, out: &mut Vec<TestASTNode>) {
    match &expression.kind {
        ASTExpressionKind::Number(number) => out.push(TestASTNode::Number(number.number)),
        ASTExpressionKind::Binary(binary) => {
            out.push(TestASTNode::Binary);
            flatten_expression(&binary.left, out);
            flatten_expression(&binary.right, out);
        }
        ASTExpressionKind::Unary(unary) => {
            out.push(TestASTNode::Unary);
            flatten_expression(&unary.operand, out);
        }
        ASTExpressionKind::Parenthesized(parenthesized) => {
            out.push(TestASTNode::Parenthesized);
            flatten_expression(&parenthesized.expression, out);
        }
        ASTExpressionKind::Variable(variable) => {
            out.push(TestASTNode::Variable(variable.identifier().to_string()))
        }
        ASTExpressionKind::Error(_) => out.push(TestASTNode::Error),
    }
}

fn flatten_ast(ast: &Ast) -> Vec<TestASTNode> {
    let mut out = Vec::new();
    for statement in &ast.statements {
        match &statement.kind {
            ASTStatementKind::Expression(expression) => flatten_expression(expression, &mut out),
            ASTStatementKind::LetStatement(let_statement) => {
                out.push(TestASTNode::LetStmt);
                flatten_expression(&let_statement.initializer, &mut out);
            }
        }
    }
    out
}

fn assert_tree(input: &str, expected: Vec<TestASTNode>) {
    let compilation_unit = CompilationUnit::compile(input);
    for diagnostic in &compilation_unit.diagnostics_bag.diagnostics {
        assert!(
            !diagnostic.message.starts_with("Expected"),
            "unexpected syntax error: {}",
            diagnostic.message
        );
    }
    let actual = flatten_ast(&compilation_unit.ast);
    assert_eq!(expected, actual);
}

#[test]
fn should_parse_basic_binary_expression() {
    let input = "let a = 1 + 2";
    let expected = vec![
        TestASTNode::LetStmt,
        TestASTNode::Binary,
        TestASTNode::Number(1),
        TestASTNode::Number(2),
    ];
    assert_tree(input, expected);
}

#[test]
fn should_parse_parenthesized_binary_expression() {
    let input = "let a = (1 + 2) * 3";
    let expected = vec![
        TestASTNode::LetStmt,
        TestASTNode::Binary,
        TestASTNode::Parenthesized,
        TestASTNode::Binary,
        TestASTNode::Number(1),
        TestASTNode::Number(2),
        TestASTNode::Number(3),
    ];
    assert_tree(input, expected);
}

#[test]
fn should_parse_parenthesized_binary_expression_with_variable() {
    let input = "let a = (1 + 2) * b";
    let expected = vec![
        TestASTNode::LetStmt,
        TestASTNode::Binary,
        TestASTNode::Parenthesized,
        TestASTNode::Binary,
        TestASTNode::Number(1),
        TestASTNode::Number(2),
        TestASTNode::Variable("b".to_string()),
    ];
    assert_tree(input, expected);
}

#[test]
fn should_parse_parenthesized_binary_expression_with_variable_and_number() {
    let input = "let a = (1 + 2) * b + 3";
    let expected = vec![
        TestASTNode::LetStmt,
        TestASTNode::Binary,
        TestASTNode::Binary,
        TestASTNode::Parenthesized,
        TestASTNode::Binary,
        TestASTNode::Number(1),
        TestASTNode::Number(2),
        TestASTNode::Variable("b".to_string()),
        TestASTNode::Number(3),
    ];
    assert_tree(input, expected);
}

#[test]
fn should_parse_bitwise_and() {
    let input = "let a = 1 & 2";
    let expected = vec![
        TestASTNode::LetStmt,
        TestASTNode::Binary,
        TestASTNode::Number(1),
        TestASTNode::Number(2),
    ];
    assert_tree(input, expected);
}

#[test]
fn should_parse_bitwise_or() {
    let input = "let a = 1 | 2";
    let expected = vec![
        TestASTNode::LetStmt,
        TestASTNode::Binary,
        TestASTNode::Number(1),
        TestASTNode::Number(2),
    ];
    assert_tree(input, expected);
}

#[test]
fn should_parse_bitwise_xor() {
    let input = "let a = 1 ^ 2";
    let expected = vec![
        TestASTNode::LetStmt,
        TestASTNode::Binary,
        TestASTNode::Number(1),
        TestASTNode::Number(2),
    ];
    assert_tree(input, expected);
}

#[test]
fn should_parse_bitwise_not() {
    let input = "let a = ~1";
    let expected = vec![TestASTNode::LetStmt, TestASTNode::Unary, TestASTNode::Number(1)];
    assert_tree(input, expected);
}

#[test]
fn should_parse_negation() {
    let input = "let a = -1";
    let expected = vec![TestASTNode::LetStmt, TestASTNode::Unary, TestASTNode::Number(1)];
    assert_tree(input, expected);
}

#[test]
fn should_parse_power() {
    let input = "let a = 1 ** 2";
    let expected = vec![
        TestASTNode::LetStmt,
        TestASTNode::Binary,
        TestASTNode::Number(1),
        TestASTNode::Number(2),
    ];
    assert_tree(input, expected);
}

#[test]
fn multiplication_binds_tighter_than_addition() {
    let expected = vec![
        TestASTNode::Binary,
        TestASTNode::Number(1),
        TestASTNode::Binary,
        TestASTNode::Number(2),
        TestASTNode::Number(3),
    ];
    assert_tree("1 + 2 * 3", expected);
}

#[test]
fn equal_precedence_folds_left() {
    let expected = vec![
        TestASTNode::Binary,
        TestASTNode::Binary,
        TestASTNode::Number(1),
        TestASTNode::Number(2),
        TestASTNode::Number(3),
    ];
    assert_tree("1 - 2 - 3", expected);
}

#[test]
fn bitwise_binds_looser_than_addition() {
    let expected = vec![
        TestASTNode::Binary,
        TestASTNode::Binary,
        TestASTNode::Number(1),
        TestASTNode::Number(2),
        TestASTNode::Number(3),
    ];
    assert_tree("1 + 2 & 3", expected);
}

#[test]
fn power_binds_tighter_than_multiplication() {
    let expected = vec![
        TestASTNode::Binary,
        TestASTNode::Number(2),
        TestASTNode::Binary,
        TestASTNode::Number(3),
        TestASTNode::Number(2),
    ];
    assert_tree("2 * 3 ** 2", expected);
}

#[test]
fn unary_chain_nests_to_the_right() {
    let expected = vec![
        TestASTNode::Unary,
        TestASTNode::Unary,
        TestASTNode::Unary,
        TestASTNode::Number(5),
    ];
    assert_tree("- - - 5", expected);
}

#[test]
fn missing_initializer_leaves_an_error_node() {
    let compilation_unit = CompilationUnit::compile("let a = ");
    assert!(compilation_unit.diagnostics_bag.diagnostics.len() >= 1);
    assert_eq!(
        compilation_unit.diagnostics_bag.diagnostics[0].message,
        "Expected expression, found <Eof>"
    );
    let nodes = flatten_ast(&compilation_unit.ast);
    assert_eq!(nodes, vec![TestASTNode::LetStmt, TestASTNode::Error]);
}

#[test]
fn dangling_unary_operator_is_reported_at_the_operator() {
    let compilation_unit = CompilationUnit::compile("1 + -");
    let diagnostics = &compilation_unit.diagnostics_bag.diagnostics;
    assert_eq!(diagnostics.len(), 1);
    assert_eq!(diagnostics[0].message, "Expected expression, found <->");
    assert_eq!(diagnostics[0].span.start, 4);
    assert_eq!(diagnostics[0].span.end, 5);
    let nodes = flatten_ast(&compilation_unit.ast);
    assert_eq!(nodes, vec![TestASTNode::Binary, TestASTNode::Number(1), TestASTNode::Error]);
}

#[test]
fn unclosed_parenthesis_keeps_the_inner_expression() {
    let compilation_unit = CompilationUnit::compile("(1 + 2");
    let diagnostics = &compilation_unit.diagnostics_bag.diagnostics;
    assert_eq!(diagnostics.len(), 1);
    assert_eq!(diagnostics[0].message, "Expected <)>, found <Eof>");
    let nodes = flatten_ast(&compilation_unit.ast);
    assert_eq!(
        nodes,
        vec![
            TestASTNode::Parenthesized,
            TestASTNode::Binary,
            TestASTNode::Number(1),
            TestASTNode::Number(2)
        ]
    );
}

#[test]
fn two_statements_on_one_line() {
    let nodes = flatten_ast(&CompilationUnit::compile("let a = 1 let b = a").ast);
    assert_eq!(
        nodes,
        vec![
            TestASTNode::LetStmt,
            TestASTNode::Number(1),
            TestASTNode::LetStmt,
            TestASTNode::Variable("a".to_string())
        ]
    );
}
