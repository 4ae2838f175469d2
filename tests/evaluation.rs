use crust::compilation_unit::CompilationUnit;
use crust::evaluator::EvalError;
use crust::printer::ASTPrinter;

fn run(input: &str) -> Option<Result<Option<i64>, EvalError>> {
    CompilationUnit::compile(input).maybe_run()
}

fn value(input: &str) -> i64 {
    run(input).unwrap().unwrap().unwrap()
}

fn failure(input: &str) -> EvalError {
    run(input).unwrap().unwrap_err()
}

fn print(input: &str) -> String {
    let compilation_unit = CompilationUnit::compile(input);
    let mut printer = ASTPrinter::new();
    printer.print_ast(&compilation_unit.ast);
    printer.result
}

#[test]
fn standard_precedence() {
    assert_eq!(value("1 + 2 * 3"), 7);
    assert_eq!(value("(1 + 2) * 3"), 9);
}

#[test]
fn left_associativity() {
    assert_eq!(value("10 - 4 - 3"), 3);
    assert_eq!(value("100 / 10 / 5"), 2);
    assert_eq!(value("2 ** 3 ** 2"), 64);
}

#[test]
fn odd_minus_chain_negates() {
    assert_eq!(value("- - - 5"), -5);
}

#[test]
fn even_minus_chain_keeps_value() {
    assert_eq!(value("- - 5"), 5);
    assert_eq!(value("-------7"), -7);
}

#[test]
fn division_by_zero_is_fatal() {
    assert_eq!(failure("10 / 0"), EvalError::DivisionByZero);
}

#[test]
fn division_truncates_toward_zero() {
    assert_eq!(value("(0 - 7) / 2"), -3);
    assert_eq!(value("7 / (0 - 2)"), -3);
}

#[test]
fn bitwise_operators() {
    assert_eq!(value("6 & 3"), 2);
    assert_eq!(value("6 | 3"), 7);
    assert_eq!(value("6 ^ 3"), 5);
    assert_eq!(value("~5"), -6);
    assert_eq!(value("1 + 2 & 3"), 3);
}

#[test]
fn power() {
    assert_eq!(value("2 ** 10"), 1024);
    assert_eq!(value("5 ** 0"), 1);
    assert_eq!(value("0 ** 0"), 1);
    assert_eq!(value("(0 - 1) ** 7"), -1);
    assert_eq!(value("(0 - 2) ** 63"), i64::MIN);
    assert_eq!(value("1 ** 9223372036854775807"), 1);
}

#[test]
fn negative_exponent_is_an_error() {
    assert_eq!(failure("2 ** -1"), EvalError::NegativeExponent);
}

#[test]
fn overflow_is_an_error() {
    assert_eq!(failure("2 ** 63"), EvalError::Overflow);
    assert_eq!(failure("9223372036854775807 + 1"), EvalError::Overflow);
    assert_eq!(failure("(0 - 9223372036854775807 - 1) / -1"), EvalError::Overflow);
    assert_eq!(failure("-(0 - 9223372036854775807 - 1)"), EvalError::Overflow);
    assert_eq!(failure("3037000500 * 3037000500"), EvalError::Overflow);
}

#[test]
fn let_bindings_feed_later_statements() {
    assert_eq!(value("let a = 10 + 30 let b = 20 let c = (a + b) * 2"), 120);
    assert_eq!(value("let a = 1 let a = a + 1 a * 10"), 20);
}

#[test]
fn empty_program_has_no_value() {
    assert_eq!(run(""), Some(Ok(None)));
}

#[test]
fn diagnostics_stop_the_run() {
    assert_eq!(run("let a = b"), None);
    assert_eq!(run("let a = "), None);
}

#[test]
fn print_then_parse_is_stable() {
    let once = print("let a = (1+2)*3-4/(5 + 6)**2");
    assert_eq!(once, "let a = (1 + 2) * 3 - 4 / (5 + 6) ** 2\n");
    let twice = print(&once);
    assert_eq!(once, twice);
}

#[test]
fn printer_writes_unary_and_negative_numbers() {
    assert_eq!(print("-1 + ~x"), "-1 + ~x\n");
    assert_eq!(print("let a = 1 let b = a"), "let a = 1\nlet b = a\n");
}
