use crust::compilation_unit::CompilationUnit;
use crust::diagnostics::printer::DiagnosticsPrinter;
use crust::diagnostics::{Diagnostic, DiagnosticKind, DiagnosticsBag};
use crust::lexer::{Token, TokenKind};
use crust::text::{SourceText, TextSpan};

/// Strips the `«` `»` markers from `input` and returns the marked spans,
/// counted in characters of the stripped text.
fn parse_markers(input: &str) -> (String, Vec<(usize, usize)>) {
    let mut raw = String::new();
    let mut stack = Vec::new();
    let mut spans = Vec::new();
    let mut position = 0;
    for c in input.chars() {
        match c {
            '«' => stack.push(position),
            '»' => {
                let start = stack.pop().unwrap();
                spans.push((start, position));
            }
            _ => {
                raw.push(c);
                position += 1;
            }
        }
    }
    (raw, spans)
}

fn verify_diagnostics(input: &str, messages: Vec<&str>) {
    let (raw, spans) = parse_markers(input);
    let compilation_unit = CompilationUnit::compile(&raw);
    let actual = &compilation_unit.diagnostics_bag.diagnostics;
    assert_eq!(actual.len(), messages.len());
    for (index, diagnostic) in actual.iter().enumerate() {
        assert_eq!(diagnostic.message, messages[index]);
        assert_eq!(diagnostic.span.start, spans[index].0);
        assert_eq!(diagnostic.span.end, spans[index].1);
        assert_eq!(diagnostic.span.literal, raw[spans[index].0..spans[index].1]);
        assert_eq!(diagnostic.kind, DiagnosticKind::Error);
    }
}

#[test]
fn should_report_undeclared_variable() {
    let input = "let a = «b»";
    let expected = vec!["Undeclared variable 'b'"];
    verify_diagnostics(input, expected);
}

#[test]
fn mod_should_report_undeclared_variable() {
    let input = "let a = «b»";
    let expected = vec!["Undeclared variable 'b'"];
    verify_diagnostics(input, expected);
}

#[test]
fn declared_variable_is_not_reported() {
    let compilation_unit = CompilationUnit::compile("let a = 1 let b = a");
    assert_eq!(compilation_unit.diagnostics_bag.diagnostics.len(), 0);
}

#[test]
fn let_initializer_does_not_see_its_own_name() {
    verify_diagnostics("let a = «a»", vec!["Undeclared variable 'a'"]);
}

#[test]
fn undeclared_variable_span_starts_at_its_offset() {
    let compilation_unit = CompilationUnit::compile("let a = 10 + x");
    let diagnostics = &compilation_unit.diagnostics_bag.diagnostics;
    assert_eq!(diagnostics.len(), 1);
    assert_eq!(diagnostics[0].span.start, 13);
    assert_eq!(diagnostics[0].message, "Undeclared variable 'x'");
}

#[test]
fn every_undeclared_reference_is_reported_in_order() {
    verify_diagnostics(
        "let a = «x» + «y» * «x»",
        vec!["Undeclared variable 'x'", "Undeclared variable 'y'", "Undeclared variable 'x'"],
    );
}

#[test]
fn resolution_is_skipped_after_syntax_errors() {
    verify_diagnostics("let «5» = b", vec!["Expected <Identifier>, found <Number>"]);
}

#[test]
fn overflowing_literal_is_an_error() {
    verify_diagnostics(
        "«99999999999999999999»",
        vec!["Expected expression, found <Bad>"],
    );
}

#[test]
fn unknown_character_is_reported() {
    verify_diagnostics("1 + «$»", vec!["Expected expression, found <Bad>"]);
}

#[test]
fn bag_records_in_arrival_order() {
    let mut bag = DiagnosticsBag::new();
    let token = Token::new(TokenKind::Number(7), TextSpan::new(2, 3, "7".to_string()));
    bag.report_unexpected_token(&TokenKind::Equals, &token);
    bag.report_expected_expression(&token);
    bag.report_undeclared_variable(&token);
    bag.report_warning("careful".to_string(), TextSpan::new(0, 1, "x".to_string()));
    assert_eq!(bag.len(), 4);
    assert_eq!(bag.diagnostics[0].message, "Expected <=>, found <Number>");
    assert_eq!(bag.diagnostics[1].message, "Expected expression, found <Number>");
    assert_eq!(bag.diagnostics[2].message, "Undeclared variable '7'");
    assert_eq!(bag.diagnostics[3].kind, DiagnosticKind::Warning);
    assert_eq!(bag.diagnostics[2].span.start, 2);
}

#[test]
fn printer_renders_caret_under_the_span() {
    let compilation_unit = CompilationUnit::compile("let a = b");
    let diagnostics = &compilation_unit.diagnostics_bag.diagnostics;
    let printer = DiagnosticsPrinter::new(&compilation_unit.text, diagnostics);
    let rendered = printer.stringify_diagnostic(&diagnostics[0]);
    assert_eq!(
        rendered,
        "let a = b\n        ^\n        |\n        +-- Undeclared variable 'b' (1:9)"
    );
}

#[test]
fn printer_clamps_context_to_the_line() {
    let text = SourceText::new("first\nlet value = 1 + undefined_thing + 2\nlast".to_string());
    let diagnostic = Diagnostic::new(
        "here".to_string(),
        TextSpan::new(22, 31, "undefined".to_string()),
        DiagnosticKind::Error,
    );
    let diagnostics = vec![];
    let printer = DiagnosticsPrinter::new(&text, &diagnostics);
    let rendered = printer.stringify_diagnostic(&diagnostic);
    assert_eq!(
        rendered,
        "e = 1 + undefined_thing +\n        ^\n        |\n        +-- here (2:17)"
    );
}

#[test]
fn printer_handles_span_at_line_start() {
    let text = SourceText::new("x\ny".to_string());
    let diagnostic =
        Diagnostic::new("m".to_string(), TextSpan::new(2, 3, "y".to_string()), DiagnosticKind::Error);
    let diagnostics = vec![];
    let printer = DiagnosticsPrinter::new(&text, &diagnostics);
    assert_eq!(printer.stringify_diagnostic(&diagnostic), "y\n^\n|\n+-- m (2:1)");
}

#[test]
fn source_text_maps_offsets_to_lines() {
    let text = SourceText::new("ab\ncde\n\nf".to_string());
    assert_eq!(text.len(), 9);
    assert_eq!(text.line_index(0), 0);
    assert_eq!(text.line_index(4), 1);
    assert_eq!(text.line_index(8), 3);
    assert_eq!(text.line_start(5), 3);
    assert_eq!(text.line_end(4), 6);
    assert_eq!(text.line_start(7), 7);
    assert_eq!(text.line_end(7), 7);
}
