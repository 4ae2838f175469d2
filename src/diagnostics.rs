use vstd::prelude::*;
use vstd::string::*;

use crate::lexer::{kind_text, Token, TokenKind};
use crate::text::{SpanModel, TextSpan};

pub mod printer;

verus! {

#[derive(Debug, Clone, Copy, PartialEq, Eq, Structural)]
pub enum DiagnosticKind {
    Error,
    Warning,
}

pub ghost struct DiagnosticModel {
    pub message: Seq<char>,
    pub span: SpanModel,
    pub kind: DiagnosticKind,
}

#[derive(Debug)]
pub struct Diagnostic {
    pub message: String,
    pub span: TextSpan,
    pub kind: DiagnosticKind,
}

impl View for Diagnostic {
    type V = DiagnosticModel;

    open spec fn view(&self) -> DiagnosticModel {
        DiagnosticModel { message: self.message@, span: self.span@, kind: self.kind }
    }
}

impl Clone for Diagnostic {
    fn clone(&self) -> (r: Diagnostic)
        ensures
            r@ == self@,
    {
        Diagnostic { message: self.message.clone(), span: self.span.clone(), kind: self.kind }
    }
}

impl Diagnostic {
    pub fn new(message: String, span: TextSpan, kind: DiagnosticKind) -> (r: Diagnostic)
        ensures
            r@ == (DiagnosticModel { message: message@, span: span@, kind }),
    {
        Diagnostic { message, span, kind }
    }
}

/// The message for a token of the wrong kind where `expected` was required.
pub open spec fn unexpected_token_message(expected: TokenKind, found: TokenKind) -> Seq<char> {
    "Expected <"@ + kind_text(expected) + ">, found <"@ + kind_text(found) + ">"@
}

/// The message for a token where an expression was required.
pub open spec fn expected_expression_message(found: TokenKind) -> Seq<char> {
    "Expected expression, found <"@ + kind_text(found) + ">"@
}

/// The message for a reference to a name that nothing declared.
pub open spec fn undeclared_variable_message(name: Seq<char>) -> Seq<char> {
    "Undeclared variable '"@ + name + "'"@
}

pub open spec fn error_at(message: Seq<char>, span: SpanModel) -> DiagnosticModel {
    DiagnosticModel { message, span, kind: DiagnosticKind::Error }
}

/// The ordered, append-only collection of what the passes found wrong.
pub struct DiagnosticsBag {
    pub diagnostics: Vec<Diagnostic>,
}

impl View for DiagnosticsBag {
    type V = Seq<DiagnosticModel>;

    open spec fn view(&self) -> Seq<DiagnosticModel> {
        self.diagnostics@.map_values(|d: Diagnostic| d@)
    }
}

impl DiagnosticsBag {
    pub fn new() -> (r: DiagnosticsBag)
        ensures
            r@ == Seq::<DiagnosticModel>::empty(),
    {
        DiagnosticsBag { diagnostics: Vec::new() }
    }

    pub fn len(&self) -> (r: usize)
        ensures
            r == self@.len(),
    {
        self.diagnostics.len()
    }

    pub fn is_empty(&self) -> (r: bool)
        ensures
            r == (self@.len() == 0),
    {
        self.diagnostics.len() == 0
    }

    fn push(&mut self, diagnostic: Diagnostic)
        ensures
            final(self)@ == old(self)@.push(diagnostic@),
    {
        self.diagnostics.push(diagnostic);
        assert(final(self)@ =~= old(self)@.push(diagnostic@));
    }

    pub fn report_error(&mut self, message: String, span: TextSpan)
        ensures
            final(self)@ == old(self)@.push(error_at(message@, span@)),
    {
        self.push(Diagnostic::new(message, span, DiagnosticKind::Error));
    }

    pub fn report_warning(&mut self, message: String, span: TextSpan)
        ensures
            final(self)@ == old(self)@.push(
                DiagnosticModel { message: message@, span: span@, kind: DiagnosticKind::Warning },
            ),
    {
        self.push(Diagnostic::new(message, span, DiagnosticKind::Warning));
    }

    pub fn report_unexpected_token(&mut self, expected: &TokenKind, token: &Token)
        ensures
            final(self)@ == old(self)@.push(
                error_at(unexpected_token_message(*expected, token.kind), token.span@),
            ),
    {
        let mut message = "Expected <".to_owned();
        message.append(expected.text());
        message.append(">, found <");
        message.append(token.kind.text());
        message.append(">");
        self.report_error(message, token.span.clone());
    }

    pub fn report_expected_expression(&mut self, token: &Token)
        ensures
            final(self)@ == old(self)@.push(
                error_at(expected_expression_message(token.kind), token.span@),
            ),
    {
        let mut message = "Expected expression, found <".to_owned();
        message.append(token.kind.text());
        message.append(">");
        self.report_error(message, token.span.clone());
    }

    pub fn report_undeclared_variable(&mut self, token: &Token)
        ensures
            final(self)@ == old(self)@.push(
                error_at(undeclared_variable_message(token.span.literal@), token.span@),
            ),
    {
        let mut message = "Undeclared variable '".to_owned();
        message.append(token.span.literal.as_str());
        message.append("'");
        self.report_error(message, token.span.clone());
    }
}

} // verus!
