use vstd::prelude::*;
use vstd::string::*;

use crate::diagnostics::{Diagnostic, DiagnosticModel};
use crate::text::{
    count_newlines, decimal, line_end_at, line_start_at, push_decimal, push_spaces, SourceText,
};

verus! {

/// How many characters of context are shown on each side of a span.
pub const PREFIX_LENGTH: usize = 8;

pub open spec fn min(a: int, b: int) -> int {
    if a < b {
        a
    } else {
        b
    }
}

pub open spec fn max(a: int, b: int) -> int {
    if a < b {
        b
    } else {
        a
    }
}

pub open spec fn spaces(n: int) -> Seq<char> {
    Seq::new(n as nat, |i: int| ' ')
}

/// A diagnostic shown against its source: the context around the span,
/// clamped to the span's line, then a caret under the span's start, and the
/// message with the one-based line and column.
pub open spec fn render(text: Seq<char>, d: DiagnosticModel) -> Seq<char> {
    let start = d.span.start;
    let line_start = line_start_at(text, start);
    let line_end = line_end_at(text, start);
    let from = max(line_start, start - PREFIX_LENGTH);
    let span_end = max(start, min(d.span.end, line_end));
    let to = min(span_end + PREFIX_LENGTH, line_end);
    let pad = spaces(start - from);
    text.subrange(from, to) + "\n"@ + pad + "^\n"@ + pad + "|\n"@ + pad + "+-- "@ + d.message
        + " ("@ + decimal(count_newlines(text.take(start)) + 1) + ":"@ + decimal(
        (start - line_start + 1) as nat,
    ) + ")"@
}

/// Renders diagnostics against the source they were found in.
pub struct DiagnosticsPrinter<'a> {
    pub text: &'a SourceText,
    pub diagnostics: &'a [Diagnostic],
}

impl<'a> DiagnosticsPrinter<'a> {
    pub fn new(text: &'a SourceText, diagnostics: &'a [Diagnostic]) -> (r: DiagnosticsPrinter<'a>)
        ensures
            r.text == text,
            r.diagnostics@ == diagnostics@,
    {
        DiagnosticsPrinter { text, diagnostics }
    }

    pub fn stringify_diagnostic(&self, diagnostic: &Diagnostic) -> (r: String)
        requires
            self.text.wf(),
            diagnostic.span.start <= diagnostic.span.end <= self.text.chars().len(),
            self.text.chars().len() < usize::MAX,
        ensures
            r@ == render(self.text.chars(), diagnostic@),
    {
        proof {
            crate::text::lemma_line_bounds(self.text.chars(), diagnostic.span.start as int);
        }
        let start = diagnostic.span.start;
        let line_index = self.text.line_index(start);
        let line_start = self.text.line_start(start);
        let line_end = self.text.line_end(start);
        let from = if start - line_start > PREFIX_LENGTH {
            start - PREFIX_LENGTH
        } else {
            line_start
        };
        let clamped_end = if diagnostic.span.end < line_end {
            diagnostic.span.end
        } else {
            line_end
        };
        let span_end = if clamped_end < start {
            start
        } else {
            clamped_end
        };
        let to = if line_end - span_end > PREFIX_LENGTH {
            span_end + PREFIX_LENGTH
        } else {
            line_end
        };
        let indent = start - from;
        let mut out = String::new();
        self.text.push_range(&mut out, from, to);
        out.append("\n");
        push_spaces(&mut out, indent);
        out.append("^\n");
        push_spaces(&mut out, indent);
        out.append("|\n");
        push_spaces(&mut out, indent);
        out.append("+-- ");
        out.append(diagnostic.message.as_str());
        out.append(" (");
        proof {
            assert(line_index <= start) by {
                lemma_count_newlines_bound(self.text.chars().take(start as int));
            }
        }
        push_decimal(&mut out, (line_index + 1) as u64);
        out.append(":");
        push_decimal(&mut out, (start - line_start + 1) as u64);
        out.append(")");
        out
    }
}

proof fn lemma_count_newlines_bound(s: Seq<char>)
    ensures
        count_newlines(s) <= s.len(),
    decreases s.len(),
{
    if s.len() > 0 {
        lemma_count_newlines_bound(s.drop_last());
    }
}

} // verus!
