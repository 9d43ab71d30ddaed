//! The line classifier: tags each raw diagnostic line as Error, Note, Help
//! or Ignored, independently of every other line.

use vstd::prelude::*;
use crate::text::{contains_fragment, starts_with};

verus! {

/// The kind of one diagnostic line.
#[derive(Clone, Copy, Debug, PartialEq, Eq, Structural)]
pub enum DiagnosticKind {
    Error,
    Note,
    Help,
    Ignored,
}

/// What `classify` returns. Every line maps to exactly one kind: a line that
/// begins with "error" or holds the coded-error marker "error[E" is an Error;
/// otherwise a line beginning with "note" is a Note and one beginning with
/// "help" is a Help; everything else is Ignored.
pub open spec fn spec_classify(line: Seq<char>) -> DiagnosticKind {
    if starts_with(line, "error"@) || contains_fragment(line, "error[E"@) {
        DiagnosticKind::Error
    } else if starts_with(line, "note"@) {
        DiagnosticKind::Note
    } else if starts_with(line, "help"@) {
        DiagnosticKind::Help
    } else {
        DiagnosticKind::Ignored
    }
}

/// Classifies one raw diagnostic line.
pub fn classify(line: &str) -> (k: DiagnosticKind)
    ensures
        k == spec_classify(line@),
{
    if crate::text::has_prefix(line, "error") || crate::text::find_fragment(line, "error[E") {
        DiagnosticKind::Error
    } else if crate::text::has_prefix(line, "note") {
        DiagnosticKind::Note
    } else if crate::text::has_prefix(line, "help") {
        DiagnosticKind::Help
    } else {
        DiagnosticKind::Ignored
    }
}

/// Law: the Error rule takes precedence. A line that begins with "error" is
/// classified as an Error whatever else it begins with or holds; so is a line
/// holding the coded-error marker.
pub proof fn lemma_error_precedence(line: Seq<char>)
    requires
        starts_with(line, "error"@) || contains_fragment(line, "error[E"@),
    ensures
        spec_classify(line) == DiagnosticKind::Error,
{
}

} // verus!
