//! Diagnostics and the fixes attached to them.
use vstd::prelude::*;

use crate::text_edit::{TextEdit, TextRange};

verus! {

#[derive(Clone, Copy, Debug, PartialEq, Eq, Structural)]
pub enum Severity {
    Error,
    Hint,
}

/// Identifies the file that a diagnostic and its fix belong to.
#[derive(Clone, Copy, Debug, PartialEq, Eq, Structural)]
pub struct FileId(pub u32);

/// An edit to one file.
#[derive(Clone, Debug)]
pub struct SourceFileEdit {
    pub file_id: FileId,
    pub edit: TextEdit,
}

/// A mechanical fix: a label, the edit, and the range that offers it.
#[derive(Clone, Debug)]
pub struct Fix {
    pub label: String,
    pub source_change: SourceFileEdit,
    pub fix_trigger_range: TextRange,
}

impl Fix {
    pub fn new(label: &str, source_change: SourceFileEdit, fix_trigger_range: TextRange) -> (r: Fix)
        ensures
            r.label@ == label@,
            r.source_change == source_change,
            r.fix_trigger_range == fix_trigger_range,
    {
        Fix { label: String::from_str(label), source_change, fix_trigger_range }
    }
}

#[derive(Clone, Debug)]
pub struct Diagnostic {
    pub message: String,
    pub range: TextRange,
    pub severity: Severity,
    pub fix: Option<Fix>,
}

impl Diagnostic {
    /// A hint over `range`, with no fix yet.
    pub fn hint(range: TextRange, message: String) -> (r: Diagnostic)
        ensures
            r.message == message,
            r.range == range,
            r.severity == Severity::Hint,
            r.fix is None,
    {
        Diagnostic { message, range, severity: Severity::Hint, fix: None }
    }

    pub fn with_fix(self, fix: Option<Fix>) -> (r: Diagnostic)
        ensures
            r.message == self.message,
            r.range == self.range,
            r.severity == self.severity,
            r.fix == fix,
    {
        Diagnostic { fix, ..self }
    }
}

} // verus!
