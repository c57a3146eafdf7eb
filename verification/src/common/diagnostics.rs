//! Source spans and the engine that collects diagnostics.

use crate::common::text::own;
use vstd::prelude::*;

verus! {

/// A half-open range of bytes in a source file.
#[derive(Clone, Copy, Debug, PartialEq, Eq, Structural)]
pub struct Span {
    pub file_id: u32,
    pub start: u32,
    pub end: u32,
}

impl Span {
    /// The span of nothing in particular.
    pub open spec fn nowhere() -> Span {
        Span { file_id: 0, start: 0, end: 0 }
    }

    /// A placeholder where no source location applies.
    pub fn dummy() -> (r: Span)
        ensures
            r == Span::nowhere(),
    {
        Span { file_id: 0, start: 0, end: 0 }
    }
}

/// How grave a diagnostic is.
#[derive(Clone, Copy, Debug, PartialEq, Eq, Structural)]
pub enum Severity {
    Error,
    Warning,
}

/// A remark attached to a diagnostic.
#[derive(Debug)]
pub struct Note {
    pub span: Span,
    pub message: String,
}

/// A message about the program under compilation.
#[derive(Debug)]
pub struct Diagnostic {
    pub severity: Severity,
    pub span: Span,
    pub message: String,
    pub note: Option<Note>,
}

/// What a diagnostic says.
pub struct DiagnosticModel {
    pub severity: Severity,
    pub span: Span,
    pub message: Seq<char>,
    pub note: Option<(Span, Seq<char>)>,
}

impl View for Diagnostic {
    type V = DiagnosticModel;

    open spec fn view(&self) -> DiagnosticModel {
        DiagnosticModel {
            severity: self.severity,
            span: self.span,
            message: self.message@,
            note: match self.note {
                Some(n) => Some((n.span, n.message@)),
                None => None,
            },
        }
    }
}

/// The error `message` at `span`.
pub open spec fn error_at(span: Span, message: Seq<char>) -> DiagnosticModel {
    DiagnosticModel { severity: Severity::Error, span, message, note: None }
}

/// The warning `message` at `span`.
pub open spec fn warning_at(span: Span, message: Seq<char>) -> DiagnosticModel {
    DiagnosticModel { severity: Severity::Warning, span, message, note: None }
}

/// The error `message` at `span` with a remark on an earlier place.
pub open spec fn error_with_note(
    span: Span,
    message: Seq<char>,
    note_span: Span,
    note: Seq<char>,
) -> DiagnosticModel {
    DiagnosticModel { severity: Severity::Error, span, message, note: Some((note_span, note)) }
}

impl Diagnostic {
    /// An error without a note.
    pub fn error(span: Span, message: &str) -> (r: Diagnostic)
        ensures
            r@ == error_at(span, message@),
    {
        Diagnostic { severity: Severity::Error, span, message: own(message), note: None }
    }

    /// The same diagnostic with a note on an earlier place.
    pub fn with_note(self, span: Span, message: &str) -> (r: Diagnostic)
        ensures
            r@ == (DiagnosticModel { note: Some((span, message@)), ..self@ }),
    {
        Diagnostic {
            severity: self.severity,
            span: self.span,
            message: self.message,
            note: Some(Note { span, message: own(message) }),
        }
    }
}

/// How many of the diagnostics have the given severity.
pub open spec fn count_of(log: Seq<DiagnosticModel>, severity: Severity) -> nat
    decreases log.len(),
{
    if log.len() == 0 {
        0
    } else {
        count_of(log.drop_last(), severity) + if log.last().severity == severity {
            1nat
        } else {
            0nat
        }
    }
}

/// Whether any of the diagnostics is an error.
pub open spec fn any_error(log: Seq<DiagnosticModel>) -> bool {
    exists|i: int| 0 <= i < log.len() && (#[trigger] log[i]).severity == Severity::Error
}

/// Collects diagnostics in the order in which they are emitted.
#[derive(Debug)]
pub struct DiagnosticEngine {
    pub diagnostics: Vec<Diagnostic>,
}

impl View for DiagnosticEngine {
    type V = Seq<DiagnosticModel>;

    closed spec fn view(&self) -> Seq<DiagnosticModel> {
        Seq::new(self.diagnostics@.len(), |i: int| self.diagnostics@[i]@)
    }
}

impl DiagnosticEngine {
    /// An engine that has seen nothing yet.
    pub fn new() -> (r: DiagnosticEngine)
        ensures
            r@ == Seq::<DiagnosticModel>::empty(),
    {
        let r = DiagnosticEngine { diagnostics: Vec::new() };
        assert(r@ =~= Seq::<DiagnosticModel>::empty());
        r
    }

    /// Records a diagnostic.
    pub fn emit(&mut self, diagnostic: Diagnostic)
        ensures
            final(self)@ == old(self)@.push(diagnostic@),
    {
        self.diagnostics.push(diagnostic);
        assert(self@ =~= old(self)@.push(diagnostic@));
    }

    /// Records an error.
    pub fn emit_error(&mut self, span: Span, message: &str)
        ensures
            final(self)@ == old(self)@.push(error_at(span, message@)),
    {
        self.emit(Diagnostic::error(span, message));
    }

    /// Records a warning.
    pub fn emit_warning(&mut self, span: Span, message: &str)
        ensures
            final(self)@ == old(self)@.push(warning_at(span, message@)),
    {
        self.emit(
            Diagnostic { severity: Severity::Warning, span, message: own(message), note: None },
        );
    }

    fn count(&self, severity: Severity) -> (r: usize)
        ensures
            r == count_of(self@, severity),
    {
        let mut n: usize = 0;
        let mut i: usize = 0;
        while i < self.diagnostics.len()
            invariant
                i <= self.diagnostics@.len(),
                n <= i,
                n == count_of(self@.take(i as int), severity),
            decreases self.diagnostics@.len() - i,
        {
            assert(self@.take(i + 1).drop_last() =~= self@.take(i as int));
            if self.diagnostics[i].severity == severity {
                n += 1;
            }
            i += 1;
        }
        assert(self@.take(i as int) =~= self@);
        n
    }

    /// How many errors were recorded.
    pub fn error_count(&self) -> (r: usize)
        ensures
            r == count_of(self@, Severity::Error),
    {
        self.count(Severity::Error)
    }

    /// How many warnings were recorded.
    pub fn warning_count(&self) -> (r: usize)
        ensures
            r == count_of(self@, Severity::Warning),
    {
        self.count(Severity::Warning)
    }

    /// Whether an error was recorded.
    pub fn has_errors(&self) -> (r: bool)
        ensures
            r == any_error(self@),
    {
        let mut i: usize = 0;
        while i < self.diagnostics.len()
            invariant
                i <= self.diagnostics@.len(),
                forall|j: int| 0 <= j < i ==> (#[trigger] self@[j]).severity != Severity::Error,
            decreases self.diagnostics@.len() - i,
        {
            if self.diagnostics[i].severity == Severity::Error {
                assert(self@[i as int].severity == Severity::Error);
                return true;
            }
            i += 1;
        }
        false
    }
}

} // verus!
