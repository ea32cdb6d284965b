//! Diagnostics: what the parser reports about the source, and how a rule builds one.

use vstd::prelude::*;
use crate::token::TextRange;

verus! {

/// How serious a diagnostic is.
#[derive(Clone, Copy, Debug, PartialEq, Eq, Structural)]
pub enum Severity {
    Error,
    Warning,
}

/// A source range with a message about it.
#[derive(Debug)]
pub struct Label {
    pub range: TextRange,
    pub message: String,
}

/// The mathematical value of a [`Label`].
pub struct LabelView {
    pub range: TextRange,
    pub message: Seq<char>,
}

impl View for Label {
    type V = LabelView;

    open spec fn view(&self) -> LabelView {
        LabelView { range: self.range, message: self.message@ }
    }
}

/// The mathematical value of a [`Diagnostic`].
pub struct DiagnosticView {
    pub severity: Severity,
    pub message: Seq<char>,
    pub primary: Option<LabelView>,
    pub secondary: Seq<LabelView>,
}

impl DiagnosticView {
    /// An error with a message and no label yet.
    pub open spec fn error(message: Seq<char>) -> DiagnosticView {
        DiagnosticView {
            severity: Severity::Error,
            message,
            primary: None,
            secondary: Seq::empty(),
        }
    }

    /// A warning with a message and no label yet.
    pub open spec fn warning(message: Seq<char>) -> DiagnosticView {
        DiagnosticView {
            severity: Severity::Warning,
            message,
            primary: None,
            secondary: Seq::empty(),
        }
    }

    /// This diagnostic with its primary label set.
    pub open spec fn primary(self, range: TextRange, message: Seq<char>) -> DiagnosticView {
        DiagnosticView { primary: Some(LabelView { range, message }), ..self }
    }

    /// This diagnostic with one more secondary label.
    pub open spec fn secondary(self, range: TextRange, message: Seq<char>) -> DiagnosticView {
        DiagnosticView { secondary: self.secondary.push(LabelView { range, message }), ..self }
    }
}

/// A finished diagnostic. It has a severity, a message, at most one primary label and
/// any number of secondary labels, and offers no way to change them.
#[derive(Debug)]
pub struct Diagnostic {
    severity: Severity,
    message: String,
    primary: Option<Label>,
    secondary: Vec<Label>,
}

impl View for Diagnostic {
    type V = DiagnosticView;

    closed spec fn view(&self) -> DiagnosticView {
        DiagnosticView {
            severity: self.severity,
            message: self.message@,
            primary: match self.primary {
                Some(l) => Some(l@),
                None => None,
            },
            secondary: self.secondary@.map_values(|l: Label| l@),
        }
    }
}

impl Diagnostic {
    pub fn severity(&self) -> (s: Severity)
        ensures
            s == self@.severity,
    {
        self.severity
    }

    pub fn message(&self) -> (m: &str)
        ensures
            m@ == self@.message,
    {
        self.message.as_str()
    }

    /// The range of the primary label, if there is one.
    pub fn primary_range(&self) -> (r: Option<TextRange>)
        ensures
            r == match self@.primary {
                Some(l) => Some(l.range),
                None => None,
            },
    {
        match &self.primary {
            Some(l) => Some(l.range),
            None => None,
        }
    }

    /// The message of the primary label, if there is one.
    pub fn primary_message(&self) -> (m: Option<&str>)
        ensures
            match (m, self@.primary) {
                (Some(s), Some(l)) => s@ == l.message,
                (None, None) => true,
                _ => false,
            },
    {
        match &self.primary {
            Some(l) => Some(l.message.as_str()),
            None => None,
        }
    }

    /// How many secondary labels there are.
    pub fn secondary_len(&self) -> (n: usize)
        ensures
            n == self@.secondary.len(),
    {
        self.secondary.len()
    }

    /// The range of secondary label number `i`.
    pub fn secondary_range(&self, i: usize) -> (r: TextRange)
        requires
            i < self@.secondary.len(),
        ensures
            r == self@.secondary[i as int].range,
    {
        self.secondary[i].range
    }

    /// The message of secondary label number `i`.
    pub fn secondary_message(&self, i: usize) -> (m: &str)
        requires
            i < self@.secondary.len(),
        ensures
            m@ == self@.secondary[i as int].message,
    {
        self.secondary[i].message.as_str()
    }
}

/// A diagnostic under construction.
#[derive(Debug)]
pub struct DiagnosticBuilder {
    diagnostic: Diagnostic,
}

impl View for DiagnosticBuilder {
    type V = DiagnosticView;

    closed spec fn view(&self) -> DiagnosticView {
        self.diagnostic@
    }
}

impl DiagnosticBuilder {
    /// Starts an error with the given message.
    pub fn error(message: &str) -> (b: DiagnosticBuilder)
        ensures
            b@ == DiagnosticView::error(message@),
    {
        let b = DiagnosticBuilder {
            diagnostic: Diagnostic {
                severity: Severity::Error,
                message: String::from_str(message),
                primary: None,
                secondary: Vec::new(),
            },
        };
        assert(b@.secondary =~= Seq::empty());
        b
    }

    /// Starts a warning with the given message.
    pub fn warning(message: &str) -> (b: DiagnosticBuilder)
        ensures
            b@ == DiagnosticView::warning(message@),
    {
        let b = DiagnosticBuilder {
            diagnostic: Diagnostic {
                severity: Severity::Warning,
                message: String::from_str(message),
                primary: None,
                secondary: Vec::new(),
            },
        };
        assert(b@.secondary =~= Seq::empty());
        b
    }

    /// Sets the primary label.
    pub fn primary(self, range: TextRange, message: &str) -> (b: DiagnosticBuilder)
        ensures
            b@ == self@.primary(range, message@),
    {
        let mut d = self.diagnostic;
        d.primary = Some(Label { range, message: String::from_str(message) });
        DiagnosticBuilder { diagnostic: d }
    }

    /// Adds a secondary label.
    pub fn secondary(self, range: TextRange, message: &str) -> (b: DiagnosticBuilder)
        ensures
            b@ == self@.secondary(range, message@),
    {
        let mut d = self.diagnostic;
        let ghost before = d.secondary@;
        d.secondary.push(Label { range, message: String::from_str(message) });
        assert(d.secondary@.map_values(|l: Label| l@) =~= before.map_values(|l: Label| l@).push(
            LabelView { range, message: message@ },
        ));
        DiagnosticBuilder { diagnostic: d }
    }

    /// Finishes the diagnostic.
    pub fn build(self) -> (d: Diagnostic)
        ensures
            d@ == self@,
    {
        self.diagnostic
    }
}

} // verus!
