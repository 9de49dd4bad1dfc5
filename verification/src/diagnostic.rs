//! The diagnostic value type: a structured finding carrying the identity of
//! the rule that produced it, a human-readable message, the offending node's
//! source location, and an ordered severity. Diagnostics are pure data,
//! produced once and never mutated.

use vstd::prelude::*;
use crate::node::SourceLocation;

verus! {

/// Ordered classification of a diagnostic's importance.
#[derive(Clone, Copy, PartialEq, Eq, Structural, Debug)]
pub enum Severity {
    Low,
    Medium,
    High,
    Critical,
}

impl Severity {
    /// The severity's place in the order, least severe first.
    pub open spec fn spec_rank(self) -> nat {
        match self {
            Severity::Low => 0,
            Severity::Medium => 1,
            Severity::High => 2,
            Severity::Critical => 3,
        }
    }

    /// Whether `self` is at least as severe as `floor`. Callers use it to
    /// filter a report by severity.
    pub fn at_least(self, floor: Severity) -> (r: bool)
        ensures
            r == (self.spec_rank() >= floor.spec_rank()),
    {
        self.rank() >= floor.rank()
    }

    fn rank(self) -> (r: u8)
        ensures
            r as nat == self.spec_rank(),
    {
        match self {
            Severity::Low => 0,
            Severity::Medium => 1,
            Severity::High => 2,
            Severity::Critical => 3,
        }
    }
}

/// What a diagnostic says, as plain values.
pub ghost struct DiagnosticView {
    pub rule_id: Seq<char>,
    pub message: Seq<char>,
    pub location: SourceLocation,
    pub severity: Severity,
}

/// A structured finding emitted by a rule.
#[derive(Clone, Debug, PartialEq, Eq)]
pub struct Diagnostic {
    /// The stable identifier of the rule that produced the finding.
    pub rule_id: String,
    /// Human-readable finding text.
    pub message: String,
    /// The source span of the offending node.
    pub location: SourceLocation,
    /// How important the finding is.
    pub severity: Severity,
}

impl View for Diagnostic {
    type V = DiagnosticView;

    open spec fn view(&self) -> DiagnosticView {
        DiagnosticView {
            rule_id: self.rule_id@,
            message: self.message@,
            location: self.location,
            severity: self.severity,
        }
    }
}

/// The views of a sequence of diagnostics, in order.
pub open spec fn diag_views(ds: Seq<Diagnostic>) -> Seq<DiagnosticView> {
    ds.map_values(|d: Diagnostic| d@)
}

} // verus!
