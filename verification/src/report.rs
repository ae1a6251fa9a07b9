//! The diagnostic boundary: severity kinds, spans, the stop signal and
//! the sink interface that callers hand to the checker.

use vstd::prelude::*;

verus! {

/// Severity of a diagnostic.
#[derive(Clone, Copy, Debug, PartialEq, Eq, Structural)]
pub enum Kind {
    Note,
    Info,
    Warning,
    Error,
    Fatal,
}

/// Severity of a diagnostic as seen on the editor side of the wire.
#[derive(Clone, Copy, Debug, PartialEq, Eq, Structural)]
pub enum VSReportKind {
    Note,
    Info,
    Warning,
    Error,
    Fatal,
}

/// The wire kind that corresponds to each checker kind.
pub open spec fn spec_vs_kind(kind: Kind) -> VSReportKind {
    match kind {
        Kind::Note => VSReportKind::Note,
        Kind::Info => VSReportKind::Info,
        Kind::Warning => VSReportKind::Warning,
        Kind::Error => VSReportKind::Error,
        Kind::Fatal => VSReportKind::Fatal,
    }
}

impl VSReportKind {
    /// Maps a checker severity to the wire severity.
    pub fn from(kind: Kind) -> (r: VSReportKind)
        ensures
            r == spec_vs_kind(kind),
    {
        match kind {
            Kind::Note => VSReportKind::Note,
            Kind::Info => VSReportKind::Info,
            Kind::Warning => VSReportKind::Warning,
            Kind::Error => VSReportKind::Error,
            Kind::Fatal => VSReportKind::Fatal,
        }
    }
}

/// A source region attached to a diagnostic; offsets into the source.
#[derive(Clone, Copy, Debug, PartialEq, Eq, Structural)]
pub struct Span {
    pub lo: u32,
    pub hi: u32,
}

impl Span {
    /// The span used when no source position applies.
    pub fn dummy() -> (r: Span)
        ensures
            r.lo == 0 && r.hi == 0,
    {
        Span { lo: 0, hi: 0 }
    }
}

/// The control signal that aborts the current checking path: it is
/// raised after a fatal diagnostic or when the diagnostic consumer has
/// gone away.
#[derive(Clone, Copy, Debug, PartialEq, Eq, Structural)]
pub struct Stop;

/// The diagnostic sink interface.  The checker pushes diagnostics into
/// it; an implementation that can no longer accept them returns `Stop`
/// and the checker abandons the current path.
pub trait Report {
    fn add_span(&self, kind: Kind, span: Span, msg: &str) -> Result<(), Stop>;
}

} // verus!
