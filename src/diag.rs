//! Line-level findings of the snapshot parsers, for the caller to log. None
//! of them stops a parse.

use vstd::prelude::*;

verus! {

/// What was wrong with (or ignored on) one line.
#[derive(Debug, Clone, Copy, PartialEq, Eq, Structural)]
pub enum DiagnosticKind {
    /// A known key whose value is not a number.
    BadValue,
    /// A `Core <n>:` header whose id is not a number.
    BadCoreId,
    /// A `Core` header without its closing colon.
    MalformedCoreHeader,
    /// A `Proc:` header with fewer than three parts.
    MalformedProcHeader,
    /// A `Proc:` header whose pid is not a number: the block is dropped.
    BadPid,
    /// A `Memory:` value without the `/` between its two figures.
    MalformedMemory,
    /// A `Memory:` value with a side that is not a number.
    BadMemoryValue { rss_bad: bool, virt_bad: bool },
    /// A line that fits no pattern where it stands.
    UnrecognizedLine,
    /// A line that is passed over on purpose (logged at debug level).
    IgnoredLine,
}

/// One finding: the index of the line in the file (from 0) and its kind.
#[derive(Debug, Clone, Copy, PartialEq, Eq, Structural)]
pub struct Diagnostic {
    pub line: usize,
    pub kind: DiagnosticKind,
}

impl Diagnostic {
    /// Whether the finding is logged as a warning rather than at debug level.
    pub fn is_warning(&self) -> (r: bool)
        ensures
            r == !(self.kind is IgnoredLine),
    {
        !matches!(self.kind, DiagnosticKind::IgnoredLine)
    }
}

/// A bad value, unless the value parsed.
pub open spec fn number_diag(ok: bool) -> Option<DiagnosticKind> {
    if ok {
        None
    } else {
        Some(DiagnosticKind::BadValue)
    }
}

pub fn number_check(ok: bool) -> (r: Option<DiagnosticKind>)
    ensures
        r == number_diag(ok),
{
    if ok {
        None
    } else {
        Some(DiagnosticKind::BadValue)
    }
}

/// The findings of a file: for each line, in order, what the per-line rule
/// `f` says of it, tagged with the line's index.
pub open spec fn collect(found: spec_fn(int) -> Option<DiagnosticKind>, n: int) -> Seq<Diagnostic>
    decreases n,
{
    if n <= 0 {
        Seq::empty()
    } else {
        let prev = collect(found, n - 1);
        match found(n - 1) {
            Some(k) => prev.push(Diagnostic { line: (n - 1) as usize, kind: k }),
            None => prev,
        }
    }
}

} // verus!
