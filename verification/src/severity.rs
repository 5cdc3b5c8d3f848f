//! Severity mapping for log messages forwarded by the web content.
//!
//! The web content supplies a free-form severity label; the bridge maps it
//! onto a small fixed set of levels. Unrecognized labels fall back to the
//! most visible level, `Error`, so that nothing is silently dropped.

use vstd::prelude::*;

verus! {

/// A log level understood by the host's logging sink.
#[derive(Clone, Copy, Debug, PartialEq, Eq, Structural)]
pub enum Severity {
    Info,
    Warn,
    Error,
}

/// The fixed mapping from a severity label to a level: `"info"` and `"log"`
/// mean `Info`, `"warn"` means `Warn`, `"error"` and everything else
/// (matching is case-sensitive) mean `Error`.
pub open spec fn spec_severity(kind: Seq<char>) -> Severity {
    if kind == "info"@ || kind == "log"@ {
        Severity::Info
    } else if kind == "warn"@ {
        Severity::Warn
    } else {
        Severity::Error
    }
}

/// Compares two string slices character by character.
pub fn eq_str(a: &str, b: &str) -> (r: bool)
    ensures
        r == (a@ == b@),
{
    let na = a.unicode_len();
    let nb = b.unicode_len();
    if na != nb {
        return false;
    }
    let mut i: usize = 0;
    while i < na
        invariant
            i <= na,
            na == a@.len(),
            nb == b@.len(),
            na == nb,
            forall|k: int| 0 <= k < i ==> a@[k] == b@[k],
        decreases na - i,
    {
        if a.get_char(i) != b.get_char(i) {
            return false;
        }
        i += 1;
    }
    proof {
        assert(a@ =~= b@);
    }
    true
}

/// Maps a free-form severity label onto a [`Severity`].
pub fn severity_for_kind(kind: &str) -> (r: Severity)
    ensures
        r == spec_severity(kind@),
{
    if eq_str(kind, "info") || eq_str(kind, "log") {
        Severity::Info
    } else if eq_str(kind, "warn") {
        Severity::Warn
    } else {
        Severity::Error
    }
}

} // verus!
