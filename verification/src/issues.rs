//! Warning and error markers shown next to object labels.

use vstd::prelude::*;

verus! {

/// Whether a label carries a warning or an error.
pub struct Issues {
    pub warning: bool,
    pub error: bool,
}

impl Issues {
    /// Neither a warning nor an error.
    pub fn init() -> (issues: Self)
        ensures
            !issues.warning,
            !issues.error,
    {
        Self { warning: false, error: false }
    }
}

/// The symbols shown for a warning and for an error.
pub fn output_symbols() -> (symbols: (&'static str, &'static str))
    ensures
        symbols.0@ == "\u{26a0}"@,
        symbols.1@ == "\u{26d4}"@,
{
    ("\u{26a0}", "\u{26d4}")
}

} // verus!
