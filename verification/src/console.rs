//! Terminal output edge: the one place where the library writes to the
//! screen.

use vstd::prelude::*;
use std::io::Write;

verus! {

/// Relies on std::io::stdout and the writeln macro: writes the given text
/// and a newline to standard output. Nothing is promised of the write.
#[verifier::external_body]
pub(crate) fn emit_line(s: &str) {
    let _ = writeln!(std::io::stdout(), "{}", s);
}

} // verus!
