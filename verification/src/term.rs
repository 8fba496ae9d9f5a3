//! Terminal dimensions, as the callers probe and hand them in.

use vstd::prelude::*;

verus! {

/// Size of the terminal, in character cells.
#[derive(Debug, Clone, Copy)]
pub struct TermSize {
    pub lines: u16,
    pub cols: u16,
}

/// The line width available for listing devices: the probed terminal
/// width, or 80 columns when none could be determined.
pub fn term_cols(size: &Option<TermSize>) -> (w: u16)
    ensures
        w == match *size {
            Some(s) => s.cols,
            None => 80u16,
        },
{
    match size {
        Some(s) => s.cols,
        None => 80,
    }
}

} // verus!
