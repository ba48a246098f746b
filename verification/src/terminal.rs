use vstd::prelude::*;

verus! {

/// The size of the terminal, in rows and columns.
#[derive(Clone, Copy, PartialEq, Eq, Structural, Debug)]
pub struct Size {
    pub height: usize,
    pub width: usize,
}

} // verus!
