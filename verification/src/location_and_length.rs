//! A span of text given by where it starts and how long it is.

use vstd::prelude::*;

verus! {

/// A start offset together with a length.
#[derive(Debug, PartialEq, Eq, Structural, Clone, Copy)]
pub struct LocationAndLength {
    pub location: usize,
    pub length: usize,
}

} // verus!
