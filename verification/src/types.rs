//! Raw capture types: one frame is one instruction pointer taken from a
//! suspended thread's stack.

use vstd::prelude::*;

verus! {

/// A single captured instruction pointer.
#[derive(Debug, Clone, Copy, PartialEq, Eq, Structural, Hash)]
pub struct Frame {
    pub ip: u64,
}

/// One captured call stack, innermost frame first.
pub type Sample = Vec<Frame>;

/// An Unwinder walks one stack and collects frames.
pub trait Unwinder<T> {
    /// Unwind a stack from a context, returning the collected frames or the
    /// error code reported by the underlying walk.
    fn unwind(self, context: T) -> Result<Sample, i32>;
}

} // verus!
