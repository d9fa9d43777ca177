//! The frame shape of the speedscope file format, the downstream viewer's
//! input. The surrounding file document mixes counts into floating-point
//! weights and so lives with the serialization layer; the frame itself is
//! plain data.

use vstd::prelude::*;

verus! {

/// One symbolicated frame of a speedscope document.
#[derive(Debug, Clone)]
pub struct Frame {
    pub name: String,
    pub file: Option<String>,
    pub line: Option<u32>,
    pub col: Option<u32>,
}

} // verus!
