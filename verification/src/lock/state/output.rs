//! Output capture state for redirection.
use vstd::prelude::*;

verus! {

/// Capacity of the output capture buffer.
pub const OUTPUT_BUFFER_SIZE: usize = 4096;

/// Output capture state for redirection
pub struct OutputCaptureState {
    pub buffer: Vec<u8>,
    pub len: usize,
    pub capturing: bool,
}

impl OutputCaptureState {
    /// An empty buffer, not capturing.
    pub fn new() -> (o: OutputCaptureState)
        ensures
            o.buffer@ == Seq::new(OUTPUT_BUFFER_SIZE as nat, |i: int| 0u8),
            o.len == 0,
            !o.capturing,
    {
        let buffer = vec![0u8; OUTPUT_BUFFER_SIZE];
        OutputCaptureState { buffer, len: 0, capturing: false }
    }

    /// The captured bytes.
    pub open spec fn captured(&self) -> Seq<u8> {
        self.buffer@.take(self.len as int)
    }
}

} // verus!
