//! Current working directory state.
use vstd::prelude::*;

verus! {

/// Capacity of the working-directory buffer.
pub const CWD_MAX_LEN: usize = 128;

/// Current working directory state
pub struct CwdState {
    pub path: [u8; 128],
    pub len: usize,
}

impl CwdState {
    /// The root directory "/".
    pub fn new() -> (c: CwdState)
        ensures
            c.len == 1,
            c.path@[0] == '/' as u8,
            forall|i: int| 1 <= i < 128 ==> c.path@[i] == 0,
    {
        let mut path = [0u8; 128];
        path[0] = 0x2f;  // '/'
        CwdState { path, len: 1 }
    }
}

} // verus!
