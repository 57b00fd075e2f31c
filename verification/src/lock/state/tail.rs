//! Tail follow state for `tail -f`.
use vstd::prelude::*;
use vstd::string::StringSliceAdditionalSpecFns;
use crate::text::{copy_prefix, str_from_utf8};

verus! {

/// Capacity of the followed path.
pub const TAIL_PATH_MAX: usize = 128;

/// State for tail -f follow mode
pub struct TailFollowState {
    pub active: bool,
    pub path: [u8; 128],
    pub path_len: usize,
    pub last_size: usize,
    pub last_check_ms: i64,
}

impl TailFollowState {
    /// The stored path length fits the buffer.
    pub open spec fn wf(&self) -> bool {
        self.path_len <= TAIL_PATH_MAX
    }

    /// The followed path.
    pub open spec fn path_bytes(&self) -> Seq<u8> {
        self.path@.take(self.path_len as int)
    }

    pub fn new() -> (t: TailFollowState)
        ensures
            t.wf(),
            !t.active,
            t.path@ == Seq::new(128, |i: int| 0u8),
            t.path_len == 0,
            t.last_size == 0,
            t.last_check_ms == 0,
    {
        let t = TailFollowState { active: false, path: [0u8; 128], path_len: 0, last_size: 0, last_check_ms: 0 };
        assert(t.path@ =~= Seq::new(128, |i: int| 0u8));
        t
    }

    /// Start following `path` (cut to 128 bytes) at size `initial_size`, checked at `now_ms`.
    pub fn start(&mut self, path: &str, initial_size: usize, now_ms: i64)
        ensures
            final(self).wf(),
            ({
                let bytes = path.spec_bytes();
                let n = if bytes.len() < 128 { bytes.len() } else { 128 };
                &&& final(self).path_len == n
                &&& final(self).path@ == bytes.take(n as int) + old(self).path@.skip(n as int)
                &&& final(self).path_bytes() == bytes.take(n as int)
            }),
            final(self).last_size == initial_size,
            final(self).last_check_ms == now_ms,
            final(self).active,
            path.spec_bytes().len() <= 128 ==> final(self).path_bytes() == path.spec_bytes() && vstd::utf8::valid_utf8(
                final(self).path_bytes(),
            ),
    {
        proof {
            vstd::utf8::encode_utf8_valid_utf8(path@);
        }
        let bytes = path.as_bytes();
        let len = if bytes.len() < 128 { bytes.len() } else { 128 };
        copy_prefix(&mut self.path, bytes, len);
        self.path_len = len;
        self.last_size = initial_size;
        self.last_check_ms = now_ms;
        self.active = true;
        assert(self.path@.take(len as int) =~= bytes@.take(len as int));
    }

    pub fn stop(&mut self)
        ensures
            *final(self) == (TailFollowState { active: false, ..*old(self) }),
    {
        self.active = false;
    }

    /// The followed path while following (and it is non-empty valid UTF-8).
    pub fn get_path(&self) -> (r: Option<&str>)
        requires
            self.wf(),
        ensures
            (self.active && self.path_len > 0 && vstd::utf8::valid_utf8(self.path_bytes())) <==> r is Some,
            r matches Some(s) ==> s.spec_bytes() == self.path_bytes(),
    {
        if self.active && self.path_len > 0 {
            let n = self.path_len;
            str_from_utf8(&self.path[0..n])
        } else {
            None
        }
    }

    pub fn is_active(&self) -> (b: bool)
        ensures
            b == self.active,
    {
        self.active
    }

    pub fn last_size(&self) -> (n: usize)
        ensures
            n == self.last_size,
    {
        self.last_size
    }

    pub fn set_last_size(&mut self, size: usize)
        ensures
            *final(self) == (TailFollowState { last_size: size, ..*old(self) }),
    {
        self.last_size = size;
    }

    pub fn last_check_ms(&self) -> (t: i64)
        ensures
            t == self.last_check_ms,
    {
        self.last_check_ms
    }

    pub fn set_last_check_ms(&mut self, ms: i64)
        ensures
            *final(self) == (TailFollowState { last_check_ms: ms, ..*old(self) }),
    {
        self.last_check_ms = ms;
    }
}

} // verus!
