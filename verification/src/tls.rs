//! Pieces of the HTTPS client that are the kernel's own: the random number
//! generator handed to the TLS library, error values, the GET request, when a
//! response is complete, and number formatting.
use vstd::prelude::*;
use vstd::string::StringSliceAdditionalSpecFns;
use crate::fmt::{dec_text, push_bytes, push_decimal};
use crate::net::utils::{ipv4_of, parse_ipv4};
use crate::text::{
    all_digits, bytes_between, lines_from, text_lines, dec_value, find, find_byte, parse_usize, parse_usize_spec, str_from_utf8,
    whitespace_width, ws_width,
};

verus! {

pub open spec fn lit_get_sp() -> Seq<u8> {
    seq![0x47u8, 0x45, 0x54, 0x20]
}

pub open spec fn lit_http_host() -> Seq<u8> {
    seq![0x20u8, 0x48, 0x54, 0x54, 0x50, 0x2f, 0x31, 0x2e, 0x31, 0x0d, 0x0a, 0x48, 0x6f, 0x73, 0x74, 0x3a, 0x20]
}

pub open spec fn lit_ua() -> Seq<u8> {
    seq![0x0du8, 0x0a, 0x55, 0x73, 0x65, 0x72, 0x2d, 0x41, 0x67, 0x65, 0x6e, 0x74, 0x3a, 0x20, 0x42, 0x41, 0x56, 0x59, 0x20, 0x4f, 0x53, 0x2f]
}

pub open spec fn lit_tail() -> Seq<u8> {
    seq![0x0du8, 0x0a, 0x41, 0x63, 0x63, 0x65, 0x70, 0x74, 0x3a, 0x20, 0x2a, 0x2f, 0x2a, 0x0d, 0x0a, 0x43, 0x6f, 0x6e, 0x6e, 0x65, 0x63, 0x74, 0x69, 0x6f, 0x6e, 0x3a, 0x20, 0x63, 0x6c, 0x6f, 0x73, 0x65, 0x0d, 0x0a, 0x0d, 0x0a]
}

pub open spec fn lit_cl() -> Seq<u8> {
    seq![0x63u8, 0x6f, 0x6e, 0x74, 0x65, 0x6e, 0x74, 0x2d, 0x6c, 0x65, 0x6e, 0x67, 0x74, 0x68, 0x3a]
}

pub open spec fn lit_te() -> Seq<u8> {
    seq![0x74u8, 0x72, 0x61, 0x6e, 0x73, 0x66, 0x65, 0x72, 0x2d, 0x65, 0x6e, 0x63, 0x6f, 0x64, 0x69, 0x6e, 0x67, 0x3a]
}

pub open spec fn lit_chunked() -> Seq<u8> {
    seq![0x63u8, 0x68, 0x75, 0x6e, 0x6b, 0x65, 0x64]
}

pub open spec fn lit_chunk_end() -> Seq<u8> {
    seq![0x30u8, 0x0d, 0x0a, 0x0d, 0x0a]
}


/// xorshift64 state.
pub struct SimpleRng {
    pub state: u64,
}

/// One xorshift64 step (shifts 13, 7, 17).
pub open spec fn xorshift(s: u64) -> u64 {
    let a = s ^ (s << 13u64);
    let b = a ^ (a >> 7u64);
    b ^ (b << 17u64)
}

/// The seeding mix: the clock's first reading xor a constant, then ten more
/// readings folded in by multiply-and-add.
pub open spec fn seed_state(first: u64, more: Seq<u64>) -> u64
    decreases more.len(),
{
    if more.len() == 0 {
        first ^ 0xdeadbeef_cafebabeu64
    } else {
        let prev = seed_state(first, more.drop_last());
        prev.wrapping_mul(6364136223846793005u64).wrapping_add(more.last())
    }
}

impl SimpleRng {
    /// Seed from eleven readings of the machine timer.
    pub fn from_clock(first: u64, more: &[u64; 10]) -> (r: Self)
        ensures
            r.state == seed_state(first, more@),
    {
        let mut state = first ^ 0xdeadbeef_cafebabe;
        let mut i: usize = 0;
        while i < 10
            invariant
                i <= 10,
                more@.len() == 10,
                state == seed_state(first, more@.take(i as int)),
            decreases 10 - i,
        {
            assert(more@.take(i + 1).drop_last() =~= more@.take(i as int));
            state = state.wrapping_mul(6364136223846793005).wrapping_add(more[i]);
            i = i + 1;
        }
        assert(more@.take(10) =~= more@);
        SimpleRng { state }
    }

    /// The next 64 random bits.
    pub fn next_u64(&mut self) -> (r: u64)
        ensures
            r == xorshift(old(self).state),
            final(self).state == r,
    {
        let mut s = self.state;
        s = s ^ (s << 13u64);
        s = s ^ (s >> 7u64);
        s = s ^ (s << 17u64);
        self.state = s;
        s
    }

    /// The next 32 random bits (the low half of the next 64).
    pub fn next_u32(&mut self) -> (r: u32)
        ensures
            r == xorshift(old(self).state) as u32,
            final(self).state == xorshift(old(self).state),
    {
        self.next_u64() as u32
    }

    /// Fill `dest` with the little-endian bytes of successive 64-bit outputs.
    pub fn fill_bytes(&mut self, dest: &mut [u8])
        ensures
            final(dest)@.len() == old(dest)@.len(),
            final(self).state == rng_state(old(self).state, ((old(dest)@.len() + 7) / 8) as nat),
            forall|k: int|
                0 <= k < final(dest)@.len() ==> #[trigger] final(dest)@[k] == ((rng_word(old(self).state, (k / 8) as nat) >> (
                (8 * (k % 8)) as u64)) & 0xff) as u8,
    {
        let mut i: usize = 0;
        let n = dest.len();
        while i < n
            invariant
                n == dest@.len(),
                dest@.len() == old(dest)@.len(),
                i <= n,
                i % 8 == 0 || i == n,
                self.state == rng_state(old(self).state, ((i + 7) / 8) as nat),
                forall|k: int|
                    0 <= k < i ==> #[trigger] dest@[k] == ((rng_word(old(self).state, (k / 8) as nat) >> ((8 * (k
                        % 8)) as u64)) & 0xff) as u8,
            decreases n - i,
        {
            let ghost i0 = i;
            let w = self.next_u64();
            assert(w == rng_word(old(self).state, (i / 8) as nat));
            let mut j: usize = 0;
            while j < 8 && i < n
                invariant
                    n == dest@.len(),
                    dest@.len() == old(dest)@.len(),
                    j <= 8,
                    i <= n,
                    i == i0 + j,
                    i0 % 8 == 0,
                    i0 < n,
                    (i - j) % 8 == 0,
                    w == rng_word(old(self).state, ((i - j) / 8) as nat),
                    self.state == rng_state(old(self).state, (i0 / 8 + 1) as nat),
                    forall|k: int|
                        0 <= k < i ==> #[trigger] dest@[k] == ((rng_word(old(self).state, (k / 8) as nat) >> ((8
                            * (k % 8)) as u64)) & 0xff) as u8,
                    j < 8 ==> (i - j) / 8 * 8 + j == i,
                decreases 8 - j,
            {
                dest[i] = ((w >> (8 * j as u64)) & 0xff) as u8;
                assert(i / 8 == (i - j) / 8 && i % 8 == j);
                i = i + 1;
                j = j + 1;
            }
            assert(i > i0);
            assert(i == i0 + j);
            if i % 8 == 0 {
                assert(j == 8);
                assert(i / 8 == i0 / 8 + 1);
            }
            assert((i + 7) / 8 == i0 / 8 + 1);
        }
    }
}

/// The state after `n` steps.
pub open spec fn rng_state(s: u64, n: nat) -> u64
    decreases n,
{
    if n == 0 {
        s
    } else {
        xorshift(rng_state(s, (n - 1) as nat))
    }
}

/// The `n`-th output (counting from 0).
pub open spec fn rng_word(s: u64, n: nat) -> u64 {
    rng_state(s, n + 1)
}

/// The first `n` bytes `fill_bytes` draws from state `s`: each 64-bit output
/// in little-endian order.
pub open spec fn rng_bytes(s: u64, n: nat) -> Seq<u8> {
    Seq::new(n, |k: int| ((rng_word(s, (k / 8) as nat) >> ((8 * (k % 8)) as u64)) & 0xff) as u8)
}

/// `a` steps and then `b` more are `a + b` steps.
pub proof fn lemma_rng_state_add(s: u64, a: nat, b: nat)
    ensures
        rng_state(rng_state(s, a), b) == rng_state(s, a + b),
    decreases b,
{
    if b > 0 {
        lemma_rng_state_add(s, a, (b - 1) as nat);
    }
}

/// Thirty-two random bytes (four 64-bit outputs).
pub fn random_bytes32(rng: &mut SimpleRng) -> (r: [u8; 32])
    ensures
        r@ == rng_bytes(old(rng).state, 32),
        final(rng).state == rng_state(old(rng).state, 4),
{
    let mut b = [0u8; 32];
    rng.fill_bytes(&mut b);
    assert(b@ =~= rng_bytes(old(rng).state, 32));
    b
}

/// What can go wrong in an HTTPS request.
#[derive(Clone, Copy, Debug, PartialEq, Eq, Structural)]
pub enum TlsError {
    ConnectionError,
    TlsProtocolError,
    Timeout,
    InvalidData,
    Io,
    ConnectionClosed,
    NotConnected,
    DnsError,
    InternalError,
}

/// How an error reads.
pub open spec fn error_text(e: TlsError) -> Seq<char> {
    match e {
        TlsError::ConnectionError => "Connection error"@,
        TlsError::TlsProtocolError => "TLS protocol error"@,
        TlsError::Timeout => "Timeout"@,
        TlsError::InvalidData => "Invalid data"@,
        TlsError::Io => "I/O error"@,
        TlsError::ConnectionClosed => "Connection closed"@,
        TlsError::NotConnected => "Not connected"@,
        TlsError::DnsError => "DNS error"@,
        TlsError::InternalError => "Internal error"@,
    }
}

impl TlsError {
    /// How the error reads.
    pub fn message(&self) -> (s: &'static str)
        ensures
            s@ == error_text(*self),
    {
        match self {
            TlsError::ConnectionError => "Connection error",
            TlsError::TlsProtocolError => "TLS protocol error",
            TlsError::Timeout => "Timeout",
            TlsError::InvalidData => "Invalid data",
            TlsError::Io => "I/O error",
            TlsError::ConnectionClosed => "Connection closed",
            TlsError::NotConnected => "Not connected",
            TlsError::DnsError => "DNS error",
            TlsError::InternalError => "Internal error",
        }
    }
}

/// The blocking socket's clock: when the current wait began and how long it may last.
pub struct BlockingTcpSocket {
    pub timeout_ms: i64,
    pub start_time: i64,
}

impl BlockingTcpSocket {
    /// A socket whose first wait begins at `now`.
    pub fn new(timeout_ms: i64, now: i64) -> (s: Self)
        ensures
            s.timeout_ms == timeout_ms,
            s.start_time == now,
    {
        BlockingTcpSocket { timeout_ms, start_time: now }
    }

    /// Progress: the wait begins again at `now`.
    pub fn reset_timeout(&mut self, now: i64)
        ensures
            final(self).start_time == now,
            final(self).timeout_ms == old(self).timeout_ms,
    {
        self.start_time = now;
    }

    /// The wait has lasted longer than the timeout.
    pub fn check_timeout(&self, now: i64) -> (r: bool)
        requires
            i64::MIN <= now - self.start_time <= i64::MAX,
        ensures
            r == (now - self.start_time > self.timeout_ms),
    {
        now - self.start_time > self.timeout_ms
    }

    /// What a close asks of the stack at `now`: an orderly close.
    pub fn close(&self, now: i64) -> (t: i64)
        ensures
            t == now,
    {
        now
    }

    /// What an abort asks of the stack: a reset, the wait over.
    pub fn abort(&mut self, now: i64)
        ensures
            final(self).start_time == now,
            final(self).timeout_ms == old(self).timeout_ms,
    {
        self.start_time = now;
    }
}

/// The GET request for `path` on `host`.
pub open spec fn get_request(path: Seq<u8>, host: Seq<u8>, version: Seq<u8>) -> Seq<u8> {
    lit_get_sp() + path + lit_http_host() + host + lit_ua() + version + lit_tail()
}

/// Build the GET request.
pub fn build_get_request(path: &str, host: &str, version: &str) -> (r: Vec<u8>)
    ensures
        r@ == get_request(path.spec_bytes(), host.spec_bytes(), version.spec_bytes()),
{
    let mut out: Vec<u8> = Vec::new();
    push_bytes(&mut out, &[0x47u8, 0x45, 0x54, 0x20]);
    push_bytes(&mut out, path.as_bytes());
    push_bytes(&mut out, &[0x20u8, 0x48, 0x54, 0x54, 0x50, 0x2f, 0x31, 0x2e, 0x31, 0x0d, 0x0a, 0x48, 0x6f, 0x73, 0x74, 0x3a, 0x20]);
    push_bytes(&mut out, host.as_bytes());
    push_bytes(&mut out, &[0x0du8, 0x0a, 0x55, 0x73, 0x65, 0x72, 0x2d, 0x41, 0x67, 0x65, 0x6e, 0x74, 0x3a, 0x20, 0x42, 0x41, 0x56, 0x59, 0x20, 0x4f, 0x53, 0x2f]);
    push_bytes(&mut out, version.as_bytes());
    push_bytes(&mut out, &[0x0du8, 0x0a, 0x41, 0x63, 0x63, 0x65, 0x70, 0x74, 0x3a, 0x20, 0x2a, 0x2f, 0x2a, 0x0d, 0x0a, 0x43, 0x6f, 0x6e, 0x6e, 0x65, 0x63, 0x74, 0x69, 0x6f, 0x6e, 0x3a, 0x20, 0x63, 0x6c, 0x6f, 0x73, 0x65, 0x0d, 0x0a, 0x0d, 0x0a]);
    assert(([0x47u8, 0x45, 0x54, 0x20])@ == lit_get_sp());
    assert(([0x20u8, 0x48, 0x54, 0x54, 0x50, 0x2f, 0x31, 0x2e, 0x31, 0x0d, 0x0a, 0x48, 0x6f, 0x73, 0x74, 0x3a, 0x20])@ == lit_http_host());
    assert(([0x0du8, 0x0a, 0x55, 0x73, 0x65, 0x72, 0x2d, 0x41, 0x67, 0x65, 0x6e, 0x74, 0x3a, 0x20, 0x42, 0x41, 0x56, 0x59, 0x20, 0x4f, 0x53, 0x2f])@ == lit_ua());
    assert(([0x0du8, 0x0a, 0x41, 0x63, 0x63, 0x65, 0x70, 0x74, 0x3a, 0x20, 0x2a, 0x2f, 0x2a, 0x0d, 0x0a, 0x43, 0x6f, 0x6e, 0x6e, 0x65, 0x63, 0x74, 0x69, 0x6f, 0x6e, 0x3a, 0x20, 0x63, 0x6c, 0x6f, 0x73, 0x65, 0x0d, 0x0a, 0x0d, 0x0a])@ == lit_tail());
    assert(out@ =~= get_request(path.spec_bytes(), host.spec_bytes(), version.spec_bytes()));
    out
}

/// Where an HTTPS GET goes and what it sends: the host's address is its text
/// if that is a dotted quad, else what DNS gave for it (`resolved`; none is a
/// DNS error). The TLS exchange itself is the TLS library's.
pub fn https_get_url(hostname: &str, resolved: Option<[u8; 4]>, path: &str, version: &str) -> (r: Result<([u8; 4], Vec<u8>), TlsError>)
    ensures
        match ipv4_of(hostname.spec_bytes()) {
            Some(a) => r matches Ok((ip, req)) && ip@ == a && req@ == get_request(path.spec_bytes(), hostname.spec_bytes(), version.spec_bytes()),
            None => match resolved {
                Some(ip0) => r matches Ok((ip, req)) && ip == ip0 && req@ == get_request(path.spec_bytes(), hostname.spec_bytes(), version.spec_bytes()),
                None => r == Err::<([u8; 4], Vec<u8>), TlsError>(TlsError::DnsError),
            },
        },
{
    let ip = match parse_ipv4(hostname.as_bytes()) {
        Some(a) => a,
        None => match resolved {
            Some(a) => a,
            None => {
                return Err(TlsError::DnsError);
            },
        },
    };
    Ok((ip, build_get_request(path, hostname, version)))
}

/// TLS is built in.
pub fn is_available() -> (r: bool)
    ensures
        r,
{
    true
}

/// What the TLS support offers.
pub fn status() -> (s: &'static str)
    ensures
        s@ == "TLS 1.3 only (AES-128-GCM-SHA256, no cert verification)"@,
{
    "TLS 1.3 only (AES-128-GCM-SHA256, no cert verification)"
}

/// Write the decimal digits of an octet at the front of `buf`.
pub fn format_u8(n: u8, buf: &mut [u8]) -> (len: usize)
    requires
        old(buf)@.len() >= dec_text(n as nat).len(),
    ensures
        len == dec_text(n as nat).len(),
        final(buf)@.len() == old(buf)@.len(),
        final(buf)@.take(len as int) == dec_text(n as nat),
        final(buf)@.skip(len as int) == old(buf)@.skip(len as int),
        1 <= len <= 3,
        crate::text::parse_usize_spec(final(buf)@.take(len as int)) == Some(n as nat),
        len > 1 ==> final(buf)@[0] != 0x30,
{
    let mut v: Vec<u8> = Vec::new();
    push_decimal(&mut v, n as u64);
    proof {
        crate::text::lemma_dec_text_reads_back(n as nat, 3);
        reveal_with_fuel(crate::text::ten_pow, 4);
        assert(crate::text::ten_pow(3) == 1000);
    }
    copy_out(buf, &v)
}

/// Write the decimal digits of a 16-bit number at the front of `buf`.
pub fn format_u16(n: u16, buf: &mut [u8]) -> (len: usize)
    requires
        old(buf)@.len() >= dec_text(n as nat).len(),
    ensures
        len == dec_text(n as nat).len(),
        final(buf)@.len() == old(buf)@.len(),
        final(buf)@.take(len as int) == dec_text(n as nat),
        final(buf)@.skip(len as int) == old(buf)@.skip(len as int),
        1 <= len <= 5,
        crate::text::parse_usize_spec(final(buf)@.take(len as int)) == Some(n as nat),
        len > 1 ==> final(buf)@[0] != 0x30,
{
    let mut v: Vec<u8> = Vec::new();
    push_decimal(&mut v, n as u64);
    proof {
        crate::text::lemma_dec_text_reads_back(n as nat, 5);
        reveal_with_fuel(crate::text::ten_pow, 6);
        assert(crate::text::ten_pow(5) == 100000);
    }
    copy_out(buf, &v)
}

/// Write the decimal digits of a 32-bit number at the front of `buf`.
pub fn format_u32(n: u32, buf: &mut [u8]) -> (len: usize)
    requires
        old(buf)@.len() >= dec_text(n as nat).len(),
    ensures
        len == dec_text(n as nat).len(),
        final(buf)@.len() == old(buf)@.len(),
        final(buf)@.take(len as int) == dec_text(n as nat),
        final(buf)@.skip(len as int) == old(buf)@.skip(len as int),
        1 <= len <= 10,
        crate::text::parse_usize_spec(final(buf)@.take(len as int)) == Some(n as nat),
        len > 1 ==> final(buf)@[0] != 0x30,
{
    let mut v: Vec<u8> = Vec::new();
    push_decimal(&mut v, n as u64);
    proof {
        crate::text::lemma_dec_text_reads_back(n as nat, 10);
        reveal_with_fuel(crate::text::ten_pow, 11);
        assert(crate::text::ten_pow(10) == 10000000000);
    }
    copy_out(buf, &v)
}

fn copy_out(buf: &mut [u8], v: &Vec<u8>) -> (len: usize)
    requires
        old(buf)@.len() >= v@.len(),
    ensures
        len == v@.len(),
        final(buf)@.len() == old(buf)@.len(),
        final(buf)@.take(len as int) == v@,
        final(buf)@.skip(len as int) == old(buf)@.skip(len as int),
{
    let mut i: usize = 0;
    while i < v.len()
        invariant
            i <= v@.len(),
            v@.len() <= buf@.len(),
            buf@.len() == old(buf)@.len(),
            forall|k: int| 0 <= k < i ==> buf@[k] == v@[k],
            forall|k: int| i <= k < buf@.len() ==> buf@[k] == old(buf)@[k],
        decreases v@.len() - i,
    {
        buf[i] = v[i];
        i = i + 1;
    }
    assert(buf@.take(i as int) =~= v@);
    assert(buf@.skip(i as int) =~= old(buf)@.skip(i as int));
    i
}

// ─── Responses ────────────────────────────────────────────────────────────────

/// Position of the first "\r\n\r\n" at or after `i`.
pub open spec fn header_end_from(d: Seq<u8>, i: int) -> Option<int>
    decreases d.len() - i,
{
    if i < 0 || i + 4 > d.len() {
        None
    } else if d[i] == 0x0d && d[i + 1] == 0x0a && d[i + 2] == 0x0d && d[i + 3] == 0x0a {
        Some(i)
    } else {
        header_end_from(d, i + 1)
    }
}

/// Where the header of a response ends (its blank line starts).
pub fn find_header_end(data: &[u8]) -> (r: Option<usize>)
    ensures
        match r {
            Some(k) => header_end_from(data@, 0) == Some(k as int) && k + 4 <= data@.len(),
            None => header_end_from(data@, 0) is None,
        },
{
    if data.len() < 4 {
        return None;
    }
    let mut i: usize = 0;
    while i < data.len() - 3
        invariant
            data@.len() >= 4,
            i <= data@.len() - 3,
            header_end_from(data@, 0) == header_end_from(data@, i as int),
        decreases data@.len() - i,
    {
        if data[i] == 0x0d && data[i + 1] == 0x0a && data[i + 2] == 0x0d && data[i + 3] == 0x0a {
            return Some(i);
        }
        i = i + 1;
    }
    None
}

/// ASCII letters in lower case.
pub open spec fn ascii_lower(s: Seq<u8>) -> Seq<u8> {
    s.map_values(|b: u8| if 0x41 <= b <= 0x5a {
        (b + 32) as u8
    } else {
        b
    })
}

/// `p` occurs in `h`.
pub open spec fn contains_bytes(h: Seq<u8>, p: Seq<u8>) -> bool {
    exists|i: int| 0 <= i && i + p.len() <= h.len() && #[trigger] h.subrange(i, i + p.len()) == p
}

/// The part of a header line between its first and second ':'.
pub open spec fn after_first_colon(line: Seq<u8>) -> Seq<u8> {
    match find(line, 0x3a) {
        Some(k) => {
            let rest = line.skip(k + 1);
            match find(rest, 0x3a) {
                Some(m) => rest.take(m),
                None => rest,
            }
        },
        None => Seq::empty(),
    }
}

/// The header value as a number: trimmed, it must parse.
pub open spec fn header_number(v: Seq<u8>) -> Option<nat> {
    let w = crate::text::words(v);
    if w.len() == 1 {
        parse_usize_spec(w[0])
    } else {
        None
    }
}

/// The verdict of the first header line that decides, from line `i` on: a
/// Content-Length that parses says whether that much body has arrived; a
/// chunked Transfer-Encoding says whether the last chunk has.
pub open spec fn header_verdict(ls: Seq<Seq<u8>>, i: int, data: Seq<u8>, body_len: int) -> Option<bool>
    decreases ls.len() - i,
{
    if i < 0 || i >= ls.len() {
        None
    } else {
        let line = ls[i];
        let lower = ascii_lower(line);
        let by_length = if lit_cl().is_prefix_of(lower) {
            match header_number(after_first_colon(line)) {
                Some(n) => Some(body_len >= n),
                None => None,
            }
        } else {
            None
        };
        if by_length is Some {
            by_length
        } else if lit_te().is_prefix_of(lower) && contains_bytes(lower, lit_chunked()) {
            Some(contains_bytes(data, lit_chunk_end()))
        } else {
            header_verdict(ls, i + 1, data, body_len)
        }
    }
}

/// A header line that settles completeness by itself: a Content-Length that
/// parses, or a chunked Transfer-Encoding.
pub open spec fn deciding_line(line: Seq<u8>) -> bool {
    (lit_cl().is_prefix_of(ascii_lower(line)) && header_number(after_first_colon(line)) is Some) || (
    lit_te().is_prefix_of(ascii_lower(line)) && contains_bytes(ascii_lower(line), lit_chunked()))
}

proof fn lemma_verdict_skips(ls: Seq<Seq<u8>>, j: int, i: int, data: Seq<u8>, body_len: int)
    requires
        0 <= j <= i < ls.len(),
        forall|k: int| 0 <= k < i ==> !deciding_line(#[trigger] ls[k]),
    ensures
        header_verdict(ls, j, data, body_len) == header_verdict(ls, i, data, body_len),
    decreases i - j,
{
    if j < i {
        assert(!deciding_line(ls[j]));
        lemma_verdict_skips(ls, j + 1, i, data, body_len);
    }
}

/// A chunked response is complete exactly when its last chunk ("0\r\n\r\n")
/// has arrived: for header lines whose first deciding line is a
/// "Transfer-Encoding: ... chunked" line (in any letter case).
pub proof fn lemma_chunked_needs_last_chunk(ls: Seq<Seq<u8>>, i: int, data: Seq<u8>, body_len: int)
    requires
        0 <= i < ls.len(),
        seq![0x74u8, 0x72, 0x61, 0x6e, 0x73, 0x66, 0x65, 0x72, 0x2d, 0x65, 0x6e, 0x63, 0x6f, 0x64, 0x69, 0x6e, 0x67, 0x3a].is_prefix_of(
            ascii_lower(ls[i]),
        ),
        contains_bytes(ascii_lower(ls[i]), seq![0x63u8, 0x68, 0x75, 0x6e, 0x6b, 0x65, 0x64]),
        forall|k: int| 0 <= k < i ==> !deciding_line(#[trigger] ls[k]),
    ensures
        header_verdict(ls, 0, data, body_len) == Some(contains_bytes(data, seq![0x30u8, 0x0d, 0x0a, 0x0d, 0x0a])),
{
    lemma_verdict_skips(ls, 0, i, data, body_len);
    let lower = ascii_lower(ls[i]);
    assert(lower[0] == 0x74u8);
    assert(!lit_cl().is_prefix_of(lower)) by {
        if lit_cl().is_prefix_of(lower) {
            assert(lit_cl()[0] == lower[0]);
        }
    }
    assert(lit_te() == seq![0x74u8, 0x72, 0x61, 0x6e, 0x73, 0x66, 0x65, 0x72, 0x2d, 0x65, 0x6e, 0x63, 0x6f, 0x64, 0x69, 0x6e, 0x67, 0x3a]);
    assert(lit_chunked() == seq![0x63u8, 0x68, 0x75, 0x6e, 0x6b, 0x65, 0x64]);
    assert(lit_chunk_end() == seq![0x30u8, 0x0d, 0x0a, 0x0d, 0x0a]);
}

/// The same at the level of a whole response: once its header has ended and
/// reads as text, a chunked one (no deciding header before) is complete
/// exactly when the last chunk has arrived, whatever else of the body came.
pub proof fn lemma_chunked_response(data: Seq<u8>, he: int, i: int)
    requires
        header_end_from(data, 0) == Some(he),
        vstd::utf8::valid_utf8(data.take(he)),
        0 <= i < lines_from(data.take(he), 0, Seq::empty()).len(),
        seq![0x74u8, 0x72, 0x61, 0x6e, 0x73, 0x66, 0x65, 0x72, 0x2d, 0x65, 0x6e, 0x63, 0x6f, 0x64, 0x69, 0x6e, 0x67, 0x3a].is_prefix_of(
            ascii_lower(lines_from(data.take(he), 0, Seq::empty())[i]),
        ),
        contains_bytes(ascii_lower(lines_from(data.take(he), 0, Seq::empty())[i]), seq![0x63u8, 0x68, 0x75, 0x6e, 0x6b, 0x65, 0x64]),
        forall|k: int| 0 <= k < i ==> !deciding_line(#[trigger] lines_from(data.take(he), 0, Seq::empty())[k]),
    ensures
        response_complete(data) == contains_bytes(data, seq![0x30u8, 0x0d, 0x0a, 0x0d, 0x0a]),
{
    let ls = lines_from(data.take(he), 0, Seq::empty());
    let body_start = he + 4;
    let body_len = if data.len() > body_start {
        data.len() - body_start
    } else {
        0
    };
    lemma_chunked_needs_last_chunk(ls, i, data, body_len);
}

/// Whether a response has fully arrived: its header must have ended; then
/// the headers decide (ASCII case-insensitively), and without a deciding
/// header any body byte will do.
pub open spec fn response_complete(data: Seq<u8>) -> bool {
    match header_end_from(data, 0) {
        None => false,
        Some(he) => {
            let body_start = he + 4;
            let body_len = if data.len() > body_start {
                data.len() - body_start
            } else {
                0
            };
            let headers = data.take(he);
            let verdict = if vstd::utf8::valid_utf8(headers) {
                header_verdict(lines_from(headers, 0, Seq::empty()), 0, data, body_len)
            } else {
                None
            };
            match verdict {
                Some(v) => v,
                None => data.len() > body_start,
            }
        },
    }
}

fn lower_exec(s: &Vec<u8>) -> (r: Vec<u8>)
    ensures
        r@ == ascii_lower(s@),
{
    let mut r: Vec<u8> = Vec::new();
    let mut i: usize = 0;
    while i < s.len()
        invariant
            i <= s@.len(),
            r@ == ascii_lower(s@.take(i as int)),
        decreases s@.len() - i,
    {
        let b = s[i];
        r.push(if 0x41 <= b && b <= 0x5a {
            b + 32
        } else {
            b
        });
        i = i + 1;
        assert(r@ =~= ascii_lower(s@.take(i as int)));
    }
    assert(s@.take(s@.len() as int) =~= s@);
    r
}

fn contains_exec(h: &[u8], p: &[u8]) -> (r: bool)
    ensures
        r == contains_bytes(h@, p@),
{
    if p.len() > h.len() {
        return false;
    }
    let hl = h.len();
    let mut i: usize = 0;
    while i <= h.len() - p.len()
        invariant
            hl == h@.len(),
            p@.len() <= h@.len(),
            i <= h@.len() - p@.len() + 1,
            forall|k: int| 0 <= k < i ==> #[trigger] h@.subrange(k, k + p@.len()) != p@,
        decreases h@.len() - p@.len() + 1 - i,
    {
        let mut j: usize = 0;
        while j < p.len() && h[i + j] == p[j]
            invariant
                hl == h@.len(),
                p@.len() <= h@.len(),
                i + p@.len() <= h@.len(),
                j <= p@.len(),
                forall|k: int| 0 <= k < j ==> h@[i + k] == p@[k],
            decreases p@.len() - j,
        {
            j = j + 1;
        }
        if j == p.len() {
            assert(h@.subrange(i as int, i + p@.len()) =~= p@);
            return true;
        }
        assert(h@.subrange(i as int, i + p@.len())[j as int] == h@[i + j]);
        i = i + 1;
    }
    false
}

fn after_first_colon_exec(line: &Vec<u8>) -> (r: Vec<u8>)
    ensures
        r@ == after_first_colon(line@),
{
    let n = line.len();
    match find_byte(line, 0x3a) {
        Some(k) => {
            let rest = crate::text::bytes_from(line, k + 1);
            match find_byte(&rest, 0x3a) {
                Some(m) => crate::text::bytes_to(&rest, m),
                None => rest,
            }
        },
        None => Vec::new(),
    }
}

fn header_number_exec(v: &Vec<u8>) -> (r: Option<usize>)
    ensures
        match r {
            Some(n) => header_number(v@) == Some(n as nat),
            None => header_number(v@) is None,
        },
{
    let w = crate::text::split_whitespace(v.as_slice());
    assert(crate::text::byte_views(w@) == crate::text::words(v@));
    if w.len() == 1 {
        assert(w@[0]@ == crate::text::words(v@)[0]);
        parse_usize(w[0].as_slice())
    } else {
        None
    }
}

/// Whether an HTTP response has fully arrived.
pub fn is_http_response_complete(data: &[u8]) -> (r: bool)
    ensures
        r == response_complete(data@),
{
    let he = match find_header_end(data) {
        Some(k) => k,
        None => {
            return false;
        },
    };
    let dlen = data.len();
    let body_start = he + 4;
    let body_len: usize = if data.len() > body_start {
        data.len() - body_start
    } else {
        0
    };
    let dv = vstd::slice::slice_to_vec(data);
    let headers = crate::text::bytes_to(&dv, he);
    if str_from_utf8(headers.as_slice()).is_some() {
        let ls = text_lines(&headers);
        let ghost lv = crate::text::byte_views(ls@);
        let mut i: usize = 0;
        while i < ls.len()
            invariant
                lv == crate::text::byte_views(ls@),
                lv == lines_from(data@.take(he as int), 0, Seq::empty()),
                vstd::utf8::valid_utf8(data@.take(he as int)),
                header_end_from(data@, 0) == Some(he as int),
                he + 4 <= data@.len(),
                body_start == he + 4,
                body_len == (if data@.len() > body_start {
                    data@.len() - body_start
                } else {
                    0
                }),
                i <= ls@.len(),
                dv@ == data@,
                header_verdict(lv, 0, data@, body_len as int) == header_verdict(lv, i as int, data@, body_len as int),
            decreases ls@.len() - i,
        {
            let line = &ls[i];
            assert(line@ == lv[i as int]);
            let lower = lower_exec(line);
            assert(([0x63u8, 0x6f, 0x6e, 0x74, 0x65, 0x6e, 0x74, 0x2d, 0x6c, 0x65, 0x6e, 0x67, 0x74, 0x68, 0x3a])@ == lit_cl());
            assert(([0x74u8, 0x72, 0x61, 0x6e, 0x73, 0x66, 0x65, 0x72, 0x2d, 0x65, 0x6e, 0x63, 0x6f, 0x64, 0x69, 0x6e, 0x67, 0x3a])@ == lit_te());
            assert(([0x63u8, 0x68, 0x75, 0x6e, 0x6b, 0x65, 0x64])@ == lit_chunked());
            assert(([0x30u8, 0x0d, 0x0a, 0x0d, 0x0a])@ == lit_chunk_end());
            if crate::text::has_prefix(&lower, &[0x63u8, 0x6f, 0x6e, 0x74, 0x65, 0x6e, 0x74, 0x2d, 0x6c, 0x65, 0x6e, 0x67, 0x74, 0x68, 0x3a]) {
                let seg = after_first_colon_exec(line);
                match header_number_exec(&seg) {
                    Some(n) => {
                        return body_len >= n;
                    },
                    None => {},
                }
            }
            if crate::text::has_prefix(&lower, &[0x74u8, 0x72, 0x61, 0x6e, 0x73, 0x66, 0x65, 0x72, 0x2d, 0x65, 0x6e, 0x63, 0x6f, 0x64, 0x69, 0x6e, 0x67, 0x3a]) && contains_exec(lower.as_slice(), &[0x63u8, 0x68, 0x75, 0x6e, 0x6b, 0x65, 0x64]) {
                return contains_exec(data, &[0x30u8, 0x0d, 0x0a, 0x0d, 0x0a]);
            }
            i = i + 1;
        }
    }
    data.len() > body_start
}

} // verus!
