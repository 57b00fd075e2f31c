//! The HTTP daemon on port 80: request routing, page templates and responses.
//!
//! Pages are filled from templates under /etc/httpd/html/ (the caller reads
//! them), with built-in defaults when a template is missing or not UTF-8.
use vstd::prelude::*;
use vstd::string::StringSliceAdditionalSpecFns;
use crate::fmt::{dec_text, push_bytes, push_decimal, push_signed_decimal, signed_dec_text};
use crate::text::{byte_views, bytes_between, split_whitespace, str_from_utf8, words};

verus! {

pub const HTTPD_PORT: u16 = 80;
/// Largest request read.
pub const MAX_REQUEST_SIZE: usize = 4096;
/// The daemon works at most this often.
pub const HTTPD_PERIOD_MS: i64 = 10;

pub open spec fn lit_http11() -> Seq<u8> {
    seq![0x48u8, 0x54, 0x54, 0x50, 0x2f, 0x31, 0x2e, 0x31, 0x20]
}

pub open spec fn lit_ct() -> Seq<u8> {
    seq![0x0du8, 0x0a, 0x43, 0x6f, 0x6e, 0x74, 0x65, 0x6e, 0x74, 0x2d, 0x54, 0x79, 0x70, 0x65, 0x3a, 0x20]
}

pub open spec fn lit_cl() -> Seq<u8> {
    seq![0x0du8, 0x0a, 0x43, 0x6f, 0x6e, 0x74, 0x65, 0x6e, 0x74, 0x2d, 0x4c, 0x65, 0x6e, 0x67, 0x74, 0x68, 0x3a, 0x20]
}

pub open spec fn lit_tail() -> Seq<u8> {
    seq![0x0du8, 0x0a, 0x53, 0x65, 0x72, 0x76, 0x65, 0x72, 0x3a, 0x20, 0x42, 0x41, 0x56, 0x59, 0x2d, 0x4f, 0x53, 0x2f, 0x30, 0x2e, 0x31, 0x20, 0x68, 0x74, 0x74, 0x70, 0x64, 0x20, 0x28, 0x65, 0x6d, 0x62, 0x61, 0x73, 0x73, 0x79, 0x2d, 0x6e, 0x65, 0x74, 0x29, 0x0d, 0x0a, 0x43, 0x6f, 0x6e, 0x6e, 0x65, 0x63, 0x74, 0x69, 0x6f, 0x6e, 0x3a, 0x20, 0x63, 0x6c, 0x6f, 0x73, 0x65, 0x0d, 0x0a, 0x0d, 0x0a]
}

pub open spec fn lit_get() -> Seq<u8> {
    seq![0x47u8, 0x45, 0x54]
}

pub open spec fn lit_head() -> Seq<u8> {
    seq![0x48u8, 0x45, 0x41, 0x44]
}

pub open spec fn lit_root() -> Seq<u8> {
    seq![0x2fu8]
}

pub open spec fn lit_index() -> Seq<u8> {
    seq![0x2fu8, 0x69, 0x6e, 0x64, 0x65, 0x78, 0x2e, 0x68, 0x74, 0x6d, 0x6c]
}

pub open spec fn lit_status() -> Seq<u8> {
    seq![0x2fu8, 0x73, 0x74, 0x61, 0x74, 0x75, 0x73]
}

pub open spec fn lit_api() -> Seq<u8> {
    seq![0x2fu8, 0x61, 0x70, 0x69, 0x2f, 0x73, 0x74, 0x61, 0x74, 0x75, 0x73]
}

pub open spec fn lit_fav() -> Seq<u8> {
    seq![0x2fu8, 0x66, 0x61, 0x76, 0x69, 0x63, 0x6f, 0x6e, 0x2e, 0x69, 0x63, 0x6f]
}

pub open spec fn lit_p_uptime() -> Seq<u8> {
    seq![0x7bu8, 0x7b, 0x55, 0x50, 0x54, 0x49, 0x4d, 0x45, 0x7d, 0x7d]
}

pub open spec fn lit_p_cores() -> Seq<u8> {
    seq![0x7bu8, 0x7b, 0x43, 0x50, 0x55, 0x5f, 0x43, 0x4f, 0x52, 0x45, 0x53, 0x7d, 0x7d]
}

pub open spec fn lit_p_req() -> Seq<u8> {
    seq![0x7bu8, 0x7b, 0x52, 0x45, 0x51, 0x55, 0x45, 0x53, 0x54, 0x53, 0x7d, 0x7d]
}

pub open spec fn lit_p_ver() -> Seq<u8> {
    seq![0x7bu8, 0x7b, 0x56, 0x45, 0x52, 0x53, 0x49, 0x4f, 0x4e, 0x7d, 0x7d]
}

pub open spec fn lit_p_upsec() -> Seq<u8> {
    seq![0x7bu8, 0x7b, 0x55, 0x50, 0x54, 0x49, 0x4d, 0x45, 0x5f, 0x53, 0x45, 0x43, 0x7d, 0x7d]
}

pub open spec fn lit_p_path() -> Seq<u8> {
    seq![0x7bu8, 0x7b, 0x50, 0x41, 0x54, 0x48, 0x7d, 0x7d]
}

pub open spec fn lit_def_index() -> Seq<u8> {
    seq![0x3cu8, 0x68, 0x74, 0x6d, 0x6c, 0x3e, 0x3c, 0x62, 0x6f, 0x64, 0x79, 0x3e, 0x3c, 0x68, 0x31, 0x3e, 0x45, 0x72, 0x72, 0x6f, 0x72, 0x3a, 0x20, 0x2f, 0x65, 0x74, 0x63, 0x2f, 0x68, 0x74, 0x74, 0x70, 0x64, 0x2f, 0x68, 0x74, 0x6d, 0x6c, 0x2f, 0x69, 0x6e, 0x64, 0x65, 0x78, 0x2e, 0x68, 0x74, 0x6d, 0x6c, 0x20, 0x6e, 0x6f, 0x74, 0x20, 0x66, 0x6f, 0x75, 0x6e, 0x64, 0x3c, 0x2f, 0x68, 0x31, 0x3e, 0x3c, 0x2f, 0x62, 0x6f, 0x64, 0x79, 0x3e, 0x3c, 0x2f, 0x68, 0x74, 0x6d, 0x6c, 0x3e]
}

pub open spec fn lit_def_status() -> Seq<u8> {
    seq![0x42u8, 0x41, 0x56, 0x59, 0x20, 0x4f, 0x53, 0x20, 0x53, 0x74, 0x61, 0x74, 0x75, 0x73, 0x0a, 0x3d, 0x3d, 0x3d, 0x3d, 0x3d, 0x3d, 0x3d, 0x3d, 0x3d, 0x3d, 0x3d, 0x3d, 0x3d, 0x3d, 0x3d, 0x3d, 0x3d, 0x3d, 0x3d, 0x3d, 0x3d, 0x3d, 0x3d, 0x3d, 0x3d, 0x3d, 0x3d, 0x3d, 0x0a, 0x55, 0x70, 0x74, 0x69, 0x6d, 0x65, 0x3a, 0x20, 0x7b, 0x7b, 0x55, 0x50, 0x54, 0x49, 0x4d, 0x45, 0x5f, 0x53, 0x45, 0x43, 0x7d, 0x7d, 0x20, 0x73, 0x65, 0x63, 0x6f, 0x6e, 0x64, 0x73, 0x0a, 0x43, 0x50, 0x55, 0x20, 0x43, 0x6f, 0x72, 0x65, 0x73, 0x3a, 0x20, 0x7b, 0x7b, 0x43, 0x50, 0x55, 0x5f, 0x43, 0x4f, 0x52, 0x45, 0x53, 0x7d, 0x7d, 0x0a]
}

pub open spec fn lit_def_404() -> Seq<u8> {
    seq![0x3cu8, 0x68, 0x74, 0x6d, 0x6c, 0x3e, 0x3c, 0x62, 0x6f, 0x64, 0x79, 0x3e, 0x3c, 0x68, 0x31, 0x3e, 0x34, 0x30, 0x34, 0x20, 0x4e, 0x6f, 0x74, 0x20, 0x46, 0x6f, 0x75, 0x6e, 0x64, 0x3c, 0x2f, 0x68, 0x31, 0x3e, 0x3c, 0x70, 0x3e, 0x50, 0x61, 0x74, 0x68, 0x3a, 0x20, 0x7b, 0x7b, 0x50, 0x41, 0x54, 0x48, 0x7d, 0x7d, 0x3c, 0x2f, 0x70, 0x3e, 0x3c, 0x2f, 0x62, 0x6f, 0x64, 0x79, 0x3e, 0x3c, 0x2f, 0x68, 0x74, 0x6d, 0x6c, 0x3e]
}

pub open spec fn lit_ok() -> Seq<u8> {
    seq![0x4fu8, 0x4b]
}

pub open spec fn lit_nocontent() -> Seq<u8> {
    seq![0x4eu8, 0x6f, 0x20, 0x43, 0x6f, 0x6e, 0x74, 0x65, 0x6e, 0x74]
}

pub open spec fn lit_notfound() -> Seq<u8> {
    seq![0x4eu8, 0x6f, 0x74, 0x20, 0x46, 0x6f, 0x75, 0x6e, 0x64]
}

pub open spec fn lit_ct_html() -> Seq<u8> {
    seq![0x74u8, 0x65, 0x78, 0x74, 0x2f, 0x68, 0x74, 0x6d, 0x6c, 0x3b, 0x20, 0x63, 0x68, 0x61, 0x72, 0x73, 0x65, 0x74, 0x3d, 0x75, 0x74, 0x66, 0x2d, 0x38]
}

pub open spec fn lit_ct_plain() -> Seq<u8> {
    seq![0x74u8, 0x65, 0x78, 0x74, 0x2f, 0x70, 0x6c, 0x61, 0x69, 0x6e, 0x3b, 0x20, 0x63, 0x68, 0x61, 0x72, 0x73, 0x65, 0x74, 0x3d, 0x75, 0x74, 0x66, 0x2d, 0x38]
}

pub open spec fn lit_ct_json() -> Seq<u8> {
    seq![0x61u8, 0x70, 0x70, 0x6c, 0x69, 0x63, 0x61, 0x74, 0x69, 0x6f, 0x6e, 0x2f, 0x6a, 0x73, 0x6f, 0x6e]
}

pub open spec fn lit_ct_icon() -> Seq<u8> {
    seq![0x69u8, 0x6d, 0x61, 0x67, 0x65, 0x2f, 0x78, 0x2d, 0x69, 0x63, 0x6f, 0x6e]
}

pub open spec fn lit_ct_html_bare() -> Seq<u8> {
    seq![0x74u8, 0x65, 0x78, 0x74, 0x2f, 0x68, 0x74, 0x6d, 0x6c]
}

pub open spec fn lit_j1() -> Seq<u8> {
    seq![0x7bu8, 0x22, 0x73, 0x74, 0x61, 0x74, 0x75, 0x73, 0x22, 0x3a, 0x22, 0x6f, 0x6b, 0x22, 0x2c, 0x22, 0x75, 0x70, 0x74, 0x69, 0x6d, 0x65, 0x5f, 0x6d, 0x73, 0x22, 0x3a]
}

pub open spec fn lit_j2() -> Seq<u8> {
    seq![0x2cu8, 0x22, 0x63, 0x70, 0x75, 0x5f, 0x63, 0x6f, 0x72, 0x65, 0x73, 0x22, 0x3a]
}

pub open spec fn lit_j3() -> Seq<u8> {
    seq![0x2cu8, 0x22, 0x72, 0x65, 0x71, 0x75, 0x65, 0x73, 0x74, 0x73, 0x5f, 0x73, 0x65, 0x72, 0x76, 0x65, 0x64, 0x22, 0x3a]
}

pub open spec fn lit_j4() -> Seq<u8> {
    seq![0x2cu8, 0x22, 0x68, 0x74, 0x74, 0x70, 0x5f, 0x70, 0x6f, 0x72, 0x74, 0x22, 0x3a]
}

pub open spec fn lit_j5() -> Seq<u8> {
    seq![0x2cu8, 0x22, 0x76, 0x65, 0x72, 0x73, 0x69, 0x6f, 0x6e, 0x22, 0x3a, 0x22]
}

pub open spec fn lit_j6() -> Seq<u8> {
    seq![0x22u8, 0x2c, 0x22, 0x72, 0x75, 0x6e, 0x74, 0x69, 0x6d, 0x65, 0x22, 0x3a, 0x22, 0x65, 0x6d, 0x62, 0x61, 0x73, 0x73, 0x79, 0x2d, 0x6e, 0x65, 0x74, 0x22, 0x7d]
}


/// The daemon's state.
pub struct HttpdState {
    pub initialized: bool,
    pub last_run: i64,
    pub requests_served: usize,
    pub listen_socket: Option<u8>,
}

impl HttpdState {
    pub fn new() -> (s: Self)
        ensures
            !s.initialized,
            s.last_run == 0,
            s.requests_served == 0,
            s.listen_socket is None,
    {
        HttpdState { initialized: false, last_run: 0, requests_served: 0, listen_socket: None }
    }
}

/// Start serving, which needs the network.
pub fn init(st: &mut HttpdState, net_available: bool) -> (r: Result<(), &'static str>)
    ensures
        net_available ==> r is Ok && final(st).initialized,
        !net_available ==> r is Err && final(st).initialized == old(st).initialized,
        final(st).requests_served == old(st).requests_served,
        final(st).last_run == old(st).last_run,
{
    if !net_available {
        return Err("Network not available");
    }
    st.initialized = true;
    Ok(())
}

pub fn is_running(st: &HttpdState) -> (r: bool)
    ensures
        r == st.initialized,
{
    st.initialized
}

pub fn requests_served(st: &HttpdState) -> (r: usize)
    ensures
        r == st.requests_served,
{
    st.requests_served
}

/// Whether the daemon works at `now`: once started, at most every 10 ms.
pub fn tick(st: &mut HttpdState, now: i64) -> (run: bool)
    requires
        i64::MIN <= now - old(st).last_run <= i64::MAX,
    ensures
        run == (old(st).initialized && now - old(st).last_run >= HTTPD_PERIOD_MS),
        run ==> final(st).last_run == now,
        !run ==> final(st).last_run == old(st).last_run,
        final(st).requests_served == old(st).requests_served,
        final(st).listen_socket == old(st).listen_socket,
{
    if !st.initialized {
        return false;
    }
    if now - st.last_run < HTTPD_PERIOD_MS {
        return false;
    }
    st.last_run = now;
    true
}

/// The daemon's step (see `tick`).
pub fn httpd_service(st: &mut HttpdState, now: i64) -> (run: bool)
    requires
        i64::MIN <= now - old(st).last_run <= i64::MAX,
    ensures
        run == (old(st).initialized && now - old(st).last_run >= HTTPD_PERIOD_MS),
{
    tick(st, now)
}

/// A request was answered.
pub fn request_done(st: &mut HttpdState)
    ensures
        final(st).requests_served == old(st).requests_served.wrapping_add(1),
        final(st).initialized == old(st).initialized,
        final(st).last_run == old(st).last_run,
        final(st).listen_socket == old(st).listen_socket,
{
    st.requests_served = st.requests_served.wrapping_add(1);
}

/// The request has its header's end, a blank line ("\r\n\r\n").
pub open spec fn has_header_end(b: Seq<u8>) -> bool {
    exists|i: int| 0 <= i && i + 4 <= b.len() && #[trigger] b.subrange(i, i + 4) == seq![0x0du8, 0x0a, 0x0d, 0x0a]
}

/// Whether the request read so far is complete.
pub fn request_complete(b: &[u8]) -> (r: bool)
    ensures
        r == has_header_end(b@),
{
    if b.len() < 4 {
        return false;
    }
    let mut i: usize = 0;
    while i <= b.len() - 4
        invariant
            b@.len() >= 4,
            i <= b@.len() - 3,
            forall|k: int| 0 <= k < i ==> #[trigger] b@.subrange(k, k + 4) != seq![0x0du8, 0x0a, 0x0d, 0x0a],
        decreases b@.len() - i,
    {
        if b[i] == 0x0d && b[i + 1] == 0x0a && b[i + 2] == 0x0d && b[i + 3] == 0x0a {
            assert(b@.subrange(i as int, i + 4) =~= seq![0x0du8, 0x0a, 0x0d, 0x0a]);
            return true;
        }
        assert(b@.subrange(i as int, i + 4)[0] == b@[i as int]);
        assert(b@.subrange(i as int, i + 4)[1] == b@[i + 1]);
        assert(b@.subrange(i as int, i + 4)[2] == b@[i + 2]);
        assert(b@.subrange(i as int, i + 4)[3] == b@[i + 3]);
        i = i + 1;
    }
    false
}

// ─── Requests ─────────────────────────────────────────────────────────────────

/// The request's first line: up to the first '\n', without a '\r' before it.
pub open spec fn first_line(s: Seq<u8>) -> Seq<u8> {
    let line = match crate::text::find(s, 0x0a) {
        Some(k) => s.take(k),
        None => s,
    };
    if line.len() > 0 && line.last() == 0x0d {
        line.drop_last()
    } else {
        line
    }
}

/// The method and path of a request: the first two words of its first line
/// ("GET" and "/" when missing); a request that is not UTF-8 reads as empty.
pub open spec fn request_target(req: Seq<u8>) -> (Seq<u8>, Seq<u8>) {
    let text = if vstd::utf8::valid_utf8(req) {
        req
    } else {
        Seq::empty()
    };
    let w = words(first_line(text));
    (if w.len() > 0 {
        w[0]
    } else {
        lit_get()
    }, if w.len() > 1 {
        w[1]
    } else {
        lit_root()
    })
}

/// Method and path of a request.
pub fn parse_request(req: &Vec<u8>) -> (r: (Vec<u8>, Vec<u8>))
    ensures
        (r.0@, r.1@) == request_target(req@),
{
    let text: Vec<u8> = if str_from_utf8(req.as_slice()).is_some() {
        req.clone()
    } else {
        Vec::new()
    };
    let end = match crate::text::find_byte(&text, 0x0a) {
        Some(k) => k,
        None => text.len(),
    };
    let mut line = bytes_between(&text, 0, end);
    assert(line@ =~= match crate::text::find(text@, 0x0a) {
        Some(k) => text@.take(k),
        None => text@,
    });
    if line.len() > 0 && line[line.len() - 1] == 0x0d {
        line.pop();
    }
    let w = split_whitespace(line.as_slice());
    assert(byte_views(w@) == words(first_line(text@)));
    let method = if w.len() > 0 {
        w[0].clone()
    } else {
        let v: Vec<u8> = vstd::slice::slice_to_vec(&[0x47u8, 0x45, 0x54]);
        v
    };
    let path = if w.len() > 1 {
        w[1].clone()
    } else {
        let v: Vec<u8> = vstd::slice::slice_to_vec(&[0x2fu8]);
        v
    };
    (method, path)
}

/// What a request asks for.
#[derive(Clone, Copy, PartialEq, Eq, Structural)]
pub enum Route {
    Index,
    Status,
    ApiStatus,
    Favicon,
    Head,
    NotFound,
}

pub open spec fn route_of(method: Seq<u8>, path: Seq<u8>) -> Route {
    if method == lit_get() && (path == lit_root() || path == lit_index()) {
        Route::Index
    } else if method == lit_get() && path == lit_status() {
        Route::Status
    } else if method == lit_get() && path == lit_api() {
        Route::ApiStatus
    } else if method == lit_get() && path == lit_fav() {
        Route::Favicon
    } else if method == lit_head() {
        Route::Head
    } else {
        Route::NotFound
    }
}

/// "/index.html" is another name for "/": every method routes the two alike,
/// and a GET of either is the index page.
pub proof fn lemma_index_aliases_root(method: Seq<u8>)
    ensures
        route_of(method, seq![0x2fu8, 0x69, 0x6e, 0x64, 0x65, 0x78, 0x2e, 0x68, 0x74, 0x6d, 0x6c]) == route_of(
            method,
            seq![0x2fu8],
        ),
        method == seq![0x47u8, 0x45, 0x54] ==> route_of(method, seq![0x2fu8]) == Route::Index,
{
    assert(seq![0x2fu8] != lit_status() && seq![0x2fu8] != lit_api() && seq![0x2fu8] != lit_fav()) by {
        assert(lit_status().len() != 1 && lit_api().len() != 1 && lit_fav().len() != 1);
    }
    let ix = seq![0x2fu8, 0x69, 0x6e, 0x64, 0x65, 0x78, 0x2e, 0x68, 0x74, 0x6d, 0x6c];
    assert(ix != lit_status() && ix != lit_api() && ix != lit_fav()) by {
        assert(lit_status().len() != 11 && lit_fav().len() != 11);
        assert(ix[1] != lit_api()[1]);
    }
}

fn bytes_eq(a: &Vec<u8>, b: &[u8]) -> (r: bool)
    ensures
        r == (a@ == b@),
{
    crate::text::is_exactly(a, b)
}

/// Route a request's method and path.
pub fn route(method: &Vec<u8>, path: &Vec<u8>) -> (r: Route)
    ensures
        r == route_of(method@, path@),
{
    let get = bytes_eq(method, &[0x47u8, 0x45, 0x54]);
    assert(([0x2fu8])@ == lit_root());
    assert(([0x2fu8, 0x69, 0x6e, 0x64, 0x65, 0x78, 0x2e, 0x68, 0x74, 0x6d, 0x6c])@ == lit_index());
    assert(([0x2fu8, 0x73, 0x74, 0x61, 0x74, 0x75, 0x73])@ == lit_status());
    assert(([0x2fu8, 0x61, 0x70, 0x69, 0x2f, 0x73, 0x74, 0x61, 0x74, 0x75, 0x73])@ == lit_api());
    assert(([0x2fu8, 0x66, 0x61, 0x76, 0x69, 0x63, 0x6f, 0x6e, 0x2e, 0x69, 0x63, 0x6f])@ == lit_fav());
    assert(([0x48u8, 0x45, 0x41, 0x44])@ == lit_head());
    assert(([0x47u8, 0x45, 0x54])@ == lit_get());
    if get && (bytes_eq(path, &[0x2fu8]) || bytes_eq(path, &[0x2fu8, 0x69, 0x6e, 0x64, 0x65, 0x78, 0x2e, 0x68, 0x74, 0x6d, 0x6c])) {
        Route::Index
    } else if get && bytes_eq(path, &[0x2fu8, 0x73, 0x74, 0x61, 0x74, 0x75, 0x73]) {
        Route::Status
    } else if get && bytes_eq(path, &[0x2fu8, 0x61, 0x70, 0x69, 0x2f, 0x73, 0x74, 0x61, 0x74, 0x75, 0x73]) {
        Route::ApiStatus
    } else if get && bytes_eq(path, &[0x2fu8, 0x66, 0x61, 0x76, 0x69, 0x63, 0x6f, 0x6e, 0x2e, 0x69, 0x63, 0x6f]) {
        Route::Favicon
    } else if bytes_eq(method, &[0x48u8, 0x45, 0x41, 0x44]) {
        Route::Head
    } else {
        Route::NotFound
    }
}

// ─── Responses ────────────────────────────────────────────────────────────────

/// A response: status line, content type and length, the server's name,
/// "Connection: close", a blank line, then the body.
pub open spec fn simple_response(status: u16, status_text: Seq<u8>, content_type: Seq<u8>, body: Seq<u8>) -> Seq<u8> {
    lit_http11() + dec_text(status as nat) + seq![0x20u8] + status_text + lit_ct() + content_type + lit_cl()
        + dec_text(body.len()) + lit_tail() + body
}

/// Build a response.
pub fn build_simple_response(status: u16, status_text: &[u8], content_type: &[u8], body: &[u8]) -> (r: Vec<u8>)
    ensures
        r@ == simple_response(status, status_text@, content_type@, body@),
{
    let mut out: Vec<u8> = Vec::new();
    push_bytes(&mut out, &[0x48u8, 0x54, 0x54, 0x50, 0x2f, 0x31, 0x2e, 0x31, 0x20]);
    push_decimal(&mut out, status as u64);
    out.push(0x20);
    push_bytes(&mut out, status_text);
    push_bytes(&mut out, &[0x0du8, 0x0a, 0x43, 0x6f, 0x6e, 0x74, 0x65, 0x6e, 0x74, 0x2d, 0x54, 0x79, 0x70, 0x65, 0x3a, 0x20]);
    push_bytes(&mut out, content_type);
    push_bytes(&mut out, &[0x0du8, 0x0a, 0x43, 0x6f, 0x6e, 0x74, 0x65, 0x6e, 0x74, 0x2d, 0x4c, 0x65, 0x6e, 0x67, 0x74, 0x68, 0x3a, 0x20]);
    push_decimal(&mut out, body.len() as u64);
    push_bytes(&mut out, &[0x0du8, 0x0a, 0x53, 0x65, 0x72, 0x76, 0x65, 0x72, 0x3a, 0x20, 0x42, 0x41, 0x56, 0x59, 0x2d, 0x4f, 0x53, 0x2f, 0x30, 0x2e, 0x31, 0x20, 0x68, 0x74, 0x74, 0x70, 0x64, 0x20, 0x28, 0x65, 0x6d, 0x62, 0x61, 0x73, 0x73, 0x79, 0x2d, 0x6e, 0x65, 0x74, 0x29, 0x0d, 0x0a, 0x43, 0x6f, 0x6e, 0x6e, 0x65, 0x63, 0x74, 0x69, 0x6f, 0x6e, 0x3a, 0x20, 0x63, 0x6c, 0x6f, 0x73, 0x65, 0x0d, 0x0a, 0x0d, 0x0a]);
    push_bytes(&mut out, body);
    assert(out@ =~= simple_response(status, status_text@, content_type@, body@));
    out
}

/// `h` with every occurrence of `p`, left to right and not overlapping,
/// replaced by `r` (as `str::replace`).
pub open spec fn replace_all(h: Seq<u8>, p: Seq<u8>, r: Seq<u8>) -> Seq<u8>
    decreases h.len(),
{
    if h.len() == 0 {
        h
    } else if p.len() > 0 && p.is_prefix_of(h) {
        r + replace_all(h.skip(p.len() as int), p, r)
    } else {
        seq![h[0]] + replace_all(h.skip(1), p, r)
    }
}

/// Replace every occurrence of a (non-empty) pattern.
pub fn replace(h: &Vec<u8>, p: &[u8], r: &[u8]) -> (out: Vec<u8>)
    requires
        p@.len() > 0,
    ensures
        out@ == replace_all(h@, p@, r@),
{
    let mut out: Vec<u8> = Vec::new();
    let mut i: usize = 0;
    assert(h@.skip(0) =~= h@);
    while i < h.len()
        invariant
            i <= h@.len(),
            p@.len() > 0,
            out@ + replace_all(h@.skip(i as int), p@, r@) == replace_all(h@, p@, r@),
        decreases h@.len() - i,
    {
        let ghost rest = h@.skip(i as int);
        let ghost old_out = out@;
        let mut matched = false;
        if p.len() <= h.len() - i {
            let hl = h.len();
            let mut j: usize = 0;
            while j < p.len() && h[i + j] == p[j]
                invariant
                    hl == h@.len(),
                    p@.len() <= h@.len() - i,
                    i < h@.len(),
                    j <= p@.len(),
                    forall|k: int| 0 <= k < j ==> h@[i + k] == p@[k],
                decreases p@.len() - j,
            {
                j = j + 1;
            }
            matched = j == p.len();
            proof {
                if matched {
                    assert(rest.subrange(0, p@.len() as int) =~= p@);
                    assert(p@.is_prefix_of(rest));
                } else {
                    assert(rest[j as int] == h@[i + j]);
                    assert(rest.subrange(0, p@.len() as int)[j as int] == rest[j as int]);
                    assert(!p@.is_prefix_of(rest));
                }
            }
        } else {
            assert(!p@.is_prefix_of(rest));
        }
        if matched {
            push_bytes(&mut out, r);
            assert(rest.skip(p@.len() as int) =~= h@.skip(i + p@.len()));
            assert(replace_all(rest, p@, r@) == r@ + replace_all(rest.skip(p@.len() as int), p@, r@));
            i = i + p.len();
            assert(out@ + replace_all(h@.skip(i as int), p@, r@) =~= old_out + replace_all(rest, p@, r@));
        } else {
            out.push(h[i]);
            assert(rest.skip(1) =~= h@.skip(i + 1));
            assert(rest[0] == h@[i as int]);
            assert(replace_all(rest, p@, r@) == seq![rest[0]] + replace_all(rest.skip(1), p@, r@));
            i = i + 1;
            assert(out@ + replace_all(h@.skip(i as int), p@, r@) =~= old_out + replace_all(rest, p@, r@));
        }
    }
    assert(h@.skip(i as int) =~= Seq::<u8>::empty());
    out
}

/// The template, if it is there and UTF-8, else the default.
pub open spec fn template_or(t: Option<Seq<u8>>, default: Seq<u8>) -> Seq<u8> {
    match t {
        Some(b) => if vstd::utf8::valid_utf8(b) {
            b
        } else {
            default
        },
        None => default,
    }
}

fn template_or_default(t: Option<Vec<u8>>, default: &[u8]) -> (r: Vec<u8>)
    ensures
        r@ == template_or(match t {
            Some(b) => Some(b@),
            None => None,
        }, default@),
{
    match t {
        Some(b) => if str_from_utf8(b.as_slice()).is_some() {
            b
        } else {
            vstd::slice::slice_to_vec(default)
        },
        None => vstd::slice::slice_to_vec(default),
    }
}

pub open spec fn opt_view(t: Option<Vec<u8>>) -> Option<Seq<u8>> {
    match t {
        Some(b) => Some(b@),
        None => None,
    }
}

/// A number below 100 in two digits.
pub open spec fn two_digits(n: nat) -> Seq<u8> {
    if n < 10 {
        seq![0x30u8] + dec_text(n)
    } else {
        dec_text(n)
    }
}

/// "HH:MM:SS" of an uptime (hours take as many digits as they need).
pub open spec fn uptime_text(ms: nat) -> Seq<u8> {
    let secs = ms / 1000;
    two_digits(secs / 3600) + seq![0x3au8] + two_digits((secs % 3600) / 60) + seq![0x3au8] + two_digits(
        secs % 60,
    )
}

fn push_two_digits(out: &mut Vec<u8>, n: u64)
    ensures
        final(out)@ == old(out)@ + two_digits(n as nat),
{
    if n < 10 {
        out.push(0x30);
    }
    push_decimal(out, n);
    assert(final(out)@ =~= old(out)@ + two_digits(n as nat));
}

/// The index page.
pub open spec fn index_page(t: Option<Seq<u8>>, uptime_ms: nat, harts: nat, requests: nat, version: Seq<u8>) -> Seq<u8> {
    replace_all(
        replace_all(
            replace_all(replace_all(template_or(t, lit_def_index()), lit_p_uptime(), uptime_text(uptime_ms)), lit_p_cores(), dec_text(harts)),
            lit_p_req(),
            dec_text(requests),
        ),
        lit_p_ver(),
        version,
    )
}

/// The index page response.
pub fn build_index_response(template: Option<Vec<u8>>, uptime_ms: u64, harts: usize, requests: usize, version: &[u8]) -> (r: Vec<u8>)
    ensures
        r@ == simple_response(200, lit_ok(), lit_ct_html(), index_page(opt_view(template), uptime_ms as nat, harts as nat, requests as nat, version@)),
{
    let ghost tv = opt_view(template);
    let t = template_or_default(template, &[0x3cu8, 0x68, 0x74, 0x6d, 0x6c, 0x3e, 0x3c, 0x62, 0x6f, 0x64, 0x79, 0x3e, 0x3c, 0x68, 0x31, 0x3e, 0x45, 0x72, 0x72, 0x6f, 0x72, 0x3a, 0x20, 0x2f, 0x65, 0x74, 0x63, 0x2f, 0x68, 0x74, 0x74, 0x70, 0x64, 0x2f, 0x68, 0x74, 0x6d, 0x6c, 0x2f, 0x69, 0x6e, 0x64, 0x65, 0x78, 0x2e, 0x68, 0x74, 0x6d, 0x6c, 0x20, 0x6e, 0x6f, 0x74, 0x20, 0x66, 0x6f, 0x75, 0x6e, 0x64, 0x3c, 0x2f, 0x68, 0x31, 0x3e, 0x3c, 0x2f, 0x62, 0x6f, 0x64, 0x79, 0x3e, 0x3c, 0x2f, 0x68, 0x74, 0x6d, 0x6c, 0x3e]);
    let secs = uptime_ms / 1000;
    let mut up: Vec<u8> = Vec::new();
    push_two_digits(&mut up, secs / 3600);
    up.push(0x3a);
    push_two_digits(&mut up, (secs % 3600) / 60);
    up.push(0x3a);
    push_two_digits(&mut up, secs % 60);
    assert(up@ =~= uptime_text(uptime_ms as nat));
    let mut cores: Vec<u8> = Vec::new();
    push_decimal(&mut cores, harts as u64);
    let mut reqs: Vec<u8> = Vec::new();
    push_decimal(&mut reqs, requests as u64);
    assert(([0x7bu8, 0x7b, 0x55, 0x50, 0x54, 0x49, 0x4d, 0x45, 0x7d, 0x7d])@ == lit_p_uptime());
    assert(([0x7bu8, 0x7b, 0x43, 0x50, 0x55, 0x5f, 0x43, 0x4f, 0x52, 0x45, 0x53, 0x7d, 0x7d])@ == lit_p_cores());
    assert(([0x7bu8, 0x7b, 0x52, 0x45, 0x51, 0x55, 0x45, 0x53, 0x54, 0x53, 0x7d, 0x7d])@ == lit_p_req());
    assert(([0x7bu8, 0x7b, 0x56, 0x45, 0x52, 0x53, 0x49, 0x4f, 0x4e, 0x7d, 0x7d])@ == lit_p_ver());
    assert(([0x3cu8, 0x68, 0x74, 0x6d, 0x6c, 0x3e, 0x3c, 0x62, 0x6f, 0x64, 0x79, 0x3e, 0x3c, 0x68, 0x31, 0x3e, 0x45, 0x72, 0x72, 0x6f, 0x72, 0x3a, 0x20, 0x2f, 0x65, 0x74, 0x63, 0x2f, 0x68, 0x74, 0x74, 0x70, 0x64, 0x2f, 0x68, 0x74, 0x6d, 0x6c, 0x2f, 0x69, 0x6e, 0x64, 0x65, 0x78, 0x2e, 0x68, 0x74, 0x6d, 0x6c, 0x20, 0x6e, 0x6f, 0x74, 0x20, 0x66, 0x6f, 0x75, 0x6e, 0x64, 0x3c, 0x2f, 0x68, 0x31, 0x3e, 0x3c, 0x2f, 0x62, 0x6f, 0x64, 0x79, 0x3e, 0x3c, 0x2f, 0x68, 0x74, 0x6d, 0x6c, 0x3e])@ == lit_def_index());
    let b1 = replace(&t, &[0x7bu8, 0x7b, 0x55, 0x50, 0x54, 0x49, 0x4d, 0x45, 0x7d, 0x7d], up.as_slice());
    let b2 = replace(&b1, &[0x7bu8, 0x7b, 0x43, 0x50, 0x55, 0x5f, 0x43, 0x4f, 0x52, 0x45, 0x53, 0x7d, 0x7d], cores.as_slice());
    let b3 = replace(&b2, &[0x7bu8, 0x7b, 0x52, 0x45, 0x51, 0x55, 0x45, 0x53, 0x54, 0x53, 0x7d, 0x7d], reqs.as_slice());
    let b4 = replace(&b3, &[0x7bu8, 0x7b, 0x56, 0x45, 0x52, 0x53, 0x49, 0x4f, 0x4e, 0x7d, 0x7d], version);
    assert(([0x4fu8, 0x4b])@ == lit_ok());
    assert(([0x74u8, 0x65, 0x78, 0x74, 0x2f, 0x68, 0x74, 0x6d, 0x6c, 0x3b, 0x20, 0x63, 0x68, 0x61, 0x72, 0x73, 0x65, 0x74, 0x3d, 0x75, 0x74, 0x66, 0x2d, 0x38])@ == lit_ct_html());
    build_simple_response(200, &[0x4fu8, 0x4b], &[0x74u8, 0x65, 0x78, 0x74, 0x2f, 0x68, 0x74, 0x6d, 0x6c, 0x3b, 0x20, 0x63, 0x68, 0x61, 0x72, 0x73, 0x65, 0x74, 0x3d, 0x75, 0x74, 0x66, 0x2d, 0x38], b4.as_slice())
}

/// The status page.
pub open spec fn status_page(t: Option<Seq<u8>>, uptime_ms: nat, harts: nat, requests: nat) -> Seq<u8> {
    replace_all(
        replace_all(replace_all(template_or(t, lit_def_status()), lit_p_upsec(), dec_text(uptime_ms / 1000)), lit_p_cores(), dec_text(harts)),
        lit_p_req(),
        dec_text(requests),
    )
}

/// The status page response.
pub fn build_status_response(template: Option<Vec<u8>>, uptime_ms: u64, harts: usize, requests: usize) -> (r: Vec<u8>)
    ensures
        r@ == simple_response(200, lit_ok(), lit_ct_plain(), status_page(opt_view(template), uptime_ms as nat, harts as nat, requests as nat)),
{
    let t = template_or_default(template, &[0x42u8, 0x41, 0x56, 0x59, 0x20, 0x4f, 0x53, 0x20, 0x53, 0x74, 0x61, 0x74, 0x75, 0x73, 0x0a, 0x3d, 0x3d, 0x3d, 0x3d, 0x3d, 0x3d, 0x3d, 0x3d, 0x3d, 0x3d, 0x3d, 0x3d, 0x3d, 0x3d, 0x3d, 0x3d, 0x3d, 0x3d, 0x3d, 0x3d, 0x3d, 0x3d, 0x3d, 0x3d, 0x3d, 0x3d, 0x3d, 0x3d, 0x0a, 0x55, 0x70, 0x74, 0x69, 0x6d, 0x65, 0x3a, 0x20, 0x7b, 0x7b, 0x55, 0x50, 0x54, 0x49, 0x4d, 0x45, 0x5f, 0x53, 0x45, 0x43, 0x7d, 0x7d, 0x20, 0x73, 0x65, 0x63, 0x6f, 0x6e, 0x64, 0x73, 0x0a, 0x43, 0x50, 0x55, 0x20, 0x43, 0x6f, 0x72, 0x65, 0x73, 0x3a, 0x20, 0x7b, 0x7b, 0x43, 0x50, 0x55, 0x5f, 0x43, 0x4f, 0x52, 0x45, 0x53, 0x7d, 0x7d, 0x0a]);
    let mut up: Vec<u8> = Vec::new();
    push_decimal(&mut up, uptime_ms / 1000);
    let mut cores: Vec<u8> = Vec::new();
    push_decimal(&mut cores, harts as u64);
    let mut reqs: Vec<u8> = Vec::new();
    push_decimal(&mut reqs, requests as u64);
    assert(([0x7bu8, 0x7b, 0x55, 0x50, 0x54, 0x49, 0x4d, 0x45, 0x5f, 0x53, 0x45, 0x43, 0x7d, 0x7d])@ == lit_p_upsec());
    assert(([0x7bu8, 0x7b, 0x43, 0x50, 0x55, 0x5f, 0x43, 0x4f, 0x52, 0x45, 0x53, 0x7d, 0x7d])@ == lit_p_cores());
    assert(([0x7bu8, 0x7b, 0x52, 0x45, 0x51, 0x55, 0x45, 0x53, 0x54, 0x53, 0x7d, 0x7d])@ == lit_p_req());
    assert(([0x42u8, 0x41, 0x56, 0x59, 0x20, 0x4f, 0x53, 0x20, 0x53, 0x74, 0x61, 0x74, 0x75, 0x73, 0x0a, 0x3d, 0x3d, 0x3d, 0x3d, 0x3d, 0x3d, 0x3d, 0x3d, 0x3d, 0x3d, 0x3d, 0x3d, 0x3d, 0x3d, 0x3d, 0x3d, 0x3d, 0x3d, 0x3d, 0x3d, 0x3d, 0x3d, 0x3d, 0x3d, 0x3d, 0x3d, 0x3d, 0x3d, 0x0a, 0x55, 0x70, 0x74, 0x69, 0x6d, 0x65, 0x3a, 0x20, 0x7b, 0x7b, 0x55, 0x50, 0x54, 0x49, 0x4d, 0x45, 0x5f, 0x53, 0x45, 0x43, 0x7d, 0x7d, 0x20, 0x73, 0x65, 0x63, 0x6f, 0x6e, 0x64, 0x73, 0x0a, 0x43, 0x50, 0x55, 0x20, 0x43, 0x6f, 0x72, 0x65, 0x73, 0x3a, 0x20, 0x7b, 0x7b, 0x43, 0x50, 0x55, 0x5f, 0x43, 0x4f, 0x52, 0x45, 0x53, 0x7d, 0x7d, 0x0a])@ == lit_def_status());
    let b1 = replace(&t, &[0x7bu8, 0x7b, 0x55, 0x50, 0x54, 0x49, 0x4d, 0x45, 0x5f, 0x53, 0x45, 0x43, 0x7d, 0x7d], up.as_slice());
    let b2 = replace(&b1, &[0x7bu8, 0x7b, 0x43, 0x50, 0x55, 0x5f, 0x43, 0x4f, 0x52, 0x45, 0x53, 0x7d, 0x7d], cores.as_slice());
    let b3 = replace(&b2, &[0x7bu8, 0x7b, 0x52, 0x45, 0x51, 0x55, 0x45, 0x53, 0x54, 0x53, 0x7d, 0x7d], reqs.as_slice());
    assert(([0x4fu8, 0x4b])@ == lit_ok());
    assert(([0x74u8, 0x65, 0x78, 0x74, 0x2f, 0x70, 0x6c, 0x61, 0x69, 0x6e, 0x3b, 0x20, 0x63, 0x68, 0x61, 0x72, 0x73, 0x65, 0x74, 0x3d, 0x75, 0x74, 0x66, 0x2d, 0x38])@ == lit_ct_plain());
    build_simple_response(200, &[0x4fu8, 0x4b], &[0x74u8, 0x65, 0x78, 0x74, 0x2f, 0x70, 0x6c, 0x61, 0x69, 0x6e, 0x3b, 0x20, 0x63, 0x68, 0x61, 0x72, 0x73, 0x65, 0x74, 0x3d, 0x75, 0x74, 0x66, 0x2d, 0x38], b3.as_slice())
}

/// The JSON status.
pub open spec fn json_status(uptime_ms: int, harts: nat, requests: nat, version: Seq<u8>) -> Seq<u8> {
    lit_j1() + signed_dec_text(uptime_ms) + lit_j2() + dec_text(harts) + lit_j3() + dec_text(requests) + lit_j4()
        + dec_text(HTTPD_PORT as nat) + lit_j5() + version + lit_j6()
}

/// The JSON status response.
pub fn build_json_response(uptime_ms: i64, harts: usize, requests: usize, version: &[u8]) -> (r: Vec<u8>)
    ensures
        r@ == simple_response(200, lit_ok(), lit_ct_json(), json_status(uptime_ms as int, harts as nat, requests as nat, version@)),
{
    let mut body: Vec<u8> = Vec::new();
    push_bytes(&mut body, &[0x7bu8, 0x22, 0x73, 0x74, 0x61, 0x74, 0x75, 0x73, 0x22, 0x3a, 0x22, 0x6f, 0x6b, 0x22, 0x2c, 0x22, 0x75, 0x70, 0x74, 0x69, 0x6d, 0x65, 0x5f, 0x6d, 0x73, 0x22, 0x3a]);
    push_signed_decimal(&mut body, uptime_ms);
    push_bytes(&mut body, &[0x2cu8, 0x22, 0x63, 0x70, 0x75, 0x5f, 0x63, 0x6f, 0x72, 0x65, 0x73, 0x22, 0x3a]);
    push_decimal(&mut body, harts as u64);
    push_bytes(&mut body, &[0x2cu8, 0x22, 0x72, 0x65, 0x71, 0x75, 0x65, 0x73, 0x74, 0x73, 0x5f, 0x73, 0x65, 0x72, 0x76, 0x65, 0x64, 0x22, 0x3a]);
    push_decimal(&mut body, requests as u64);
    push_bytes(&mut body, &[0x2cu8, 0x22, 0x68, 0x74, 0x74, 0x70, 0x5f, 0x70, 0x6f, 0x72, 0x74, 0x22, 0x3a]);
    push_decimal(&mut body, HTTPD_PORT as u64);
    push_bytes(&mut body, &[0x2cu8, 0x22, 0x76, 0x65, 0x72, 0x73, 0x69, 0x6f, 0x6e, 0x22, 0x3a, 0x22]);
    push_bytes(&mut body, version);
    push_bytes(&mut body, &[0x22u8, 0x2c, 0x22, 0x72, 0x75, 0x6e, 0x74, 0x69, 0x6d, 0x65, 0x22, 0x3a, 0x22, 0x65, 0x6d, 0x62, 0x61, 0x73, 0x73, 0x79, 0x2d, 0x6e, 0x65, 0x74, 0x22, 0x7d]);
    assert(([0x7bu8, 0x22, 0x73, 0x74, 0x61, 0x74, 0x75, 0x73, 0x22, 0x3a, 0x22, 0x6f, 0x6b, 0x22, 0x2c, 0x22, 0x75, 0x70, 0x74, 0x69, 0x6d, 0x65, 0x5f, 0x6d, 0x73, 0x22, 0x3a])@ == lit_j1());
    assert(([0x2cu8, 0x22, 0x63, 0x70, 0x75, 0x5f, 0x63, 0x6f, 0x72, 0x65, 0x73, 0x22, 0x3a])@ == lit_j2());
    assert(([0x2cu8, 0x22, 0x72, 0x65, 0x71, 0x75, 0x65, 0x73, 0x74, 0x73, 0x5f, 0x73, 0x65, 0x72, 0x76, 0x65, 0x64, 0x22, 0x3a])@ == lit_j3());
    assert(([0x2cu8, 0x22, 0x68, 0x74, 0x74, 0x70, 0x5f, 0x70, 0x6f, 0x72, 0x74, 0x22, 0x3a])@ == lit_j4());
    assert(([0x2cu8, 0x22, 0x76, 0x65, 0x72, 0x73, 0x69, 0x6f, 0x6e, 0x22, 0x3a, 0x22])@ == lit_j5());
    assert(([0x22u8, 0x2c, 0x22, 0x72, 0x75, 0x6e, 0x74, 0x69, 0x6d, 0x65, 0x22, 0x3a, 0x22, 0x65, 0x6d, 0x62, 0x61, 0x73, 0x73, 0x79, 0x2d, 0x6e, 0x65, 0x74, 0x22, 0x7d])@ == lit_j6());
    assert(body@ =~= json_status(uptime_ms as int, harts as nat, requests as nat, version@));
    assert(([0x4fu8, 0x4b])@ == lit_ok());
    assert(([0x61u8, 0x70, 0x70, 0x6c, 0x69, 0x63, 0x61, 0x74, 0x69, 0x6f, 0x6e, 0x2f, 0x6a, 0x73, 0x6f, 0x6e])@ == lit_ct_json());
    build_simple_response(200, &[0x4fu8, 0x4b], &[0x61u8, 0x70, 0x70, 0x6c, 0x69, 0x63, 0x61, 0x74, 0x69, 0x6f, 0x6e, 0x2f, 0x6a, 0x73, 0x6f, 0x6e], body.as_slice())
}

/// The not-found page.
pub open spec fn not_found_page(t: Option<Seq<u8>>, path: Seq<u8>) -> Seq<u8> {
    replace_all(template_or(t, lit_def_404()), lit_p_path(), path)
}

/// The not-found response.
pub fn build_404_response(template: Option<Vec<u8>>, path: &[u8]) -> (r: Vec<u8>)
    ensures
        r@ == simple_response(404, lit_notfound(), lit_ct_html(), not_found_page(opt_view(template), path@)),
{
    let t = template_or_default(template, &[0x3cu8, 0x68, 0x74, 0x6d, 0x6c, 0x3e, 0x3c, 0x62, 0x6f, 0x64, 0x79, 0x3e, 0x3c, 0x68, 0x31, 0x3e, 0x34, 0x30, 0x34, 0x20, 0x4e, 0x6f, 0x74, 0x20, 0x46, 0x6f, 0x75, 0x6e, 0x64, 0x3c, 0x2f, 0x68, 0x31, 0x3e, 0x3c, 0x70, 0x3e, 0x50, 0x61, 0x74, 0x68, 0x3a, 0x20, 0x7b, 0x7b, 0x50, 0x41, 0x54, 0x48, 0x7d, 0x7d, 0x3c, 0x2f, 0x70, 0x3e, 0x3c, 0x2f, 0x62, 0x6f, 0x64, 0x79, 0x3e, 0x3c, 0x2f, 0x68, 0x74, 0x6d, 0x6c, 0x3e]);
    assert(([0x7bu8, 0x7b, 0x50, 0x41, 0x54, 0x48, 0x7d, 0x7d])@ == lit_p_path());
    assert(([0x3cu8, 0x68, 0x74, 0x6d, 0x6c, 0x3e, 0x3c, 0x62, 0x6f, 0x64, 0x79, 0x3e, 0x3c, 0x68, 0x31, 0x3e, 0x34, 0x30, 0x34, 0x20, 0x4e, 0x6f, 0x74, 0x20, 0x46, 0x6f, 0x75, 0x6e, 0x64, 0x3c, 0x2f, 0x68, 0x31, 0x3e, 0x3c, 0x70, 0x3e, 0x50, 0x61, 0x74, 0x68, 0x3a, 0x20, 0x7b, 0x7b, 0x50, 0x41, 0x54, 0x48, 0x7d, 0x7d, 0x3c, 0x2f, 0x70, 0x3e, 0x3c, 0x2f, 0x62, 0x6f, 0x64, 0x79, 0x3e, 0x3c, 0x2f, 0x68, 0x74, 0x6d, 0x6c, 0x3e])@ == lit_def_404());
    let body = replace(&t, &[0x7bu8, 0x7b, 0x50, 0x41, 0x54, 0x48, 0x7d, 0x7d], path);
    assert(([0x4eu8, 0x6f, 0x74, 0x20, 0x46, 0x6f, 0x75, 0x6e, 0x64])@ == lit_notfound());
    assert(([0x74u8, 0x65, 0x78, 0x74, 0x2f, 0x68, 0x74, 0x6d, 0x6c, 0x3b, 0x20, 0x63, 0x68, 0x61, 0x72, 0x73, 0x65, 0x74, 0x3d, 0x75, 0x74, 0x66, 0x2d, 0x38])@ == lit_ct_html());
    build_simple_response(404, &[0x4eu8, 0x6f, 0x74, 0x20, 0x46, 0x6f, 0x75, 0x6e, 0x64], &[0x74u8, 0x65, 0x78, 0x74, 0x2f, 0x68, 0x74, 0x6d, 0x6c, 0x3b, 0x20, 0x63, 0x68, 0x61, 0x72, 0x73, 0x65, 0x74, 0x3d, 0x75, 0x74, 0x66, 0x2d, 0x38], body.as_slice())
}

/// What a page shows besides its template.
pub struct PageStats {
    pub uptime_ms: i64,
    pub harts: usize,
    pub requests: usize,
}

/// The response to a request, given the template its route uses (the index,
/// status or not-found template; the caller reads it) and the statistics.
pub open spec fn http_response(req: Seq<u8>, t: Option<Seq<u8>>, stats: PageStats, version: Seq<u8>) -> Seq<u8> {
    let (method, path) = request_target(req);
    match route_of(method, path) {
        Route::Index => simple_response(200, lit_ok(), lit_ct_html(), index_page(t, (stats.uptime_ms as u64) as nat, stats.harts as nat, stats.requests as nat, version)),
        Route::Status => simple_response(200, lit_ok(), lit_ct_plain(), status_page(t, (stats.uptime_ms as u64) as nat, stats.harts as nat, stats.requests as nat)),
        Route::ApiStatus => simple_response(200, lit_ok(), lit_ct_json(), json_status(stats.uptime_ms as int, stats.harts as nat, stats.requests as nat, version)),
        Route::Favicon => simple_response(204, lit_nocontent(), lit_ct_icon(), Seq::empty()),
        Route::Head => simple_response(200, lit_ok(), lit_ct_html_bare(), Seq::empty()),
        Route::NotFound => simple_response(404, lit_notfound(), lit_ct_html(), not_found_page(t, path)),
    }
}

/// Answer a request.
pub fn build_http_response(request: &Vec<u8>, template: Option<Vec<u8>>, stats: PageStats, version: &[u8]) -> (r: Vec<u8>)
    ensures
        r@ == http_response(request@, opt_view(template), stats, version@),
{
    let (method, path) = parse_request(request);
    let empty: [u8; 0] = [];
    assert(([0x4eu8, 0x6f, 0x20, 0x43, 0x6f, 0x6e, 0x74, 0x65, 0x6e, 0x74])@ == lit_nocontent());
    assert(([0x69u8, 0x6d, 0x61, 0x67, 0x65, 0x2f, 0x78, 0x2d, 0x69, 0x63, 0x6f, 0x6e])@ == lit_ct_icon());
    assert(([0x4fu8, 0x4b])@ == lit_ok());
    assert(([0x74u8, 0x65, 0x78, 0x74, 0x2f, 0x68, 0x74, 0x6d, 0x6c])@ == lit_ct_html_bare());
    match route(&method, &path) {
        Route::Index => build_index_response(template, stats.uptime_ms as u64, stats.harts, stats.requests, version),
        Route::Status => build_status_response(template, stats.uptime_ms as u64, stats.harts, stats.requests),
        Route::ApiStatus => build_json_response(stats.uptime_ms, stats.harts, stats.requests, version),
        Route::Favicon => build_simple_response(204, &[0x4eu8, 0x6f, 0x20, 0x43, 0x6f, 0x6e, 0x74, 0x65, 0x6e, 0x74], &[0x69u8, 0x6d, 0x61, 0x67, 0x65, 0x2f, 0x78, 0x2d, 0x69, 0x63, 0x6f, 0x6e], &empty),
        Route::Head => build_simple_response(200, &[0x4fu8, 0x4b], &[0x74u8, 0x65, 0x78, 0x74, 0x2f, 0x68, 0x74, 0x6d, 0x6c], &empty),
        Route::NotFound => build_404_response(template, path.as_slice()),
    }
}

// ─── Serving one connection ──────────────────────────────────────────────────

/// How long receiving or sending may go on (ms).
pub const CONNECTION_TIMEOUT_MS: i64 = 100;

/// What the web server does with its listening socket in a tick, after the
/// stack was polled: a connection already established on it, or one that
/// accepting produced, is served (and the listening socket must be opened
/// again); otherwise keep waiting.
pub fn serve_target(listen_id: u8, established: bool, accepted: Option<u8>) -> (r: Option<u8>)
    ensures
        established ==> r == Some(listen_id),
        !established ==> r == accepted,
{
    if established {
        Some(listen_id)
    } else {
        accepted
    }
}

/// One tick's bookkeeping of the listening socket: open one when there is
/// none (`listened` is what listening on HTTPD_PORT gave, when it was
/// asked); after a connection was taken over for serving, none is left.
pub fn tick_impl(st: &mut HttpdState, listened: Option<u8>, served: bool)
    ensures
        final(st).listen_socket == if served {
            None
        } else if old(st).listen_socket is None {
            listened
        } else {
            old(st).listen_socket
        },
        final(st).requests_served == old(st).requests_served,
        final(st).initialized == old(st).initialized,
        final(st).last_run == old(st).last_run,
{
    if served {
        st.listen_socket = None;
    } else if st.listen_socket.is_none() {
        st.listen_socket = listened;
    }
}

/// One receive attempt: what came (`None`: the connection failed) and the
/// time after it.
pub struct RecvEvent {
    pub data: Option<Vec<u8>>,
    pub now: i64,
}

/// The request received by the events from `i` on, with `acc` so far: data
/// is kept up to MAX_REQUEST_SIZE bytes; receiving stops at a failure, once
/// the header has ended, or when the time is past `start` + the timeout.
/// Gives the request and how many events were used.
pub open spec fn recv_fold(ev: Seq<RecvEvent>, start: i64, i: int, acc: Seq<u8>) -> (Seq<u8>, int)
    decreases ev.len() - i,
{
    if i < 0 || i >= ev.len() {
        (acc, i)
    } else {
        match ev[i].data {
            None => (acc, i + 1),
            Some(d) => {
                let room = MAX_REQUEST_SIZE - acc.len();
                let take = if d@.len() < room { d@.len() as int } else { room };
                let acc2 = acc + d@.take(take);
                if take > 0 && acc2.len() >= 4 && has_header_end(acc2) {
                    (acc2, i + 1)
                } else if ev[i].now - start > CONNECTION_TIMEOUT_MS {
                    (acc2, i + 1)
                } else {
                    recv_fold(ev, start, i + 1, acc2)
                }
            },
        }
    }
}

/// Receive a request (see `recv_fold`).
pub fn receive_request(events: &Vec<RecvEvent>, start: i64) -> (r: (Vec<u8>, usize))
    requires
        forall|k: int| 0 <= k < events@.len() ==> i64::MIN <= #[trigger] events@[k].now - start <= i64::MAX,
    ensures
        (r.0@, r.1 as int) == recv_fold(events@, start, 0, Seq::empty()),
        r.0@.len() <= MAX_REQUEST_SIZE,
{
    let mut acc: Vec<u8> = Vec::new();
    let mut i: usize = 0;
    while i < events.len()
        invariant
            i <= events@.len(),
            acc@.len() <= MAX_REQUEST_SIZE,
            recv_fold(events@, start, 0, Seq::empty()) == recv_fold(events@, start, i as int, acc@),
            forall|k: int| 0 <= k < events@.len() ==> i64::MIN <= #[trigger] events@[k].now - start <= i64::MAX,
        decreases events@.len() - i,
    {
        match &events[i].data {
            None => {
                return (acc, i + 1);
            },
            Some(d) => {
                let room = MAX_REQUEST_SIZE - acc.len();
                let take = if d.len() < room { d.len() } else { room };
                let ghost before = acc@;
                let mut k: usize = 0;
                while k < take
                    invariant
                        k <= take,
                        take <= d@.len(),
                        acc@ == before + d@.take(k as int),
                    decreases take - k,
                {
                    acc.push(d[k]);
                    k = k + 1;
                    assert(acc@ =~= before + d@.take(k as int));
                }
                if take > 0 && acc.len() >= 4 && request_complete(acc.as_slice()) {
                    return (acc, i + 1);
                }
                if events[i].now - start > CONNECTION_TIMEOUT_MS {
                    return (acc, i + 1);
                }
            },
        }
        i = i + 1;
    }
    (acc, i)
}

/// One send attempt: how much the stack took (`None`: the connection
/// failed) and the time after it.
pub struct SendEvent {
    pub sent: Option<usize>,
    pub now: i64,
}

/// How much of a `total`-byte response the events from `i` on send, with
/// `sent` so far: sending goes on while some is left, stopping at a failure
/// or when the time is past `start` + the timeout. Gives the amount sent and
/// how many events were used.
pub open spec fn send_fold(ev: Seq<SendEvent>, total: int, start: i64, i: int, sent: int) -> (int, int)
    decreases ev.len() - i,
{
    if sent >= total || i < 0 || i >= ev.len() {
        (sent, i)
    } else {
        match ev[i].sent {
            None => (sent, i + 1),
            Some(n) => if ev[i].now - start > CONNECTION_TIMEOUT_MS {
                (sent + n, i + 1)
            } else {
                send_fold(ev, total, start, i + 1, sent + n)
            },
        }
    }
}

/// Send a response of `total` bytes (see `send_fold`).
pub fn send_response(total: usize, events: &Vec<SendEvent>, start: i64) -> (r: (usize, usize))
    requires
        forall|k: int| 0 <= k < events@.len() ==> i64::MIN <= #[trigger] events@[k].now - start <= i64::MAX,
        forall|k: int| 0 <= k < events@.len() ==> (#[trigger] events@[k].sent matches Some(n) && n <= total)
            || events@[k].sent is None,
        2 * total <= usize::MAX,
    ensures
        (r.0 as int, r.1 as int) == send_fold(events@, total as int, start, 0, 0),
{
    let mut sent: usize = 0;
    let mut i: usize = 0;
    while sent < total && i < events.len()
        invariant
            i <= events@.len(),
            sent < 2 * total || (sent == 0 && total == 0),
            sent <= total || i > 0,
            send_fold(events@, total as int, start, 0, 0) == send_fold(events@, total as int, start, i as int, sent as int),
            forall|k: int| 0 <= k < events@.len() ==> i64::MIN <= #[trigger] events@[k].now - start <= i64::MAX,
            forall|k: int| 0 <= k < events@.len() ==> (#[trigger] events@[k].sent matches Some(n) && n <= total)
                || events@[k].sent is None,
            2 * total <= usize::MAX,
        decreases events@.len() - i,
    {
        match events[i].sent {
            None => {
                return (sent, i + 1);
            },
            Some(n) => {
                sent = sent + n;
                if events[i].now - start > CONNECTION_TIMEOUT_MS {
                    return (sent, i + 1);
                }
            },
        }
        i = i + 1;
    }
    (sent, i)
}

/// What serving a connection ends with: an empty request only closes the
/// socket; otherwise the response goes out, the socket is closed and its
/// slot released, and one more request counts as served.
pub fn handle_connection(st: &mut HttpdState, request_len: usize) -> (serve: bool)
    ensures
        serve == (request_len > 0),
        serve ==> final(st).requests_served == old(st).requests_served.wrapping_add(1),
        !serve ==> final(st).requests_served == old(st).requests_served,
        final(st).initialized == old(st).initialized,
        final(st).last_run == old(st).last_run,
        final(st).listen_socket == old(st).listen_socket,
{
    if request_len == 0 {
        return false;
    }
    request_done(st);
    true
}

} // verus!
