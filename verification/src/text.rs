//! Byte-string helpers shared by the kernel's state modules.
use vstd::prelude::*;
use vstd::string::StringSliceAdditionalSpecFns;

verus! {

/// `core::str::from_utf8`: the bytes read as a string exactly when they are valid UTF-8, and
/// then the string's bytes are those bytes.
#[verifier::external_body]
pub fn str_from_utf8(bytes: &[u8]) -> (r: Option<&str>)
    ensures
        r is Some <==> vstd::utf8::valid_utf8(bytes@),
        r matches Some(s) ==> s.spec_bytes() == bytes@,
{
    core::str::from_utf8(bytes).ok()
}

/// Copy the first `n` bytes of `src` into the front of `dst`.
pub fn copy_prefix(dst: &mut [u8], src: &[u8], n: usize)
    requires
        n <= src@.len(),
        n <= old(dst)@.len(),
    ensures
        final(dst)@.len() == old(dst)@.len(),
        final(dst)@ == src@.take(n as int) + old(dst)@.skip(n as int),
{
    let mut i: usize = 0;
    while i < n
        invariant
            i <= n,
            n <= src@.len(),
            n <= old(dst)@.len(),
            dst@.len() == old(dst)@.len(),
            forall|k: int| 0 <= k < i ==> dst@[k] == src@[k],
            forall|k: int| i <= k < dst@.len() ==> dst@[k] == old(dst)@[k],
        decreases n - i,
    {
        dst[i] = src[i];
        i = i + 1;
    }
    assert(dst@ =~= src@.take(n as int) + old(dst)@.skip(n as int));
}

// ─── Digits ─────────────────────────────────────────────────────────────────

pub open spec fn is_digit(b: u8) -> bool {
    0x30 <= b <= 0x39
}

pub open spec fn all_digits(t: Seq<u8>) -> bool {
    forall|i: int| 0 <= i < t.len() ==> is_digit(#[trigger] t[i])
}

/// The decimal value of a string of digits.
pub open spec fn dec_value(t: Seq<u8>) -> nat
    decreases t.len(),
{
    if t.len() == 0 {
        0
    } else {
        dec_value(t.drop_last()) * 10 + (t.last() - 0x30) as nat
    }
}

/// A digit string's value is at least that of any of its prefixes.
pub proof fn lemma_digits_value_monotone(t: Seq<u8>, k: int)
    requires
        all_digits(t),
        0 <= k <= t.len(),
    ensures
        dec_value(t.take(k)) <= dec_value(t),
    decreases t.len(),
{
    if k < t.len() {
        assert(t.drop_last().take(k) =~= t.take(k));
        lemma_digits_value_monotone(t.drop_last(), k);
    } else {
        assert(t.take(k) =~= t);
    }
}

// ─── Whitespace and tokens ─────────────────────────────────────────────────

/// Width in bytes of the whitespace character (Unicode `White_Space`, as
/// `char::is_whitespace` has it) that starts at byte `i` of UTF-8 text, or 0.
pub open spec fn ws_width(s: Seq<u8>, i: int) -> int {
    if i < 0 || i >= s.len() {
        0
    } else {
        let b = s[i];
        if b == 0x09 || b == 0x0a || b == 0x0b || b == 0x0c || b == 0x0d || b == 0x20 {
            1
        } else if b == 0xc2 && i + 1 < s.len() && (s[i + 1] == 0x85 || s[i + 1] == 0xa0) {
            2
        } else if s.len() - i > 2 && ((b == 0xe1 && s[i + 1] == 0x9a && s[i + 2] == 0x80) || (b == 0xe2
            && s[i + 1] == 0x80 && ((0x80 <= s[i + 2] <= 0x8a) || s[i + 2] == 0xa8 || s[i + 2] == 0xa9
            || s[i + 2] == 0xaf)) || (b == 0xe2 && s[i + 1] == 0x81 && s[i + 2] == 0x9f) || (b == 0xe3
            && s[i + 1] == 0x80 && s[i + 2] == 0x80)) {
            3
        } else {
            0
        }
    }
}

/// Width of the whitespace character at byte `i`, or 0 where none starts.
pub fn whitespace_width(s: &[u8], i: usize) -> (w: usize)
    ensures
        w == ws_width(s@, i as int),
        w <= 3,
{
    if i >= s.len() {
        return 0;
    }
    let b = s[i];
    if b == 0x09 || b == 0x0a || b == 0x0b || b == 0x0c || b == 0x0d || b == 0x20 {
        1
    } else if b == 0xc2 && i + 1 < s.len() && (s[i + 1] == 0x85 || s[i + 1] == 0xa0) {
        2
    } else if s.len() - i > 2 && ((b == 0xe1 && s[i + 1] == 0x9a && s[i + 2] == 0x80) || (b == 0xe2
        && s[i + 1] == 0x80 && ((0x80 <= s[i + 2] && s[i + 2] <= 0x8a) || s[i + 2] == 0xa8 || s[i
        + 2] == 0xa9 || s[i + 2] == 0xaf)) || (b == 0xe2 && s[i + 1] == 0x81 && s[i + 2] == 0x9f) || (
    b == 0xe3 && s[i + 1] == 0x80 && s[i + 2] == 0x80)) {
        3
    } else {
        0
    }
}

/// The whitespace-separated words of `s` from byte `i` on, `cur` being the part
/// of a word already read: what `str::split_whitespace` yields.
pub open spec fn words_from(s: Seq<u8>, i: int, cur: Seq<u8>) -> Seq<Seq<u8>>
    decreases s.len() - i,
{
    if i < 0 || i >= s.len() {
        if cur.len() > 0 {
            seq![cur]
        } else {
            Seq::empty()
        }
    } else if ws_width(s, i) > 0 {
        (if cur.len() > 0 {
            seq![cur]
        } else {
            Seq::<Seq<u8>>::empty()
        }) + words_from(s, i + ws_width(s, i), Seq::empty())
    } else {
        words_from(s, i + 1, cur.push(s[i]))
    }
}

/// The whitespace-separated words of `s`.
pub open spec fn words(s: Seq<u8>) -> Seq<Seq<u8>> {
    words_from(s, 0, Seq::empty())
}

/// Position of the first byte at or after `i` that starts no whitespace.
pub open spec fn skip_ws(s: Seq<u8>, i: int) -> int
    decreases s.len() - i,
{
    if i < 0 || i >= s.len() || ws_width(s, i) == 0 {
        i
    } else {
        skip_ws(s, i + ws_width(s, i))
    }
}

pub open spec fn byte_views(v: Seq<Vec<u8>>) -> Seq<Seq<u8>> {
    v.map_values(|t: Vec<u8>| t@)
}

/// Split UTF-8 text into its whitespace-separated words.
pub fn split_whitespace(s: &[u8]) -> (r: Vec<Vec<u8>>)
    ensures
        byte_views(r@) == words(s@),
{
    let mut out: Vec<Vec<u8>> = Vec::new();
    let mut cur: Vec<u8> = Vec::new();
    let mut i: usize = 0;
    while i < s.len()
        invariant
            i <= s@.len(),
            byte_views(out@) + words_from(s@, i as int, cur@) == words(s@),
        decreases s@.len() - i,
    {
        let w = whitespace_width(s, i);
        if w > 0 {
            let ghost before = byte_views(out@);
            assert(words_from(s@, i as int, cur@) == (if cur@.len() > 0 {
                seq![cur@]
            } else {
                Seq::<Seq<u8>>::empty()
            }) + words_from(s@, i + w, Seq::empty()));
            if cur.len() > 0 {
                let mut done: Vec<u8> = Vec::new();
                std::mem::swap(&mut done, &mut cur);
                out.push(done);
                assert(byte_views(out@) =~= before + seq![done@]);
                assert(byte_views(out@) + words_from(s@, i + w, cur@) =~= before + (seq![done@]
                    + words_from(s@, i + w, Seq::empty())));
            } else {
                assert(cur@ =~= Seq::<u8>::empty());
                assert(Seq::<Seq<u8>>::empty() + words_from(s@, i + w, Seq::empty()) =~= words_from(
                    s@,
                    i + w,
                    Seq::empty(),
                ));
            }
            i = i + w;
        } else {
            cur.push(s[i]);
            i = i + 1;
        }
    }
    let ghost before = byte_views(out@);
    if cur.len() > 0 {
        out.push(cur);
        assert(byte_views(out@) =~= before + seq![cur@]);
    } else {
        assert(byte_views(out@) =~= before + Seq::<Seq<u8>>::empty());
    }
    out
}

/// Ten to the `k`.
pub open spec fn ten_pow(k: nat) -> nat
    decreases k,
{
    if k == 0 {
        1
    } else {
        10 * ten_pow((k - 1) as nat)
    }
}

/// The decimal text of `n` is digits, reads back as `n`, and has no leading
/// zero; below 10^k it has at most `k` digits.
pub proof fn lemma_dec_text_reads_back(n: nat, k: nat)
    ensures
        crate::fmt::dec_text(n).len() >= 1,
        all_digits(crate::fmt::dec_text(n)),
        dec_value(crate::fmt::dec_text(n)) == n,
        crate::fmt::dec_text(n).len() > 1 ==> crate::fmt::dec_text(n)[0] != 0x30,
        k >= 1 && n < ten_pow(k) ==> crate::fmt::dec_text(n).len() <= k,
    decreases n,
{
    let t = crate::fmt::dec_text(n);
    if n >= 10 {
        let km = if k >= 1 { (k - 1) as nat } else { 0 };
        lemma_dec_text_reads_back(n / 10, km);
        let p = crate::fmt::dec_text(n / 10);
        assert(t == p.push(crate::fmt::digit_char(n % 10)));
        assert(t.drop_last() =~= p);
        assert(t.last() == crate::fmt::digit_char(n % 10));
        assert(dec_value(t) == dec_value(p) * 10 + (n % 10));
        assert((n / 10) * 10 + n % 10 == n);
        assert(dec_value(t) == n);
        assert(t[0] == p[0]);
        if n / 10 < 10 {
            assert(p[0] == crate::fmt::digit_char(n / 10));
            assert(crate::fmt::digit_char(n / 10) == 0x30 + n / 10);
        } else {
            let q = crate::fmt::dec_text(n / 100);
            assert(n / 10 / 10 == n / 100);
            assert(p == q.push(crate::fmt::digit_char((n / 10) % 10)));
            assert(p.len() > 1);
        }
        assert(t[0] != 0x30);
        if k >= 1 && n < ten_pow(k) {
            if k == 1 {
                assert(ten_pow(1) == 10);
            } else {
                assert(ten_pow(k) == 10 * ten_pow(km));
                assert(n / 10 < ten_pow(km)) by (nonlinear_arith)
                    requires
                        n < 10 * ten_pow(km),
                ;
            }
        }
    } else {
        assert(t.drop_last() =~= Seq::<u8>::empty());
        assert(t.last() == crate::fmt::digit_char(n));
        assert(crate::fmt::digit_char(n) == 0x30 + n);
        assert(dec_value(Seq::<u8>::empty()) == 0);
        assert(dec_value(t) == n);
    }
}

/// What `usize::from_str` accepts: an optional '+' and one or more decimal
/// digits whose value fits.
pub open spec fn parse_usize_spec(t: Seq<u8>) -> Option<nat> {
    let d = if t.len() > 0 && t[0] == 0x2b {
        t.skip(1)
    } else {
        t
    };
    if d.len() > 0 && all_digits(d) && dec_value(d) <= usize::MAX {
        Some(dec_value(d))
    } else {
        None
    }
}

/// Parse a decimal `usize` the way `str::parse::<usize>` does.
pub fn parse_usize(t: &[u8]) -> (r: Option<usize>)
    ensures
        match r {
            Some(v) => parse_usize_spec(t@) == Some(v as nat),
            None => parse_usize_spec(t@) is None,
        },
{
    let start: usize = if t.len() > 0 && t[0] == 0x2b {
        1
    } else {
        0
    };
    let ghost d = t@.skip(start as int);
    assert(d =~= (if t@.len() > 0 && t@[0] == 0x2b {
        t@.skip(1)
    } else {
        t@
    }));
    if start >= t.len() {
        return None;
    }
    let mut value: usize = 0;
    let mut i: usize = start;
    assert(d.take(0) =~= Seq::<u8>::empty());
    while i < t.len()
        invariant
            start < t@.len(),
            d == t@.skip(start as int),
            d == (if t@.len() > 0 && t@[0] == 0x2b {
                t@.skip(1)
            } else {
                t@
            }),
            start <= i <= t@.len(),
            all_digits(d.take(i - start)),
            value == dec_value(d.take(i - start)),
        decreases t@.len() - i,
    {
        let ghost k = i - start;
        let b = t[i];
        assert(d[k] == b);
        assert(d.take(k + 1).drop_last() =~= d.take(k));
        if b < 0x30 || b > 0x39 {
            assert(!is_digit(d[k]));
            return None;
        }
        let digit = (b - 0x30) as usize;
        if value > (usize::MAX - digit) / 10 {
            proof {
                assert(dec_value(d.take(k + 1)) > usize::MAX) by (nonlinear_arith)
                    requires
                        dec_value(d.take(k + 1)) == value * 10 + digit,
                        value > (usize::MAX - digit) / 10,
                        digit <= 9,
                ;
                if all_digits(d) {
                    lemma_digits_value_monotone(d, k + 1);
                }
            }
            return None;
        }
        assert(value * 10 + digit <= usize::MAX) by (nonlinear_arith)
            requires
                value <= (usize::MAX - digit) / 10,
                digit <= 9,
        ;
        value = value * 10 + digit;
        i = i + 1;
        assert(all_digits(d.take(i - start))) by {
            assert forall|j: int| 0 <= j < i - start implies is_digit(#[trigger] d.take(i - start)[j]) by {
                if j < k {
                    assert(d.take(i - start)[j] == d.take(k)[j]);
                }
            }
        }
    }
    assert(d.take(d.len() as int) =~= d);
    Some(value)
}

// ─── Byte-string helpers ─────────────────────────────────────────────────────

/// Whether `t` starts with `pre`.
pub fn has_prefix(t: &Vec<u8>, pre: &[u8]) -> (r: bool)
    ensures
        r == pre@.is_prefix_of(t@),
{
    if pre.len() > t.len() {
        return false;
    }
    let mut i: usize = 0;
    while i < pre.len()
        invariant
            pre@.len() <= t@.len(),
            i <= pre@.len(),
            forall|k: int| 0 <= k < i ==> pre@[k] == t@[k],
        decreases pre@.len() - i,
    {
        if pre[i] != t[i] {
            return false;
        }
        i = i + 1;
    }
    true
}

/// Whether `t` is exactly `lit`.
pub fn is_exactly(t: &Vec<u8>, lit: &[u8]) -> (r: bool)
    ensures
        r == (t@ == lit@),
{
    if t.len() != lit.len() {
        return false;
    }
    let r = has_prefix(t, lit);
    assert(r ==> t@ =~= lit@);
    r
}

/// The bytes of `t` from `from` on.
pub fn bytes_from(t: &Vec<u8>, from: usize) -> (r: Vec<u8>)
    requires
        from <= t@.len(),
    ensures
        r@ == t@.skip(from as int),
{
    bytes_between(t, from, t.len())
}

/// The bytes of `t` before `to`.
pub fn bytes_to(t: &Vec<u8>, to: usize) -> (r: Vec<u8>)
    requires
        to <= t@.len(),
    ensures
        r@ == t@.take(to as int),
{
    let r = bytes_between(t, 0, to);
    assert(t@.subrange(0, to as int) =~= t@.take(to as int));
    r
}

/// The bytes of `t` from `from` up to `to`.
pub fn bytes_between(t: &Vec<u8>, from: usize, to: usize) -> (r: Vec<u8>)
    requires
        from <= to <= t@.len(),
    ensures
        r@ == t@.subrange(from as int, to as int),
{
    let mut r: Vec<u8> = Vec::new();
    let mut i: usize = from;
    while i < to
        invariant
            from <= i <= to,
            to <= t@.len(),
            r@ == t@.subrange(from as int, i as int),
        decreases to - i,
    {
        r.push(t[i]);
        i = i + 1;
        assert(r@ =~= t@.subrange(from as int, i as int));
    }
    r
}

/// Index of the last `b` before position `i`.
pub open spec fn rfind_before(s: Seq<u8>, b: u8, i: int) -> Option<int>
    decreases i,
{
    if i <= 0 || i > s.len() {
        None
    } else if s[i - 1] == b {
        Some(i - 1)
    } else {
        rfind_before(s, b, i - 1)
    }
}

/// Index of the last `b` in `s`.
pub open spec fn rfind(s: Seq<u8>, b: u8) -> Option<int> {
    rfind_before(s, b, s.len() as int)
}

/// Index of the first `b` at or after `i`.
pub open spec fn find_from(s: Seq<u8>, b: u8, i: int) -> Option<int>
    decreases s.len() - i,
{
    if i < 0 || i >= s.len() {
        None
    } else if s[i] == b {
        Some(i)
    } else {
        find_from(s, b, i + 1)
    }
}

/// Index of the first `b` in `s`.
pub open spec fn find(s: Seq<u8>, b: u8) -> Option<int> {
    find_from(s, b, 0)
}

/// Index of the last `b` in `t`.
pub fn rfind_byte(t: &Vec<u8>, b: u8) -> (r: Option<usize>)
    ensures
        match r {
            Some(k) => rfind(t@, b) == Some(k as int) && k < t@.len() && t@[k as int] == b,
            None => rfind(t@, b) is None,
        },
{
    let mut i: usize = t.len();
    while i > 0
        invariant
            i <= t@.len(),
            rfind(t@, b) == rfind_before(t@, b, i as int),
        decreases i,
    {
        if t[i - 1] == b {
            return Some(i - 1);
        }
        i = i - 1;
    }
    None
}

/// Index of the first `b` in `t`.
pub fn find_byte(t: &Vec<u8>, b: u8) -> (r: Option<usize>)
    ensures
        match r {
            Some(k) => find(t@, b) == Some(k as int) && k < t@.len(),
            None => find(t@, b) is None,
        },
{
    let mut i: usize = 0;
    while i < t.len()
        invariant
            i <= t@.len(),
            find(t@, b) == find_from(t@, b, i as int),
        decreases t@.len() - i,
    {
        if t[i] == b {
            return Some(i);
        }
        i = i + 1;
    }
    None
}

/// Whether the string's bytes are exactly `lit`.
pub fn str_is(s: &str, lit: &[u8]) -> (r: bool)
    ensures
        r == (s.spec_bytes() == lit@),
{
    let b = s.as_bytes();
    if b.len() != lit.len() {
        return false;
    }
    let mut i: usize = 0;
    while i < lit.len()
        invariant
            b@.len() == lit@.len(),
            b@ == s.spec_bytes(),
            i <= lit@.len(),
            forall|k: int| 0 <= k < i ==> b@[k] == lit@[k],
        decreases lit@.len() - i,
    {
        if b[i] != lit[i] {
            return false;
        }
        i = i + 1;
    }
    assert(b@ =~= lit@);
    true
}

/// The lines of a text, as `str::lines` splits them: at each '\n', a '\r'
/// before it dropped; the last line may lack its '\n' (and then keeps a '\r').
pub open spec fn lines_from(s: Seq<u8>, i: int, cur: Seq<u8>) -> Seq<Seq<u8>>
    decreases s.len() - i,
{
    if i < 0 || i >= s.len() {
        if cur.len() > 0 {
            seq![cur]
        } else {
            Seq::empty()
        }
    } else if s[i] == 0x0a {
        seq![strip_cr(cur)] + lines_from(s, i + 1, Seq::empty())
    } else {
        lines_from(s, i + 1, cur.push(s[i]))
    }
}

pub open spec fn strip_cr(l: Seq<u8>) -> Seq<u8> {
    if l.len() > 0 && l.last() == 0x0d {
        l.drop_last()
    } else {
        l
    }
}

/// The lines of `s` (see `lines_from`).
pub fn text_lines(s: &Vec<u8>) -> (r: Vec<Vec<u8>>)
    ensures
        byte_views(r@) == lines_from(s@, 0, Seq::empty()),
{
    let mut out: Vec<Vec<u8>> = Vec::new();
    let mut cur: Vec<u8> = Vec::new();
    let mut i: usize = 0;
    while i < s.len()
        invariant
            i <= s@.len(),
            byte_views(out@) + lines_from(s@, i as int, cur@) == lines_from(s@, 0, Seq::empty()),
        decreases s@.len() - i,
    {
        if s[i] == 0x0a {
            let ghost before = byte_views(out@);
            let ghost c = cur@;
            if cur.len() > 0 && cur[cur.len() - 1] == 0x0d {
                cur.pop();
            }
            assert(cur@ == strip_cr(c));
            let mut done: Vec<u8> = Vec::new();
            std::mem::swap(&mut done, &mut cur);
            out.push(done);
            assert(byte_views(out@) =~= before + seq![strip_cr(c)]);
            assert(byte_views(out@) + lines_from(s@, i + 1, cur@) =~= before + (seq![strip_cr(c)]
                + lines_from(s@, i + 1, Seq::empty())));
        } else {
            cur.push(s[i]);
        }
        i = i + 1;
    }
    let ghost before = byte_views(out@);
    if cur.len() > 0 {
        out.push(cur);
        assert(byte_views(out@) =~= before + seq![cur@]);
    } else {
        assert(byte_views(out@) =~= before + Seq::<Seq<u8>>::empty());
    }
    out
}

} // verus!
