//! Dotted-quad IPv4 address text.
use vstd::prelude::*;
use crate::text::{all_digits, dec_value, is_digit, lemma_digits_value_monotone};

verus! {

/// The text split at every '.', as `str::split` would: one group more than there
/// are dots, groups possibly empty.
pub open spec fn split_dots(s: Seq<u8>) -> Seq<Seq<u8>>
    decreases s.len(),
{
    if s.len() == 0 {
        seq![Seq::<u8>::empty()]
    } else {
        let rest = split_dots(s.drop_last());
        if s.last() == 0x2e {
            rest.push(Seq::<u8>::empty())
        } else {
            rest.update(rest.len() - 1, rest.last().push(s.last()))
        }
    }
}

/// A well-formed octet: one or more digits with a value of at most 255.
pub open spec fn is_octet_text(t: Seq<u8>) -> bool {
    t.len() > 0 && all_digits(t) && dec_value(t) <= 255
}

/// The address a dotted quad denotes: four dot-separated octets, each written
/// as one or more decimal digits (leading zeros allowed) with a value of at
/// most 255.
pub open spec fn ipv4_of(s: Seq<u8>) -> Option<Seq<u8>> {
    let g = split_dots(s);
    if g.len() == 4 && (forall|k: int| 0 <= k < 4 ==> is_octet_text(#[trigger] g[k])) {
        Some(Seq::new(4, |k: int| dec_value(g[k]) as u8))
    } else {
        None
    }
}

/// Decimal digits of an octet, without leading zeros.
pub open spec fn octet_digits(x: u8) -> Seq<u8> {
    if x >= 100 {
        seq![(0x30 + x / 100) as u8, (0x30 + (x / 10) % 10) as u8, (0x30 + x % 10) as u8]
    } else if x >= 10 {
        seq![(0x30 + (x / 10) % 10) as u8, (0x30 + x % 10) as u8]
    } else {
        seq![(0x30 + x % 10) as u8]
    }
}

/// Dotted-quad text of an address.
pub open spec fn ipv4_text(a: Seq<u8>) -> Seq<u8> {
    octet_digits(a[0]) + seq![0x2eu8] + octet_digits(a[1]) + seq![0x2eu8] + octet_digits(a[2]) + seq![
        0x2eu8,
    ] + octet_digits(a[3])
}

proof fn lemma_split_nonempty(s: Seq<u8>)
    ensures
        split_dots(s).len() >= 1,
    decreases s.len(),
{
    if s.len() > 0 {
        lemma_split_nonempty(s.drop_last());
    }
}

/// Appending to a text keeps its completed groups and extends its last one.
proof fn lemma_split_extend(p: Seq<u8>, r: Seq<u8>)
    ensures
        split_dots(p + r).len() >= split_dots(p).len(),
        forall|k: int|
            0 <= k < split_dots(p).len() - 1 ==> #[trigger] split_dots(p + r)[k] == split_dots(p)[k],
        split_dots(p).last().is_prefix_of(split_dots(p + r)[split_dots(p).len() - 1]),
    decreases r.len(),
{
    lemma_split_nonempty(p);
    if r.len() == 0 {
        assert(p + r =~= p);
    } else {
        let q = r.drop_last();
        lemma_split_extend(p, q);
        assert((p + r).drop_last() =~= p + q);
        lemma_split_nonempty(p + q);
        let sq = split_dots(p + q);
        let n = split_dots(p).len();
        if r.last() == 0x2e {
        } else {
            if sq.len() == n {
                assert(split_dots(p).last().is_prefix_of(sq[n - 1]));
                assert(split_dots(p + r)[n - 1] == sq[n - 1].push(r.last()));
                assert(split_dots(p).last().is_prefix_of(split_dots(p + r)[n - 1]));
            }
        }
    }
}

/// A group that cannot become a valid octet however the text goes on.
proof fn lemma_group_ruins(s: Seq<u8>, i: int, k: int)
    requires
        0 <= i <= s.len(),
        0 <= k < split_dots(s.take(i)).len(),
        k < split_dots(s.take(i)).len() - 1 ==> !is_octet_text(split_dots(s.take(i))[k]),
        k == split_dots(s.take(i)).len() - 1 ==> (!all_digits(split_dots(s.take(i))[k]) || dec_value(
            split_dots(s.take(i))[k],
        ) > 255),
    ensures
        ipv4_of(s) is None,
{
    let p = s.take(i);
    let r = s.skip(i);
    assert(p + r =~= s);
    lemma_split_extend(p, r);
    let g = split_dots(s);
    if g.len() == 4 && (forall|j: int| 0 <= j < 4 ==> is_octet_text(#[trigger] g[j])) {
        assert(k < 4);
        if k < split_dots(p).len() - 1 {
            assert(g[k] == split_dots(p)[k]);
        } else {
            let last = split_dots(p).last();
            assert(last.is_prefix_of(g[k]));
            assert(is_octet_text(g[k]));
            if !all_digits(last) {
                let j = choose|j: int| 0 <= j < last.len() && !is_digit(#[trigger] last[j]);
                assert(g[k][j] == last[j]);
            } else {
                assert(g[k].take(last.len() as int) =~= last);
                lemma_digits_value_monotone(g[k], last.len() as int);
            }
        }
    }
}

/// Parse dotted-quad text into the address's four octets.
pub fn parse_ipv4(s: &[u8]) -> (r: Option<[u8; 4]>)
    ensures
        match r {
            Some(a) => ipv4_of(s@) == Some(a@),
            None => ipv4_of(s@) is None,
        },
{
    let mut octets: [u8; 4] = [0u8; 4];
    let mut octet_idx: usize = 0;
    let mut current: u16 = 0;
    let mut has_digit: bool = false;
    let mut i: usize = 0;
    while i < s.len()
        invariant
            i <= s@.len(),
            octet_idx <= 3,
            split_dots(s@.take(i as int)).len() == octet_idx + 1,
            current as nat == dec_value(split_dots(s@.take(i as int)).last()),
            current <= 255,
            has_digit == (split_dots(s@.take(i as int)).last().len() > 0),
            all_digits(split_dots(s@.take(i as int)).last()),
            forall|k: int| 0 <= k < octet_idx ==> is_octet_text(#[trigger] split_dots(s@.take(i as int))[k]),
            forall|k: int|
                0 <= k < octet_idx ==> octets@[k] as nat == dec_value(
                    #[trigger] split_dots(s@.take(i as int))[k],
                ),
        decreases s@.len() - i,
    {
        let b = s[i];
        let ghost before = split_dots(s@.take(i as int));
        assert(s@.take(i as int + 1).drop_last() =~= s@.take(i as int));
        assert(s@.take(i as int + 1).last() == b);
        if b >= 0x30 && b <= 0x39 {
            let next = current * 10 + (b - 0x30) as u16;
            proof {
                let after = split_dots(s@.take(i as int + 1));
                assert(after =~= before.update(before.len() - 1, before.last().push(b)));
                assert(after.last().drop_last() =~= before.last());
                assert(dec_value(after.last()) == next);
                assert(all_digits(after.last())) by {
                    assert forall|j: int| 0 <= j < after.last().len() implies is_digit(
                        #[trigger] after.last()[j],
                    ) by {
                        if j < before.last().len() {
                            assert(after.last()[j] == before.last()[j]);
                        }
                    }
                }
            }
            if next > 255 {
                proof {
                    lemma_group_ruins(s@, i as int + 1, octet_idx as int);
                }
                return None;
            }
            current = next;
            has_digit = true;
        } else if b == 0x2e {
            if !has_digit || octet_idx >= 3 {
                proof {
                    let after = split_dots(s@.take(i as int + 1));
                    assert(after =~= before.push(Seq::<u8>::empty()));
                    if !has_digit {
                        lemma_group_ruins(s@, i as int + 1, octet_idx as int);
                    } else {
                        let rest = s@.skip(i as int + 1);
                        assert(s@.take(i as int + 1) + rest =~= s@);
                        lemma_split_extend(s@.take(i as int + 1), rest);
                    }
                }
                return None;
            }
            octets[octet_idx] = current as u8;
            octet_idx = octet_idx + 1;
            current = 0;
            has_digit = false;
            proof {
                let after = split_dots(s@.take(i as int + 1));
                assert(after =~= before.push(Seq::<u8>::empty()));
            }
        } else {
            proof {
                let after = split_dots(s@.take(i as int + 1));
                assert(after =~= before.update(before.len() - 1, before.last().push(b)));
                assert(after.last()[after.last().len() - 1] == b);
                lemma_group_ruins(s@, i as int + 1, octet_idx as int);
            }
            return None;
        }
        i = i + 1;
    }
    assert(s@.take(i as int) =~= s@);
    if !has_digit || octet_idx != 3 {
        return None;
    }
    octets[3] = current as u8;
    proof {
        let g = split_dots(s@);
        assert(forall|k: int| 0 <= k < 4 ==> is_octet_text(#[trigger] g[k]));
        assert(octets@ =~= Seq::new(4, |k: int| dec_value(g[k]) as u8));
    }
    Some(octets)
}

/// Write one octet's digits, and a dot after it if `dot`, at `pos`.
fn write_octet(buf: &mut [u8], pos: usize, octet: u8, dot: bool) -> (next: usize)
    requires
        pos + octet_piece(octet, dot).len() <= old(buf)@.len(),
    ensures
        next == pos + octet_piece(octet, dot).len(),
        final(buf)@ == old(buf)@.take(pos as int) + octet_piece(octet, dot) + old(buf)@.skip(next as int),
{
    let mut p = pos;
    if octet >= 100 {
        buf[p] = 0x30 + octet / 100;
        p = p + 1;
    }
    if octet >= 10 {
        buf[p] = 0x30 + (octet / 10) % 10;
        p = p + 1;
    }
    buf[p] = 0x30 + octet % 10;
    p = p + 1;
    if dot {
        buf[p] = 0x2e;
        p = p + 1;
    }
    assert(final(buf)@ =~= old(buf)@.take(pos as int) + octet_piece(octet, dot) + old(buf)@.skip(p as int));
    p
}

/// An octet's digits, with a dot after them if `dot`.
pub open spec fn octet_piece(x: u8, dot: bool) -> Seq<u8> {
    if dot {
        octet_digits(x) + seq![0x2eu8]
    } else {
        octet_digits(x)
    }
}

/// Write the dotted-quad text of `addr` at the front of `buf` and return its length.
pub fn format_ipv4(addr: [u8; 4], buf: &mut [u8]) -> (n: usize)
    requires
        old(buf)@.len() >= ipv4_text(addr@).len(),
    ensures
        n == ipv4_text(addr@).len(),
        final(buf)@.len() == old(buf)@.len(),
        final(buf)@.take(n as int) == ipv4_text(addr@),
        final(buf)@.skip(n as int) == old(buf)@.skip(n as int),
{
    proof {
        reveal_with_fuel(text_prefix, 5);
        assert(text_prefix(addr@, 4) =~= ipv4_text(addr@));
    }
    let mut pos: usize = 0;
    let mut i: usize = 0;
    while i < 4
        invariant
            i <= 4,
            buf@.len() == old(buf)@.len(),
            text_prefix(addr@, 4) == ipv4_text(addr@),
            old(buf)@.len() >= ipv4_text(addr@).len(),
            pos == text_prefix(addr@, i as int).len(),
            buf@.take(pos as int) == text_prefix(addr@, i as int),
            buf@.skip(pos as int) == old(buf)@.skip(pos as int),
        decreases 4 - i,
    {
        proof {
            lemma_text_prefix_len(addr@, i as int + 1);
        }
        let ghost prev = buf@;
        let next = write_octet(buf, pos, addr[i], i < 3);
        proof {
            assert(text_prefix(addr@, i as int + 1) == text_prefix(addr@, i as int) + octet_piece(addr@[i as int], i < 3));
            assert(buf@.take(next as int) =~= text_prefix(addr@, i as int + 1));
            assert forall|j: int| 0 <= j < buf@.len() - next implies #[trigger] buf@.skip(
                next as int,
            )[j] == old(buf)@.skip(next as int)[j] by {
                assert(buf@[next + j] == prev[next + j]);
                assert(prev.skip(pos as int)[next - pos + j] == prev[next + j]);
                assert(old(buf)@.skip(pos as int)[next - pos + j] == old(buf)@[next + j]);
            }
            assert(buf@.skip(next as int) =~= old(buf)@.skip(next as int));
        }
        pos = next;
        i = i + 1;
    }
    pos
}

/// The text of the first `i` octets, each but the fourth followed by its dot.
pub open spec fn text_prefix(a: Seq<u8>, i: int) -> Seq<u8>
    decreases i,
{
    if i <= 0 {
        Seq::empty()
    } else if i < 4 {
        text_prefix(a, i - 1) + octet_digits(a[i - 1]) + seq![0x2eu8]
    } else {
        text_prefix(a, i - 1) + octet_digits(a[i - 1])
    }
}

proof fn lemma_text_prefix_len(a: Seq<u8>, i: int)
    requires
        0 <= i <= 4,
        a.len() == 4,
    ensures
        text_prefix(a, i).len() <= ipv4_text(a).len(),
    decreases 4 - i,
{
    if i < 4 {
        lemma_text_prefix_len(a, i + 1);
    } else {
        reveal_with_fuel(text_prefix, 5);
        assert(text_prefix(a, 4) =~= ipv4_text(a));
    }
}

proof fn lemma_split_append_plain(x: Seq<u8>, y: Seq<u8>)
    requires
        forall|j: int| 0 <= j < y.len() ==> #[trigger] y[j] != 0x2e,
    ensures
        split_dots(x + y) == split_dots(x).update(split_dots(x).len() - 1, split_dots(x).last() + y),
    decreases y.len(),
{
    lemma_split_nonempty(x);
    if y.len() == 0 {
        assert(x + y =~= x);
        assert(split_dots(x).last() + y =~= split_dots(x).last());
        assert(split_dots(x).update(split_dots(x).len() - 1, split_dots(x).last()) =~= split_dots(x));
    } else {
        let q = y.drop_last();
        lemma_split_append_plain(x, q);
        assert((x + y).drop_last() =~= x + q);
        assert((x + y).last() == y.last());
        let sx = split_dots(x);
        assert((sx.last() + q).push(y.last()) =~= sx.last() + y);
        assert(split_dots(x + y) =~= sx.update(sx.len() - 1, sx.last() + y));
    }
}

proof fn lemma_octet_digits(x: u8)
    ensures
        is_octet_text(octet_digits(x)),
        dec_value(octet_digits(x)) == x,
        forall|j: int| 0 <= j < octet_digits(x).len() ==> #[trigger] octet_digits(x)[j] != 0x2e,
{
    let d = octet_digits(x);
    let h = x / 100;
    let t = (x / 10) % 10;
    let u = x % 10;
    let ch = (0x30 + h) as u8;
    let ct = (0x30 + t) as u8;
    let cu = (0x30 + u) as u8;
    let e = Seq::<u8>::empty();
    assert(dec_value(e) == 0);
    if x >= 100 {
        assert(d == seq![ch, ct, cu]);
        assert(seq![ch].drop_last() =~= e);
        assert(dec_value(seq![ch]) == h);
        assert(seq![ch, ct].drop_last() =~= seq![ch]);
        assert(dec_value(seq![ch, ct]) == h * 10 + t);
        assert(d.drop_last() =~= seq![ch, ct]);
        assert(dec_value(d) == (h * 10 + t) * 10 + u);
        assert(h * 100 + t * 10 + u == x) by (nonlinear_arith)
            requires
                h == x / 100,
                t == (x / 10) % 10,
                u == x % 10,
                x < 256,
        ;
    } else if x >= 10 {
        assert(d == seq![ct, cu]);
        assert(seq![ct].drop_last() =~= e);
        assert(dec_value(seq![ct]) == t);
        assert(d.drop_last() =~= seq![ct]);
        assert(dec_value(d) == t * 10 + u);
        assert(t * 10 + u == x) by (nonlinear_arith)
            requires
                t == (x / 10) % 10,
                u == x % 10,
                x < 100,
        ;
    } else {
        assert(d == seq![cu]);
        assert(d.drop_last() =~= e);
        assert(dec_value(d) == u);
    }
    assert(all_digits(d));
}

/// Round-trip law: the text `format_ipv4` writes for an address parses back to
/// that address.
pub proof fn lemma_ipv4_text_roundtrip(a: Seq<u8>)
    requires
        a.len() == 4,
    ensures
        ipv4_of(ipv4_text(a)) == Some(a),
{
    let d0 = octet_digits(a[0]);
    let d1 = octet_digits(a[1]);
    let d2 = octet_digits(a[2]);
    let d3 = octet_digits(a[3]);
    lemma_octet_digits(a[0]);
    lemma_octet_digits(a[1]);
    lemma_octet_digits(a[2]);
    lemma_octet_digits(a[3]);
    let dot = seq![0x2eu8];
    let e = Seq::<u8>::empty();
    lemma_split_append_plain(e, d0);
    assert(e + d0 =~= d0);
    assert(split_dots(e) =~= seq![e]);
    assert(seq![e].update(0, e + d0) =~= seq![d0]);
    let t1 = d0 + dot;
    assert(t1.drop_last() =~= d0);
    assert(split_dots(t1) =~= seq![d0, e]);
    lemma_split_append_plain(t1, d1);
    assert(split_dots(t1 + d1) =~= seq![d0, d1]);
    let t2 = t1 + d1 + dot;
    assert(t2.drop_last() =~= t1 + d1);
    assert(split_dots(t2) =~= seq![d0, d1, e]);
    lemma_split_append_plain(t2, d2);
    assert(split_dots(t2 + d2) =~= seq![d0, d1, d2]);
    let t3 = t2 + d2 + dot;
    assert(t3.drop_last() =~= t2 + d2);
    assert(split_dots(t3) =~= seq![d0, d1, d2, e]);
    lemma_split_append_plain(t3, d3);
    assert(t3 + d3 =~= ipv4_text(a));
    let g = split_dots(ipv4_text(a));
    assert(g =~= seq![d0, d1, d2, d3]);
    assert(forall|k: int| 0 <= k < 4 ==> is_octet_text(#[trigger] g[k]));
    assert(Seq::new(4, |k: int| dec_value(g[k]) as u8) =~= a);
}

/// Dotted-quad text takes at most 15 bytes.
pub proof fn lemma_ipv4_text_len(a: Seq<u8>)
    requires
        a.len() == 4,
    ensures
        7 <= ipv4_text(a).len() <= 15,
{
    assert(forall|x: u8| 1 <= #[trigger] octet_digits(x).len() <= 3);
}

} // verus!
