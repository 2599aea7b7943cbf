//! IPv4 text configuration: addresses and CIDR blocks as the deployment
//! supplies them ("192.168.4.1", "192.168.4.1/24"), with a parser and a
//! renderer that are exact inverses on the canonical decimal form (each
//! octet one to three digits, no leading zero).

use vstd::prelude::*;
use vstd::arithmetic::div_mod::lemma_fundamental_div_mod;
use vstd::arithmetic::div_mod::lemma_fundamental_div_mod_converse;

verus! {

/// The byte that separates the four decimal octets.
pub const DOT: u8 = 46;

/// The byte that separates an address from its prefix length.
pub const SLASH: u8 = 47;

/// An IPv4 address as four octets, most significant first.
#[derive(Clone, Copy, Debug, PartialEq, Eq, Structural)]
pub struct Ipv4Addr {
    pub o0: u8,
    pub o1: u8,
    pub o2: u8,
    pub o3: u8,
}

/// An IPv4 address together with its network prefix length.
#[derive(Clone, Copy, Debug, PartialEq, Eq, Structural)]
pub struct Ipv4Cidr {
    pub addr: Ipv4Addr,
    pub prefix_len: u8,
}

impl Ipv4Cidr {
    /// A prefix length never exceeds the 32 bits of the address.
    pub open spec fn wf(self) -> bool {
        self.prefix_len <= 32
    }
}

/// The byte is a decimal digit.
pub open spec fn is_dec_digit(b: u8) -> bool {
    48 <= b <= 57
}

/// Every byte of `s` is a decimal digit.
pub open spec fn all_dec_digits(s: Seq<u8>) -> bool {
    forall|i: int| 0 <= i < s.len() ==> is_dec_digit(#[trigger] s[i])
}

/// The canonical decimal text of `n`: no sign and no leading zero.
pub open spec fn dec_digits(n: int) -> Seq<u8>
    recommends
        n >= 0,
    decreases n,
{
    if n <= 9 {
        seq![(48 + n) as u8]
    } else {
        dec_digits(n / 10).push((48 + n % 10) as u8)
    }
}

/// The number written by a run of decimal digit bytes.
pub open spec fn dec_val(s: Seq<u8>) -> int
    decreases s.len(),
{
    if s.len() == 0 {
        0
    } else {
        dec_val(s.drop_last()) * 10 + (s.last() - 48)
    }
}

/// `s` is decimal text in canonical form, at most three digits long.
pub open spec fn valid_octet_text(s: Seq<u8>) -> bool {
    &&& 1 <= s.len() <= 3
    &&& all_dec_digits(s)
    &&& (s.len() > 1 ==> s[0] != 48)
}

/// The text of an address: four canonical decimal octets joined by dots.
pub open spec fn ipv4_text(a: Ipv4Addr) -> Seq<u8> {
    dec_digits(a.o0 as int) + seq![DOT] + dec_digits(a.o1 as int) + seq![DOT]
        + dec_digits(a.o2 as int) + seq![DOT] + dec_digits(a.o3 as int)
}

/// The text of a CIDR block: the address, a slash, the prefix length.
pub open spec fn cidr_text(c: Ipv4Cidr) -> Seq<u8> {
    ipv4_text(c.addr) + seq![SLASH] + dec_digits(c.prefix_len as int)
}

/// The value of a single digit byte.
proof fn lemma_dec_val_one(x: u8)
    ensures
        dec_val(seq![x]) == x - 48,
{
    assert(seq![x].drop_last() =~= Seq::<u8>::empty());
    assert(dec_val(Seq::<u8>::empty()) == 0);
    assert(seq![x].last() == x);
}

/// Appending a digit multiplies the value by ten and adds the digit.
proof fn lemma_dec_val_push(s: Seq<u8>, x: u8)
    ensures
        dec_val(s.push(x)) == dec_val(s) * 10 + (x - 48),
{
    assert(s.push(x).drop_last() =~= s);
    assert(s.push(x).last() == x);
    assert(s.push(x).len() == s.len() + 1);
}

/// Shape of canonical decimal text: all digits, no leading zero, its value
/// is the number it was built from, and its length follows the magnitude.
pub proof fn lemma_dec_digits_shape(n: int)
    requires
        0 <= n,
    ensures
        1 <= dec_digits(n).len(),
        all_dec_digits(dec_digits(n)),
        dec_val(dec_digits(n)) == n,
        n >= 1 ==> dec_digits(n)[0] != 48,
        n <= 9 ==> dec_digits(n) == seq![(48 + n) as u8],
        n <= 9 ==> dec_digits(n).len() == 1,
        10 <= n <= 99 ==> dec_digits(n).len() == 2,
        100 <= n <= 999 ==> dec_digits(n).len() == 3,
    decreases n,
{
    if n <= 9 {
        lemma_dec_val_one((48 + n) as u8);
    } else {
        lemma_dec_digits_shape(n / 10);
        lemma_fundamental_div_mod(n, 10);
        let head = dec_digits(n / 10);
        let d = (48 + n % 10) as u8;
        let s = head.push(d);
        lemma_dec_val_push(head, d);
        assert(dec_val(s) == n);
        assert(all_dec_digits(s)) by {
            assert(forall|i: int| 0 <= i < head.len() ==> s[i] == head[i]);
            assert(is_dec_digit(d));
        }
        assert(s[0] == head[0]);
    }
}

/// Canonical decimal text up to three digits is recovered exactly from its
/// value: reading the digits and re-rendering gives back the same bytes.
pub proof fn lemma_octet_text_canonical(s: Seq<u8>)
    requires
        valid_octet_text(s),
    ensures
        0 <= dec_val(s) <= 999,
        dec_digits(dec_val(s)) == s,
{
    let d0 = s[0] - 48;
    if s.len() == 1 {
        assert(s =~= seq![s[0]]);
        lemma_dec_val_one(s[0]);
        assert(dec_val(s) == d0);
        assert(dec_digits(d0) =~= s);
    } else if s.len() == 2 {
        let d1 = s[1] - 48;
        assert(s =~= seq![s[0]].push(s[1]));
        lemma_dec_val_one(s[0]);
        lemma_dec_val_push(seq![s[0]], s[1]);
        let v = dec_val(s);
        assert(v == d0 * 10 + d1);
        assert(1 <= d0 <= 9 && 0 <= d1 <= 9);
        lemma_fundamental_div_mod_converse(v, 10, d0, d1);
        assert(dec_digits(v) == dec_digits(d0).push((48 + d1) as u8));
        assert(dec_digits(v) =~= s);
    } else {
        let d1 = s[1] - 48;
        let d2 = s[2] - 48;
        let two = seq![s[0]].push(s[1]);
        assert(s =~= two.push(s[2]));
        lemma_dec_val_one(s[0]);
        lemma_dec_val_push(seq![s[0]], s[1]);
        lemma_dec_val_push(two, s[2]);
        let v = dec_val(s);
        assert(dec_val(two) == d0 * 10 + d1);
        assert(v == (d0 * 10 + d1) * 10 + d2);
        assert(1 <= d0 <= 9 && 0 <= d1 <= 9 && 0 <= d2 <= 9);
        lemma_fundamental_div_mod_converse(v, 10, d0 * 10 + d1, d2);
        assert(dec_digits(v) == dec_digits(d0 * 10 + d1).push((48 + d2) as u8));
        lemma_fundamental_div_mod_converse(d0 * 10 + d1, 10, d0, d1);
        assert(dec_digits(d0 * 10 + d1) == dec_digits(d0).push((48 + d1) as u8));
        assert(dec_digits(v) =~= s);
    }
}

/// A greedy digit scan is pinned by any digit segment of `s` that starts
/// at the same place and is closed off by a non-digit or the end: the scan
/// must stop exactly at the segment's end.
proof fn lemma_segment_pins_scan(s: Seq<u8>, start: int, seg: Seq<u8>, end: int)
    requires
        0 <= start,
        start + seg.len() <= s.len(),
        s.subrange(start, start + seg.len()) == seg,
        all_dec_digits(seg),
        start + seg.len() < s.len() ==> !is_dec_digit(s[start + seg.len()]),
        start <= end <= s.len(),
        forall|k: int| start <= k < end ==> is_dec_digit(#[trigger] s[k]),
        end < s.len() ==> !is_dec_digit(s[end]),
    ensures
        end == start + seg.len(),
        s.subrange(start, end) == seg,
{
    let stop = start + seg.len();
    assert forall|k: int| start <= k < stop implies is_dec_digit(#[trigger] s[k]) by {
        assert(s.subrange(start, stop)[k - start] == s[k]);
        assert(is_dec_digit(seg[k - start]));
    }
    if end < stop {
        assert(is_dec_digit(s[end]));
        assert(false);
    }
    if end > stop {
        assert(is_dec_digit(s[stop]));
        assert(false);
    }
}

/// How the text of an address decomposes: three dots at fixed positions,
/// and between them the canonical digit runs of the four octets.
pub proof fn lemma_ipv4_text_decomposition(s: Seq<u8>, a: Ipv4Addr)
    requires
        s == ipv4_text(a),
    ensures
        ({
            let t0 = dec_digits(a.o0 as int);
            let t1 = dec_digits(a.o1 as int);
            let t2 = dec_digits(a.o2 as int);
            let t3 = dec_digits(a.o3 as int);
            let p1 = t0.len() as int;
            let p2 = p1 + 1 + t1.len();
            let p3 = p2 + 1 + t2.len();
            &&& s.len() == p3 + 1 + t3.len()
            &&& s.subrange(0, p1) == t0
            &&& s[p1] == DOT
            &&& s.subrange(p1 + 1, p2) == t1
            &&& s[p2] == DOT
            &&& s.subrange(p2 + 1, p3) == t2
            &&& s[p3] == DOT
            &&& s.subrange(p3 + 1, s.len() as int) == t3
            &&& valid_octet_text(t0) && dec_val(t0) == a.o0
            &&& valid_octet_text(t1) && dec_val(t1) == a.o1
            &&& valid_octet_text(t2) && dec_val(t2) == a.o2
            &&& valid_octet_text(t3) && dec_val(t3) == a.o3
        }),
{
    lemma_dec_digits_shape(a.o0 as int);
    lemma_dec_digits_shape(a.o1 as int);
    lemma_dec_digits_shape(a.o2 as int);
    lemma_dec_digits_shape(a.o3 as int);
    let t0 = dec_digits(a.o0 as int);
    let t1 = dec_digits(a.o1 as int);
    let t2 = dec_digits(a.o2 as int);
    let t3 = dec_digits(a.o3 as int);
    let p1 = t0.len() as int;
    let p2 = p1 + 1 + t1.len();
    let p3 = p2 + 1 + t2.len();
    assert(s.subrange(0, p1) =~= t0);
    assert(s.subrange(p1 + 1, p2) =~= t1);
    assert(s.subrange(p2 + 1, p3) =~= t2);
    assert(s.subrange(p3 + 1, s.len() as int) =~= t3);
}

/// Two digit segments that start at the same place, lie in `s`, and are
/// each closed off by a non-digit or the end of `s`, are the same segment.
proof fn lemma_digit_segment_unique(s: Seq<u8>, start: int, sega: Seq<u8>, segb: Seq<u8>)
    requires
        0 <= start,
        start + sega.len() <= s.len(),
        s.subrange(start, start + sega.len()) == sega,
        all_dec_digits(sega),
        start + sega.len() < s.len() ==> !is_dec_digit(s[start + sega.len()]),
        start + segb.len() <= s.len(),
        s.subrange(start, start + segb.len()) == segb,
        all_dec_digits(segb),
        start + segb.len() < s.len() ==> !is_dec_digit(s[start + segb.len()]),
    ensures
        sega == segb,
{
    let stopa = start + sega.len();
    let stopb = start + segb.len();
    assert forall|k: int| start <= k < stopa implies is_dec_digit(#[trigger] s[k]) by {
        assert(s.subrange(start, stopa)[k - start] == s[k]);
        assert(is_dec_digit(sega[k - start]));
    }
    assert forall|k: int| start <= k < stopb implies is_dec_digit(#[trigger] s[k]) by {
        assert(s.subrange(start, stopb)[k - start] == s[k]);
        assert(is_dec_digit(segb[k - start]));
    }
    if stopa < stopb {
        assert(is_dec_digit(s[stopa]));
        assert(false);
    }
    if stopb < stopa {
        assert(is_dec_digit(s[stopb]));
        assert(false);
    }
    assert(sega =~= segb);
}

/// Two addresses with the same text are the same address: the dotted
/// decimal form is unambiguous.
pub proof fn lemma_ipv4_text_injective(a: Ipv4Addr, b: Ipv4Addr)
    requires
        ipv4_text(a) == ipv4_text(b),
    ensures
        a == b,
{
    let s = ipv4_text(a);
    lemma_ipv4_text_decomposition(s, a);
    lemma_ipv4_text_decomposition(s, b);
    let ta0 = dec_digits(a.o0 as int);
    let ta1 = dec_digits(a.o1 as int);
    let ta2 = dec_digits(a.o2 as int);
    let ta3 = dec_digits(a.o3 as int);
    let tb0 = dec_digits(b.o0 as int);
    let tb1 = dec_digits(b.o1 as int);
    let tb2 = dec_digits(b.o2 as int);
    let tb3 = dec_digits(b.o3 as int);
    let qa1 = ta0.len() as int;
    let qa2 = qa1 + 1 + ta1.len();
    let qa3 = qa2 + 1 + ta2.len();
    let qb1 = tb0.len() as int;
    let qb2 = qb1 + 1 + tb1.len();
    let qb3 = qb2 + 1 + tb2.len();
    assert(!is_dec_digit(DOT));
    lemma_digit_segment_unique(s, 0, ta0, tb0);
    assert(a.o0 == b.o0);
    assert(qa1 == qb1);
    lemma_digit_segment_unique(s, qa1 + 1, ta1, tb1);
    assert(a.o1 == b.o1);
    assert(qa2 == qb2);
    lemma_digit_segment_unique(s, qa2 + 1, ta2, tb2);
    assert(a.o2 == b.o2);
    assert(qa3 == qb3);
    assert(ta3.len() == tb3.len());
    assert(ta3 == tb3);
    assert(a.o3 == b.o3);
}

/// The text of an address never holds a slash: only digits and dots.
pub proof fn lemma_ipv4_text_no_slash(a: Ipv4Addr)
    ensures
        forall|k: int|
            0 <= k < ipv4_text(a).len() ==> #[trigger] ipv4_text(a)[k] != SLASH,
{
    let s = ipv4_text(a);
    lemma_ipv4_text_decomposition(s, a);
    let t0 = dec_digits(a.o0 as int);
    let t1 = dec_digits(a.o1 as int);
    let t2 = dec_digits(a.o2 as int);
    let t3 = dec_digits(a.o3 as int);
    let p1 = t0.len() as int;
    let p2 = p1 + 1 + t1.len();
    let p3 = p2 + 1 + t2.len();
    assert forall|k: int| 0 <= k < s.len() implies #[trigger] s[k] != SLASH by {
        if k < p1 {
            assert(s.subrange(0, p1)[k] == s[k]);
            assert(is_dec_digit(t0[k]));
        } else if k == p1 {
        } else if k < p2 {
            assert(s.subrange(p1 + 1, p2)[k - (p1 + 1)] == s[k]);
            assert(is_dec_digit(t1[k - (p1 + 1)]));
        } else if k == p2 {
        } else if k < p3 {
            assert(s.subrange(p2 + 1, p3)[k - (p2 + 1)] == s[k]);
            assert(is_dec_digit(t2[k - (p2 + 1)]));
        } else if k == p3 {
        } else {
            assert(s.subrange(p3 + 1, s.len() as int)[k - (p3 + 1)] == s[k]);
            assert(is_dec_digit(t3[k - (p3 + 1)]));
        }
    }
}

/// Two CIDR blocks with the same text are the same block.
pub proof fn lemma_cidr_text_injective(c: Ipv4Cidr, d: Ipv4Cidr)
    requires
        cidr_text(c) == cidr_text(d),
    ensures
        c == d,
{
    let s = cidr_text(c);
    let ac = ipv4_text(c.addr);
    let ad = ipv4_text(d.addr);
    lemma_ipv4_text_no_slash(c.addr);
    lemma_ipv4_text_no_slash(d.addr);
    lemma_dec_digits_shape(c.prefix_len as int);
    lemma_dec_digits_shape(d.prefix_len as int);
    // the first slash sits right after the address text, for both readings
    assert(s[ac.len() as int] == SLASH);
    assert(s[ad.len() as int] == SLASH);
    if ac.len() < ad.len() {
        assert(ad[ac.len() as int] == s[ac.len() as int]);
        assert(false);
    }
    if ad.len() < ac.len() {
        assert(ac[ad.len() as int] == s[ad.len() as int]);
        assert(false);
    }
    assert forall|k: int| 0 <= k < ac.len() implies ac[k] == ad[k] by {
        assert(s[k] == ac[k]);
        assert(cidr_text(d)[k] == ad[k]);
    }
    assert(ac =~= ad);
    lemma_ipv4_text_injective(c.addr, d.addr);
    let pc = dec_digits(c.prefix_len as int);
    let pd = dec_digits(d.prefix_len as int);
    assert(s.len() == ac.len() + 1 + pc.len());
    assert(cidr_text(d).len() == ad.len() + 1 + pd.len());
    assert(pc.len() == pd.len());
    assert forall|k: int| 0 <= k < pc.len() implies pc[k] == pd[k] by {
        assert(s[ac.len() + 1 + k] == pc[k]);
        assert(cidr_text(d)[ad.len() + 1 + k] == pd[k]);
    }
    assert(pc =~= pd);
    assert(c.prefix_len == d.prefix_len);
}

/// Append the canonical decimal text of `n` to `out`.
fn push_decimal(out: &mut Vec<u8>, n: u8)
    ensures
        final(out)@ == old(out)@ + dec_digits(n as int),
{
    let ghost n_int = n as int;
    if n >= 100 {
        let q = n / 10;
        out.push(48 + n / 100);
        out.push(48 + q % 10);
        out.push(48 + n % 10);
        proof {
            lemma_fundamental_div_mod(n_int, 10);
            lemma_fundamental_div_mod(n_int / 10, 10);
            lemma_fundamental_div_mod_converse(
                n_int,
                100,
                (n_int / 10) / 10,
                10 * ((n_int / 10) % 10) + n_int % 10,
            );
            assert(dec_digits(n_int / 10) == dec_digits((n_int / 10) / 10).push(
                (48 + (n_int / 10) % 10) as u8,
            ));
            assert(dec_digits((n_int / 10) / 10) == seq![(48 + n_int / 100) as u8]);
            assert(out@ =~= old(out)@ + dec_digits(n_int));
        }
    } else if n >= 10 {
        out.push(48 + n / 10);
        out.push(48 + n % 10);
        proof {
            lemma_fundamental_div_mod(n_int, 10);
            assert(dec_digits(n_int / 10) == seq![(48 + n_int / 10) as u8]);
            assert(out@ =~= old(out)@ + dec_digits(n_int));
        }
    } else {
        out.push(48 + n);
        proof {
            assert(out@ =~= old(out)@ + dec_digits(n_int));
        }
    }
}

/// If `s` is the text of an address, the greedy digit scans the parser
/// makes are pinned one after the other: each stops exactly on the next
/// dot, and the last on the end of the text. `stage` says how many scans
/// past the first have been made; the unused end positions are ignored.
proof fn lemma_ipv4_text_pins(
    s: Seq<u8>,
    a: Ipv4Addr,
    stage: int,
    e0: int,
    e1: int,
    e2: int,
    e3: int,
)
    requires
        s == ipv4_text(a),
        0 <= e0 <= s.len(),
        forall|k: int| 0 <= k < e0 ==> is_dec_digit(#[trigger] s[k]),
        e0 < s.len() ==> !is_dec_digit(s[e0]),
        stage >= 1 ==> e0 + 1 <= e1 <= s.len(),
        stage >= 1 ==> forall|k: int| e0 + 1 <= k < e1 ==> is_dec_digit(#[trigger] s[k]),
        stage >= 1 ==> (e1 < s.len() ==> !is_dec_digit(s[e1])),
        stage >= 2 ==> e1 + 1 <= e2 <= s.len(),
        stage >= 2 ==> forall|k: int| e1 + 1 <= k < e2 ==> is_dec_digit(#[trigger] s[k]),
        stage >= 2 ==> (e2 < s.len() ==> !is_dec_digit(s[e2])),
        stage >= 3 ==> e2 + 1 <= e3 <= s.len(),
        stage >= 3 ==> forall|k: int| e2 + 1 <= k < e3 ==> is_dec_digit(#[trigger] s[k]),
        stage >= 3 ==> (e3 < s.len() ==> !is_dec_digit(s[e3])),
    ensures
        ({
            let t0 = dec_digits(a.o0 as int);
            let t1 = dec_digits(a.o1 as int);
            let t2 = dec_digits(a.o2 as int);
            let t3 = dec_digits(a.o3 as int);
            &&& e0 == t0.len()
            &&& e0 < s.len() && s[e0] == DOT
            &&& s.subrange(0, e0) == t0
            &&& valid_octet_text(t0) && dec_val(t0) == a.o0
            &&& stage >= 1 ==> {
                &&& e1 == e0 + 1 + t1.len()
                &&& e1 < s.len() && s[e1] == DOT
                &&& s.subrange(e0 + 1, e1) == t1
                &&& valid_octet_text(t1) && dec_val(t1) == a.o1
            }
            &&& stage >= 2 ==> {
                &&& e2 == e1 + 1 + t2.len()
                &&& e2 < s.len() && s[e2] == DOT
                &&& s.subrange(e1 + 1, e2) == t2
                &&& valid_octet_text(t2) && dec_val(t2) == a.o2
            }
            &&& stage >= 3 ==> {
                &&& e3 == s.len()
                &&& s.subrange(e2 + 1, e3) == t3
                &&& valid_octet_text(t3) && dec_val(t3) == a.o3
            }
        }),
{
    lemma_ipv4_text_decomposition(s, a);
    let t0 = dec_digits(a.o0 as int);
    let t1 = dec_digits(a.o1 as int);
    let t2 = dec_digits(a.o2 as int);
    let t3 = dec_digits(a.o3 as int);
    let p1 = t0.len() as int;
    let p2 = p1 + 1 + t1.len();
    let p3 = p2 + 1 + t2.len();
    assert(!is_dec_digit(DOT));
    lemma_segment_pins_scan(s, 0, t0, e0);
    if stage >= 1 {
        lemma_segment_pins_scan(s, p1 + 1, t1, e1);
    }
    if stage >= 2 {
        lemma_segment_pins_scan(s, p2 + 1, t2, e2);
    }
    if stage >= 3 {
        lemma_segment_pins_scan(s, p3 + 1, t3, e3);
    }
}

/// Index of the first byte at or after `start` that is not a decimal
/// digit, or the input's length if digits run to its end.
fn scan_digits(s: &[u8], start: usize) -> (end: usize)
    requires
        start <= s@.len(),
    ensures
        start <= end <= s@.len(),
        forall|k: int| start <= k < end ==> is_dec_digit(#[trigger] s@[k]),
        end < s@.len() ==> !is_dec_digit(s@[end as int]),
{
    let n = s.len();
    let mut i = start;
    while i < n
        invariant
            start <= i <= n,
            n == s@.len(),
            forall|k: int| start <= k < i ==> is_dec_digit(#[trigger] s@[k]),
        decreases n - i,
    {
        let b = s[i];
        if b < 48 || b > 57 {
            return i;
        }
        i = i + 1;
    }
    i
}

/// Index of the first occurrence of `target`, if any.
fn find_first(s: &[u8], target: u8) -> (r: Option<usize>)
    ensures
        match r {
            Some(i) => i < s@.len() && s@[i as int] == target && forall|k: int|
                0 <= k < i ==> s@[k] != target,
            None => forall|k: int| 0 <= k < s@.len() ==> s@[k] != target,
        },
{
    let n = s.len();
    let mut i: usize = 0;
    while i < n
        invariant
            i <= n,
            n == s@.len(),
            forall|k: int| 0 <= k < i ==> s@[k] != target,
        decreases n - i,
    {
        if s[i] == target {
            return Some(i);
        }
        i = i + 1;
    }
    None
}

/// Read the value of the digit run `s[start..end]`, accepting only
/// canonical decimal text of a number that fits one octet.
fn read_octet(s: &[u8], start: usize, end: usize) -> (r: Option<u8>)
    requires
        start <= end <= s@.len(),
        forall|k: int| start <= k < end ==> is_dec_digit(#[trigger] s@[k]),
    ensures
        ({
            let seg = s@.subrange(start as int, end as int);
            match r {
                Some(v) => valid_octet_text(seg) && dec_val(seg) == v,
                None => !(valid_octet_text(seg) && dec_val(seg) <= 255),
            }
        }),
{
    let ghost seg = s@.subrange(start as int, end as int);
    let len = end - start;
    if len == 0 || len > 3 {
        return None;
    }
    let d0 = s[start];
    if len > 1 && d0 == 48 {
        return None;
    }
    if len == 1 {
        proof {
            assert(seg =~= seq![d0]);
            lemma_dec_val_one(d0);
        }
        Some(d0 - 48)
    } else if len == 2 {
        let d1 = s[start + 1];
        proof {
            assert(seg =~= seq![d0].push(d1));
            lemma_dec_val_one(d0);
            lemma_dec_val_push(seq![d0], d1);
        }
        Some((d0 - 48) * 10 + (d1 - 48))
    } else {
        let d1 = s[start + 1];
        let d2 = s[start + 2];
        proof {
            assert(seg =~= seq![d0].push(d1).push(d2));
            lemma_dec_val_one(d0);
            lemma_dec_val_push(seq![d0], d1);
            lemma_dec_val_push(seq![d0].push(d1), d2);
        }
        let v: u32 = (d0 as u32 - 48) * 100 + (d1 as u32 - 48) * 10 + (d2 as u32 - 48);
        if v > 255 {
            return None;
        }
        Some(v as u8)
    }
}

/// Parse dotted-decimal address text. Returns the address exactly when
/// the input is the canonical text of one, and nothing otherwise.
#[verifier::rlimit(100)]
#[verifier::spinoff_prover]
pub fn parse_ipv4(s: &[u8]) -> (r: Option<Ipv4Addr>)
    ensures
        match r {
            Some(a) => s@ == ipv4_text(a),
            None => forall|a: Ipv4Addr| s@ != ipv4_text(a),
        },
{
    let n = s.len();
    let e0 = scan_digits(s, 0);
    let o0 = match read_octet(s, 0, e0) {
        Some(v) => v,
        None => {
            proof {
            assert forall|a: Ipv4Addr| s@ != ipv4_text(a) by {
                if s@ == ipv4_text(a) {
                    lemma_ipv4_text_pins(s@, a, 0, e0 as int, 0, 0, 0);
                    assert(false);
                }
            }
        }
            return None;
        },
    };
    if e0 >= n || s[e0] != DOT {
        proof {
            assert forall|a: Ipv4Addr| s@ != ipv4_text(a) by {
                if s@ == ipv4_text(a) {
                    lemma_ipv4_text_pins(s@, a, 0, e0 as int, 0, 0, 0);
                    assert(false);
                }
            }
        }
        return None;
    }
    let c1 = e0 + 1;
    let e1 = scan_digits(s, c1);
    let o1 = match read_octet(s, c1, e1) {
        Some(v) => v,
        None => {
            proof {
            assert forall|a: Ipv4Addr| s@ != ipv4_text(a) by {
                if s@ == ipv4_text(a) {
                    lemma_ipv4_text_pins(s@, a, 1, e0 as int, e1 as int, 0, 0);
                    assert(false);
                }
            }
        }
            return None;
        },
    };
    if e1 >= n || s[e1] != DOT {
        proof {
            assert forall|a: Ipv4Addr| s@ != ipv4_text(a) by {
                if s@ == ipv4_text(a) {
                    lemma_ipv4_text_pins(s@, a, 1, e0 as int, e1 as int, 0, 0);
                    assert(false);
                }
            }
        }
        return None;
    }
    let c2 = e1 + 1;
    let e2 = scan_digits(s, c2);
    let o2 = match read_octet(s, c2, e2) {
        Some(v) => v,
        None => {
            proof {
            assert forall|a: Ipv4Addr| s@ != ipv4_text(a) by {
                if s@ == ipv4_text(a) {
                    lemma_ipv4_text_pins(s@, a, 2, e0 as int, e1 as int, e2 as int, 0);
                    assert(false);
                }
            }
        }
            return None;
        },
    };
    if e2 >= n || s[e2] != DOT {
        proof {
            assert forall|a: Ipv4Addr| s@ != ipv4_text(a) by {
                if s@ == ipv4_text(a) {
                    lemma_ipv4_text_pins(s@, a, 2, e0 as int, e1 as int, e2 as int, 0);
                    assert(false);
                }
            }
        }
        return None;
    }
    let c3 = e2 + 1;
    let e3 = scan_digits(s, c3);
    let o3 = match read_octet(s, c3, e3) {
        Some(v) => v,
        None => {
            proof {
            assert forall|a: Ipv4Addr| s@ != ipv4_text(a) by {
                if s@ == ipv4_text(a) {
                    lemma_ipv4_text_pins(s@, a, 3, e0 as int, e1 as int, e2 as int, e3 as int);
                    assert(false);
                }
            }
        }
            return None;
        },
    };
    if e3 != n {
        proof {
            assert forall|a: Ipv4Addr| s@ != ipv4_text(a) by {
                if s@ == ipv4_text(a) {
                    lemma_ipv4_text_pins(s@, a, 3, e0 as int, e1 as int, e2 as int, e3 as int);
                    assert(false);
                }
            }
        }
        return None;
    }
    let a = Ipv4Addr { o0, o1, o2, o3 };
    proof {
        let seg0 = s@.subrange(0, e0 as int);
        let seg1 = s@.subrange(c1 as int, e1 as int);
        let seg2 = s@.subrange(c2 as int, e2 as int);
        let seg3 = s@.subrange(c3 as int, e3 as int);
        lemma_octet_text_canonical(seg0);
        lemma_octet_text_canonical(seg1);
        lemma_octet_text_canonical(seg2);
        lemma_octet_text_canonical(seg3);
        assert(s@ =~= seg0 + seq![DOT] + seg1 + seq![DOT] + seg2 + seq![DOT] + seg3);
        assert(s@ == ipv4_text(a));
    }
    Some(a)
}

/// If `s` is the text of a CIDR block, the first slash sits right after
/// the address text, with the canonical prefix digits filling the rest.
proof fn lemma_cidr_slash_pin(s: Seq<u8>, c: Ipv4Cidr, m: int)
    requires
        s == cidr_text(c),
        0 <= m < s.len(),
        s[m] == SLASH,
        forall|k: int| 0 <= k < m ==> #[trigger] s[k] != SLASH,
    ensures
        m == ipv4_text(c.addr).len(),
        s.subrange(0, m) == ipv4_text(c.addr),
        s.len() == m + 1 + dec_digits(c.prefix_len as int).len(),
        s.subrange(m + 1, s.len() as int) == dec_digits(c.prefix_len as int),
        valid_octet_text(dec_digits(c.prefix_len as int)),
        dec_val(dec_digits(c.prefix_len as int)) == c.prefix_len,
{
    lemma_ipv4_text_no_slash(c.addr);
    lemma_dec_digits_shape(c.prefix_len as int);
    let a = ipv4_text(c.addr);
    let p = dec_digits(c.prefix_len as int);
    let alen = a.len() as int;
    assert(s[alen] == SLASH);
    if m < alen {
        assert(a[m] == s[m]);
        assert(false);
    }
    if m > alen {
        assert(s[alen] != SLASH);
        assert(false);
    }
    assert(s.subrange(0, m) =~= a);
    assert(s.subrange(m + 1, s.len() as int) =~= p);
}

/// Parse CIDR text such as "192.168.4.1/24". Returns the block exactly
/// when the input is the canonical text of a block whose prefix length
/// fits in 32 bits.
#[verifier::rlimit(100)]
#[verifier::spinoff_prover]
pub fn parse_cidr(s: &[u8]) -> (r: Option<Ipv4Cidr>)
    ensures
        match r {
            Some(c) => s@ == cidr_text(c) && c.wf(),
            None => forall|c: Ipv4Cidr| c.wf() ==> s@ != cidr_text(c),
        },
{
    let n = s.len();
    let m = match find_first(s, SLASH) {
        Some(i) => i,
        None => {
            proof {
                assert forall|c: Ipv4Cidr| c.wf() implies s@ != cidr_text(c) by {
                    if s@ == cidr_text(c) {
                        let alen = ipv4_text(c.addr).len() as int;
                        assert(s@[alen] == SLASH);
                        assert(false);
                    }
                }
            }
            return None;
        },
    };
    let head = vstd::slice::slice_subrange(s, 0, m);
    let addr = match parse_ipv4(head) {
        Some(a) => a,
        None => {
            proof {
                assert forall|c: Ipv4Cidr| c.wf() implies s@ != cidr_text(c) by {
                    if s@ == cidr_text(c) {
                        lemma_cidr_slash_pin(s@, c, m as int);
                        assert(head@ == ipv4_text(c.addr));
                        assert(false);
                    }
                }
            }
            return None;
        },
    };
    let c1 = m + 1;
    let e = scan_digits(s, c1);
    if e != n {
        proof {
            assert forall|c: Ipv4Cidr| c.wf() implies s@ != cidr_text(c) by {
                if s@ == cidr_text(c) {
                    lemma_cidr_slash_pin(s@, c, m as int);
                    lemma_segment_pins_scan(
                        s@,
                        c1 as int,
                        dec_digits(c.prefix_len as int),
                        e as int,
                    );
                    assert(false);
                }
            }
        }
        return None;
    }
    let prefix_len = match read_octet(s, c1, e) {
        Some(v) => v,
        None => {
            proof {
                assert forall|c: Ipv4Cidr| c.wf() implies s@ != cidr_text(c) by {
                    if s@ == cidr_text(c) {
                        lemma_cidr_slash_pin(s@, c, m as int);
                        lemma_segment_pins_scan(
                            s@,
                            c1 as int,
                            dec_digits(c.prefix_len as int),
                            e as int,
                        );
                        assert(false);
                    }
                }
            }
            return None;
        },
    };
    if prefix_len > 32 {
        proof {
            assert forall|c: Ipv4Cidr| c.wf() implies s@ != cidr_text(c) by {
                if s@ == cidr_text(c) {
                    lemma_cidr_slash_pin(s@, c, m as int);
                    lemma_segment_pins_scan(
                        s@,
                        c1 as int,
                        dec_digits(c.prefix_len as int),
                        e as int,
                    );
                    assert(false);
                }
            }
        }
        return None;
    }
    let cidr = Ipv4Cidr { addr, prefix_len };
    proof {
        let seg = s@.subrange(c1 as int, e as int);
        lemma_octet_text_canonical(seg);
        assert(s@ =~= head@ + seq![SLASH] + seg);
        assert(s@ == cidr_text(cidr));
    }
    Some(cidr)
}

/// Render an address in its canonical dotted-decimal text.
pub fn render_ipv4(a: &Ipv4Addr) -> (out: Vec<u8>)
    ensures
        out@ == ipv4_text(*a),
{
    let mut out: Vec<u8> = Vec::new();
    push_decimal(&mut out, a.o0);
    out.push(DOT);
    push_decimal(&mut out, a.o1);
    out.push(DOT);
    push_decimal(&mut out, a.o2);
    out.push(DOT);
    push_decimal(&mut out, a.o3);
    proof {
        assert(out@ =~= ipv4_text(*a));
    }
    out
}

/// Render a CIDR block in its canonical text.
pub fn render_cidr(c: &Ipv4Cidr) -> (out: Vec<u8>)
    ensures
        out@ == cidr_text(*c),
{
    let mut out = render_ipv4(&c.addr);
    out.push(SLASH);
    push_decimal(&mut out, c.prefix_len);
    proof {
        assert(out@ =~= cidr_text(*c));
    }
    out
}

} // verus!
