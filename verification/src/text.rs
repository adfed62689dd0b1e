//! Byte-string helpers for the link rewriter and the page-number renderer:
//! decimal rendering, prefix tests, and suffix extraction after a marker
//! byte.  Addresses are handled as byte strings throughout.

use vstd::prelude::*;

verus! {

broadcast use vstd::std_specs::vec::group_vec_axioms, vstd::seq::group_seq_axioms;

/// The decimal digits of a number, most significant first.
pub open spec fn dec_rep(n: nat) -> Seq<u8>
    decreases n,
{
    if n < 10 {
        seq![(48 + n) as u8]
    } else {
        dec_rep(n / 10).push((48 + n % 10) as u8)
    }
}

/// The decimal digits of a number, as [`dec_rep`] gives them.
pub fn dec_bytes(n: u64) -> (r: Vec<u8>)
    ensures
        r@ == dec_rep(n as nat),
    decreases n,
{
    if n < 10 {
        let mut v: Vec<u8> = Vec::new();
        v.push(48 + n as u8);
        assert(v@ =~= dec_rep(n as nat));
        v
    } else {
        let mut v = dec_bytes(n / 10);
        v.push(48 + (n % 10) as u8);
        assert(v@ =~= dec_rep(n as nat));
        v
    }
}

/// Whether one byte string starts with another.
pub open spec fn starts_with(s: Seq<u8>, p: Seq<u8>) -> bool {
    s.len() >= p.len() && s.take(p.len() as int) == p
}

/// Whether one byte string starts with another, as [`starts_with`] gives it.
pub fn starts_with_exec(s: &[u8], p: &[u8]) -> (r: bool)
    ensures
        r == starts_with(s@, p@),
{
    if s.len() < p.len() {
        assert(!starts_with(s@, p@));
        return false;
    }
    let mut i: usize = 0;
    while i < p.len()
        invariant
            i <= p.len() <= s.len(),
            forall|j: int| 0 <= j < i ==> s@[j] == p@[j],
        decreases p.len() - i,
    {
        if s[i] != p[i] {
            assert(s@.take(p@.len() as int)[i as int] != p@[i as int]);
            return false;
        }
        i += 1;
    }
    assert(s@.take(p@.len() as int) =~= p@);
    true
}

/// The position just past the last occurrence of a marker byte, or 0 when
/// the byte does not occur.  The suffix from this position is what follows
/// the last marker.
pub open spec fn after_last(s: Seq<u8>, b: u8) -> int
    decreases s.len(),
{
    if s.len() == 0 {
        0
    } else if s.last() == b {
        s.len() as int
    } else {
        after_last(s.drop_last(), b)
    }
}

/// The position just past the last occurrence of a marker byte, as
/// [`after_last`] gives it.
#[verifier::loop_isolation(false)]
pub fn after_last_exec(s: &[u8], b: u8) -> (r: usize)
    ensures
        r == after_last(s@, b),
        r <= s@.len(),
{
    let mut i: usize = s.len();
    proof {
        assert(s@.take(s@.len() as int) =~= s@);
    }
    while i > 0
        invariant
            i <= s.len(),
            after_last(s@, b) == after_last(s@.take(i as int), b),
        decreases i,
    {
        if s[i - 1] == b {
            proof {
                assert(s@.take(i as int).last() == s@[i - 1]);
            }
            return i;
        }
        proof {
            assert(s@.take(i as int).last() == s@[i - 1]);
            assert(s@.take(i as int).drop_last() =~= s@.take(i as int - 1));
        }
        i -= 1;
    }
    assert(s@.take(0).len() == 0);
    0
}

/// A fresh copy of a byte string's tail from a position on.
pub fn bytes_from(s: &[u8], start: usize) -> (r: Vec<u8>)
    requires
        start <= s@.len(),
    ensures
        r@ == s@.skip(start as int),
{
    let mut r: Vec<u8> = Vec::new();
    let mut i: usize = start;
    while i < s.len()
        invariant
            start <= i <= s.len(),
            r@ =~= s@.subrange(start as int, i as int),
        decreases s.len() - i,
    {
        r.push(s[i]);
        i += 1;
    }
    assert(r@ =~= s@.skip(start as int));
    r
}

/// Two byte strings joined into a fresh one.
pub fn bytes_concat(a: &[u8], b: &[u8]) -> (r: Vec<u8>)
    ensures
        r@ == a@ + b@,
{
    let mut r = crate::text::bytes_from(a, 0);
    assert(r@ =~= a@);
    let mut i: usize = 0;
    while i < b.len()
        invariant
            i <= b.len(),
            r@ =~= a@ + b@.take(i as int),
        decreases b.len() - i,
    {
        r.push(b[i]);
        i += 1;
    }
    assert(r@ =~= a@ + b@);
    r
}

/// The decimal digits of a number, as [`dec_rep`] gives them, for wide
/// counters.
pub fn dec_bytes_wide(n: u128) -> (r: Vec<u8>)
    ensures
        r@ == dec_rep(n as nat),
    decreases n,
{
    if n < 10 {
        let mut v: Vec<u8> = Vec::new();
        v.push(48 + n as u8);
        assert(v@ =~= dec_rep(n as nat));
        v
    } else {
        let mut v = dec_bytes_wide(n / 10);
        v.push(48 + (n % 10) as u8);
        assert(v@ =~= dec_rep(n as nat));
        v
    }
}

/// The decimal digits of a signed number, with a leading minus sign when it
/// is negative.
pub open spec fn int_rep(i: int) -> Seq<u8> {
    if i < 0 {
        seq![45u8] + dec_rep((-i) as nat)
    } else {
        dec_rep(i as nat)
    }
}

/// The decimal digits of a signed number, as [`int_rep`] gives them.
pub fn int_bytes(i: i64) -> (r: Vec<u8>)
    requires
        i > i64::MIN,
    ensures
        r@ == int_rep(i as int),
{
    if i < 0 {
        let mut v: Vec<u8> = Vec::new();
        v.push(45);
        let d = dec_bytes((-i) as u64);
        let r = bytes_concat(v.as_slice(), d.as_slice());
        assert(r@ =~= int_rep(i as int));
        r
    } else {
        dec_bytes(i as u64)
    }
}

/// A coordinate in tenths of a device unit, rendered with one decimal
/// place.
pub open spec fn coord_mag(t: nat) -> Seq<u8> {
    dec_rep(t / 10) + seq![46u8, (48 + t % 10) as u8]
}

/// An offset in thousandths of an inch rendered in device units at 300
/// units per inch: three times the value, in tenths, with one decimal
/// place and a sign when negative.
pub open spec fn coord_rep(m: int) -> Seq<u8> {
    if 3 * m < 0 {
        seq![45u8] + coord_mag((-(3 * m)) as nat)
    } else {
        coord_mag((3 * m) as nat)
    }
}

/// An offset rendered in device units, as [`coord_rep`] gives it.
pub fn coord_bytes(m: i64) -> (r: Vec<u8>)
    ensures
        r@ == coord_rep(m as int),
{
    let t: i128 = (m as i128) * 3;
    if t < 0 {
        let mag: u128 = (-t) as u128;
        let mut v: Vec<u8> = Vec::new();
        v.push(45);
        let d = dec_bytes_wide(mag / 10);
        let a = bytes_concat(v.as_slice(), d.as_slice());
        let mut r = a;
        r.push(46);
        r.push(48 + (mag % 10) as u8);
        assert(r@ =~= coord_rep(m as int));
        r
    } else {
        let mag: u128 = t as u128;
        let d = dec_bytes_wide(mag / 10);
        let mut r = d;
        r.push(46);
        r.push(48 + (mag % 10) as u8);
        assert(r@ =~= coord_rep(m as int));
        r
    }
}

/// A color channel in thousandths rendered as a unit-range number: full
/// intensity as one, anything else with three decimal places.
pub open spec fn frac_rep(m: u16) -> Seq<u8> {
    if m >= 1000 {
        seq![49u8]
    } else {
        seq![
            48u8,
            46u8,
            (48 + m / 100) as u8,
            (48 + (m / 10) % 10) as u8,
            (48 + m % 10) as u8,
        ]
    }
}

/// A color channel rendered, as [`frac_rep`] gives it.
pub fn frac_bytes(m: u16) -> (r: Vec<u8>)
    ensures
        r@ == frac_rep(m),
{
    let mut r: Vec<u8> = Vec::new();
    if m >= 1000 {
        r.push(49);
        assert(r@ =~= frac_rep(m));
    } else {
        r.push(48);
        r.push(46);
        r.push(48 + (m / 100) as u8);
        r.push(48 + ((m / 10) % 10) as u8);
        r.push(48 + (m % 10) as u8);
        assert(r@ =~= frac_rep(m));
    }
    r
}

} // verus!
