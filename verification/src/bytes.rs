//! Small helpers on byte strings: appending, comparing, and fixed-width
//! big-endian integers.

use vstd::prelude::*;

verus! {

/// Appends `src` to `dst`.
pub fn extend(dst: &mut Vec<u8>, src: &[u8])
    ensures
        final(dst)@ == old(dst)@ + src@,
{
    let mut i: usize = 0;
    while i < src.len()
        invariant
            i <= src.len(),
            dst@ == old(dst)@ + src@.subrange(0, i as int),
        decreases src.len() - i,
    {
        dst.push(src[i]);
        i += 1;
        assert(dst@ =~= old(dst)@ + src@.subrange(0, i as int));
    }
    assert(src@.subrange(0, src@.len() as int) =~= src@);
}

/// A fresh vector holding the bytes of `src`.
pub fn copy_of(src: &[u8]) -> (out: Vec<u8>)
    ensures
        out@ == src@,
{
    let mut out: Vec<u8> = Vec::new();
    extend(&mut out, src);
    assert(out@ =~= src@);
    out
}

/// The bytes of `src` from `from` up to, not including, `to`.
pub fn slice_of(src: &[u8], from: usize, to: usize) -> (out: Vec<u8>)
    requires
        from <= to <= src@.len(),
    ensures
        out@ == src@.subrange(from as int, to as int),
{
    let mut out: Vec<u8> = Vec::new();
    let mut i: usize = from;
    while i < to
        invariant
            from <= i <= to <= src@.len(),
            out@ == src@.subrange(from as int, i as int),
        decreases to - i,
    {
        out.push(src[i]);
        i += 1;
        assert(out@ =~= src@.subrange(from as int, i as int));
    }
    out
}

/// Whether two byte strings hold the same bytes. Every position is looked
/// at, whatever the earlier ones held.
pub fn same_bytes(a: &[u8], b: &[u8]) -> (same: bool)
    ensures
        same <==> a@ == b@,
{
    if a.len() != b.len() {
        return false;
    }
    let mut diff: u8 = 0;
    let mut i: usize = 0;
    while i < a.len()
        invariant
            i <= a.len(),
            a.len() == b.len(),
            diff == 0 <==> (forall|k: int| 0 <= k < i ==> a@[k] == b@[k]),
        decreases a.len() - i,
    {
        let x = a[i];
        let y = b[i];
        let ghost before = diff;
        diff = diff | (x ^ y);
        proof {
            assert((before | (x ^ y)) == 0 <==> (before == 0 && x == y)) by (bit_vector);
            if before != 0 {
                let k = choose|k: int| 0 <= k < i && a@[k] != b@[k];
                assert(0 <= k < i + 1 && a@[k] != b@[k]);
            }
        }
        i += 1;
    }
    proof {
        if diff == 0 {
            assert(a@ =~= b@);
        }
    }
    diff == 0
}

/// The eight bytes of `n`, most significant first.
pub open spec fn be64(n: u64) -> Seq<u8> {
    seq![
        (n >> 56) as u8,
        (n >> 48) as u8,
        (n >> 40) as u8,
        (n >> 32) as u8,
        (n >> 24) as u8,
        (n >> 16) as u8,
        (n >> 8) as u8,
        n as u8,
    ]
}

/// The number whose big-endian bytes are the first eight of `b`.
#[verifier::opaque]
pub open spec fn from_be64(b: Seq<u8>) -> u64 {
    ((b[0] as u64) << 56) | ((b[1] as u64) << 48) | ((b[2] as u64) << 40) | ((b[3] as u64) << 32)
        | ((b[4] as u64) << 24) | ((b[5] as u64) << 16) | ((b[6] as u64) << 8) | (b[7] as u64)
}

/// Reading back the bytes of a number gives the number.
pub proof fn lemma_be64_round_trip(n: u64)
    ensures
        be64(n).len() == 8,
        from_be64(be64(n)) == n,
{
    reveal(from_be64);
    let b = be64(n);
    assert(b[0] == (n >> 56) as u8);
    assert(b[7] == n as u8);
    assert(((((n >> 56) as u8) as u64) << 56) | ((((n >> 48) as u8) as u64) << 48) | ((((n
        >> 40) as u8) as u64) << 40) | ((((n >> 32) as u8) as u64) << 32) | ((((n >> 24) as u8) as u64)
        << 24) | ((((n >> 16) as u8) as u64) << 16) | ((((n >> 8) as u8) as u64) << 8) | ((n as u8)
        as u64) == n) by (bit_vector);
}

/// Writing out the number read from eight bytes gives the eight bytes.
pub proof fn lemma_be64_of_bytes(b: Seq<u8>)
    requires
        b.len() == 8,
    ensures
        be64(from_be64(b)) == b,
{
    reveal(from_be64);
    let (b0, b1, b2, b3, b4, b5, b6, b7) = (b[0], b[1], b[2], b[3], b[4], b[5], b[6], b[7]);
    let n = from_be64(b);
    assert(n == ((b0 as u64) << 56) | ((b1 as u64) << 48) | ((b2 as u64) << 40) | ((b3 as u64) << 32)
        | ((b4 as u64) << 24) | ((b5 as u64) << 16) | ((b6 as u64) << 8) | (b7 as u64));
    assert((n >> 56) as u8 == b0 && (n >> 48) as u8 == b1 && (n >> 40) as u8 == b2 && (n >> 32) as u8
        == b3 && (n >> 24) as u8 == b4 && (n >> 16) as u8 == b5 && (n >> 8) as u8 == b6 && n as u8
        == b7) by (bit_vector)
        requires
            n == ((b0 as u64) << 56) | ((b1 as u64) << 48) | ((b2 as u64) << 40) | ((b3 as u64)
                << 32) | ((b4 as u64) << 24) | ((b5 as u64) << 16) | ((b6 as u64) << 8) | (b7 as u64),
    ;
    assert(be64(n) =~= b);
}

/// Appends the eight big-endian bytes of `n` to `dst`.
pub fn push_be64(dst: &mut Vec<u8>, n: u64)
    ensures
        final(dst)@ == old(dst)@ + be64(n),
{
    dst.push((n >> 56) as u8);
    dst.push((n >> 48) as u8);
    dst.push((n >> 40) as u8);
    dst.push((n >> 32) as u8);
    dst.push((n >> 24) as u8);
    dst.push((n >> 16) as u8);
    dst.push((n >> 8) as u8);
    dst.push(n as u8);
    assert(dst@ =~= old(dst)@ + be64(n));
}

/// Reads the big-endian number in the eight bytes of `src` that start at
/// `at`.
pub fn read_be64(src: &[u8], at: usize) -> (n: u64)
    requires
        at + 8 <= src@.len(),
    ensures
        n == from_be64(src@.subrange(at as int, at + 8)),
{
    reveal(from_be64);
    let ghost b = src@.subrange(at as int, at + 8);
    assert(b[0] == src@[at + 0] && b[1] == src@[at + 1] && b[2] == src@[at + 2] && b[3] == src@[at
        + 3] && b[4] == src@[at + 4] && b[5] == src@[at + 5] && b[6] == src@[at + 6] && b[7]
        == src@[at + 7]);
    ((src[at] as u64) << 56) | ((src[at + 1] as u64) << 48) | ((src[at + 2] as u64) << 40) | ((
    src[at + 3] as u64) << 32) | ((src[at + 4] as u64) << 24) | ((src[at + 5] as u64) << 16) | ((
    src[at + 6] as u64) << 8) | (src[at + 7] as u64)
}

} // verus!
