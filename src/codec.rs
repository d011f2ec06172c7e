//! Big-endian byte encoding of 128-bit integers.
use vstd::prelude::*;

verus! {

/// The sixteen bytes of `v`, most significant first.
pub open spec fn u128_bytes(v: u128) -> Seq<u8> {
    seq![
        (v >> 120u128) as u8, (v >> 112u128) as u8, (v >> 104u128) as u8, (v >> 96u128) as u8,
        (v >> 88u128) as u8, (v >> 80u128) as u8, (v >> 72u128) as u8, (v >> 64u128) as u8,
        (v >> 56u128) as u8, (v >> 48u128) as u8, (v >> 40u128) as u8, (v >> 32u128) as u8,
        (v >> 24u128) as u8, (v >> 16u128) as u8, (v >> 8u128) as u8, v as u8,
    ]
}

/// The integer whose big-endian bytes start at `p` in `b`.
pub open spec fn u128_at(b: Seq<u8>, p: int) -> u128 {
    ((b[p] as u128) << 120u128) | ((b[p + 1] as u128) << 112u128) | ((b[p + 2] as u128) << 104u128)
        | ((b[p + 3] as u128) << 96u128) | ((b[p + 4] as u128) << 88u128) | ((b[p + 5] as u128)
        << 80u128) | ((b[p + 6] as u128) << 72u128) | ((b[p + 7] as u128) << 64u128) | ((b[p
        + 8] as u128) << 56u128) | ((b[p + 9] as u128) << 48u128) | ((b[p + 10] as u128)
        << 40u128) | ((b[p + 11] as u128) << 32u128) | ((b[p + 12] as u128) << 24u128) | ((b[p
        + 13] as u128) << 16u128) | ((b[p + 14] as u128) << 8u128) | (b[p + 15] as u128)
}

/// Reading back the bytes of `v`, wherever they stand, gives `v`.
pub proof fn lemma_u128_round_trip(v: u128, pre: Seq<u8>, post: Seq<u8>)
    ensures
        u128_at(pre + u128_bytes(v) + post, pre.len() as int) == v,
{
    let b = pre + u128_bytes(v) + post;
    let p = pre.len() as int;
    assert(b.subrange(p, p + 16) =~= u128_bytes(v));
    assert(b[p] == b.subrange(p, p + 16)[0]);
    assert(b[p + 1] == b.subrange(p, p + 16)[1]);
    assert(b[p + 2] == b.subrange(p, p + 16)[2]);
    assert(b[p + 3] == b.subrange(p, p + 16)[3]);
    assert(b[p + 4] == b.subrange(p, p + 16)[4]);
    assert(b[p + 5] == b.subrange(p, p + 16)[5]);
    assert(b[p + 6] == b.subrange(p, p + 16)[6]);
    assert(b[p + 7] == b.subrange(p, p + 16)[7]);
    assert(b[p + 8] == b.subrange(p, p + 16)[8]);
    assert(b[p + 9] == b.subrange(p, p + 16)[9]);
    assert(b[p + 10] == b.subrange(p, p + 16)[10]);
    assert(b[p + 11] == b.subrange(p, p + 16)[11]);
    assert(b[p + 12] == b.subrange(p, p + 16)[12]);
    assert(b[p + 13] == b.subrange(p, p + 16)[13]);
    assert(b[p + 14] == b.subrange(p, p + 16)[14]);
    assert(b[p + 15] == b.subrange(p, p + 16)[15]);
    assert(((((v >> 120u128) as u8) as u128) << 120u128) | ((((v >> 112u128) as u8) as u128)
        << 112u128) | ((((v >> 104u128) as u8) as u128) << 104u128) | ((((v >> 96u128) as u8)
        as u128) << 96u128) | ((((v >> 88u128) as u8) as u128) << 88u128) | ((((v >> 80u128)
        as u8) as u128) << 80u128) | ((((v >> 72u128) as u8) as u128) << 72u128) | ((((v
        >> 64u128) as u8) as u128) << 64u128) | ((((v >> 56u128) as u8) as u128) << 56u128)
        | ((((v >> 48u128) as u8) as u128) << 48u128) | ((((v >> 40u128) as u8) as u128)
        << 40u128) | ((((v >> 32u128) as u8) as u128) << 32u128) | ((((v >> 24u128) as u8)
        as u128) << 24u128) | ((((v >> 16u128) as u8) as u128) << 16u128) | ((((v >> 8u128)
        as u8) as u128) << 8u128) | ((v as u8) as u128) == v) by (bit_vector);
}

/// Appends the bytes of `v`.
pub fn put_u128(out: &mut Vec<u8>, v: u128)
    ensures
        final(out)@ == old(out)@ + u128_bytes(v),
{
    out.push((v >> 120u128) as u8);
    out.push((v >> 112u128) as u8);
    out.push((v >> 104u128) as u8);
    out.push((v >> 96u128) as u8);
    out.push((v >> 88u128) as u8);
    out.push((v >> 80u128) as u8);
    out.push((v >> 72u128) as u8);
    out.push((v >> 64u128) as u8);
    out.push((v >> 56u128) as u8);
    out.push((v >> 48u128) as u8);
    out.push((v >> 40u128) as u8);
    out.push((v >> 32u128) as u8);
    out.push((v >> 24u128) as u8);
    out.push((v >> 16u128) as u8);
    out.push((v >> 8u128) as u8);
    out.push(v as u8);
    assert(final(out)@ =~= old(out)@ + u128_bytes(v));
}

/// Reads the integer whose bytes start at `p`.
pub fn get_u128(b: &Vec<u8>, p: usize) -> (r: u128)
    requires
        p + 16 <= b@.len(),
    ensures
        r == u128_at(b@, p as int),
{
    let _n = b.len();
    ((b[p] as u128) << 120u128) | ((b[p + 1] as u128) << 112u128) | ((b[p + 2] as u128) << 104u128)
        | ((b[p + 3] as u128) << 96u128) | ((b[p + 4] as u128) << 88u128) | ((b[p + 5] as u128)
        << 80u128) | ((b[p + 6] as u128) << 72u128) | ((b[p + 7] as u128) << 64u128) | ((b[p
        + 8] as u128) << 56u128) | ((b[p + 9] as u128) << 48u128) | ((b[p + 10] as u128)
        << 40u128) | ((b[p + 11] as u128) << 32u128) | ((b[p + 12] as u128) << 24u128) | ((b[p
        + 13] as u128) << 16u128) | ((b[p + 14] as u128) << 8u128) | (b[p + 15] as u128)
}

/// Appends `bytes`.
pub fn put_bytes(out: &mut Vec<u8>, bytes: &[u8])
    ensures
        final(out)@ == old(out)@ + bytes@,
{
    let mut i: usize = 0;
    while i < bytes.len()
        invariant
            i <= bytes@.len(),
            out@ == old(out)@ + bytes@.subrange(0, i as int),
        decreases bytes@.len() - i,
    {
        out.push(bytes[i]);
        assert(bytes@.subrange(0, i + 1) =~= bytes@.subrange(0, i as int).push(bytes@[i as int]));
        i += 1;
    }
    assert(bytes@.subrange(0, bytes@.len() as int) =~= bytes@);
}

/// The bytes of `b` from `from` to `to`.
pub fn copy_range(b: &Vec<u8>, from: usize, to: usize) -> (r: Vec<u8>)
    requires
        from <= to <= b@.len(),
    ensures
        r@ == b@.subrange(from as int, to as int),
{
    let mut out: Vec<u8> = Vec::new();
    let mut i: usize = from;
    while i < to
        invariant
            from <= i <= to,
            to <= b@.len(),
            out@ == b@.subrange(from as int, i as int),
        decreases to - i,
    {
        out.push(b[i]);
        assert(b@.subrange(from as int, i + 1) =~= b@.subrange(from as int, i as int).push(b@[i as int]));
        i += 1;
    }
    out
}

} // verus!
