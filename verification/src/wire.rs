//! Big-endian integer encoding on byte sequences, the building block of the
//! frame envelopes.

use vstd::prelude::*;

verus! {

/// The four big-endian bytes of `x`.
pub open spec fn be_u32(x: u32) -> Seq<u8> {
    seq![(x >> 24u32) as u8, (x >> 16u32) as u8, (x >> 8u32) as u8, x as u8]
}

/// The eight big-endian bytes of `x`.
pub open spec fn be_u64(x: u64) -> Seq<u8> {
    seq![
        (x >> 56u64) as u8,
        (x >> 48u64) as u8,
        (x >> 40u64) as u8,
        (x >> 32u64) as u8,
        (x >> 24u64) as u8,
        (x >> 16u64) as u8,
        (x >> 8u64) as u8,
        x as u8,
    ]
}

/// A signed 32-bit value, written as the bytes of its two's-complement bits.
pub open spec fn be_i32(x: i32) -> Seq<u8> {
    be_u32(x as u32)
}

/// A signed 64-bit value, written as the bytes of its two's-complement bits.
pub open spec fn be_i64(x: i64) -> Seq<u8> {
    be_u64(x as u64)
}

/// The big-endian `u32` stored in `s[i..i + 4]`.
pub open spec fn u32_at(s: Seq<u8>, i: int) -> u32 {
    ((s[i] as u32) << 24u32) | ((s[i + 1] as u32) << 16u32) | ((s[i + 2] as u32) << 8u32) | (
    s[i + 3] as u32)
}

/// The big-endian `u64` stored in `s[i..i + 8]`.
pub open spec fn u64_at(s: Seq<u8>, i: int) -> u64 {
    ((s[i] as u64) << 56u64) | ((s[i + 1] as u64) << 48u64) | ((s[i + 2] as u64) << 40u64) | ((s[i
        + 3] as u64) << 32u64) | ((s[i + 4] as u64) << 24u64) | ((s[i + 5] as u64) << 16u64) | ((s[i
        + 6] as u64) << 8u64) | (s[i + 7] as u64)
}

pub open spec fn i32_at(s: Seq<u8>, i: int) -> i32 {
    u32_at(s, i) as i32
}

pub open spec fn i64_at(s: Seq<u8>, i: int) -> i64 {
    u64_at(s, i) as i64
}

proof fn lemma_u32_bytes(x: u32, b0: u8, b1: u8, b2: u8, b3: u8)
    requires
        b0 == (x >> 24u32) as u8,
        b1 == (x >> 16u32) as u8,
        b2 == (x >> 8u32) as u8,
        b3 == x as u8,
    ensures
        ((b0 as u32) << 24u32) | ((b1 as u32) << 16u32) | ((b2 as u32) << 8u32) | (b3 as u32) == x,
{
    assert(((b0 as u32) << 24u32) | ((b1 as u32) << 16u32) | ((b2 as u32) << 8u32) | (b3 as u32)
        == x) by (bit_vector)
        requires
            b0 == (x >> 24u32) as u8,
            b1 == (x >> 16u32) as u8,
            b2 == (x >> 8u32) as u8,
            b3 == x as u8,
    ;
}

proof fn lemma_u64_bytes(x: u64, b0: u8, b1: u8, b2: u8, b3: u8, b4: u8, b5: u8, b6: u8, b7: u8)
    requires
        b0 == (x >> 56u64) as u8,
        b1 == (x >> 48u64) as u8,
        b2 == (x >> 40u64) as u8,
        b3 == (x >> 32u64) as u8,
        b4 == (x >> 24u64) as u8,
        b5 == (x >> 16u64) as u8,
        b6 == (x >> 8u64) as u8,
        b7 == x as u8,
    ensures
        ((b0 as u64) << 56u64) | ((b1 as u64) << 48u64) | ((b2 as u64) << 40u64) | ((b3 as u64)
            << 32u64) | ((b4 as u64) << 24u64) | ((b5 as u64) << 16u64) | ((b6 as u64) << 8u64) | (
        b7 as u64) == x,
{
    assert(((b0 as u64) << 56u64) | ((b1 as u64) << 48u64) | ((b2 as u64) << 40u64) | ((b3 as u64)
        << 32u64) | ((b4 as u64) << 24u64) | ((b5 as u64) << 16u64) | ((b6 as u64) << 8u64) | (
    b7 as u64) == x) by (bit_vector)
        requires
            b0 == (x >> 56u64) as u8,
            b1 == (x >> 48u64) as u8,
            b2 == (x >> 40u64) as u8,
            b3 == (x >> 32u64) as u8,
            b4 == (x >> 24u64) as u8,
            b5 == (x >> 16u64) as u8,
            b6 == (x >> 8u64) as u8,
            b7 == x as u8,
    ;
}

/// Reading back the bytes of `be_u32(x)` at the front of `be_u32(x) + t` gives
/// `x`, and what follows them is `t`.
pub proof fn lemma_take_u32(x: u32, t: Seq<u8>)
    ensures
        u32_at(be_u32(x) + t, 0) == x,
        (be_u32(x) + t).skip(4) =~= t,
        (be_u32(x) + t).len() == t.len() + 4,
{
    let s = be_u32(x) + t;
    lemma_u32_bytes(x, s[0], s[1], s[2], s[3]);
}

pub proof fn lemma_take_i32(x: i32, t: Seq<u8>)
    ensures
        i32_at(be_i32(x) + t, 0) == x,
        (be_i32(x) + t).skip(4) =~= t,
        (be_i32(x) + t).len() == t.len() + 4,
{
    lemma_take_u32(x as u32, t);
    assert((x as u32) as i32 == x) by (bit_vector);
}

pub proof fn lemma_take_u64(x: u64, t: Seq<u8>)
    ensures
        u64_at(be_u64(x) + t, 0) == x,
        (be_u64(x) + t).skip(8) =~= t,
        (be_u64(x) + t).len() == t.len() + 8,
{
    let s = be_u64(x) + t;
    lemma_u64_bytes(x, s[0], s[1], s[2], s[3], s[4], s[5], s[6], s[7]);
}

pub proof fn lemma_take_i64(x: i64, t: Seq<u8>)
    ensures
        i64_at(be_i64(x) + t, 0) == x,
        (be_i64(x) + t).skip(8) =~= t,
        (be_i64(x) + t).len() == t.len() + 8,
{
    lemma_take_u64(x as u64, t);
    assert((x as u64) as i64 == x) by (bit_vector);
}

/// A four-byte read at offset `k + i` is a read at offset `i` of what follows
/// the first `k` bytes.
pub proof fn lemma_shift4(s: Seq<u8>, k: int, i: int)
    requires
        0 <= k,
        0 <= i,
        k + i + 4 <= s.len(),
    ensures
        u32_at(s, k + i) == u32_at(s.skip(k), i),
        i32_at(s, k + i) == i32_at(s.skip(k), i),
{
}

/// An eight-byte read at offset `k + i` is a read at offset `i` of what
/// follows the first `k` bytes.
pub proof fn lemma_shift8(s: Seq<u8>, k: int, i: int)
    requires
        0 <= k,
        0 <= i,
        k + i + 8 <= s.len(),
    ensures
        u64_at(s, k + i) == u64_at(s.skip(k), i),
        i64_at(s, k + i) == i64_at(s.skip(k), i),
{
}

/// The big-endian bytes of each value in turn.
pub open spec fn be_u32s(s: Seq<u32>) -> Seq<u8>
    decreases s.len(),
{
    if s.len() == 0 {
        Seq::empty()
    } else {
        be_u32s(s.drop_last()) + be_u32(s.last())
    }
}

pub proof fn lemma_be_u32s_len(s: Seq<u32>)
    ensures
        be_u32s(s).len() == 4 * s.len(),
    decreases s.len(),
{
    if s.len() > 0 {
        lemma_be_u32s_len(s.drop_last());
    }
}

/// The `k`-th value of `s` is read back from bytes `4k..4k + 4`.
pub proof fn lemma_be_u32s_index(s: Seq<u32>, k: int)
    requires
        0 <= k < s.len(),
    ensures
        u32_at(be_u32s(s), 4 * k) == s[k],
    decreases s.len(),
{
    lemma_be_u32s_len(s);
    let p = be_u32s(s.drop_last());
    lemma_be_u32s_len(s.drop_last());
    let b = be_u32s(s);
    if k == s.len() - 1 {
        let x = s.last();
        assert(b[4 * k] == be_u32(x)[0]);
        assert(b[4 * k + 1] == be_u32(x)[1]);
        assert(b[4 * k + 2] == be_u32(x)[2]);
        assert(b[4 * k + 3] == be_u32(x)[3]);
        lemma_u32_bytes(x, b[4 * k], b[4 * k + 1], b[4 * k + 2], b[4 * k + 3]);
    } else {
        lemma_be_u32s_index(s.drop_last(), k);
        assert(b[4 * k] == p[4 * k]);
        assert(b[4 * k + 1] == p[4 * k + 1]);
        assert(b[4 * k + 2] == p[4 * k + 2]);
        assert(b[4 * k + 3] == p[4 * k + 3]);
    }
}

/// Reading a `u32` field at offset `k` of `s`, where the field's bytes and
/// then `t` follow the first `k` bytes.
pub proof fn lemma_field_u32(s: Seq<u8>, k: int, x: u32, t: Seq<u8>)
    requires
        0 <= k <= s.len(),
        s.skip(k) == be_u32(x) + t,
    ensures
        k + 4 <= s.len(),
        u32_at(s, k) == x,
        s.skip(k + 4) == t,
{
    let s2 = s.skip(k);
    assert(u32_at(s2, 0) == x) by {
        lemma_take_u32(x, t);
    }
    assert(s.skip(k + 4) =~= t) by {
        lemma_take_u32(x, t);
        assert(s.skip(k + 4) =~= s2.skip(4));
    }
    assert(u32_at(s, k) == u32_at(s2, 0)) by {
        lemma_shift4(s, k, 0);
    }
}

pub proof fn lemma_field_i32(s: Seq<u8>, k: int, x: i32, t: Seq<u8>)
    requires
        0 <= k <= s.len(),
        s.skip(k) == be_i32(x) + t,
    ensures
        k + 4 <= s.len(),
        i32_at(s, k) == x,
        s.skip(k + 4) == t,
{
    lemma_field_u32(s, k, x as u32, t);
    assert((x as u32) as i32 == x) by (bit_vector);
}

pub proof fn lemma_field_u64(s: Seq<u8>, k: int, x: u64, t: Seq<u8>)
    requires
        0 <= k <= s.len(),
        s.skip(k) == be_u64(x) + t,
    ensures
        k + 8 <= s.len(),
        u64_at(s, k) == x,
        s.skip(k + 8) == t,
{
    let s2 = s.skip(k);
    assert(u64_at(s2, 0) == x) by {
        lemma_take_u64(x, t);
    }
    assert(s.skip(k + 8) =~= t) by {
        lemma_take_u64(x, t);
        assert(s.skip(k + 8) =~= s2.skip(8));
    }
    assert(u64_at(s, k) == u64_at(s2, 0)) by {
        lemma_shift8(s, k, 0);
    }
}

pub proof fn lemma_field_i64(s: Seq<u8>, k: int, x: i64, t: Seq<u8>)
    requires
        0 <= k <= s.len(),
        s.skip(k) == be_i64(x) + t,
    ensures
        k + 8 <= s.len(),
        i64_at(s, k) == x,
        s.skip(k + 8) == t,
{
    lemma_field_u64(s, k, x as u64, t);
    assert((x as u64) as i64 == x) by (bit_vector);
}

/// Appends the big-endian bytes of `x`.
pub fn put_u32(buf: &mut Vec<u8>, x: u32)
    ensures
        final(buf)@ == old(buf)@ + be_u32(x),
{
    buf.push((x >> 24u32) as u8);
    buf.push((x >> 16u32) as u8);
    buf.push((x >> 8u32) as u8);
    buf.push(x as u8);
    assert(buf@ =~= old(buf)@ + be_u32(x));
}

pub fn put_i32(buf: &mut Vec<u8>, x: i32)
    ensures
        final(buf)@ == old(buf)@ + be_i32(x),
{
    put_u32(buf, x as u32);
}

pub fn put_u64(buf: &mut Vec<u8>, x: u64)
    ensures
        final(buf)@ == old(buf)@ + be_u64(x),
{
    buf.push((x >> 56u64) as u8);
    buf.push((x >> 48u64) as u8);
    buf.push((x >> 40u64) as u8);
    buf.push((x >> 32u64) as u8);
    buf.push((x >> 24u64) as u8);
    buf.push((x >> 16u64) as u8);
    buf.push((x >> 8u64) as u8);
    buf.push(x as u8);
    assert(buf@ =~= old(buf)@ + be_u64(x));
}

pub fn put_i64(buf: &mut Vec<u8>, x: i64)
    ensures
        final(buf)@ == old(buf)@ + be_i64(x),
{
    put_u64(buf, x as u64);
}

/// The big-endian `u32` at `b[i..i + 4]`.
pub fn get_u32(b: &[u8], i: usize) -> (r: u32)
    requires
        i + 4 <= b@.len(),
    ensures
        r == u32_at(b@, i as int),
{
    ((b[i] as u32) << 24u32) | ((b[i + 1] as u32) << 16u32) | ((b[i + 2] as u32) << 8u32) | (b[i
        + 3] as u32)
}

pub fn get_i32(b: &[u8], i: usize) -> (r: i32)
    requires
        i + 4 <= b@.len(),
    ensures
        r == i32_at(b@, i as int),
{
    get_u32(b, i) as i32
}

/// The big-endian `u64` at `b[i..i + 8]`.
pub fn get_u64(b: &[u8], i: usize) -> (r: u64)
    requires
        i + 8 <= b@.len(),
    ensures
        r == u64_at(b@, i as int),
{
    ((b[i] as u64) << 56u64) | ((b[i + 1] as u64) << 48u64) | ((b[i + 2] as u64) << 40u64) | ((b[i
        + 3] as u64) << 32u64) | ((b[i + 4] as u64) << 24u64) | ((b[i + 5] as u64) << 16u64) | ((b[i
        + 6] as u64) << 8u64) | (b[i + 7] as u64)
}

pub fn get_i64(b: &[u8], i: usize) -> (r: i64)
    requires
        i + 8 <= b@.len(),
    ensures
        r == i64_at(b@, i as int),
{
    get_u64(b, i) as i64
}

/// A copy of `b[start..start + len]`.
pub fn copy_range(b: &[u8], start: usize, len: usize) -> (out: Vec<u8>)
    requires
        start + len <= b@.len(),
    ensures
        out@ == b@.subrange(start as int, start + len),
{
    let n: usize = b.len();
    let mut out: Vec<u8> = Vec::with_capacity(len);
    let mut k: usize = 0;
    while k < len
        invariant
            k <= len,
            n == b@.len(),
            start + len <= b@.len(),
            out@ == b@.subrange(start as int, start + k),
        decreases len - k,
    {
        out.push(b[start + k]);
        k = k + 1;
        assert(out@ =~= b@.subrange(start as int, start + k));
    }
    out
}

} // verus!
