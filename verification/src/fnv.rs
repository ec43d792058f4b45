//! 64-bit FNV-1a hashing of byte streams, with writers for the
//! little-endian encodings of integers that `Hash` implementations feed to
//! a hasher.
use vstd::prelude::*;

verus! {

/// FNV-1a 64-bit offset basis.
pub const FNV_OFFSET_BASIS: u64 = 0xcbf29ce484222325u64;

/// FNV-1a 64-bit prime.
pub const FNV_PRIME: u64 = 0x100000001b3u64;

/// One FNV-1a step: xor the byte in, multiply by the prime modulo 2^64.
pub open spec fn fnv_step(h: u64, b: u8) -> u64 {
    (h ^ (b as u64)).wrapping_mul(FNV_PRIME)
}

/// FNV-1a state after feeding `s` to state `h`.
#[verifier::opaque]
pub open spec fn fnv_bytes(h: u64, s: Seq<u8>) -> u64
    decreases s.len(),
{
    if s.len() == 0 {
        h
    } else {
        fnv_step(fnv_bytes(h, s.drop_last()), s.last())
    }
}

/// FNV-1a hash of a byte sequence.
pub open spec fn fnv1a(s: Seq<u8>) -> u64 {
    fnv_bytes(FNV_OFFSET_BASIS, s)
}

/// Feeding two byte sequences one after the other is feeding their concatenation.
pub proof fn lemma_fnv_append(h: u64, a: Seq<u8>, b: Seq<u8>)
    ensures
        fnv_bytes(h, a + b) == fnv_bytes(fnv_bytes(h, a), b),
    decreases b.len(),
{
    reveal(fnv_bytes);
    if b.len() == 0 {
        assert(a + b =~= a);
    } else {
        lemma_fnv_append(h, a, b.drop_last());
        assert((a + b).drop_last() =~= a + b.drop_last());
        assert((a + b).last() == b.last());
    }
}

/// Feeding nothing leaves the state unchanged.
pub proof fn lemma_fnv_empty(h: u64)
    ensures
        fnv_bytes(h, Seq::<u8>::empty()) == h,
{
    reveal(fnv_bytes);
}

proof fn lemma_fnv_push(h: u64, s: Seq<u8>, b: u8)
    ensures
        fnv_bytes(h, s.push(b)) == fnv_step(fnv_bytes(h, s), b),
{
    reveal(fnv_bytes);
    assert(s.push(b).drop_last() =~= s);
}

proof fn lemma_take_step(h: u64, s: Seq<u8>, k: int)
    requires
        0 <= k < s.len(),
    ensures
        fnv_bytes(h, s.take(k + 1)) == fnv_step(fnv_bytes(h, s.take(k)), s[k]),
{
    lemma_fnv_push(h, s.take(k), s[k]);
    assert(s.take(k).push(s[k]) =~= s.take(k + 1));
}

/// Little-endian bytes of a `u32`.
pub open spec fn le_bytes_u32(v: u32) -> Seq<u8> {
    seq![
        (v & 0xff) as u8,
        ((v >> 8u32) & 0xff) as u8,
        ((v >> 16u32) & 0xff) as u8,
        ((v >> 24u32) & 0xff) as u8,
    ]
}

/// Little-endian bytes of a `u64`.
pub open spec fn le_bytes_u64(v: u64) -> Seq<u8> {
    seq![
        (v & 0xff) as u8,
        ((v >> 8u64) & 0xff) as u8,
        ((v >> 16u64) & 0xff) as u8,
        ((v >> 24u64) & 0xff) as u8,
        ((v >> 32u64) & 0xff) as u8,
        ((v >> 40u64) & 0xff) as u8,
        ((v >> 48u64) & 0xff) as u8,
        ((v >> 56u64) & 0xff) as u8,
    ]
}

/// Distinct `u32` values have distinct little-endian bytes.
pub proof fn lemma_le_bytes_u32_injective(a: u32, b: u32)
    requires
        le_bytes_u32(a) == le_bytes_u32(b),
    ensures
        a == b,
{
    let sa = le_bytes_u32(a);
    let sb = le_bytes_u32(b);
    assert(sa[0] == sb[0] && sa[1] == sb[1] && sa[2] == sb[2] && sa[3] == sb[3]);
    assert(a == b) by (bit_vector)
        requires
            (a & 0xff) as u8 == (b & 0xff) as u8,
            ((a >> 8u32) & 0xff) as u8 == ((b >> 8u32) & 0xff) as u8,
            ((a >> 16u32) & 0xff) as u8 == ((b >> 16u32) & 0xff) as u8,
            ((a >> 24u32) & 0xff) as u8 == ((b >> 24u32) & 0xff) as u8,
    ;
}

/// Distinct `u64` values have distinct little-endian bytes.
pub proof fn lemma_le_bytes_u64_injective(a: u64, b: u64)
    requires
        le_bytes_u64(a) == le_bytes_u64(b),
    ensures
        a == b,
{
    let sa = le_bytes_u64(a);
    let sb = le_bytes_u64(b);
    assert(sa[0] == sb[0] && sa[1] == sb[1] && sa[2] == sb[2] && sa[3] == sb[3]);
    assert(sa[4] == sb[4] && sa[5] == sb[5] && sa[6] == sb[6] && sa[7] == sb[7]);
    assert(a == b) by (bit_vector)
        requires
            (a & 0xff) as u8 == (b & 0xff) as u8,
            ((a >> 8u64) & 0xff) as u8 == ((b >> 8u64) & 0xff) as u8,
            ((a >> 16u64) & 0xff) as u8 == ((b >> 16u64) & 0xff) as u8,
            ((a >> 24u64) & 0xff) as u8 == ((b >> 24u64) & 0xff) as u8,
            ((a >> 32u64) & 0xff) as u8 == ((b >> 32u64) & 0xff) as u8,
            ((a >> 40u64) & 0xff) as u8 == ((b >> 40u64) & 0xff) as u8,
            ((a >> 48u64) & 0xff) as u8 == ((b >> 48u64) & 0xff) as u8,
            ((a >> 56u64) & 0xff) as u8 == ((b >> 56u64) & 0xff) as u8,
    ;
}

/// Distinct `i32` values have distinct little-endian bytes.
pub proof fn lemma_le_bytes_i32_injective(a: i32, b: i32)
    requires
        le_bytes_i32(a) == le_bytes_i32(b),
    ensures
        a == b,
{
    let ua = a as u32;
    let ub = b as u32;
    lemma_le_bytes_u32_injective(ua, ub);
    assert(a == b) by (bit_vector)
        requires
            a as u32 == b as u32,
    ;
}

/// Little-endian bytes of an `i32` (its two's complement bits).
pub open spec fn le_bytes_i32(v: i32) -> Seq<u8> {
    le_bytes_u32(v as u32)
}

/// Little-endian bytes of a `usize`, as a 64-bit target writes it.
pub open spec fn le_bytes_usize(v: usize) -> Seq<u8> {
    le_bytes_u64(v as u64)
}

/// An FNV-1a hasher.
pub struct FnvState {
    pub h: u64,
}

impl FnvState {
    /// A hasher at the offset basis.
    pub fn new() -> (r: Self)
        ensures
            r.h == FNV_OFFSET_BASIS,
    {
        FnvState { h: FNV_OFFSET_BASIS }
    }

    /// Feeds one byte.
    pub fn write_u8(&mut self, b: u8)
        ensures
            final(self).h == fnv_step(old(self).h, b),
    {
        self.h = (self.h ^ (b as u64)).wrapping_mul(FNV_PRIME);
    }

    /// Feeds the little-endian bytes of a `u32`.
    pub fn write_u32(&mut self, v: u32)
        ensures
            final(self).h == fnv_bytes(old(self).h, le_bytes_u32(v)),
    {
        let ghost h0 = self.h;
        self.write_u8((v & 0xff) as u8);
        self.write_u8(((v >> 8u32) & 0xff) as u8);
        self.write_u8(((v >> 16u32) & 0xff) as u8);
        self.write_u8(((v >> 24u32) & 0xff) as u8);
        proof {
            let s = le_bytes_u32(v);
            lemma_fnv_push(h0, s.take(3), s[3]);
            lemma_fnv_push(h0, s.take(2), s[2]);
            lemma_fnv_push(h0, s.take(1), s[1]);
            lemma_fnv_push(h0, s.take(0), s[0]);
            assert(s.take(0) =~= Seq::<u8>::empty());
            reveal(fnv_bytes);
            assert(s.take(0).push(s[0]) =~= s.take(1));
            assert(s.take(1).push(s[1]) =~= s.take(2));
            assert(s.take(2).push(s[2]) =~= s.take(3));
            assert(s.take(3).push(s[3]) =~= s);
        }
    }

    /// Feeds the little-endian bytes of a `u64`.
    pub fn write_u64(&mut self, v: u64)
        ensures
            final(self).h == fnv_bytes(old(self).h, le_bytes_u64(v)),
    {
        let ghost h0 = self.h;
        let ghost s = le_bytes_u64(v);
        proof {
            assert(s.take(0) =~= Seq::<u8>::empty());
            reveal(fnv_bytes);
        }
        self.write_u8((v & 0xff) as u8);
        proof { lemma_take_step(h0, s, 0); }
        self.write_u8(((v >> 8u64) & 0xff) as u8);
        proof { lemma_take_step(h0, s, 1); }
        self.write_u8(((v >> 16u64) & 0xff) as u8);
        proof { lemma_take_step(h0, s, 2); }
        self.write_u8(((v >> 24u64) & 0xff) as u8);
        proof { lemma_take_step(h0, s, 3); }
        self.write_u8(((v >> 32u64) & 0xff) as u8);
        proof { lemma_take_step(h0, s, 4); }
        self.write_u8(((v >> 40u64) & 0xff) as u8);
        proof { lemma_take_step(h0, s, 5); }
        self.write_u8(((v >> 48u64) & 0xff) as u8);
        proof { lemma_take_step(h0, s, 6); }
        self.write_u8(((v >> 56u64) & 0xff) as u8);
        proof {
            lemma_take_step(h0, s, 7);
            assert(s.take(8) =~= s);
        }
    }

    /// Feeds the little-endian bytes of an `i32`.
    pub fn write_i32(&mut self, v: i32)
        ensures
            final(self).h == fnv_bytes(old(self).h, le_bytes_i32(v)),
    {
        self.write_u32(v as u32);
    }

    /// Feeds a `usize` as 8 little-endian bytes.
    pub fn write_usize(&mut self, v: usize)
        ensures
            final(self).h == fnv_bytes(old(self).h, le_bytes_usize(v)),
    {
        self.write_u64(v as u64);
    }

    /// Feeds a byte slice.
    pub fn write_bytes(&mut self, bytes: &[u8])
        ensures
            final(self).h == fnv_bytes(old(self).h, bytes@),
    {
        let ghost h0 = self.h;
        proof {
            reveal(fnv_bytes);
            assert(bytes@.take(0) =~= Seq::<u8>::empty());
        }
        let mut i: usize = 0;
        while i < bytes.len()
            invariant
                0 <= i <= bytes@.len(),
                self.h == fnv_bytes(h0, bytes@.take(i as int)),
            decreases bytes@.len() - i,
        {
            proof {
                lemma_fnv_push(h0, bytes@.take(i as int), bytes@[i as int]);
                assert(bytes@.take(i as int).push(bytes@[i as int]) =~= bytes@.take(i + 1));
            }
            self.write_u8(bytes[i]);
            i = i + 1;
        }
        assert(bytes@.take(bytes@.len() as int) =~= bytes@);
    }
}

} // verus!
