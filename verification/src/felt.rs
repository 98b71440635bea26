use vstd::prelude::*;
use crate::bytes::{
    le_bytes, from_le, lemma_le_bytes_len, lemma_from_le_le_bytes, lemma_from_le_bound,
    lemma_pow256_16, u128_to_le_bytes, u128_from_le_bytes,
};

verus! {

/// Canonical 252-bit field element, stored as two 128-bit halves.
/// A value is well formed when it fits in 252 bits, i.e. the upper
/// half is below 2^124.
#[derive(Clone, Copy, PartialEq, Eq, Structural, Debug)]
pub struct Felt {
    pub hi: u128,
    pub lo: u128,
}

/// Upper bound (exclusive) for the high half of a well-formed felt: 2^124.
pub const FELT_HI_BOUND: u128 = 0x10000000000000000000000000000000;

impl Felt {
    /// A felt is well formed when its value is below 2^252.
    pub open spec fn wf(self) -> bool {
        self.hi < FELT_HI_BOUND
    }

    /// The additive identity, also used as the "undeployed" sentinel.
    pub open spec fn zero_spec() -> Felt {
        Felt { hi: 0, lo: 0 }
    }

    pub fn zero() -> (r: Felt)
        ensures
            r == Felt::zero_spec(),
            r.wf(),
    {
        Felt { hi: 0, lo: 0 }
    }

    /// Builds a small felt from a machine word.
    pub fn from_u64(x: u64) -> (r: Felt)
        ensures
            r == (Felt { hi: 0, lo: x as u128 }),
            r.wf(),
    {
        Felt { hi: 0, lo: x as u128 }
    }

    /// Raw constructor; the result is well formed only when `hi` is in range.
    pub fn from_raw(hi: u128, lo: u128) -> (r: Felt)
        ensures
            r == (Felt { hi, lo }),
    {
        Felt { hi, lo }
    }

    /// Runtime check of well-formedness.
    pub fn is_wf(&self) -> (r: bool)
        ensures
            r == self.wf(),
    {
        self.hi < FELT_HI_BOUND
    }

    pub fn is_zero(&self) -> (r: bool)
        ensures
            r == (*self == Felt::zero_spec()),
    {
        self.hi == 0 && self.lo == 0
    }
}

/// The 32-byte stored form of a felt: low half then high half, little endian.
pub open spec fn felt_bytes(f: Felt) -> Seq<u8> {
    le_bytes(f.lo as nat, 16) + le_bytes(f.hi as nat, 16)
}

/// What a stored byte string denotes as a felt; `None` when the string is
/// not 32 bytes long or the value does not fit in 252 bits.
pub open spec fn dec_felt(s: Seq<u8>) -> Option<Felt> {
    if s.len() == 32 {
        let lo = from_le(s.subrange(0, 16));
        let hi = from_le(s.subrange(16, 32));
        if hi < FELT_HI_BOUND as nat {
            Some(Felt { hi: hi as u128, lo: lo as u128 })
        } else {
            None
        }
    } else {
        None
    }
}

pub proof fn lemma_felt_bytes_len(f: Felt)
    ensures
        felt_bytes(f).len() == 32,
{
    lemma_le_bytes_len(f.lo as nat, 16);
    lemma_le_bytes_len(f.hi as nat, 16);
}

/// Decoding inverts encoding for every well-formed felt.
pub proof fn lemma_felt_round_trip(f: Felt)
    requires
        f.wf(),
    ensures
        felt_bytes(f).len() == 32,
        dec_felt(felt_bytes(f)) == Some(f),
{
    lemma_le_bytes_len(f.lo as nat, 16);
    lemma_le_bytes_len(f.hi as nat, 16);
    let s = felt_bytes(f);
    assert(s.subrange(0, 16) =~= le_bytes(f.lo as nat, 16));
    assert(s.subrange(16, 32) =~= le_bytes(f.hi as nat, 16));
    lemma_pow256_16();
    lemma_from_le_le_bytes(f.lo as nat, 16);
    lemma_from_le_le_bytes(f.hi as nat, 16);
}

pub fn encode_felt(f: &Felt) -> (r: Vec<u8>)
    ensures
        r@ == felt_bytes(*f),
{
    let mut v = u128_to_le_bytes(f.lo, 16);
    let mut h = u128_to_le_bytes(f.hi, 16);
    v.append(&mut h);
    v
}

/// Reads the felt stored as `v[off .. off + 32]`.
pub fn decode_felt_at(v: &Vec<u8>, off: usize) -> (r: Option<Felt>)
    requires
        off + 32 <= v@.len(),
    ensures
        r == dec_felt(v@.subrange(off as int, off as int + 32)),
{
    let n: usize = v.len();
    proof {
        assert(off + 32 <= n);
        let chunk = v@.subrange(off as int, off as int + 32);
        assert(chunk.subrange(0, 16) =~= v@.subrange(off as int, off as int + 16));
        assert(chunk.subrange(16, 32) =~= v@.subrange(off as int + 16, off as int + 32));
        lemma_from_le_bound(chunk.subrange(0, 16));
        lemma_from_le_bound(chunk.subrange(16, 32));
        lemma_pow256_16();
    }
    let lo = u128_from_le_bytes(v, off, 16);
    let hi = u128_from_le_bytes(v, off + 16, 16);
    if hi < FELT_HI_BOUND {
        Some(Felt { hi, lo })
    } else {
        None
    }
}

pub fn decode_felt(v: &Vec<u8>) -> (r: Option<Felt>)
    ensures
        r == dec_felt(v@),
{
    if v.len() != 32 {
        return None;
    }
    proof {
        assert(v@.subrange(0, 32) =~= v@);
    }
    decode_felt_at(v, 0)
}

} // verus!
