use vstd::prelude::*;
use vstd::arithmetic::div_mod::lemma_fundamental_div_mod;

verus! {

/// 256 raised to `len`: the number of values a `len`-byte field can hold.
pub open spec fn pow256(len: nat) -> nat
    decreases len,
{
    if len == 0 {
        1
    } else {
        256 * pow256((len - 1) as nat)
    }
}

/// The little-endian encoding of `n` in exactly `len` bytes
/// (higher bytes are dropped if `n` does not fit).
pub open spec fn le_bytes(n: nat, len: nat) -> Seq<u8>
    decreases len,
{
    if len == 0 {
        Seq::empty()
    } else {
        seq![(n % 256) as u8] + le_bytes(n / 256, (len - 1) as nat)
    }
}

/// The number a little-endian byte string denotes.
pub open spec fn from_le(s: Seq<u8>) -> nat
    decreases s.len(),
{
    if s.len() == 0 {
        0
    } else {
        s[0] as nat + 256 * from_le(s.drop_first())
    }
}

pub proof fn lemma_pow256_pos(len: nat)
    ensures
        pow256(len) >= 1,
    decreases len,
{
    if len > 0 {
        lemma_pow256_pos((len - 1) as nat);
    }
}

pub proof fn lemma_pow256_mono(a: nat, b: nat)
    requires
        a <= b,
    ensures
        pow256(a) <= pow256(b),
    decreases b,
{
    if a < b {
        lemma_pow256_mono(a, (b - 1) as nat);
        lemma_pow256_pos((b - 1) as nat);
    }
}

pub proof fn lemma_pow256_16()
    ensures
        pow256(8) == 0x10000000000000000,
        pow256(16) == 0x100000000000000000000000000000000,
{
    reveal_with_fuel(pow256, 17);
}

pub proof fn lemma_le_bytes_len(n: nat, len: nat)
    ensures
        le_bytes(n, len).len() == len,
    decreases len,
{
    if len > 0 {
        lemma_le_bytes_len(n / 256, (len - 1) as nat);
    }
}

/// Decoding inverts encoding for every value that fits in `len` bytes.
pub proof fn lemma_from_le_le_bytes(n: nat, len: nat)
    requires
        n < pow256(len),
    ensures
        from_le(le_bytes(n, len)) == n,
    decreases len,
{
    if len == 0 {
        assert(le_bytes(n, 0) =~= Seq::<u8>::empty());
    } else {
        let s = le_bytes(n, len);
        let rest = le_bytes(n / 256, (len - 1) as nat);
        lemma_le_bytes_len(n / 256, (len - 1) as nat);
        assert(s[0] == (n % 256) as u8);
        assert(s.drop_first() =~= rest);
        lemma_fundamental_div_mod(n as int, 256);
        let q = n / 256;
        let p = pow256((len - 1) as nat);
        assert(256 * q <= n);
        assert(q < p);
        lemma_from_le_le_bytes(q, (len - 1) as nat);
    }
}

/// A `len`-byte string always denotes a value below `256^len`.
pub proof fn lemma_from_le_bound(s: Seq<u8>)
    ensures
        from_le(s) < pow256(s.len()),
    decreases s.len(),
{
    if s.len() > 0 {
        lemma_from_le_bound(s.drop_first());
    }
}

/// Writes `x` to `len` little-endian bytes.
pub fn u128_to_le_bytes(x: u128, len: usize) -> (r: Vec<u8>)
    ensures
        r@ == le_bytes(x as nat, len as nat),
{
    let mut out: Vec<u8> = Vec::new();
    let mut cur: u128 = x;
    let mut i: usize = 0;
    proof {
        assert(out@ + le_bytes(x as nat, len as nat) =~= le_bytes(x as nat, len as nat));
    }
    while i < len
        invariant
            i <= len,
            out@.len() == i,
            out@ + le_bytes(cur as nat, (len - i) as nat) == le_bytes(x as nat, len as nat),
        decreases len - i,
    {
        let b: u8 = (cur % 256) as u8;
        proof {
            let tail = le_bytes(cur as nat / 256, (len - i - 1) as nat);
            assert(le_bytes(cur as nat, (len - i) as nat) =~= seq![b] + tail);
            assert(out@.push(b) + tail =~= out@ + (seq![b] + tail));
        }
        out.push(b);
        cur = cur / 256;
        i += 1;
    }
    proof {
        assert(out@ + le_bytes(cur as nat, 0) =~= out@);
    }
    out
}

/// Reads the value of `len` little-endian bytes of `s` starting at `start`.
pub fn u128_from_le_bytes(s: &Vec<u8>, start: usize, len: usize) -> (r: u128)
    requires
        start + len <= s@.len(),
        len <= 16,
    ensures
        r as nat == from_le(s@.subrange(start as int, (start + len) as int)),
{
    let n: usize = s.len();
    let mut acc: u128 = 0;
    let mut i: usize = len;
    while i > 0
        invariant
            i <= len,
            start + len <= n,
            n == s@.len(),
            len <= 16,
            acc as nat == from_le(s@.subrange((start + i) as int, (start + len) as int)),
        decreases i,
    {
        i = i - 1;
        proof {
            let suffix = s@.subrange((start + i + 1) as int, (start + len) as int);
            lemma_from_le_bound(suffix);
            lemma_pow256_mono(suffix.len(), 15);
            lemma_pow256_16();
            reveal_with_fuel(pow256, 17);
            let whole = s@.subrange((start + i) as int, (start + len) as int);
            assert(whole.drop_first() =~= suffix);
            assert(whole[0] == s@[(start + i) as int]);
        }
        acc = acc * 256 + (s[start + i] as u128);
    }
    acc
}

/// Whether two byte strings hold the same bytes.
pub fn bytes_eq(a: &Vec<u8>, b: &Vec<u8>) -> (r: bool)
    ensures
        r == (a@ == b@),
{
    if a.len() != b.len() {
        return false;
    }
    let mut i: usize = 0;
    while i < a.len()
        invariant
            i <= a@.len(),
            a@.len() == b@.len(),
            forall|j: int| 0 <= j < i ==> a@[j] == b@[j],
        decreases a@.len() - i,
    {
        if a[i] != b[i] {
            return false;
        }
        i += 1;
    }
    proof {
        assert(a@ =~= b@);
    }
    true
}

} // verus!
