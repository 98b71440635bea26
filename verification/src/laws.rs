use vstd::prelude::*;
use crate::adapter::{sk_class, nonce_in, class_hash_in, compiled_hash_in, declared_in, class_in, bump_nonce};
use crate::bytes::{lemma_le_bytes_len, lemma_from_le_le_bytes, lemma_pow256_16};
use crate::class::{ClassView, enc_class, class_view_wf, lemma_class_round_trip};
use crate::felt::Felt;
use crate::store::StoreKey;

verus! {

/// An account the store never saw reads as empty: its nonce is zero and
/// its class-hash binding is the undeployed sentinel.
pub proof fn lemma_fresh_account(a: Felt)
    ensures
        nonce_in(Map::<StoreKey, Seq<u8>>::empty(), a) == 0,
        class_hash_in(Map::<StoreKey, Seq<u8>>::empty(), a) == Felt::zero_spec(),
{
}

/// A class hash the store never saw reads as undeclared, carries no
/// class, and has the zero compiled-class hash.
pub proof fn lemma_fresh_class(h: Felt)
    ensures
        !declared_in(Map::<StoreKey, Seq<u8>>::empty(), h),
        class_in(Map::<StoreKey, Seq<u8>>::empty(), h) is None,
        compiled_hash_in(Map::<StoreKey, Seq<u8>>::empty(), h) == Felt::zero_spec(),
{
}

/// Declaring a class is idempotent: after a declaration of `c` under `h`,
/// declaring the identical payload again is accepted (the stored record
/// matches, so no collision), changes nothing durable, and the class
/// reads back as `c` after either declaration.
pub proof fn lemma_declare_idempotent(m: Map<StoreKey, Seq<u8>>, h: Felt, c: ClassView)
    requires
        class_view_wf(c),
    ensures
        ({
            let m1 = m.insert(sk_class(h), enc_class(c));
            &&& declared_in(m1, h)
            &&& m1[sk_class(h)] == enc_class(c)
            &&& m1.insert(sk_class(h), enc_class(c)) == m1
            &&& class_in(m1, h) == Some(c)
        }),
{
    let m1 = m.insert(sk_class(h), enc_class(c));
    lemma_class_round_trip(c);
    assert(m1.insert(sk_class(h), enc_class(c)) =~= m1);
}

/// The store after `n` sequential nonce increments for `a`.
pub open spec fn bump_nonce_n(m: Map<StoreKey, Seq<u8>>, a: Felt, n: nat) -> Map<StoreKey, Seq<u8>>
    decreases n,
{
    if n == 0 {
        m
    } else {
        bump_nonce(bump_nonce_n(m, a, (n - 1) as nat), a)
    }
}

/// One nonce increment raises the stored nonce by exactly one.
pub proof fn lemma_bump_nonce_reads(m: Map<StoreKey, Seq<u8>>, a: Felt)
    requires
        nonce_in(m, a) < u64::MAX,
    ensures
        nonce_in(bump_nonce(m, a), a) == nonce_in(m, a) + 1,
{
    let v = (nonce_in(m, a) + 1) as nat;
    lemma_le_bytes_len(v, 8);
    lemma_pow256_16();
    lemma_from_le_le_bytes(v, 8);
}

/// Nonces are monotone: `n` sequential increments raise the nonce by
/// exactly `n`; from a fresh account it then reads as `n`.
pub proof fn lemma_nonce_monotonic(m: Map<StoreKey, Seq<u8>>, a: Felt, n: nat)
    requires
        nonce_in(m, a) + n <= u64::MAX,
    ensures
        nonce_in(bump_nonce_n(m, a, n), a) == nonce_in(m, a) + n,
    decreases n,
{
    if n > 0 {
        lemma_nonce_monotonic(m, a, (n - 1) as nat);
        lemma_bump_nonce_reads(bump_nonce_n(m, a, (n - 1) as nat), a);
    }
}

} // verus!
