use vstd::prelude::*;
use crate::bytes::bytes_eq;

verus! {

/// The md5 digest of a byte string; what the digest is on given bytes is
/// settled by the md5 crate alone.
pub uninterp spec fn md5_of(data: Seq<u8>) -> Seq<u8>;

/// Relies on md5::compute: the digest is 16 bytes and depends on the
/// input bytes alone.
#[verifier::external_body]
fn md5_digest(data: &Vec<u8>) -> (r: Vec<u8>)
    ensures
        r@ == md5_of(data@),
        r@.len() == 16,
{
    md5::compute(data.as_slice()).0.to_vec()
}

/// The lower-case ASCII hex digit of a nibble.
pub open spec fn hex_digit(n: u8) -> u8 {
    if n < 10 {
        (0x30 + n) as u8
    } else {
        (0x57 + n) as u8
    }
}

/// The lower-case ASCII hex spelling of a byte string, two digits a byte.
pub open spec fn hex_of(s: Seq<u8>) -> Seq<u8>
    decreases s.len(),
{
    if s.len() == 0 {
        Seq::empty()
    } else {
        seq![hex_digit(s[0] / 16), hex_digit(s[0] % 16)] + hex_of(s.drop_first())
    }
}

pub proof fn lemma_hex_concat(a: Seq<u8>, b: Seq<u8>)
    ensures
        hex_of(a + b) == hex_of(a) + hex_of(b),
    decreases a.len(),
{
    if a.len() == 0 {
        assert(a + b =~= b);
        assert(hex_of(a) + hex_of(b) =~= hex_of(b));
    } else {
        let head = seq![hex_digit(a[0] / 16), hex_digit(a[0] % 16)];
        assert((a + b)[0] == a[0]);
        assert((a + b).drop_first() =~= a.drop_first() + b);
        lemma_hex_concat(a.drop_first(), b);
        assert(head + (hex_of(a.drop_first()) + hex_of(b)) =~= (head + hex_of(a.drop_first()))
            + hex_of(b));
        assert((a + b).len() > 0);
    }
}

fn hex_digit_byte(n: u8) -> (r: u8)
    requires
        n < 16,
    ensures
        r == hex_digit(n),
{
    if n < 10 {
        0x30 + n
    } else {
        0x57 + n
    }
}

/// Spells a byte string in lower-case hex.
pub fn hex_encode(v: &Vec<u8>) -> (r: Vec<u8>)
    ensures
        r@ == hex_of(v@),
{
    let mut out: Vec<u8> = Vec::new();
    let mut i: usize = 0;
    proof {
        assert(v@.take(0) =~= Seq::<u8>::empty());
        assert(out@ =~= hex_of(v@.take(0)));
    }
    while i < v.len()
        invariant
            i <= v@.len(),
            out@ == hex_of(v@.take(i as int)),
        decreases v@.len() - i,
    {
        let b = v[i];
        let hi = hex_digit_byte(b / 16);
        let lo = hex_digit_byte(b % 16);
        proof {
            let pre = v@.take(i as int);
            let single = seq![v@[i as int]];
            assert(pre + single =~= v@.take(i as int + 1));
            lemma_hex_concat(pre, single);
            assert(single.drop_first() =~= Seq::<u8>::empty());
            assert(hex_of(single.drop_first()) == Seq::<u8>::empty());
            assert(hex_of(single) == seq![hex_digit(single[0] / 16), hex_digit(single[0] % 16)]
                + hex_of(single.drop_first()));
            assert(hex_of(single) =~= seq![hex_digit(v@[i as int] / 16), hex_digit(v@[i as int] % 16)]);
            assert(out@.push(hex_digit(v@[i as int] / 16)).push(hex_digit(v@[i as int] % 16))
                =~= out@ + hex_of(single));
        }
        out.push(hi);
        out.push(lo);
        i += 1;
    }
    proof {
        assert(v@.take(v@.len() as int) =~= v@);
    }
    out
}

/// The md5 checksum of `data`, spelled as 32 lower-case hex digits.
pub fn md5_hex(data: &Vec<u8>) -> (r: Vec<u8>)
    ensures
        r@ == hex_of(md5_of(data@)),
        r@.len() == 32,
{
    let d = md5_digest(data);
    proof {
        lemma_hex_len(d@);
    }
    hex_encode(&d)
}

pub proof fn lemma_hex_len(s: Seq<u8>)
    ensures
        hex_of(s).len() == 2 * s.len(),
    decreases s.len(),
{
    if s.len() > 0 {
        lemma_hex_len(s.drop_first());
    }
}

/// Whether `data` has the md5 checksum `expected`, given as ASCII
/// lower-case hex digits.
pub fn check_md5(data: &Vec<u8>, expected: &Vec<u8>) -> (r: bool)
    ensures
        r == (hex_of(md5_of(data@)) == expected@),
{
    let h = md5_hex(data);
    bytes_eq(&h, expected)
}

} // verus!
