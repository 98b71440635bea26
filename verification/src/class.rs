use vstd::prelude::*;
use crate::bytes::{le_bytes, from_le, lemma_le_bytes_len, lemma_from_le_le_bytes, lemma_pow256_16, u128_to_le_bytes, u128_from_le_bytes};
use crate::felt::{Felt, felt_bytes, dec_felt, encode_felt, decode_felt_at, lemma_felt_bytes_len, lemma_felt_round_trip};
use crate::store::clone_bytes;
use crate::bytes::bytes_eq;

verus! {

/// A contract class: the program as a list of field elements plus the raw
/// ABI bytes, stored under its class hash once declared.
#[derive(Debug)]
pub struct ContractClass {
    pub program: Vec<Felt>,
    pub abi: Vec<u8>,
}

/// The mathematical content of a contract class.
pub ghost struct ClassView {
    pub program: Seq<Felt>,
    pub abi: Seq<u8>,
}

impl View for ContractClass {
    type V = ClassView;

    open spec fn view(&self) -> ClassView {
        ClassView { program: self.program@, abi: self.abi@ }
    }
}

impl ContractClass {
    /// A class can be stored when every program word fits the field.
    pub open spec fn wf(&self) -> bool {
        forall|i: int| 0 <= i < self.program@.len() ==> (#[trigger] self.program@[i]).wf()
    }
}

pub open spec fn class_view_wf(c: ClassView) -> bool {
    &&& forall|i: int| 0 <= i < c.program.len() ==> (#[trigger] c.program[i]).wf()
    &&& c.program.len() < 0x10000000000000000
}

/// The concatenated stored form of a list of felts.
pub open spec fn enc_felts(s: Seq<Felt>) -> Seq<u8>
    decreases s.len(),
{
    if s.len() == 0 {
        Seq::empty()
    } else {
        felt_bytes(s[0]) + enc_felts(s.drop_first())
    }
}

/// The stored form of a class: an 8-byte program length, the program
/// felts, then the ABI bytes.
pub open spec fn enc_class(c: ClassView) -> Seq<u8> {
    le_bytes(c.program.len(), 8) + enc_felts(c.program) + c.abi
}

/// Reads a run of consecutive 32-byte felts; `None` on a length mismatch
/// or an out-of-range word.
pub open spec fn dec_felts(s: Seq<u8>) -> Option<Seq<Felt>>
    decreases s.len(),
{
    if s.len() == 0 {
        Some(Seq::empty())
    } else if s.len() < 32 {
        None
    } else {
        match dec_felt(s.take(32)) {
            Option::None => None,
            Option::Some(f) => match dec_felts(s.skip(32)) {
                Option::None => None,
                Option::Some(rest) => Some(seq![f] + rest),
            },
        }
    }
}

/// What a stored byte string denotes as a class, if anything.
pub open spec fn dec_class(s: Seq<u8>) -> Option<ClassView> {
    if s.len() < 8 {
        None
    } else {
        let n = from_le(s.take(8));
        if s.len() < 8 + 32 * n as int {
            None
        } else {
            match dec_felts(s.subrange(8, 8 + 32 * n as int)) {
                Option::None => None,
                Option::Some(prog) => Some(
                    ClassView { program: prog, abi: s.skip(8 + 32 * n as int) },
                ),
            }
        }
    }
}

pub proof fn lemma_enc_felts_len(s: Seq<Felt>)
    ensures
        enc_felts(s).len() == 32 * s.len(),
    decreases s.len(),
{
    if s.len() > 0 {
        lemma_felt_bytes_len(s[0]);
        lemma_enc_felts_len(s.drop_first());
    }
}

pub proof fn lemma_enc_felts_concat(a: Seq<Felt>, b: Seq<Felt>)
    ensures
        enc_felts(a + b) == enc_felts(a) + enc_felts(b),
    decreases a.len(),
{
    if a.len() == 0 {
        assert(a + b =~= b);
        assert(enc_felts(a) + enc_felts(b) =~= enc_felts(b));
    } else {
        assert((a + b)[0] == a[0]);
        assert((a + b).drop_first() =~= a.drop_first() + b);
        lemma_enc_felts_concat(a.drop_first(), b);
        assert(felt_bytes(a[0]) + (enc_felts(a.drop_first()) + enc_felts(b)) =~= (felt_bytes(a[0])
            + enc_felts(a.drop_first())) + enc_felts(b));
        assert((a + b).len() > 0);
    }
}

/// Felt-run decoding inverts encoding when every word is well formed.
pub proof fn lemma_dec_felts_enc(s: Seq<Felt>)
    requires
        forall|i: int| 0 <= i < s.len() ==> (#[trigger] s[i]).wf(),
    ensures
        dec_felts(enc_felts(s)) == Some(s),
    decreases s.len(),
{
    if s.len() == 0 {
        assert(enc_felts(s).len() == 0);
        assert(Seq::<Felt>::empty() =~= s);
    } else {
        let e = enc_felts(s);
        lemma_felt_bytes_len(s[0]);
        lemma_enc_felts_len(s.drop_first());
        assert(e.take(32) =~= felt_bytes(s[0]));
        assert(e.skip(32) =~= enc_felts(s.drop_first()));
        lemma_felt_round_trip(s[0]);
        assert(forall|i: int|
            0 <= i < s.drop_first().len() ==> (#[trigger] s.drop_first()[i]).wf());
        lemma_dec_felts_enc(s.drop_first());
        assert(seq![s[0]] + s.drop_first() =~= s);
    }
}

/// Class decoding inverts class encoding: the round trip is the identity
/// on every storable class.
pub proof fn lemma_class_round_trip(c: ClassView)
    requires
        class_view_wf(c),
    ensures
        dec_class(enc_class(c)) == Some(c),
{
    let n = c.program.len();
    let e = enc_class(c);
    lemma_le_bytes_len(n, 8);
    lemma_enc_felts_len(c.program);
    assert(e.take(8) =~= le_bytes(n, 8));
    lemma_pow256_16();
    lemma_from_le_le_bytes(n, 8);
    assert(e.subrange(8, 8 + 32 * n as int) =~= enc_felts(c.program));
    lemma_dec_felts_enc(c.program);
    assert(e.skip(8 + 32 * n as int) =~= c.abi);
}

/// Whether two felt lists hold the same words.
fn felts_eq(a: &Vec<Felt>, b: &Vec<Felt>) -> (r: bool)
    ensures
        r == (a@ == b@),
{
    if a.len() != b.len() {
        return false;
    }
    let mut i: usize = 0;
    while i < a.len()
        invariant
            i <= a@.len(),
            a@.len() == b@.len(),
            forall|j: int| 0 <= j < i ==> a@[j] == b@[j],
        decreases a@.len() - i,
    {
        if a[i] != b[i] {
            return false;
        }
        i += 1;
    }
    proof {
        assert(a@ =~= b@);
    }
    true
}

impl PartialEq for ContractClass {
    /// Two classes are equal when they hold the same program words and
    /// the same ABI bytes.
    fn eq(&self, other: &ContractClass) -> (r: bool) {
        felts_eq(&self.program, &other.program) && bytes_eq(&self.abi, &other.abi)
    }
}

impl vstd::std_specs::cmp::PartialEqSpecImpl for ContractClass {
    open spec fn obeys_eq_spec() -> bool {
        true
    }

    open spec fn eq_spec(&self, other: &ContractClass) -> bool {
        self.program@ == other.program@ && self.abi@ == other.abi@
    }
}

/// Writes the stored form of `c`, or reports that a program word does not
/// fit the field.
pub fn encode_class(c: &ContractClass) -> (r: Option<Vec<u8>>)
    ensures
        match r {
            Some(v) => c.wf() && v@ == enc_class(c@),
            None => !c.wf(),
        },
{
    let n: usize = c.program.len();
    let mut i: usize = 0;
    while i < n
        invariant
            i <= n,
            n == c.program@.len(),
            forall|j: int| 0 <= j < i ==> (#[trigger] c.program@[j]).wf(),
        decreases n - i,
    {
        if !c.program[i].is_wf() {
            return None;
        }
        i += 1;
    }
    let mut out = u128_to_le_bytes(n as u128, 8);
    proof {
        assert(out@ + enc_felts(c.program@.take(0)) =~= out@);
        assert(enc_felts(c.program@.take(0)) =~= Seq::<u8>::empty());
        assert(out@ =~= le_bytes(n as nat, 8) + enc_felts(c.program@.take(0)));
    }
    let mut i: usize = 0;
    while i < n
        invariant
            i <= n,
            n == c.program@.len(),
            c.wf(),
            out@ == le_bytes(n as nat, 8) + enc_felts(c.program@.take(i as int)),
        decreases n - i,
    {
        let mut word = encode_felt(&c.program[i]);
        proof {
            let pre = c.program@.take(i as int);
            let single = seq![c.program@[i as int]];
            assert(pre + single =~= c.program@.take(i as int + 1));
            lemma_enc_felts_concat(pre, single);
            assert(single.drop_first() =~= Seq::<Felt>::empty());
            assert(enc_felts(single) == felt_bytes(single[0]) + enc_felts(single.drop_first()));
            assert(enc_felts(single.drop_first()) == Seq::<u8>::empty());
            assert(felt_bytes(single[0]) + Seq::<u8>::empty() =~= felt_bytes(single[0]));
            assert((le_bytes(n as nat, 8) + enc_felts(pre)) + felt_bytes(c.program@[i as int])
                =~= le_bytes(n as nat, 8) + (enc_felts(pre) + felt_bytes(c.program@[i as int])));
        }
        out.append(&mut word);
        i += 1;
    }
    let mut abi = clone_bytes(&c.abi);
    proof {
        assert(c.program@.take(n as int) =~= c.program@);
    }
    out.append(&mut abi);
    Some(out)
}

/// Reads a class back from its stored form.
pub fn decode_class(v: &Vec<u8>) -> (r: Option<ContractClass>)
    ensures
        match r {
            Some(c) => dec_class(v@) == Some(c@) && c.wf(),
            None => dec_class(v@) is None,
        },
{
    let len: usize = v.len();
    if len < 8 {
        return None;
    }
    proof {
        assert(v@.subrange(0, 8) =~= v@.take(8));
        crate::bytes::lemma_from_le_bound(v@.take(8));
        lemma_pow256_16();
    }
    let n128: u128 = u128_from_le_bytes(v, 0, 8);
    if (len as u128) < 8 + 32 * n128 {
        return None;
    }
    proof {
        assert(8 + 32 * n128 <= len as u128);
        assert(n128 <= len as u128);
    }
    let n: usize = n128 as usize;
    proof {
        assert(n as int == n128 as int);
        assert(n as nat == from_le(v@.take(8)));
    }
    let ghost body = v@.subrange(8, 8 + 32 * (n as int));
    let mut prog: Vec<Felt> = Vec::new();
    proof {
        assert(body.skip(0) =~= body);
        if let Option::Some(rest) = dec_felts(body) {
            assert(prog@ + rest =~= rest);
        }
    }
    let mut i: usize = 0;
    while i < n
        invariant
            i <= n,
            len == v@.len(),
            8 + 32 * n <= v@.len(),
            n as nat == from_le(v@.take(8)),
            body == v@.subrange(8, 8 + 32 * (n as int)),
            prog@.len() == i,
            forall|j: int| 0 <= j < i ==> (#[trigger] prog@[j]).wf(),
            match dec_felts(body.skip(32 * i as int)) {
                Option::Some(rest) => dec_felts(body) == Some(prog@ + rest),
                Option::None => dec_felts(body) is None,
            },
        decreases n - i,
    {
        proof {
            let tail = body.skip(32 * i as int);
            assert(tail.len() == 32 * (n - i));
            assert(tail.take(32) =~= v@.subrange(8 + 32 * (i as int), 8 + 32 * (i as int) + 32));
            assert(tail.skip(32) =~= body.skip(32 * (i as int + 1)));
        }
        let f_opt = decode_felt_at(v, 8 + 32 * i);
        match f_opt {
            Option::None => {
                proof {
                    assert(dec_felts(body.skip(32 * i as int)) is None);
                    assert(dec_felts(body) is None);
                    assert(v@.len() >= 8 + 32 * (n as int));
                    assert(dec_class(v@) is None);
                }
                return None;
            },
            Option::Some(f) => {
                proof {
                    let tail = body.skip(32 * i as int);
                    if let Option::Some(rest) = dec_felts(tail.skip(32)) {
                        assert(prog@ + (seq![f] + rest) =~= prog@.push(f) + rest);
                    }
                }
                prog.push(f);
            },
        }
        i += 1;
    }
    proof {
        assert(body.skip(32 * n as int) =~= Seq::<u8>::empty());
        assert(prog@ + Seq::<Felt>::empty() =~= prog@);
    }
    let mut abi: Vec<u8> = Vec::new();
    let mut j: usize = 8 + 32 * n;
    proof {
        assert(v@.subrange(8 + 32 * n as int, 8 + 32 * n as int) =~= Seq::<u8>::empty());
        assert(abi@ =~= v@.subrange(8 + 32 * n as int, 8 + 32 * n as int));
    }
    while j < len
        invariant
            8 + 32 * n <= j <= len,
            len == v@.len(),
            abi@ == v@.subrange(8 + 32 * n as int, j as int),
        decreases len - j,
    {
        abi.push(v[j]);
        proof {
            assert(v@.subrange(8 + 32 * n as int, j as int).push(v@[j as int]) =~= v@.subrange(
                8 + 32 * n as int,
                j as int + 1,
            ));
        }
        j += 1;
    }
    proof {
        assert(abi@ =~= v@.skip(8 + 32 * n as int));
    }
    Some(ContractClass { program: prog, abi })
}

} // verus!
