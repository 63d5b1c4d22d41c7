//! The Poseidon binding: the one implementation of the hashing interface,
//! delegating to the Starknet Poseidon permutation hash of an external,
//! vetted cryptographic library.

use vstd::prelude::*;

use crate::field::Felt;
use crate::hashing::{
    all_wf, all_wrappers_wf, felt_values, wrapper_values, DefaultHasher, Felt252Wrapper, HashError,
    HasherT,
};
use starknet_crypto::FieldElement;

verus! {

/// The value of the Starknet Poseidon hash of one field value.
pub uninterp spec fn poseidon_single(x: nat) -> nat;

/// The value of the Starknet Poseidon hash of an ordered pair of field
/// values.
pub uninterp spec fn poseidon_pair(a: nat, b: nat) -> nat;

/// The value of the Starknet Poseidon hash of an ordered sequence of field
/// values.
pub uninterp spec fn poseidon_many(s: Seq<nat>) -> nat;

/// Relies on starknet_crypto::poseidon_hash_single: the Starknet Poseidon
/// hash of one field element, a pure function of its input, whose result is
/// again an element of the field.
#[verifier::external_body]
fn poseidon_single_call(x: &Felt) -> (r: Felt)
    requires
        x.wf(),
    ensures
        r.wf(),
        r.value() == poseidon_single(x.value()),
{
    let fe = FieldElement::from_bytes_be(x.bytes.as_slice().try_into().unwrap()).unwrap();
    Felt { bytes: starknet_crypto::poseidon_hash_single(fe).to_bytes_be().to_vec() }
}

/// Relies on starknet_crypto::poseidon_hash: the Starknet Poseidon hash of an
/// ordered pair of field elements, a pure function of its inputs, whose
/// result is again an element of the field.
#[verifier::external_body]
fn poseidon_pair_call(a: &Felt, b: &Felt) -> (r: Felt)
    requires
        a.wf(),
        b.wf(),
    ensures
        r.wf(),
        r.value() == poseidon_pair(a.value(), b.value()),
{
    let fa = FieldElement::from_bytes_be(a.bytes.as_slice().try_into().unwrap()).unwrap();
    let fb = FieldElement::from_bytes_be(b.bytes.as_slice().try_into().unwrap()).unwrap();
    Felt { bytes: starknet_crypto::poseidon_hash(fa, fb).to_bytes_be().to_vec() }
}

/// Relies on starknet_crypto::poseidon_hash_many: the Starknet Poseidon hash
/// of an ordered sequence of field elements, a pure function of the sequence,
/// whose result is again an element of the field.
#[verifier::external_body]
fn poseidon_many_call(elements: &Vec<Felt>) -> (r: Felt)
    requires
        all_wf(elements@),
    ensures
        r.wf(),
        r.value() == poseidon_many(felt_values(elements@)),
{
    let mut fes: Vec<FieldElement> = Vec::with_capacity(elements.len());
    for f in elements.iter() {
        fes.push(FieldElement::from_bytes_be(f.bytes.as_slice().try_into().unwrap()).unwrap());
    }
    Felt { bytes: starknet_crypto::poseidon_hash_many(&fes).to_bytes_be().to_vec() }
}

/// The Poseidon hash strategy: a stateless marker value selecting the
/// Starknet Poseidon permutation hash. It owns nothing and carries no state.
#[derive(Clone, Copy, Debug, PartialEq, Eq, Structural)]
pub struct PoseidonHasher;

impl Default for PoseidonHasher {
    /// Construction never fails and yields the canonical instance.
    fn default() -> (r: Self)
        ensures
            r == PoseidonHasher,
    {
        PoseidonHasher
    }
}

impl HasherT for PoseidonHasher {
    open spec fn single_hash(x: nat) -> nat {
        poseidon_single(x)
    }

    open spec fn pair_hash(a: nat, b: nat) -> nat {
        poseidon_pair(a, b)
    }

    open spec fn many_hash(s: Seq<nat>) -> nat {
        poseidon_many(s)
    }

    fn hash_bytes(&self, data: &[u8]) -> (r: Result<Felt252Wrapper, HashError>) {
        match Felt::from_byte_slice_be(data) {
            Some(f) => Ok(Felt252Wrapper(poseidon_single_call(&f))),
            None => Err(HashError::Encoding),
        }
    }

    fn compute_hash_on_wrappers(&self, data: &[Felt252Wrapper]) -> (r: Felt252Wrapper) {
        let mut elems: Vec<Felt> = Vec::new();
        let mut i: usize = 0;
        while i < data.len()
            invariant
                i <= data@.len(),
                all_wrappers_wf(data@),
                elems@.len() == i,
                forall|k: int| 0 <= k < i ==> elems@[k]@ == data@[k].0@,
            decreases data@.len() - i,
        {
            elems.push(data[i].0.duplicate());
            i += 1;
        }
        proof {
            assert(all_wf(elems@));
            assert(felt_values(elems@) =~= wrapper_values(data@));
        }
        Felt252Wrapper(poseidon_many_call(&elems))
    }

    fn hash_elements(a: Felt, b: Felt) -> (r: Felt) {
        poseidon_pair_call(&a, &b)
    }

    fn compute_hash_on_elements(elements: &[Felt]) -> (r: Felt) {
        let mut elems: Vec<Felt> = Vec::new();
        let mut i: usize = 0;
        while i < elements.len()
            invariant
                i <= elements@.len(),
                all_wf(elements@),
                elems@.len() == i,
                forall|k: int| 0 <= k < i ==> elems@[k]@ == elements@[k]@,
            decreases elements@.len() - i,
        {
            elems.push(elements[i].duplicate());
            i += 1;
        }
        proof {
            assert(all_wf(elems@));
            assert(felt_values(elems@) =~= felt_values(elements@));
        }
        poseidon_many_call(&elems)
    }
}

impl DefaultHasher for PoseidonHasher {
    open spec fn canonical() -> Self {
        PoseidonHasher
    }

    fn hasher() -> (r: Self) {
        PoseidonHasher::default()
    }
}

/// Any two Poseidon hasher instances are the same value: the strategy is a
/// stateless marker, so equal inputs give equal digests under any two
/// instances obtained anywhere.
pub proof fn lemma_hasher_instances_agree(h1: PoseidonHasher, h2: PoseidonHasher)
    ensures
        h1 == h2,
{
}

} // verus!
