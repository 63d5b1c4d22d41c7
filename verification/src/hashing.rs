//! The hashing interface: the capability set every hash strategy over the
//! field must expose, and the wrapped-digest and error types it speaks of.

use vstd::prelude::*;

use crate::field::{be_value, encodable, Felt};

verus! {

/// The failure of a hashing operation.
#[derive(Clone, Copy, Debug, PartialEq, Eq, Structural)]
pub enum HashError {
    /// The input byte sequence cannot be encoded as a field element: it is
    /// longer than 32 bytes or denotes a value at or above the field modulus.
    Encoding,
}

/// A hash digest: exactly one field element, wrapped for use as an
/// identifier or commitment value.
#[derive(Debug)]
pub struct Felt252Wrapper(pub Felt);

impl View for Felt252Wrapper {
    type V = Seq<u8>;

    open spec fn view(&self) -> Seq<u8> {
        self.0@
    }
}

impl PartialEq for Felt252Wrapper {
    fn eq(&self, other: &Felt252Wrapper) -> (r: bool) {
        self.0 == other.0
    }
}

impl vstd::std_specs::cmp::PartialEqSpecImpl for Felt252Wrapper {
    open spec fn obeys_eq_spec() -> bool {
        true
    }

    open spec fn eq_spec(&self, other: &Felt252Wrapper) -> bool {
        self@ == other@
    }
}

impl Felt252Wrapper {
    /// A copy of this digest, byte for byte.
    pub fn duplicate(&self) -> (r: Felt252Wrapper)
        ensures
            r@ == self@,
    {
        Felt252Wrapper(self.0.duplicate())
    }
}

/// The field values of a sequence of elements, in order.
pub open spec fn felt_values(s: Seq<Felt>) -> Seq<nat> {
    s.map(|i: int, f: Felt| f.value())
}

/// The field values under a sequence of wrapped digests, in order.
pub open spec fn wrapper_values(s: Seq<Felt252Wrapper>) -> Seq<nat> {
    s.map(|i: int, w: Felt252Wrapper| w.0.value())
}

/// Every element of the sequence is canonically encoded.
pub open spec fn all_wf(s: Seq<Felt>) -> bool {
    forall|i: int| 0 <= i < s.len() ==> s[i].wf()
}

/// Every wrapped digest in the sequence is canonically encoded.
pub open spec fn all_wrappers_wf(s: Seq<Felt252Wrapper>) -> bool {
    forall|i: int| 0 <= i < s.len() ==> s[i].0.wf()
}

/// The operations every hash strategy over the field must provide. Each
/// operation is pure: its result is fixed by the inputs' field values alone,
/// through the strategy's own spec functions, so two calls on equal inputs
/// agree, whichever instance they go through.
pub trait HasherT: Sized {
    /// The strategy's hash of one field value.
    spec fn single_hash(x: nat) -> nat;

    /// The strategy's hash of an ordered pair of field values. Not
    /// commutative in general: the input order is part of the definition.
    spec fn pair_hash(a: nat, b: nat) -> nat;

    /// The strategy's hash of an ordered sequence of field values.
    spec fn many_hash(s: Seq<nat>) -> nat;

    /// Hashes a byte sequence: the bytes are decoded into one field element
    /// and that element is hashed. Succeeds exactly on encodable inputs; an
    /// input that cannot be encoded is rejected, never truncated or wrapped.
    fn hash_bytes(&self, data: &[u8]) -> (r: Result<Felt252Wrapper, HashError>)
        ensures
            r is Ok <==> encodable(data@),
            r matches Ok(d) ==> d.0.wf() && d.0.value() == Self::single_hash(be_value(data@)),
            r matches Err(e) ==> e == HashError::Encoding,
    ;

    /// Hashes an ordered sequence of wrapped digests into one digest,
    /// preserving the input order.
    fn compute_hash_on_wrappers(&self, data: &[Felt252Wrapper]) -> (r: Felt252Wrapper)
        requires
            all_wrappers_wf(data@),
        ensures
            r.0.wf(),
            r.0.value() == Self::many_hash(wrapper_values(data@)),
    ;

    /// Hashes an ordered pair of field elements.
    fn hash_elements(a: Felt, b: Felt) -> (r: Felt)
        requires
            a.wf(),
            b.wf(),
        ensures
            r.wf(),
            r.value() == Self::pair_hash(a.value(), b.value()),
    ;

    /// Hashes an ordered sequence of field elements.
    fn compute_hash_on_elements(elements: &[Felt]) -> (r: Felt)
        requires
            all_wf(elements@),
        ensures
            r.wf(),
            r.value() == Self::many_hash(felt_values(elements@)),
    ;
}

/// A hash strategy with a canonical, trivially constructible instance.
pub trait DefaultHasher: HasherT {
    /// The canonical instance of this strategy.
    spec fn canonical() -> Self;

    /// Obtains the canonical instance. Construction never fails and always
    /// yields the same value.
    fn hasher() -> (r: Self)
        ensures
            r == Self::canonical(),
    ;
}

} // verus!
