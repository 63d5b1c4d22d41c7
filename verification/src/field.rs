//! The Stark prime field's elements, held in their canonical big-endian byte
//! encoding, and the decoding of arbitrary byte sequences into them.

use vstd::prelude::*;

verus! {

/// 256 raised to the power `n`: the weight of a byte `n` places from the end
/// of a big-endian encoding.
pub open spec fn pow256(n: nat) -> nat
    decreases n,
{
    if n == 0 {
        1
    } else {
        256 * pow256((n - 1) as nat)
    }
}

/// The field modulus 2^251 + 17 * 2^192 + 1 (the Stark prime), written over
/// byte weights: 8 * 256^31 + 17 * 256^24 + 1.
pub open spec fn field_modulus() -> nat {
    8 * pow256(31) + 17 * pow256(24) + 1
}

/// The unsigned integer denoted by a big-endian byte sequence.
pub open spec fn be_value(s: Seq<u8>) -> nat
    decreases s.len(),
{
    if s.len() == 0 {
        0
    } else {
        be_value(s.drop_last()) * 256 + s.last() as nat
    }
}

/// A byte sequence encodes a field element exactly when it fits the 32-byte
/// encoding and its value lies below the field modulus.
pub open spec fn encodable(s: Seq<u8>) -> bool {
    s.len() <= 32 && be_value(s) < field_modulus()
}

/// Appending one byte multiplies the value by 256 and adds the byte.
pub proof fn lemma_be_value_push(s: Seq<u8>, x: u8)
    ensures
        be_value(s.push(x)) == be_value(s) * 256 + x,
{
    assert(s.push(x).drop_last() =~= s);
}

/// Every power of 256 is positive.
pub proof fn lemma_pow256_pos(n: nat)
    ensures
        pow256(n) >= 1,
    decreases n,
{
    if n > 0 {
        lemma_pow256_pos((n - 1) as nat);
    }
}

/// A sequence of `n` bytes denotes a value below 256^n.
pub proof fn lemma_be_value_bound(s: Seq<u8>)
    ensures
        be_value(s) < pow256(s.len()),
    decreases s.len(),
{
    if s.len() > 0 {
        lemma_be_value_bound(s.drop_last());
    }
}

/// The value of a concatenation: the left part is shifted past the right one.
pub proof fn lemma_be_value_append(s: Seq<u8>, t: Seq<u8>)
    ensures
        be_value(s + t) == be_value(s) * pow256(t.len()) + be_value(t),
    decreases t.len(),
{
    if t.len() == 0 {
        assert(s + t =~= s);
        assert(be_value(t) == 0);
        assert(pow256(0) == 1);
        assert(be_value(s + t) == be_value(s) * pow256(t.len()) + be_value(t));
    } else {
        let t0 = t.drop_last();
        assert(s + t =~= (s + t0).push(t.last()));
        lemma_be_value_append(s, t0);
        lemma_be_value_push(s + t0, t.last());
        assert(be_value(s + t) == (be_value(s) * pow256(t0.len()) + be_value(t0)) * 256
            + t.last());
        assert((be_value(s) * pow256(t0.len()) + be_value(t0)) * 256 == be_value(s) * (256
            * pow256(t0.len())) + be_value(t0) * 256) by (nonlinear_arith);
        assert(pow256(t.len()) == 256 * pow256(t0.len()));
        assert(be_value(t) == be_value(t0) * 256 + t.last());
        assert(be_value(s + t) == be_value(s) * pow256(t.len()) + be_value(t));
    }
}

/// Equal-length big-endian encodings of one value are the same bytes.
pub proof fn lemma_be_value_injective(s: Seq<u8>, t: Seq<u8>)
    requires
        s.len() == t.len(),
        be_value(s) == be_value(t),
    ensures
        s == t,
    decreases s.len(),
{
    if s.len() > 0 {
        lemma_be_value_injective(s.drop_last(), t.drop_last());
        assert(s =~= s.drop_last().push(s.last()));
        assert(t =~= t.drop_last().push(t.last()));
    } else {
        assert(s =~= t);
    }
}

/// On equal-length sequences that agree before position `i`, a smaller byte at
/// `i` makes the whole value smaller, whatever follows.
pub proof fn lemma_be_prefix_lt(a: Seq<u8>, b: Seq<u8>, i: int)
    requires
        a.len() == b.len(),
        0 <= i < a.len(),
        a.subrange(0, i) == b.subrange(0, i),
        a[i] < b[i],
    ensures
        be_value(a) < be_value(b),
{
    let n = a.len() as int;
    let ap = a.subrange(0, i + 1);
    let bp = b.subrange(0, i + 1);
    let asuf = a.subrange(i + 1, n);
    let bsuf = b.subrange(i + 1, n);
    assert(a =~= ap + asuf);
    assert(b =~= bp + bsuf);
    lemma_be_value_append(ap, asuf);
    lemma_be_value_append(bp, bsuf);
    lemma_be_value_bound(asuf);
    assert(ap =~= a.subrange(0, i).push(a[i]));
    assert(bp =~= b.subrange(0, i).push(b[i]));
    lemma_be_value_push(a.subrange(0, i), a[i]);
    lemma_be_value_push(b.subrange(0, i), b[i]);
    let w = pow256(asuf.len());
    lemma_pow256_pos(asuf.len());
    assert((be_value(ap) + 1) * w <= be_value(bp) * w) by (nonlinear_arith)
        requires
            be_value(ap) + 1 <= be_value(bp),
            w >= 1,
    ;
    assert((be_value(ap) + 1) * w == be_value(ap) * w + w) by (nonlinear_arith);
}

/// A field element, held as its canonical 32-byte big-endian encoding.
#[derive(Debug)]
pub struct Felt {
    pub(crate) bytes: Vec<u8>,
}

impl View for Felt {
    type V = Seq<u8>;

    closed spec fn view(&self) -> Seq<u8> {
        self.bytes@
    }
}

impl PartialEq for Felt {
    fn eq(&self, other: &Felt) -> (r: bool) {
        if self.bytes.len() != other.bytes.len() {
            return false;
        }
        let mut i: usize = 0;
        while i < self.bytes.len()
            invariant
                i <= self.bytes@.len(),
                self.bytes@.len() == other.bytes@.len(),
                forall|k: int| 0 <= k < i ==> self.bytes@[k] == other.bytes@[k],
            decreases self.bytes@.len() - i,
        {
            if self.bytes[i] != other.bytes[i] {
                return false;
            }
            i += 1;
        }
        proof {
            assert(self.bytes@ =~= other.bytes@);
        }
        true
    }
}

impl vstd::std_specs::cmp::PartialEqSpecImpl for Felt {
    open spec fn obeys_eq_spec() -> bool {
        true
    }

    open spec fn eq_spec(&self, other: &Felt) -> bool {
        self@ == other@
    }
}

impl Felt {
    /// The field value this element denotes.
    pub open spec fn value(&self) -> nat {
        be_value(self@)
    }

    /// Canonically encoded: exactly 32 bytes, value below the field modulus.
    pub open spec fn wf(&self) -> bool {
        self@.len() == 32 && self.value() < field_modulus()
    }

    /// Decodes a big-endian byte sequence into a field element: the bytes are
    /// left-padded with zeros to 32 bytes, and the decoding fails exactly when
    /// the sequence is longer than 32 bytes or denotes a value at or above the
    /// field modulus.
    pub fn from_byte_slice_be(data: &[u8]) -> (r: Option<Felt>)
        ensures
            r is Some <==> encodable(data@),
            r matches Some(f) ==> f.wf() && f.value() == be_value(data@),
    {
        if data.len() > 32 {
            return None;
        }
        let pad: usize = 32 - data.len();
        let mut bytes: Vec<u8> = Vec::new();
        let mut i: usize = 0;
        while i < pad
            invariant
                i <= pad,
                bytes@.len() == i,
                be_value(bytes@) == 0,
            decreases pad - i,
        {
            proof {
                lemma_be_value_push(bytes@, 0u8);
            }
            bytes.push(0u8);
            i += 1;
        }
        let n = data.len();
        proof {
            assert(data@.take(0) =~= Seq::<u8>::empty());
        }
        let mut j: usize = 0;
        while j < n
            invariant
                n == data@.len(),
                n <= 32,
                pad == 32 - n,
                j <= n,
                bytes@.len() == pad + j,
                be_value(bytes@) == be_value(data@.take(j as int)),
            decreases n - j,
        {
            proof {
                lemma_be_value_push(bytes@, data@[j as int]);
                assert(data@.take(j + 1) =~= data@.take(j as int).push(data@[j as int]));
                lemma_be_value_push(data@.take(j as int), data@[j as int]);
            }
            let b = data[j];
            bytes.push(b);
            j += 1;
        }
        proof {
            assert(data@.take(n as int) =~= data@);
        }
        let m = modulus_bytes();
        if lt_be(&bytes, &m) {
            Some(Felt { bytes })
        } else {
            None
        }
    }

    /// The canonical 32-byte big-endian encoding, with no extra framing.
    pub fn to_bytes_be(&self) -> (r: Vec<u8>)
        ensures
            r@ == self@,
    {
        let mut r: Vec<u8> = Vec::new();
        let mut i: usize = 0;
        while i < self.bytes.len()
            invariant
                i <= self.bytes@.len(),
                r@ == self.bytes@.take(i as int),
            decreases self.bytes@.len() - i,
        {
            proof {
                assert(self.bytes@.take(i + 1) =~= self.bytes@.take(i as int).push(
                    self.bytes@[i as int],
                ));
            }
            r.push(self.bytes[i]);
            i += 1;
        }
        proof {
            assert(self.bytes@.take(self.bytes@.len() as int) =~= self.bytes@);
        }
        r
    }

    /// A copy of this element, byte for byte.
    pub fn duplicate(&self) -> (r: Felt)
        ensures
            r@ == self@,
    {
        Felt { bytes: self.to_bytes_be() }
    }
}

/// A field element's value determines its canonical encoding: two well-formed
/// elements of one value are the same bytes. Since every hashing contract
/// fixes the produced digest's value as a function of the inputs alone, equal
/// inputs yield byte-identical digests, on any call and under any instance.
pub proof fn lemma_felt_value_injective(d1: Felt, d2: Felt)
    requires
        d1@.len() == 32,
        d2@.len() == 32,
        d1.value() == d2.value(),
    ensures
        d1@ == d2@,
{
    lemma_be_value_injective(d1@, d2@);
}

/// The 32-byte big-endian encoding of the field modulus itself.
fn modulus_bytes() -> (r: Vec<u8>)
    ensures
        r@.len() == 32,
        be_value(r@) == field_modulus(),
{
    let mut v: Vec<u8> = Vec::new();
    proof {
        lemma_be_value_push(v@, 8u8);
    }
    v.push(8u8);
    let mut i: usize = 0;
    while i < 6
        invariant
            i <= 6,
            v@.len() == 1 + i,
            be_value(v@) == 8 * pow256(i as nat),
        decreases 6 - i,
    {
        proof {
            lemma_be_value_push(v@, 0u8);
        }
        v.push(0u8);
        i += 1;
    }
    proof {
        lemma_be_value_push(v@, 0x11u8);
    }
    v.push(0x11u8);
    let mut j: usize = 0;
    while j < 23
        invariant
            j <= 23,
            v@.len() == 8 + j,
            be_value(v@) == 8 * pow256((7 + j) as nat) + 17 * pow256(j as nat),
        decreases 23 - j,
    {
        proof {
            lemma_be_value_push(v@, 0u8);
        }
        v.push(0u8);
        j += 1;
    }
    proof {
        lemma_be_value_push(v@, 1u8);
    }
    v.push(1u8);
    v
}

/// Compares two equal-length big-endian encodings by value.
fn lt_be(a: &Vec<u8>, b: &Vec<u8>) -> (r: bool)
    requires
        a@.len() == b@.len(),
    ensures
        r == (be_value(a@) < be_value(b@)),
{
    let n = a.len();
    let mut i: usize = 0;
    while i < n
        invariant
            n == a@.len(),
            n == b@.len(),
            i <= n,
            a@.subrange(0, i as int) == b@.subrange(0, i as int),
        decreases n - i,
    {
        let x = a[i];
        let y = b[i];
        if x < y {
            proof {
                lemma_be_prefix_lt(a@, b@, i as int);
            }
            return true;
        }
        if x > y {
            proof {
                lemma_be_prefix_lt(b@, a@, i as int);
            }
            return false;
        }
        proof {
            assert(a@.subrange(0, i + 1) =~= b@.subrange(0, i + 1));
        }
        i += 1;
    }
    proof {
        assert(a@ =~= a@.subrange(0, n as int));
        assert(b@ =~= b@.subrange(0, n as int));
    }
    false
}

} // verus!
