//! The group capability a Pedersen key is built over: an abstract
//! prime-order group with point addition, scalar multiplication, sampling
//! and a canonical byte serialization.

use vstd::prelude::*;

verus! {

/// A group element usable as a Pedersen generator or commitment value.
///
/// The mathematical model: every element denotes an integer `pt()` drawn
/// from the set `in_group` of canonical element names; `spec_add` and
/// `spec_mul` are the group operation and scalar multiplication on those
/// names, and `spec_ser` their canonical byte form. The proof obligations
/// below are the group laws the Pedersen construction relies on; every
/// implementation must discharge them.
///
/// A deliberate modeling choice: the order and the sampling entropy are
/// machine words (`order_u64`, `spec_sample`), so the capability describes
/// groups whose order fits one word and derives an element from one drawn
/// word, not a curve group of wider order or uniform sampling of one.
pub trait CurvePointProjective: Sized {
    /// The canonical name of this element.
    spec fn pt(&self) -> int;

    /// Whether an integer names a group element.
    spec fn in_group(e: int) -> bool;

    /// The group order: the size of the scalar domain.
    spec fn spec_order() -> nat;

    /// The group operation on element names.
    spec fn spec_add(a: int, b: int) -> int;

    /// Scalar multiplication on element names.
    spec fn spec_mul(e: int, s: nat) -> int;

    /// The element that sampling from the given entropy word yields.
    spec fn spec_sample(entropy: u64) -> int;

    /// The canonical byte serialization of an element name.
    spec fn spec_ser(e: int) -> Seq<u8>;

    proof fn lemma_pt_in_group(&self)
        ensures
            Self::in_group(self.pt()),
    ;

    proof fn lemma_sample_in_group(entropy: u64)
        ensures
            Self::in_group(Self::spec_sample(entropy)),
    ;

    proof fn lemma_order_positive()
        ensures
            Self::spec_order() >= 1,
    ;

    proof fn lemma_add_in_group(a: int, b: int)
        requires
            Self::in_group(a),
            Self::in_group(b),
        ensures
            Self::in_group(Self::spec_add(a, b)),
    ;

    proof fn lemma_mul_in_group(e: int, s: nat)
        requires
            Self::in_group(e),
        ensures
            Self::in_group(Self::spec_mul(e, s)),
    ;

    proof fn lemma_add_comm(a: int, b: int)
        requires
            Self::in_group(a),
            Self::in_group(b),
        ensures
            Self::spec_add(a, b) == Self::spec_add(b, a),
    ;

    proof fn lemma_add_assoc(a: int, b: int, c: int)
        requires
            Self::in_group(a),
            Self::in_group(b),
            Self::in_group(c),
        ensures
            Self::spec_add(Self::spec_add(a, b), c) == Self::spec_add(
                a,
                Self::spec_add(b, c),
            ),
    ;

    proof fn lemma_mul_distributes(e: int, s1: nat, s2: nat)
        requires
            Self::in_group(e),
        ensures
            Self::spec_mul(e, s1 + s2) == Self::spec_add(
                Self::spec_mul(e, s1),
                Self::spec_mul(e, s2),
            ),
    ;

    proof fn lemma_ser_injective(a: int, b: int)
        requires
            Self::in_group(a),
            Self::in_group(b),
            Self::spec_ser(a) == Self::spec_ser(b),
        ensures
            a == b,
    ;

    /// Derives an element from one entropy word; a uniform source gives a
    /// near-uniform element.
    fn sample(entropy: u64) -> (r: Self)
        ensures
            r.pt() == Self::spec_sample(entropy),
    ;

    /// The group order as a machine word.
    fn order_u64() -> (r: u64)
        ensures
            r as nat == Self::spec_order(),
    ;

    /// The group operation.
    fn add(&self, other: &Self) -> (r: Self)
        ensures
            r.pt() == Self::spec_add(self.pt(), other.pt()),
    ;

    /// Scalar multiplication by a reduced scalar.
    fn mul(&self, s: u64) -> (r: Self)
        requires
            (s as nat) < Self::spec_order(),
        ensures
            r.pt() == Self::spec_mul(self.pt(), s as nat),
    ;

    /// Exact element equality.
    fn eq_point(&self, other: &Self) -> (r: bool)
        ensures
            r == (self.pt() == other.pt()),
    ;

    /// An owned copy of the element.
    fn clone_point(&self) -> (r: Self)
        ensures
            r.pt() == self.pt(),
    ;

    /// The canonical byte serialization.
    fn to_bytes(&self) -> (r: Vec<u8>)
        ensures
            r@ == Self::spec_ser(self.pt()),
    ;

    /// Reads an element back from its canonical byte serialization; bytes
    /// that are not the canonical form of any element are rejected.
    fn from_bytes(bytes: &Vec<u8>) -> (r: Option<Self>)
        ensures
            match r {
                Some(q) => Self::spec_ser(q.pt()) == bytes@,
                None => forall|e: int|
                    Self::in_group(e) ==> Self::spec_ser(e) != bytes@,
            },
    ;
}

} // verus!
