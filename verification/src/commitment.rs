//! The commitment capability: the contract every commitment construction
//! offers, and the error taxonomy all constructions share.

use vstd::prelude::*;

use crate::natural::Natural;

verus! {

/// The errors a commitment construction can report.
///
/// `WrongOpening` is the expected outcome of verifying a disclosure that does
/// not match the commitment. `IntegerTooBig` reports a value or randomness
/// outside the construction's scalar domain; such inputs are rejected, never
/// silently reduced. `ConversionError` stands for a serialization fault in a
/// construction whose commit path performs one; the constructions in this
/// crate never produce it.
#[derive(Clone, Copy, Debug, PartialEq, Eq, Structural)]
pub enum CommitmentError {
    WrongOpening,
    IntegerTooBig,
    ConversionError,
}

/// The capability a commitment construction offers: bind to a value and a
/// blinding factor with `commit`, verify a claimed disclosure with `open`.
///
/// The associated `Instance` is the construction's opaque commitment value.
/// Each construction says through `in_domain` which scalars its scheme
/// admits and through `instance_ok` which instances stand for a given
/// value and randomness under a given key; the contracts below then hold
/// of every construction, so callers generic over the capability keep the
/// full commit/open semantics. The construction's own inherent methods may
/// say more (the Pedersen ones pin the computed group element exactly).
pub trait Commitment: Sized {
    type Instance;

    /// Whether a scalar lies in this scheme's admissible domain.
    spec fn in_domain(&self, x: nat) -> bool;

    /// Whether `c` is the commitment this key computes for the value `v`
    /// under the blinding factor `r`.
    spec fn instance_ok(&self, c: Self::Instance, v: nat, r: nat) -> bool;

    /// Commits to `value` under `randomness`: succeeds iff both scalars
    /// lie in the scheme's domain, and then returns exactly the instance
    /// the key determines; out-of-domain scalars are rejected with
    /// `IntegerTooBig`, never silently reduced.
    fn commit(
        &self,
        value: &Natural,
        randomness: &Natural,
    ) -> (res: Result<Self::Instance, CommitmentError>)
        ensures
            res is Ok <==> self.in_domain(value@) && self.in_domain(randomness@),
            match res {
                Ok(c) => self.instance_ok(c, value@, randomness@),
                Err(e) => e == CommitmentError::IntegerTooBig,
            },
    ;

    /// Verifies a claimed opening: succeeds iff both scalars lie in the
    /// scheme's domain and the recomputed instance equals `commitment`.
    /// An in-domain mismatch is `WrongOpening`; an out-of-domain scalar
    /// is `IntegerTooBig`.
    fn open(
        &self,
        commitment: &Self::Instance,
        value: &Natural,
        randomness: &Natural,
    ) -> (res: Result<(), CommitmentError>)
        ensures
            res is Ok <==> self.in_domain(value@) && self.in_domain(randomness@)
                && self.instance_ok(*commitment, value@, randomness@),
            match res {
                Ok(_) => true,
                Err(e) => (e == CommitmentError::WrongOpening && self.in_domain(value@)
                    && self.in_domain(randomness@) && !self.instance_ok(
                    *commitment,
                    value@,
                    randomness@,
                )) || (e == CommitmentError::IntegerTooBig && !(self.in_domain(value@)
                    && self.in_domain(randomness@))),
            },
    ;
}

} // verus!
