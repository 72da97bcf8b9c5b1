//! Arbitrary-precision natural numbers in limb form, and the verified
//! reduction of such a number into a group's scalar domain.

use vstd::prelude::*;

use crate::commitment::CommitmentError;

verus! {

/// Base of the limb representation: each limb is one machine word.
pub open spec fn limb_base() -> nat {
    0x10000000000000000
}

/// The number encoded by a little-endian limb sequence.
pub open spec fn limbs_value(s: Seq<u64>) -> nat
    decreases s.len(),
{
    if s.len() == 0 {
        0
    } else {
        s[0] as nat + limb_base() * limbs_value(s.subrange(1, s.len() as int))
    }
}

/// An arbitrary-precision natural number: the form in which callers hand a
/// value or a blinding factor to a commitment construction.
pub struct Natural {
    limbs: Vec<u64>,
}

impl View for Natural {
    type V = nat;

    closed spec fn view(&self) -> nat {
        limbs_value(self.limbs@)
    }
}

impl Natural {
    pub fn from_u64(x: u64) -> (r: Natural)
        ensures
            r@ == x as nat,
    {
        let mut limbs: Vec<u64> = Vec::new();
        limbs.push(x);
        proof {
            assert(limbs@.subrange(1, 1) =~= Seq::<u64>::empty());
            assert(limbs_value(Seq::<u64>::empty()) == 0);
        }
        Natural { limbs }
    }

    /// Builds the number whose little-endian machine-word digits are `limbs`.
    pub fn from_limbs(limbs: Vec<u64>) -> (r: Natural)
        ensures
            r@ == limbs_value(limbs@),
    {
        Natural { limbs }
    }
}

proof fn lemma_limbs_value_all_zero(s: Seq<u64>)
    requires
        forall|j: int| 0 <= j < s.len() ==> s[j] == 0,
    ensures
        limbs_value(s) == 0,
    decreases s.len(),
{
    if s.len() > 0 {
        lemma_limbs_value_all_zero(s.subrange(1, s.len() as int));
    }
}

proof fn lemma_limbs_value_high_zero(s: Seq<u64>)
    requires
        s.len() >= 1,
        forall|j: int| 1 <= j < s.len() ==> s[j] == 0,
    ensures
        limbs_value(s) == s[0],
{
    lemma_limbs_value_all_zero(s.subrange(1, s.len() as int));
}

proof fn lemma_limbs_value_big(s: Seq<u64>, i: int)
    requires
        1 <= i < s.len(),
        s[i] != 0,
    ensures
        limbs_value(s) >= limb_base(),
    decreases i,
{
    let tail = s.subrange(1, s.len() as int);
    if i == 1 {
        assert(tail[0] == s[1]);
        assert(limbs_value(tail) >= tail[0]);
        assert(limbs_value(tail) >= 1);
    } else {
        assert(tail[i - 1] == s[i]);
        lemma_limbs_value_big(tail, i - 1);
        assert(limbs_value(tail) >= 1);
    }
    assert(limb_base() * limbs_value(tail) >= limb_base() * 1) by (nonlinear_arith)
        requires
            limbs_value(tail) >= 1,
    ;
}

/// Reduces a natural number into the scalar domain `[0, order)`.
///
/// A number inside the domain comes back as the machine word it is; one at
/// or above `order` is rejected with `IntegerTooBig`, never silently reduced.
pub fn integer_to_scalar(n: &Natural, order: u64) -> (r: Result<u64, CommitmentError>)
    requires
        order >= 1,
    ensures
        match r {
            Ok(s) => n@ < order as nat && s as nat == n@,
            Err(e) => e == CommitmentError::IntegerTooBig && n@ >= order as nat,
        },
{
    let len = n.limbs.len();
    let mut i: usize = 1;
    while i < len
        invariant
            1 <= i,
            i <= len || i == 1,
            len == n.limbs.len(),
            forall|j: int| 1 <= j < i ==> n.limbs@[j] == 0,
        decreases len - i,
    {
        if n.limbs[i] != 0 {
            proof {
                lemma_limbs_value_big(n.limbs@, i as int);
            }
            return Err(CommitmentError::IntegerTooBig);
        }
        i += 1;
    }
    let lo: u64 = if len == 0 {
        0
    } else {
        n.limbs[0]
    };
    proof {
        if n.limbs@.len() > 0 {
            lemma_limbs_value_high_zero(n.limbs@);
        }
        assert(n@ == lo as nat);
    }
    if lo < order {
        Ok(lo)
    } else {
        Err(CommitmentError::IntegerTooBig)
    }
}

} // verus!
