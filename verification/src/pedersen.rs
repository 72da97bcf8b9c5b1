//! Pedersen commitments over an abstract group: key setup, commit and open,
//! with the correctness, determinism, homomorphism and round-trip laws
//! proved from the group capability.

use vstd::prelude::*;

use crate::commitment::Commitment;
use crate::commitment::CommitmentError;
use crate::group::CurvePointProjective;
use crate::natural::Natural;
use crate::natural::integer_to_scalar;

verus! {

/// Relies on rand::random with the thread-local generator: it draws a value
/// from the process-wide source; nothing is promised of the value drawn.
pub assume_specification<T>[ rand::random::<T> ]() -> (r: T)
    where
        rand::distributions::Standard: rand::distributions::Distribution<T>,
;

/// A commitment value: a single group element wrapped for canonical byte
/// serialization. Opaque to callers; verification is equality-based, through
/// `open` or `eq_instance`.
#[derive(Debug)]
pub struct SerializableCurvePointProjective<P: CurvePointProjective>(pub P);

impl<P: CurvePointProjective> SerializableCurvePointProjective<P> {
    /// The group element this commitment names.
    pub open spec fn pt(&self) -> int {
        self.0.pt()
    }

    /// The canonical byte serialization of the commitment.
    pub fn to_bytes(&self) -> (r: Vec<u8>)
        ensures
            r@ == P::spec_ser(self.pt()),
    {
        self.0.to_bytes()
    }

    /// Reads a commitment back from its canonical byte serialization; bytes
    /// that are not the canonical form of any group element are rejected.
    pub fn from_bytes(bytes: &Vec<u8>) -> (r: Option<Self>)
        ensures
            match r {
                Some(c) => P::spec_ser(c.pt()) == bytes@,
                None => forall|e: int| P::in_group(e) ==> P::spec_ser(e) != bytes@,
            },
    {
        match P::from_bytes(bytes) {
            Some(p) => Some(SerializableCurvePointProjective(p)),
            None => None,
        }
    }

    /// The group operation on commitments: the combination the additive
    /// homomorphism law speaks about.
    pub fn add(&self, other: &Self) -> (r: Self)
        ensures
            r.pt() == P::spec_add(self.pt(), other.pt()),
    {
        SerializableCurvePointProjective(self.0.add(&other.0))
    }

    /// Exact equality of two commitments.
    pub fn eq_instance(&self, other: &Self) -> (r: bool)
        ensures
            r == (self.pt() == other.pt()),
    {
        self.0.eq_point(&other.0)
    }
}

/// A Pedersen commitment key: two group generators `g` and `h`. The scheme
/// hides and binds as long as no discrete-log relation between the two is
/// known, which `setup` achieves by sampling them independently.
pub struct PedersenCommitment<P: CurvePointProjective> {
    pub g: P,
    pub h: P,
}

impl<P: CurvePointProjective> PedersenCommitment<P> {
    /// The group element a commit under key `(g, h)` to `v` with blinding
    /// `r` computes: `g * v + h * r`.
    pub open spec fn spec_commit(g: int, h: int, v: nat, r: nat) -> int {
        P::spec_add(P::spec_mul(g, v), P::spec_mul(h, r))
    }

    /// When an opening `(v, r)` matches a commitment `c` under key `(g, h)`:
    /// both scalars lie in the domain and the recomputation equals `c`.
    pub open spec fn opening_matches(g: int, h: int, c: int, v: nat, r: nat) -> bool {
        v < P::spec_order() && r < P::spec_order() && c == Self::spec_commit(g, h, v, r)
    }

    /// Builds a key from two independently drawn entropy words.
    pub fn setup(g_entropy: u64, h_entropy: u64) -> (r: PedersenCommitment<P>)
        ensures
            r.g.pt() == P::spec_sample(g_entropy),
            r.h.pt() == P::spec_sample(h_entropy),
    {
        PedersenCommitment { g: P::sample(g_entropy), h: P::sample(h_entropy) }
    }

    /// Builds a key from entropy drawn freshly from the process-wide source.
    pub fn setup_random() -> (r: PedersenCommitment<P>)
        ensures
            exists|e1: u64, e2: u64|
                r.g.pt() == P::spec_sample(e1) && r.h.pt() == P::spec_sample(e2),
    {
        let g_entropy: u64 = rand::random();
        let h_entropy: u64 = rand::random();
        Self::setup(g_entropy, h_entropy)
    }

    /// Builds a key from caller-supplied generators; the key owns copies,
    /// for parties that must share one key out of band.
    pub fn new(g: &P, h: &P) -> (r: PedersenCommitment<P>)
        ensures
            r.g.pt() == g.pt(),
            r.h.pt() == h.pt(),
    {
        PedersenCommitment { g: g.clone_point(), h: h.clone_point() }
    }

    /// Commits to `value` under blinding `randomness`: computes
    /// `g * value + h * randomness`. A value or randomness outside the
    /// scalar domain is rejected with `IntegerTooBig`, never reduced.
    pub fn commit(&self, value: &Natural, randomness: &Natural) -> (res: Result<
        SerializableCurvePointProjective<P>,
        CommitmentError,
    >)
        ensures
            match res {
                Ok(c) => value@ < P::spec_order() && randomness@ < P::spec_order() && c.pt()
                    == Self::spec_commit(self.g.pt(), self.h.pt(), value@, randomness@),
                Err(e) => e == CommitmentError::IntegerTooBig && (value@ >= P::spec_order()
                    || randomness@ >= P::spec_order()),
            },
    {
        let order = P::order_u64();
        proof {
            P::lemma_order_positive();
        }
        let v: u64 = match integer_to_scalar(value, order) {
            Ok(s) => s,
            Err(e) => {
                return Err(e);
            },
        };
        let r: u64 = match integer_to_scalar(randomness, order) {
            Ok(s) => s,
            Err(e) => {
                return Err(e);
            },
        };
        Ok(SerializableCurvePointProjective(self.g.mul(v).add(&self.h.mul(r))))
    }

    /// Verifies a claimed opening: recomputes `g * value + h * randomness`
    /// exactly as `commit` does and compares. Succeeds iff the recomputation
    /// equals the commitment; a mismatch is `WrongOpening`, an out-of-domain
    /// scalar is `IntegerTooBig`.
    pub fn open(
        &self,
        commitment: &SerializableCurvePointProjective<P>,
        value: &Natural,
        randomness: &Natural,
    ) -> (res: Result<(), CommitmentError>)
        ensures
            res is Ok <==> Self::opening_matches(
                self.g.pt(),
                self.h.pt(),
                commitment.pt(),
                value@,
                randomness@,
            ),
            match res {
                Ok(_) => true,
                Err(e) => (e == CommitmentError::WrongOpening && value@ < P::spec_order()
                    && randomness@ < P::spec_order() && commitment.pt() != Self::spec_commit(
                    self.g.pt(),
                    self.h.pt(),
                    value@,
                    randomness@,
                )) || (e == CommitmentError::IntegerTooBig && (value@ >= P::spec_order()
                    || randomness@ >= P::spec_order())),
            },
    {
        let order = P::order_u64();
        proof {
            P::lemma_order_positive();
        }
        let v: u64 = match integer_to_scalar(value, order) {
            Ok(s) => s,
            Err(e) => {
                return Err(e);
            },
        };
        let r: u64 = match integer_to_scalar(randomness, order) {
            Ok(s) => s,
            Err(e) => {
                return Err(e);
            },
        };
        let expected = self.g.mul(v).add(&self.h.mul(r));
        if expected.eq_point(&commitment.0) {
            Ok(())
        } else {
            Err(CommitmentError::WrongOpening)
        }
    }

    /// Correctness: under any key, a commitment computed from a value and a
    /// randomness inside the scalar domain opens under that same pair.
    pub proof fn lemma_commit_opens(g: int, h: int, v: nat, r: nat)
        requires
            v < P::spec_order(),
            r < P::spec_order(),
        ensures
            Self::opening_matches(g, h, Self::spec_commit(g, h, v, r), v, r),
    {
    }

    /// Determinism: the commitment is a function of key, value and
    /// randomness alone, and so is its canonical byte serialization.
    pub proof fn lemma_commit_deterministic(g: int, h: int, v: nat, r: nat, c1: int, c2: int)
        requires
            c1 == Self::spec_commit(g, h, v, r),
            c2 == Self::spec_commit(g, h, v, r),
        ensures
            c1 == c2,
            P::spec_ser(c1) == P::spec_ser(c2),
    {
    }

    /// Additive homomorphism: the group sum of the commitments to
    /// `(v1, r1)` and `(v2, r2)` under one key is the commitment to
    /// `(v1 + v2, r1 + r2)` under that key.
    pub proof fn lemma_homomorphic(g: int, h: int, v1: nat, r1: nat, v2: nat, r2: nat)
        requires
            P::in_group(g),
            P::in_group(h),
        ensures
            P::spec_add(
                Self::spec_commit(g, h, v1, r1),
                Self::spec_commit(g, h, v2, r2),
            ) == Self::spec_commit(g, h, v1 + v2, r1 + r2),
    {
        let a = P::spec_mul(g, v1);
        let b = P::spec_mul(h, r1);
        let c = P::spec_mul(g, v2);
        let d = P::spec_mul(h, r2);
        P::lemma_mul_in_group(g, v1);
        P::lemma_mul_in_group(h, r1);
        P::lemma_mul_in_group(g, v2);
        P::lemma_mul_in_group(h, r2);
        P::lemma_add_in_group(c, d);
        P::lemma_add_in_group(b, d);
        P::lemma_add_assoc(a, b, P::spec_add(c, d));
        P::lemma_add_assoc(b, c, d);
        P::lemma_add_comm(b, c);
        P::lemma_add_assoc(c, b, d);
        P::lemma_add_assoc(a, c, P::spec_add(b, d));
        P::lemma_mul_distributes(g, v1, v2);
        P::lemma_mul_distributes(h, r1, r2);
    }

    /// Binding, up to a collision of the generators: a commitment produced
    /// from `(v1, r1)` opens under a different pair `(v2, r2)` only if the
    /// two recomputed group elements coincide — which exhibits a
    /// discrete-log relation between `g` and `h`. A key whose generators
    /// were sampled independently is assumed to admit no known relation, so
    /// every other opening is answered with `WrongOpening` by `open`'s
    /// contract.
    pub proof fn lemma_binding_up_to_collision(
        g: int,
        h: int,
        c: int,
        v1: nat,
        r1: nat,
        v2: nat,
        r2: nat,
    )
        requires
            v1 != v2 || r1 != r2,
            Self::opening_matches(g, h, c, v1, r1),
            Self::opening_matches(g, h, c, v2, r2),
        ensures
            P::spec_add(P::spec_mul(g, v1), P::spec_mul(h, r1)) == P::spec_add(
                P::spec_mul(g, v2),
                P::spec_mul(h, r2),
            ),
    {
    }

    /// Serialization round trip: any commitment read back from the
    /// canonical bytes of a commitment that opens under `(v, r)` opens
    /// under `(v, r)` as well.
    pub proof fn lemma_round_trip_opens(g: int, h: int, c: int, d: int, v: nat, r: nat)
        requires
            P::in_group(c),
            P::in_group(d),
            P::spec_ser(d) == P::spec_ser(c),
            Self::opening_matches(g, h, c, v, r),
        ensures
            Self::opening_matches(g, h, d, v, r),
    {
        P::lemma_ser_injective(c, d);
    }
}

impl<P: CurvePointProjective> Commitment for PedersenCommitment<P> {
    type Instance = SerializableCurvePointProjective<P>;

    open spec fn in_domain(&self, x: nat) -> bool {
        x < P::spec_order()
    }

    open spec fn instance_ok(&self, c: Self::Instance, v: nat, r: nat) -> bool {
        c.pt() == Self::spec_commit(self.g.pt(), self.h.pt(), v, r)
    }

    fn commit(
        &self,
        value: &Natural,
        randomness: &Natural,
    ) -> Result<Self::Instance, CommitmentError> {
        self.commit(value, randomness)
    }

    fn open(
        &self,
        commitment: &Self::Instance,
        value: &Natural,
        randomness: &Natural,
    ) -> Result<(), CommitmentError> {
        self.open(commitment, value, randomness)
    }
}

} // verus!
