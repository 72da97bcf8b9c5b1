//! A concrete group for the Pedersen construction: the integers modulo a
//! 64-bit prime under addition, with every group law proved.
//!
//! The group exercises the construction end to end and discharges the
//! capability's proof obligations; it offers no discrete-log hardness, so
//! keys over it hide and bind only against arithmetic mistakes, not against
//! an adversary.

use vstd::prelude::*;

use vstd::arithmetic::div_mod::lemma_add_mod_noop;
use vstd::arithmetic::div_mod::lemma_mod_bound;
use vstd::arithmetic::div_mod::lemma_small_mod;
use vstd::arithmetic::mul::lemma_mul_is_distributive_add;

use crate::group::CurvePointProjective;

verus! {

/// The group order: the largest 64-bit prime.
pub const GROUP_ORDER: u64 = 0xffffffffffffffc5;

/// The little-endian byte form of a machine word.
pub open spec fn u64_le_bytes(x: u64) -> Seq<u8> {
    seq![
        (x & 0xff) as u8,
        ((x >> 8) & 0xff) as u8,
        ((x >> 16) & 0xff) as u8,
        ((x >> 24) & 0xff) as u8,
        ((x >> 32) & 0xff) as u8,
        ((x >> 40) & 0xff) as u8,
        ((x >> 48) & 0xff) as u8,
        ((x >> 56) & 0xff) as u8,
    ]
}

/// A residue modulo `GROUP_ORDER`, viewed as the group element it names.
#[derive(Debug)]
pub struct ModPoint {
    pub x: u64,
}

impl CurvePointProjective for ModPoint {
    open spec fn pt(&self) -> int {
        (self.x as int) % (GROUP_ORDER as int)
    }

    open spec fn in_group(e: int) -> bool {
        0 <= e < GROUP_ORDER
    }

    open spec fn spec_order() -> nat {
        GROUP_ORDER as nat
    }

    open spec fn spec_add(a: int, b: int) -> int {
        (a + b) % (GROUP_ORDER as int)
    }

    open spec fn spec_mul(e: int, s: nat) -> int {
        (e * s) % (GROUP_ORDER as int)
    }

    open spec fn spec_sample(entropy: u64) -> int {
        (entropy as int) % (GROUP_ORDER as int)
    }

    open spec fn spec_ser(e: int) -> Seq<u8> {
        u64_le_bytes((e % (GROUP_ORDER as int)) as u64)
    }

    proof fn lemma_pt_in_group(&self) {
        lemma_mod_bound(self.x as int, GROUP_ORDER as int);
    }

    proof fn lemma_sample_in_group(entropy: u64) {
        lemma_mod_bound(entropy as int, GROUP_ORDER as int);
    }

    proof fn lemma_order_positive() {
    }

    proof fn lemma_add_in_group(a: int, b: int) {
        lemma_mod_bound(a + b, GROUP_ORDER as int);
    }

    proof fn lemma_mul_in_group(e: int, s: nat) {
        lemma_mod_bound(e * s, GROUP_ORDER as int);
    }

    proof fn lemma_add_comm(a: int, b: int) {
    }

    proof fn lemma_add_assoc(a: int, b: int, c: int) {
        let p = GROUP_ORDER as int;
        lemma_small_mod(a as nat, GROUP_ORDER as nat);
        lemma_small_mod(c as nat, GROUP_ORDER as nat);
        lemma_add_mod_noop(a + b, c, p);
        lemma_add_mod_noop(a, b + c, p);
    }

    proof fn lemma_mul_distributes(e: int, s1: nat, s2: nat) {
        let p = GROUP_ORDER as int;
        lemma_mul_is_distributive_add(e, s1 as int, s2 as int);
        lemma_add_mod_noop(e * s1, e * s2, p);
    }

    proof fn lemma_ser_injective(a: int, b: int) {
        lemma_small_mod(a as nat, GROUP_ORDER as nat);
        lemma_small_mod(b as nat, GROUP_ORDER as nat);
        let au = a as u64;
        let bu = b as u64;
        assert(u64_le_bytes(au)[0] == u64_le_bytes(bu)[0]);
        assert(u64_le_bytes(au)[1] == u64_le_bytes(bu)[1]);
        assert(u64_le_bytes(au)[2] == u64_le_bytes(bu)[2]);
        assert(u64_le_bytes(au)[3] == u64_le_bytes(bu)[3]);
        assert(u64_le_bytes(au)[4] == u64_le_bytes(bu)[4]);
        assert(u64_le_bytes(au)[5] == u64_le_bytes(bu)[5]);
        assert(u64_le_bytes(au)[6] == u64_le_bytes(bu)[6]);
        assert(u64_le_bytes(au)[7] == u64_le_bytes(bu)[7]);
        assert(au == bu) by (bit_vector)
            requires
                (au & 0xff) as u8 == (bu & 0xff) as u8,
                ((au >> 8) & 0xff) as u8 == ((bu >> 8) & 0xff) as u8,
                ((au >> 16) & 0xff) as u8 == ((bu >> 16) & 0xff) as u8,
                ((au >> 24) & 0xff) as u8 == ((bu >> 24) & 0xff) as u8,
                ((au >> 32) & 0xff) as u8 == ((bu >> 32) & 0xff) as u8,
                ((au >> 40) & 0xff) as u8 == ((bu >> 40) & 0xff) as u8,
                ((au >> 48) & 0xff) as u8 == ((bu >> 48) & 0xff) as u8,
                ((au >> 56) & 0xff) as u8 == ((bu >> 56) & 0xff) as u8,
        ;
    }

    fn sample(entropy: u64) -> (r: Self) {
        ModPoint { x: entropy }
    }

    fn order_u64() -> (r: u64) {
        GROUP_ORDER
    }

    fn add(&self, other: &Self) -> (r: Self) {
        let p128: u128 = GROUP_ORDER as u128;
        let a: u128 = self.x as u128 % p128;
        let b: u128 = other.x as u128 % p128;
        proof {
            lemma_mod_bound(self.x as int, GROUP_ORDER as int);
            lemma_mod_bound(other.x as int, GROUP_ORDER as int);
        }
        let m: u128 = (a + b) % p128;
        proof {
            lemma_mod_bound(a as int + b as int, GROUP_ORDER as int);
            lemma_small_mod(m as nat, GROUP_ORDER as nat);
        }
        ModPoint { x: m as u64 }
    }

    fn mul(&self, s: u64) -> (r: Self) {
        let p128: u128 = GROUP_ORDER as u128;
        let a: u128 = self.x as u128 % p128;
        proof {
            lemma_mod_bound(self.x as int, GROUP_ORDER as int);
            assert((a as int) * (s as int) < 0x100000000000000000000000000000000)
                by (nonlinear_arith)
                requires
                    0 <= (a as int) && (a as int) < 0x10000000000000000,
                    0 <= (s as int) && (s as int) < 0x10000000000000000,
            ;
        }
        let m: u128 = (a * (s as u128)) % p128;
        proof {
            lemma_mod_bound(a as int * s as int, GROUP_ORDER as int);
            lemma_small_mod(m as nat, GROUP_ORDER as nat);
        }
        ModPoint { x: m as u64 }
    }

    fn eq_point(&self, other: &Self) -> (r: bool) {
        let a: u64 = self.x % GROUP_ORDER;
        let b: u64 = other.x % GROUP_ORDER;
        a == b
    }

    fn clone_point(&self) -> (r: Self) {
        ModPoint { x: self.x }
    }

    fn to_bytes(&self) -> (r: Vec<u8>) {
        let y: u64 = self.x % GROUP_ORDER;
        proof {
            lemma_mod_bound(self.x as int, GROUP_ORDER as int);
            lemma_small_mod(y as nat, GROUP_ORDER as nat);
            assert(y & 0xff < 256 && (y >> 8) & 0xff < 256 && (y >> 16) & 0xff < 256
                && (y >> 24) & 0xff < 256 && (y >> 32) & 0xff < 256 && (y >> 40) & 0xff < 256
                && (y >> 48) & 0xff < 256 && (y >> 56) & 0xff < 256) by (bit_vector);
        }
        let mut r: Vec<u8> = Vec::new();
        r.push((y & 0xff) as u8);
        r.push(((y >> 8) & 0xff) as u8);
        r.push(((y >> 16) & 0xff) as u8);
        r.push(((y >> 24) & 0xff) as u8);
        r.push(((y >> 32) & 0xff) as u8);
        r.push(((y >> 40) & 0xff) as u8);
        r.push(((y >> 48) & 0xff) as u8);
        r.push(((y >> 56) & 0xff) as u8);
        proof {
            assert(r@ =~= u64_le_bytes(y));
        }
        r
    }

    fn from_bytes(bytes: &Vec<u8>) -> (r: Option<Self>) {
        if bytes.len() != 8 {
            proof {
                assert forall|e: int| Self::in_group(e) implies Self::spec_ser(e)
                    != bytes@ by {
                    assert(Self::spec_ser(e).len() == 8);
                }
            }
            return None;
        }
        let c0: u64 = bytes[0] as u64;
        let c1: u64 = bytes[1] as u64;
        let c2: u64 = bytes[2] as u64;
        let c3: u64 = bytes[3] as u64;
        let c4: u64 = bytes[4] as u64;
        let c5: u64 = bytes[5] as u64;
        let c6: u64 = bytes[6] as u64;
        let c7: u64 = bytes[7] as u64;
        let x: u64 = c0 | (c1 << 8) | (c2 << 16) | (c3 << 24) | (c4 << 32) | (c5 << 40) | (c6
            << 48) | (c7 << 56);
        proof {
            assert((x & 0xff) as u8 == c0 as u8 && ((x >> 8) & 0xff) as u8 == c1 as u8 && ((x
                >> 16) & 0xff) as u8 == c2 as u8 && ((x >> 24) & 0xff) as u8 == c3 as u8 && ((x
                >> 32) & 0xff) as u8 == c4 as u8 && ((x >> 40) & 0xff) as u8 == c5 as u8 && ((x
                >> 48) & 0xff) as u8 == c6 as u8 && ((x >> 56) & 0xff) as u8 == c7 as u8)
                by (bit_vector)
                requires
                    x == c0 | (c1 << 8) | (c2 << 16) | (c3 << 24) | (c4 << 32) | (c5 << 40) | (
                    c6 << 48) | (c7 << 56),
                    c0 < 256,
                    c1 < 256,
                    c2 < 256,
                    c3 < 256,
                    c4 < 256,
                    c5 < 256,
                    c6 < 256,
                    c7 < 256,
            ;
        }
        if x < GROUP_ORDER {
            proof {
                lemma_small_mod(x as nat, GROUP_ORDER as nat);
                assert(u64_le_bytes(x) =~= bytes@);
            }
            Some(ModPoint { x })
        } else {
            proof {
                assert forall|e: int| Self::in_group(e) implies Self::spec_ser(e)
                    != bytes@ by {
                    if Self::spec_ser(e) == bytes@ {
                        lemma_small_mod(e as nat, GROUP_ORDER as nat);
                        let eu = e as u64;
                        assert(u64_le_bytes(eu)[0] == bytes@[0]);
                        assert(u64_le_bytes(eu)[1] == bytes@[1]);
                        assert(u64_le_bytes(eu)[2] == bytes@[2]);
                        assert(u64_le_bytes(eu)[3] == bytes@[3]);
                        assert(u64_le_bytes(eu)[4] == bytes@[4]);
                        assert(u64_le_bytes(eu)[5] == bytes@[5]);
                        assert(u64_le_bytes(eu)[6] == bytes@[6]);
                        assert(u64_le_bytes(eu)[7] == bytes@[7]);
                        assert(eu == x) by (bit_vector)
                            requires
                                (eu & 0xff) as u8 == (x & 0xff) as u8,
                                ((eu >> 8) & 0xff) as u8 == ((x >> 8) & 0xff) as u8,
                                ((eu >> 16) & 0xff) as u8 == ((x >> 16) & 0xff) as u8,
                                ((eu >> 24) & 0xff) as u8 == ((x >> 24) & 0xff) as u8,
                                ((eu >> 32) & 0xff) as u8 == ((x >> 32) & 0xff) as u8,
                                ((eu >> 40) & 0xff) as u8 == ((x >> 40) & 0xff) as u8,
                                ((eu >> 48) & 0xff) as u8 == ((x >> 48) & 0xff) as u8,
                                ((eu >> 56) & 0xff) as u8 == ((x >> 56) & 0xff) as u8,
                        ;
                    }
                }
            }
            None
        }
    }
}

} // verus!
