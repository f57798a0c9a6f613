//! 256-bit unsigned amounts.
//!
//! An amount is held as four 64-bit limbs, least significant first, and is
//! read in contracts through its view, a natural number below `2^256`.
//! Comparisons are computed and proved here; the checked arithmetic is done
//! by the `ruint` integers that `stylus_sdk` re-exports.

use crate::ident::Bytes32;
use vstd::prelude::*;

verus! {

/// `2^256`, the exclusive upper bound of every amount.
pub open spec fn limit() -> nat {
    115792089237316195423570985008687907853269984665640564039457584007913129639936nat
}

/// A 256-bit unsigned integer, limbs least significant first.
#[derive(Clone, Copy, Debug, PartialEq, Eq, Structural)]
pub struct U256 {
    pub l0: u64,
    pub l1: u64,
    pub l2: u64,
    pub l3: u64,
}

impl View for U256 {
    type V = nat;

    open spec fn view(&self) -> nat {
        self.l0 as nat + self.l1 as nat * 18446744073709551616nat + self.l2 as nat
            * 340282366920938463463374607431768211456nat + self.l3 as nat
            * 6277101735386680763835789423207666416102355444464034512896nat
    }
}

/// Every amount is below `2^256`.
pub proof fn lemma_below_limit(a: U256)
    ensures
        a@ < limit(),
{
}

/// The order of two amounts is decided by their most significant differing limb.
pub proof fn lemma_limb_order(a: U256, b: U256)
    ensures
        a.l3 < b.l3 ==> a@ < b@,
        a.l3 == b.l3 && a.l2 < b.l2 ==> a@ < b@,
        a.l3 == b.l3 && a.l2 == b.l2 && a.l1 < b.l1 ==> a@ < b@,
        a.l3 == b.l3 && a.l2 == b.l2 && a.l1 == b.l1 && a.l0 < b.l0 ==> a@ < b@,
{
}

/// Two amounts with the same value have the same limbs.
pub proof fn lemma_view_injective(a: U256, b: U256)
    ensures
        a@ == b@ <==> a == b,
{
    lemma_limb_order(a, b);
    lemma_limb_order(b, a);
}

impl U256 {
    /// The amount zero.
    pub fn zero() -> (r: U256)
        ensures
            r@ == 0,
    {
        U256 { l0: 0, l1: 0, l2: 0, l3: 0 }
    }

    /// The largest amount, `2^256 - 1`.
    pub fn max_value() -> (r: U256)
        ensures
            r@ == limit() - 1,
    {
        U256 {
            l0: 0xffff_ffff_ffff_ffff,
            l1: 0xffff_ffff_ffff_ffff,
            l2: 0xffff_ffff_ffff_ffff,
            l3: 0xffff_ffff_ffff_ffff,
        }
    }

    /// The amount with the value of `v`.
    pub fn from_u64(v: u64) -> (r: U256)
        ensures
            r@ == v,
    {
        U256 { l0: v, l1: 0, l2: 0, l3: 0 }
    }

    /// The amount made of the given limbs, least significant first.
    pub fn from_limbs(limbs: [u64; 4]) -> (r: U256)
        ensures
            r == (U256 { l0: limbs[0], l1: limbs[1], l2: limbs[2], l3: limbs[3] }),
    {
        U256 { l0: limbs[0], l1: limbs[1], l2: limbs[2], l3: limbs[3] }
    }

    /// The limbs of the amount, least significant first.
    pub fn to_limbs(self) -> (r: [u64; 4])
        ensures
            r[0] == self.l0,
            r[1] == self.l1,
            r[2] == self.l2,
            r[3] == self.l3,
    {
        [self.l0, self.l1, self.l2, self.l3]
    }

    /// The 32-byte word whose bytes spell the amount, most significant first.
    pub open spec fn word_spec(self) -> Bytes32 {
        Bytes32 { w0: self.l3, w1: self.l2, w2: self.l1, w3: self.l0 }
    }

    /// The 32-byte word whose bytes spell the amount, most significant first.
    #[verifier::when_used_as_spec(word_spec)]
    pub fn word(self) -> (r: Bytes32)
        ensures
            r == self.word_spec(),
    {
        Bytes32 { w0: self.l3, w1: self.l2, w2: self.l1, w3: self.l0 }
    }

    /// Whether the amount is zero.
    pub fn is_zero(self) -> (r: bool)
        ensures
            r == (self@ == 0),
    {
        self.l0 == 0 && self.l1 == 0 && self.l2 == 0 && self.l3 == 0
    }

    /// Whether `self` is strictly less than `other`.
    pub fn lt(self, other: U256) -> (r: bool)
        ensures
            r == (self@ < other@),
    {
        proof {
            lemma_limb_order(self, other);
            lemma_limb_order(other, self);
        }
        if self.l3 != other.l3 {
            self.l3 < other.l3
        } else if self.l2 != other.l2 {
            self.l2 < other.l2
        } else if self.l1 != other.l1 {
            self.l1 < other.l1
        } else {
            self.l0 < other.l0
        }
    }

    /// Whether `self` is less than or equal to `other`.
    pub fn le(self, other: U256) -> (r: bool)
        ensures
            r == (self@ <= other@),
    {
        !other.lt(self)
    }

    /// Whether `self` is strictly greater than `other`.
    pub fn gt(self, other: U256) -> (r: bool)
        ensures
            r == (self@ > other@),
    {
        other.lt(self)
    }

    /// Whether `self` is greater than or equal to `other`.
    pub fn ge(self, other: U256) -> (r: bool)
        ensures
            r == (self@ >= other@),
    {
        !self.lt(other)
    }
}

/// `Uint::checked_add` of `ruint`, on 256-bit integers: the sum where it is
/// below `2^256`, and `None` where it is not.
#[verifier::external_body]
pub(crate) fn checked_add(a: U256, b: U256) -> (r: Option<U256>)
    ensures
        a@ + b@ < limit() ==> r is Some && r->0@ == a@ + b@,
        a@ + b@ >= limit() ==> r is None,
{
    let x = stylus_sdk::alloy_primitives::U256::from_limbs(a.to_limbs());
    let y = stylus_sdk::alloy_primitives::U256::from_limbs(b.to_limbs());
    x.checked_add(y).map(|v| U256::from_limbs(v.into_limbs()))
}

/// `Uint::checked_sub` of `ruint`, on 256-bit integers: the difference where
/// the first is not less than the second, and `None` where it is.
#[verifier::external_body]
pub(crate) fn checked_sub(a: U256, b: U256) -> (r: Option<U256>)
    ensures
        a@ >= b@ ==> r is Some && r->0@ == a@ - b@,
        a@ < b@ ==> r is None,
{
    let x = stylus_sdk::alloy_primitives::U256::from_limbs(a.to_limbs());
    let y = stylus_sdk::alloy_primitives::U256::from_limbs(b.to_limbs());
    x.checked_sub(y).map(|v| U256::from_limbs(v.into_limbs()))
}

/// `Uint::checked_mul` of `ruint`, on 256-bit integers: the product where it
/// is below `2^256`, and `None` where it is not.
#[verifier::external_body]
pub(crate) fn checked_mul(a: U256, b: U256) -> (r: Option<U256>)
    ensures
        a@ * b@ < limit() ==> r is Some && r->0@ == a@ * b@,
        a@ * b@ >= limit() ==> r is None,
{
    let x = stylus_sdk::alloy_primitives::U256::from_limbs(a.to_limbs());
    let y = stylus_sdk::alloy_primitives::U256::from_limbs(b.to_limbs());
    x.checked_mul(y).map(|v| U256::from_limbs(v.into_limbs()))
}

/// `Uint::checked_div` of `ruint`, on 256-bit integers: the quotient rounded
/// down where the divisor is not zero, and `None` where it is.
#[verifier::external_body]
pub(crate) fn checked_div(a: U256, b: U256) -> (r: Option<U256>)
    ensures
        b@ != 0 ==> r is Some && r->0@ == a@ / b@,
        b@ == 0 ==> r is None,
{
    let x = stylus_sdk::alloy_primitives::U256::from_limbs(a.to_limbs());
    let y = stylus_sdk::alloy_primitives::U256::from_limbs(b.to_limbs());
    x.checked_div(y).map(|v| U256::from_limbs(v.into_limbs()))
}

} // verus!
