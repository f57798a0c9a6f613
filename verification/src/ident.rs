//! Identifiers: account addresses, outcome tags and 32-byte words.
//!
//! Each is held as machine words, so that equality in contracts is equality
//! of values, and each has a big-endian byte form of fixed length.

use crate::encoding::{
    be_bytes, be_value, lemma_be_bytes_len, lemma_be_value_bound, lemma_be_value_of_bytes,
    lemma_radix_of_words, push_be_u32, push_be_u64, read_be,
};
use vstd::prelude::*;

verus! {

/// A 20-byte account address. The address of all zero bytes stands for "nobody".
#[derive(Clone, Copy, Debug, PartialEq, Eq, Structural)]
pub struct Address {
    /// Bytes 0 to 3.
    pub hi: u32,
    /// Bytes 4 to 11.
    pub mid: u64,
    /// Bytes 12 to 19.
    pub lo: u64,
}

/// An 8-byte outcome tag. The zero tag stands for "inconclusive".
#[derive(Clone, Copy, Debug, PartialEq, Eq, Structural)]
pub struct Outcome {
    pub tag: u64,
}

/// A 32-byte word: a commitment digest or a campaign description.
#[derive(Clone, Copy, Debug, PartialEq, Eq, Structural)]
pub struct Bytes32 {
    /// Bytes 0 to 7.
    pub w0: u64,
    /// Bytes 8 to 15.
    pub w1: u64,
    /// Bytes 16 to 23.
    pub w2: u64,
    /// Bytes 24 to 31.
    pub w3: u64,
}

impl Address {
    /// The twenty bytes of the address.
    pub open spec fn bytes(self) -> Seq<u8> {
        be_bytes(self.hi as nat, 4) + be_bytes(self.mid as nat, 8) + be_bytes(self.lo as nat, 8)
    }

    /// The address that twenty bytes spell.
    pub open spec fn of_bytes(s: Seq<u8>) -> Address {
        Address {
            hi: be_value(s.subrange(0, 4)) as u32,
            mid: be_value(s.subrange(4, 12)) as u64,
            lo: be_value(s.subrange(12, 20)) as u64,
        }
    }

    pub open spec fn is_zero_spec(self) -> bool {
        self == (Address { hi: 0, mid: 0, lo: 0 })
    }

    /// The address of all zero bytes.
    pub fn zero() -> (r: Address)
        ensures
            r.is_zero_spec(),
    {
        Address { hi: 0, mid: 0, lo: 0 }
    }

    /// Whether this is the address of all zero bytes.
    #[verifier::when_used_as_spec(is_zero_spec)]
    pub fn is_zero(self) -> (r: bool)
        ensures
            r == self.is_zero_spec(),
    {
        self.hi == 0 && self.mid == 0 && self.lo == 0
    }

    /// The address whose last eight bytes spell `v` and whose other bytes are zero.
    pub fn from_u64(v: u64) -> (r: Address)
        ensures
            r == (Address { hi: 0, mid: 0, lo: v }),
    {
        Address { hi: 0, mid: 0, lo: v }
    }

    /// The address that `data` spells, where `data` has twenty bytes.
    pub fn from_be_bytes(data: &[u8]) -> (r: Option<Address>)
        ensures
            r == if data@.len() == 20 {
                Some(Address::of_bytes(data@))
            } else {
                None
            },
    {
        if data.len() != 20 {
            return None;
        }
        proof {
            lemma_radix_of_words();
            lemma_be_value_bound(data@.subrange(0, 4));
        }
        let hi: u64 = read_be(data, 0, 4);
        let mid: u64 = read_be(data, 4, 8);
        let lo: u64 = read_be(data, 12, 8);
        Some(Address { hi: hi as u32, mid, lo })
    }

    /// Appends the twenty bytes of the address to `out`.
    pub fn append_to(self, out: &mut Vec<u8>)
        ensures
            final(out)@ == old(out)@ + self.bytes(),
    {
        push_be_u32(out, self.hi);
        push_be_u64(out, self.mid);
        push_be_u64(out, self.lo);
        assert(out@ =~= old(out)@ + self.bytes());
    }

    /// An address has twenty bytes, and they spell it.
    pub proof fn lemma_bytes(self)
        ensures
            self.bytes().len() == 20,
            Address::of_bytes(self.bytes()) == self,
    {
        let s = self.bytes();
        lemma_radix_of_words();
        lemma_be_bytes_len(self.hi as nat, 4);
        lemma_be_bytes_len(self.mid as nat, 8);
        lemma_be_bytes_len(self.lo as nat, 8);
        assert(s.subrange(0, 4) =~= be_bytes(self.hi as nat, 4));
        assert(s.subrange(4, 12) =~= be_bytes(self.mid as nat, 8));
        assert(s.subrange(12, 20) =~= be_bytes(self.lo as nat, 8));
        lemma_be_value_of_bytes(self.hi as nat, 4);
        lemma_be_value_of_bytes(self.mid as nat, 8);
        lemma_be_value_of_bytes(self.lo as nat, 8);
    }
}

impl Outcome {
    /// The eight bytes of the tag.
    pub open spec fn bytes(self) -> Seq<u8> {
        be_bytes(self.tag as nat, 8)
    }

    /// The tag that eight bytes spell.
    pub open spec fn of_bytes(s: Seq<u8>) -> Outcome {
        Outcome { tag: be_value(s) as u64 }
    }

    pub open spec fn is_zero_spec(self) -> bool {
        self.tag == 0
    }

    /// The inconclusive tag.
    pub fn zero() -> (r: Outcome)
        ensures
            r.is_zero_spec(),
    {
        Outcome { tag: 0 }
    }

    /// Whether this is the inconclusive tag.
    #[verifier::when_used_as_spec(is_zero_spec)]
    pub fn is_zero(self) -> (r: bool)
        ensures
            r == self.is_zero_spec(),
    {
        self.tag == 0
    }

    /// The tag whose bytes spell `v`.
    pub fn from_u64(v: u64) -> (r: Outcome)
        ensures
            r == (Outcome { tag: v }),
    {
        Outcome { tag: v }
    }

    /// The tag that `data` spells, where `data` has eight bytes.
    pub fn from_be_bytes(data: &[u8]) -> (r: Option<Outcome>)
        ensures
            r == if data@.len() == 8 {
                Some(Outcome::of_bytes(data@))
            } else {
                None
            },
    {
        if data.len() != 8 {
            return None;
        }
        assert(data@.subrange(0, 8) =~= data@);
        Some(Outcome { tag: read_be(data, 0, 8) })
    }

    /// Appends the eight bytes of the tag to `out`.
    pub fn append_to(self, out: &mut Vec<u8>)
        ensures
            final(out)@ == old(out)@ + self.bytes(),
    {
        push_be_u64(out, self.tag);
    }

    /// A tag has eight bytes, and they spell it.
    pub proof fn lemma_bytes(self)
        ensures
            self.bytes().len() == 8,
            Outcome::of_bytes(self.bytes()) == self,
    {
        lemma_radix_of_words();
        lemma_be_bytes_len(self.tag as nat, 8);
        lemma_be_value_of_bytes(self.tag as nat, 8);
    }
}

impl Bytes32 {
    /// The thirty-two bytes of the word.
    pub open spec fn bytes(self) -> Seq<u8> {
        be_bytes(self.w0 as nat, 8) + be_bytes(self.w1 as nat, 8) + be_bytes(self.w2 as nat, 8)
            + be_bytes(self.w3 as nat, 8)
    }

    /// The word that thirty-two bytes spell.
    pub open spec fn of_bytes(s: Seq<u8>) -> Bytes32 {
        Bytes32 {
            w0: be_value(s.subrange(0, 8)) as u64,
            w1: be_value(s.subrange(8, 16)) as u64,
            w2: be_value(s.subrange(16, 24)) as u64,
            w3: be_value(s.subrange(24, 32)) as u64,
        }
    }

    pub open spec fn is_zero_spec(self) -> bool {
        self == (Bytes32 { w0: 0, w1: 0, w2: 0, w3: 0 })
    }

    /// The word of all zero bytes.
    pub fn zero() -> (r: Bytes32)
        ensures
            r.is_zero_spec(),
    {
        Bytes32 { w0: 0, w1: 0, w2: 0, w3: 0 }
    }

    /// Whether this is the word of all zero bytes.
    #[verifier::when_used_as_spec(is_zero_spec)]
    pub fn is_zero(self) -> (r: bool)
        ensures
            r == self.is_zero_spec(),
    {
        self.w0 == 0 && self.w1 == 0 && self.w2 == 0 && self.w3 == 0
    }

    /// The word that `data` spells, where `data` has thirty-two bytes.
    pub fn from_be_bytes(data: &[u8]) -> (r: Option<Bytes32>)
        ensures
            r == if data@.len() == 32 {
                Some(Bytes32::of_bytes(data@))
            } else {
                None
            },
    {
        if data.len() != 32 {
            return None;
        }
        let w0: u64 = read_be(data, 0, 8);
        let w1: u64 = read_be(data, 8, 8);
        let w2: u64 = read_be(data, 16, 8);
        let w3: u64 = read_be(data, 24, 8);
        Some(Bytes32 { w0, w1, w2, w3 })
    }

    /// Appends the thirty-two bytes of the word to `out`.
    pub fn append_to(self, out: &mut Vec<u8>)
        ensures
            final(out)@ == old(out)@ + self.bytes(),
    {
        push_be_u64(out, self.w0);
        push_be_u64(out, self.w1);
        push_be_u64(out, self.w2);
        push_be_u64(out, self.w3);
        assert(out@ =~= old(out)@ + self.bytes());
    }

    /// A word has thirty-two bytes, and they spell it.
    pub proof fn lemma_bytes(self)
        ensures
            self.bytes().len() == 32,
            Bytes32::of_bytes(self.bytes()) == self,
    {
        let s = self.bytes();
        lemma_radix_of_words();
        lemma_be_bytes_len(self.w0 as nat, 8);
        lemma_be_bytes_len(self.w1 as nat, 8);
        lemma_be_bytes_len(self.w2 as nat, 8);
        lemma_be_bytes_len(self.w3 as nat, 8);
        assert(s.subrange(0, 8) =~= be_bytes(self.w0 as nat, 8));
        assert(s.subrange(8, 16) =~= be_bytes(self.w1 as nat, 8));
        assert(s.subrange(16, 24) =~= be_bytes(self.w2 as nat, 8));
        assert(s.subrange(24, 32) =~= be_bytes(self.w3 as nat, 8));
        lemma_be_value_of_bytes(self.w0 as nat, 8);
        lemma_be_value_of_bytes(self.w1 as nat, 8);
        lemma_be_value_of_bytes(self.w2 as nat, 8);
        lemma_be_value_of_bytes(self.w3 as nat, 8);
    }
}

} // verus!
