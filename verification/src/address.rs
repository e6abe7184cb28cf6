//! Address families and single host addresses, held as plain integers.

use vstd::prelude::*;
use vstd::arithmetic::power2::*;

verus! {

/// The two address families a subnet can belong to.
#[derive(Clone, Copy, Debug, PartialEq, Eq, Structural)]
pub enum Family {
    V4,
    V6,
}

impl Family {
    /// Number of bits in an address of this family.
    pub open spec fn width(self) -> nat {
        match self {
            Family::V4 => 32,
            Family::V6 => 128,
        }
    }

    /// The largest address of this family, as an integer.
    pub open spec fn max_address(self) -> int {
        pow2(self.width()) - 1
    }

    /// Number of bits in an address of this family.
    pub fn bits(self) -> (b: u8)
        ensures
            b == self.width(),
    {
        match self {
            Family::V4 => 32,
            Family::V6 => 128,
        }
    }

    /// The largest address of this family.
    pub fn last_address(self) -> (a: u128)
        ensures
            a == self.max_address(),
    {
        proof {
            lemma_pow2_values();
        }
        match self {
            Family::V4 => 0xffff_ffff,
            Family::V6 => u128::MAX,
        }
    }
}

/// The two powers of two that bound the address families.
pub proof fn lemma_pow2_values()
    ensures
        pow2(0) == 1,
        pow2(32) == 0x1_0000_0000,
        pow2(64) == 0x1_0000_0000_0000_0000,
        pow2(128) == u128::MAX + 1,
{
    lemma2_to64();
    lemma_pow2_adds(64, 64);
}

/// One address, as its family and its value read as a big-endian integer.
#[derive(Clone, Copy, Debug, PartialEq, Eq, Structural)]
pub struct HostAddress {
    pub family: Family,
    pub bits: u128,
}

impl HostAddress {
    /// Whether the value is an address of the family: an IPv4 address has no
    /// more than 32 bits.
    pub open spec fn valid(self) -> bool {
        self.bits <= self.family.max_address()
    }

    /// The IPv4 address with the given 32-bit value.
    pub fn v4(bits: u32) -> (a: Self)
        ensures
            a == (HostAddress { family: Family::V4, bits: bits as u128 }),
            a.valid(),
    {
        proof {
            lemma_pow2_values();
        }
        HostAddress { family: Family::V4, bits: bits as u128 }
    }

    /// The IPv6 address with the given 128-bit value.
    pub fn v6(bits: u128) -> (a: Self)
        ensures
            a == (HostAddress { family: Family::V6, bits }),
            a.valid(),
    {
        proof {
            lemma_pow2_values();
        }
        HostAddress { family: Family::V6, bits }
    }

    /// Whether the value is an address of the family.
    pub fn is_valid(&self) -> (b: bool)
        ensures
            b == self.valid(),
    {
        self.bits <= self.family.last_address()
    }
}

} // verus!
