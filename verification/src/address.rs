//! Host addresses of the two supported families, as plain integers.

use vstd::prelude::*;

verus! {

/// The addressing family of an address or a range.
#[derive(Clone, Copy, Debug, PartialEq, Eq, Structural, Hash, PartialOrd, Ord)]
pub enum Family {
    V4,
    V6,
}

/// One address: the 32 bits of an IPv4 address or the 128 bits of an IPv6
/// address, most significant bit first.
#[derive(Clone, Copy, Debug, PartialEq, Eq, Structural, Hash, PartialOrd, Ord)]
pub enum Address {
    V4(u32),
    V6(u128),
}

impl Address {
    /// The family the address belongs to.
    pub open spec fn spec_family(&self) -> Family {
        match *self {
            Address::V4(_) => Family::V4,
            Address::V6(_) => Family::V6,
        }
    }

    /// The address read as a natural number.
    pub open spec fn spec_bits(&self) -> nat {
        match *self {
            Address::V4(bits) => bits as nat,
            Address::V6(bits) => bits as nat,
        }
    }

    /// The number of bits of an address of the family.
    pub open spec fn spec_width(&self) -> nat {
        match *self {
            Address::V4(_) => 32,
            Address::V6(_) => 128,
        }
    }

    /// The address of `family` whose number is `bits`. Meaningful where `bits`
    /// fits the family's width.
    pub open spec fn of(family: Family, bits: nat) -> Address {
        match family {
            Family::V4 => Address::V4(bits as u32),
            Family::V6 => Address::V6(bits as u128),
        }
    }

    /// The number of the IPv4 address `a.b.c.d`.
    pub open spec fn octets_value(a: u8, b: u8, c: u8, d: u8) -> nat {
        (a * 0x100_0000 + b * 0x1_0000 + c * 0x100 + d) as nat
    }

    /// The IPv4 address `a.b.c.d`.
    pub fn from_octets(a: u8, b: u8, c: u8, d: u8) -> (address: Address)
        ensures
            address == Address::V4(Address::octets_value(a, b, c, d) as u32),
            address.spec_bits() == Address::octets_value(a, b, c, d),
    {
        let high: u32 = a as u32 * 0x100_0000 + b as u32 * 0x1_0000;
        let low: u32 = c as u32 * 0x100 + d as u32;
        Address::V4(high + low)
    }

    /// The family the address belongs to.
    #[verifier::when_used_as_spec(spec_family)]
    pub fn family(&self) -> (family: Family)
        ensures
            family == self.spec_family(),
    {
        match self {
            Address::V4(_) => Family::V4,
            Address::V6(_) => Family::V6,
        }
    }

    /// The address widened to 128 bits.
    pub fn bits(&self) -> (bits: u128)
        ensures
            bits == self.spec_bits(),
    {
        match self {
            Address::V4(bits) => *bits as u128,
            Address::V6(bits) => *bits,
        }
    }
}

} // verus!
