//! Network ranges in prefix notation and the ordered enumeration of their
//! host addresses.

use vstd::prelude::*;
use vstd::arithmetic::div_mod::lemma_fundamental_div_mod;
use vstd::arithmetic::power2::lemma2_to64;
use vstd::arithmetic::power2::lemma_pow2_adds;
use vstd::arithmetic::power2::lemma_pow2_strictly_increases;
use vstd::arithmetic::power2::pow2;
use crate::address::Address;
use crate::address::Family;

verus! {

/// The number of bits of an address of `family`.
pub open spec fn width_of(family: Family) -> nat {
    match family {
        Family::V4 => 32,
        Family::V6 => 128,
    }
}

/// The number of addresses in a block of `family` whose prefix is `prefix_len`
/// bits long.
pub open spec fn block_size(family: Family, prefix_len: nat) -> nat {
    pow2((width_of(family) - prefix_len) as nat)
}

/// The lowest address of the block of `size` addresses that holds `bits`: the
/// network address.
pub open spec fn block_start(bits: nat, size: nat) -> nat {
    (bits - bits % size) as nat
}

/// Whether the lowest and the highest address of a block are left out of its
/// hosts: in IPv4 blocks of four addresses or more, where they are the
/// network and the broadcast address.
pub open spec fn ends_excluded(family: Family, prefix_len: nat) -> bool {
    family == Family::V4 && prefix_len < 31
}

/// The number of host addresses in a block; 0 where the prefix is longer than
/// an address of the family.
pub open spec fn host_total(family: Family, prefix_len: nat) -> nat {
    if prefix_len > width_of(family) {
        0
    } else if ends_excluded(family, prefix_len) {
        (block_size(family, prefix_len) - 2) as nat
    } else {
        block_size(family, prefix_len)
    }
}

/// The lowest host address of the block that holds `bits`.
pub open spec fn first_host(family: Family, bits: nat, prefix_len: nat) -> nat {
    let network = block_start(bits, block_size(family, prefix_len));
    if ends_excluded(family, prefix_len) {
        network + 1
    } else {
        network
    }
}

/// A network range: an address and the length of the prefix that the
/// addresses of the range share with it.
#[derive(Clone, Copy, Debug, PartialEq, Eq, Structural, Hash)]
pub struct AddressRange {
    pub addr: Address,
    pub prefix_len: u8,
}

impl AddressRange {
    /// Whether the prefix is no longer than an address of the range's family.
    pub open spec fn valid(&self) -> bool {
        self.prefix_len <= self.addr.spec_width()
    }

    /// The number of host addresses in the range.
    pub open spec fn host_count(&self) -> nat {
        host_total(self.addr.spec_family(), self.prefix_len as nat)
    }

    /// The number of the lowest host address.
    pub open spec fn first_host_bits(&self) -> nat {
        first_host(self.addr.spec_family(), self.addr.spec_bits(), self.prefix_len as nat)
    }

    /// The host address at `index` of the ascending enumeration.
    pub open spec fn host(&self, index: nat) -> Address {
        Address::of(self.addr.spec_family(), self.first_host_bits() + index)
    }

    /// The host addresses of the range in ascending order.
    pub open spec fn hosts(&self) -> Seq<Address> {
        Seq::new(self.host_count(), |i: int| self.host(i as nat))
    }

    /// The range of `addr` with a prefix of `prefix_len` bits. The prefix is
    /// taken as given; a range whose prefix is too long has no hosts.
    pub fn new(addr: Address, prefix_len: u8) -> (range: AddressRange)
        ensures
            range.addr == addr,
            range.prefix_len == prefix_len,
    {
        AddressRange { addr, prefix_len }
    }
}

/// A block lies within the address space of its family, and starts at or
/// below every address it holds.
pub proof fn lemma_block_within(family: Family, bits: nat, prefix_len: nat)
    requires
        prefix_len <= width_of(family),
        bits < pow2(width_of(family)),
    ensures
        block_size(family, prefix_len) >= 1,
        block_start(bits, block_size(family, prefix_len)) <= bits,
        block_start(bits, block_size(family, prefix_len)) + block_size(family, prefix_len) <= pow2(
            width_of(family),
        ),
{
    let size = block_size(family, prefix_len);
    let blocks = pow2(prefix_len);
    lemma_pow2_adds(prefix_len, (width_of(family) - prefix_len) as nat);
    let q = (bits as int) / (size as int);
    let r = (bits as int) % (size as int);
    lemma_fundamental_div_mod(bits as int, size as int);
    assert(q < blocks) by (nonlinear_arith)
        requires
            bits == size * q + r,
            0 <= r,
            bits < blocks * size,
            size > 0,
    ;
    assert(size * q + size <= blocks * size) by (nonlinear_arith)
        requires
            q + 1 <= blocks,
            size > 0,
    ;
}

/// A block whose ends are excluded holds at least four addresses.
pub proof fn lemma_trimmed_block_size(family: Family, prefix_len: nat)
    requires
        ends_excluded(family, prefix_len),
    ensures
        block_size(family, prefix_len) >= 4,
{
    lemma2_to64();
}

/// Powers of two do not shrink as the exponent grows.
pub proof fn lemma_pow2_monotone(low: nat, high: nat)
    requires
        low <= high,
    ensures
        pow2(low) <= pow2(high),
{
    if low < high {
        lemma_pow2_strictly_increases(low, high);
    }
}

} // verus!
