//! The ordered, restartable enumeration of a range's host addresses.

use vstd::prelude::*;
use vstd::arithmetic::power2::lemma_pow2_strictly_increases;
use vstd::arithmetic::power2::pow2;
use vstd::layout::unsigned_int_max_values;
use crate::address::Address;
use crate::cidr::parse_cidr;
use crate::cidr::parsed_cidr;
use crate::cidr::v4_host_at;
use crate::cidr::v4_host_count;
use crate::cidr::v6_host_at;
use crate::cidr::v6_host_count;
use crate::error::ScanError;
use crate::range::lemma_block_within;
use crate::range::lemma_pow2_monotone;
use crate::range::lemma_trimmed_block_size;
use crate::range::ends_excluded;
use crate::range::AddressRange;

verus! {

/// Why `range` cannot be enumerated, if it cannot: it has no host, or more
/// hosts than a machine word counts.
pub open spec fn enumeration_error(range: AddressRange) -> Option<ScanError> {
    if range.host_count() == 0 {
        Some(ScanError::InvalidRange)
    } else if range.host_count() > usize::MAX {
        Some(ScanError::RangeTooLarge)
    } else {
        None
    }
}

/// The same for a range given as text, where a text that names no range has
/// no host either.
pub open spec fn text_enumeration_error(range: Option<AddressRange>) -> Option<ScanError> {
    match range {
        Some(r) => enumeration_error(r),
        None => Some(ScanError::InvalidRange),
    }
}

/// A valid range has a host, and none of its hosts leaves the address space.
pub proof fn lemma_hosts_exist(range: AddressRange)
    requires
        range.valid(),
    ensures
        range.host_count() >= 1,
        range.first_host_bits() + range.host_count() <= pow2(range.addr.spec_width()),
{
    let family = range.addr.spec_family();
    let prefix_len = range.prefix_len as nat;
    unsigned_int_max_values();
    lemma_block_within(family, range.addr.spec_bits(), prefix_len);
    if ends_excluded(family, prefix_len) {
        lemma_trimmed_block_size(family, prefix_len);
    }
}

/// The hosts of a valid range are the consecutive addresses of its family
/// from the first host on.
pub proof fn lemma_host_bits(range: AddressRange, index: nat)
    requires
        range.valid(),
        index < range.host_count(),
    ensures
        range.host(index).spec_family() == range.addr.spec_family(),
        range.host(index).spec_bits() == range.first_host_bits() + index,
        range.hosts()[index as int] == range.host(index),
{
    lemma_hosts_exist(range);
    unsigned_int_max_values();
}

/// The hosts of a range ascend strictly: the enumeration names no address
/// twice.
pub proof fn lemma_hosts_ascend(range: AddressRange, i: nat, j: nat)
    requires
        range.valid(),
        i < j < range.host_count(),
    ensures
        range.hosts()[i as int].spec_bits() < range.hosts()[j as int].spec_bits(),
        range.hosts()[i as int] != range.hosts()[j as int],
{
    lemma_host_bits(range, j);
}

/// The enumeration of a valid range names no address twice.
pub proof fn lemma_hosts_distinct(range: AddressRange)
    requires
        range.valid(),
    ensures
        range.hosts().no_duplicates(),
{
    assert forall|i: int, j: int|
        0 <= i < range.hosts().len() && 0 <= j < range.hosts().len() && i != j implies range.hosts()[i]
        != range.hosts()[j] by {
        if i < j {
            lemma_hosts_ascend(range, i as nat, j as nat);
        } else {
            lemma_hosts_ascend(range, j as nat, i as nat);
        }
    }
}

/// A cursor over the host addresses of one range, lowest first.
#[derive(Clone, Copy, Debug)]
pub struct AddressEnumerator {
    range: AddressRange,
    total: usize,
    cursor: usize,
}

impl AddressEnumerator {
    /// The range whose hosts are enumerated.
    pub closed spec fn spec_range(&self) -> AddressRange {
        self.range
    }

    /// The range whose hosts are enumerated.
    #[verifier::when_used_as_spec(spec_range)]
    pub fn range(&self) -> (range: AddressRange)
        ensures
            range == self.spec_range(),
    {
        self.range
    }

    /// How many hosts have been handed out since the start or the last
    /// restart.
    pub closed spec fn consumed(&self) -> nat {
        self.cursor as nat
    }

    /// The whole enumeration, whatever has been consumed of it.
    pub open spec fn hosts(&self) -> Seq<Address> {
        self.range().hosts()
    }

    /// The invariant of an enumerator: its range has hosts, their count fits
    /// a machine word, and no more than all of them were consumed.
    pub closed spec fn wf(&self) -> bool {
        &&& self.range.valid()
        &&& self.total == self.range.host_count()
        &&& self.cursor <= self.total
    }

    /// What the invariant means in terms of the enumeration.
    pub proof fn lemma_wf(&self)
        requires
            self.wf(),
        ensures
            self.range().valid(),
            1 <= self.hosts().len() <= usize::MAX,
            self.hosts().len() == self.range().host_count(),
            self.consumed() <= self.hosts().len(),
            enumeration_error(self.range()) is None,
    {
        lemma_hosts_exist(self.range);
    }

    /// An enumerator at the first host of `range`, or the reason why the
    /// range cannot be scanned.
    pub fn new(range: AddressRange) -> (made: Result<AddressEnumerator, ScanError>)
        ensures
            match made {
                Ok(e) => e.wf() && e.range() == range && e.consumed() == 0 && enumeration_error(
                    range,
                ) is None,
                Err(error) => enumeration_error(range) == Some(error),
            },
    {
        proof {
            unsigned_int_max_values();
            if range.valid() {
                lemma_hosts_exist(range);
            }
        }
        let counted = match range.addr {
            Address::V4(bits) => v4_host_count(bits, range.prefix_len),
            Address::V6(bits) => {
                if range.prefix_len <= 128 && (128 - range.prefix_len) as u32 >= usize::BITS {
                    proof {
                        lemma_pow2_monotone(
                            usize::BITS as nat,
                            (128 - range.prefix_len) as nat,
                        );
                    }
                    return Err(ScanError::RangeTooLarge);
                }
                proof {
                    if range.prefix_len <= 128 {
                        lemma_pow2_strictly_increases(
                            (128 - range.prefix_len) as nat,
                            usize::BITS as nat,
                        );
                    }
                }
                v6_host_count(bits, range.prefix_len)
            },
        };
        match counted {
            Ok(total) => Ok(AddressEnumerator { range, total, cursor: 0 }),
            Err(_) => Err(ScanError::InvalidRange),
        }
    }

    /// An enumerator for a range that was read from text, if one was read.
    pub fn from_parsed(parsed: Option<AddressRange>) -> (made: Result<AddressEnumerator, ScanError>)
        ensures
            match made {
                Ok(e) => e.wf() && Some(e.range()) == parsed && e.consumed() == 0
                    && text_enumeration_error(parsed) is None,
                Err(error) => text_enumeration_error(parsed) == Some(error),
            },
    {
        match parsed {
            Some(range) => AddressEnumerator::new(range),
            None => Err(ScanError::InvalidRange),
        }
    }

    /// An enumerator for the range that `text` names in prefix notation, such
    /// as `198.51.100.0/24`.
    pub fn from_cidr(text: &str) -> (made: Result<AddressEnumerator, ScanError>)
        ensures
            match made {
                Ok(e) => e.wf() && Some(e.range()) == parsed_cidr(text@) && e.consumed() == 0
                    && text_enumeration_error(parsed_cidr(text@)) is None,
                Err(error) => text_enumeration_error(parsed_cidr(text@)) == Some(error),
            },
    {
        AddressEnumerator::from_parsed(parse_cidr(text))
    }

    /// The number of hosts in the whole enumeration.
    pub fn count(&self) -> (total: usize)
        requires
            self.wf(),
        ensures
            total == self.hosts().len(),
    {
        self.total
    }

    /// The number of hosts handed out so far.
    pub fn position(&self) -> (position: usize)
        requires
            self.wf(),
        ensures
            position == self.consumed(),
    {
        self.cursor
    }

    /// The number of hosts still to come.
    pub fn remaining(&self) -> (left: usize)
        requires
            self.wf(),
        ensures
            left == self.hosts().len() - self.consumed(),
    {
        self.total - self.cursor
    }

    /// The host at `index` of the enumeration, counted from 0, or `None` where
    /// the enumeration is shorter. The cursor stays where it is.
    pub fn host_at(&self, index: usize) -> (host: Option<Address>)
        requires
            self.wf(),
        ensures
            host == if index < self.hosts().len() {
                Some(self.hosts()[index as int])
            } else {
                None
            },
    {
        match self.range.addr {
            Address::V4(bits) => match v4_host_at(bits, self.range.prefix_len, index) {
                Some(found) => Some(Address::V4(found)),
                None => None,
            },
            Address::V6(bits) => match v6_host_at(bits, self.range.prefix_len, index) {
                Some(found) => Some(Address::V6(found)),
                None => None,
            },
        }
    }

    /// Hands out the next host in ascending order, or `None` once all were
    /// handed out.
    pub fn next(&mut self) -> (host: Option<Address>)
        requires
            old(self).wf(),
        ensures
            final(self).wf(),
            final(self).range() == old(self).range(),
            match host {
                Some(address) => old(self).consumed() < old(self).hosts().len() && address == old(
                    self,
                ).hosts()[old(self).consumed() as int] && final(self).consumed() == old(
                    self,
                ).consumed() + 1,
                None => old(self).consumed() == old(self).hosts().len() && final(self).consumed()
                    == old(self).consumed(),
            },
    {
        let host = self.host_at(self.cursor);
        if self.cursor < self.total {
            self.cursor = self.cursor + 1;
        }
        host
    }

    /// Starts the enumeration over from the first host.
    pub fn restart(&mut self)
        requires
            old(self).wf(),
        ensures
            final(self).wf(),
            final(self).range() == old(self).range(),
            final(self).consumed() == 0,
    {
        self.cursor = 0;
    }
}

} // verus!
