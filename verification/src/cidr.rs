//! What the `ipnet` crate computes for this library, on plain integers.
//!
//! Each function here is believed, not proved: its contract restates what
//! `ipnet` documents and implements. An address crosses as the integer that
//! `u32::from` or `u128::from` gives for it, most significant octet first.
//! The network address of `ipnet`, the address with the bits behind the
//! prefix cleared, is `block_start` here; its broadcast address is the last
//! address of the same block.

use vstd::prelude::*;
use crate::address::Address;
use crate::address::Family;
use crate::range::first_host;
use crate::range::host_total;
use crate::range::AddressRange;

verus! {

/// `ipnet::PrefixLenError`: the prefix is longer than an address of the family.
#[verifier::external_type_specification]
#[verifier::external_body]
pub struct ExPrefixLenError(ipnet::PrefixLenError);

/// The range that `ipnet` reads from a text in prefix notation, if it reads one.
pub uninterp spec fn parsed_cidr(text: Seq<char>) -> Option<AddressRange>;

/// `<ipnet::IpNet as FromStr>::from_str`. The result depends on the text
/// alone; a range that was read has a prefix no longer than its address, and
/// its address is kept as written.
#[verifier::external_body]
pub(crate) fn parse_cidr(text: &str) -> (range: Option<AddressRange>)
    ensures
        range == parsed_cidr(text@),
        range matches Some(r) ==> r.valid(),
{
    match text.parse::<ipnet::IpNet>() {
        Ok(ipnet::IpNet::V4(net)) => Some(
            AddressRange { addr: Address::V4(net.addr().into()), prefix_len: net.prefix_len() },
        ),
        Ok(ipnet::IpNet::V6(net)) => Some(
            AddressRange { addr: Address::V6(net.addr().into()), prefix_len: net.prefix_len() },
        ),
        Err(_) => None,
    }
}

/// `ipnet::Ipv4Net::new`, then `hosts()` and `count()` on the network. `new`
/// fails exactly for a prefix longer than 32 bits. The hosts of a network of
/// four addresses or more are all but its lowest and highest address; those
/// of a smaller one are all its addresses.
#[verifier::external_body]
pub(crate) fn v4_host_count(addr: u32, prefix_len: u8) -> (counted: Result<
    usize,
    ipnet::PrefixLenError,
>)
    ensures
        match counted {
            Ok(n) => prefix_len <= 32 && n == host_total(Family::V4, prefix_len as nat),
            Err(_) => prefix_len > 32,
        },
{
    Ok(ipnet::Ipv4Net::new(addr.into(), prefix_len)?.hosts().count())
}

/// `ipnet::Ipv4Net::hosts()`, then `nth(index)`: the host addresses ascend by
/// one from the lowest, and there is none at or beyond their count.
#[verifier::external_body]
pub(crate) fn v4_host_at(addr: u32, prefix_len: u8, index: usize) -> (host: Option<u32>)
    requires
        prefix_len <= 32,
    ensures
        match host {
            Some(bits) => index < host_total(Family::V4, prefix_len as nat) && bits == first_host(
                Family::V4,
                addr as nat,
                prefix_len as nat,
            ) + index,
            None => index >= host_total(Family::V4, prefix_len as nat),
        },
{
    ipnet::Ipv4Net::new_assert(addr.into(), prefix_len).hosts().nth(index).map(u32::from)
}

/// `ipnet::Ipv6Net::new`, then `hosts()` and `count()` on the network. `new`
/// fails exactly for a prefix longer than 128 bits. Every address of an IPv6
/// network is a host. `count` overflows where the hosts outnumber `usize`.
#[verifier::external_body]
pub(crate) fn v6_host_count(addr: u128, prefix_len: u8) -> (counted: Result<
    usize,
    ipnet::PrefixLenError,
>)
    requires
        host_total(Family::V6, prefix_len as nat) <= usize::MAX,
    ensures
        match counted {
            Ok(n) => prefix_len <= 128 && n == host_total(Family::V6, prefix_len as nat),
            Err(_) => prefix_len > 128,
        },
{
    Ok(ipnet::Ipv6Net::new(addr.into(), prefix_len)?.hosts().count())
}

/// `ipnet::Ipv6Net::hosts()`, then `nth(index)`: the host addresses ascend by
/// one from the lowest, and there is none at or beyond their count.
#[verifier::external_body]
pub(crate) fn v6_host_at(addr: u128, prefix_len: u8, index: usize) -> (host: Option<u128>)
    requires
        prefix_len <= 128,
    ensures
        match host {
            Some(bits) => index < host_total(Family::V6, prefix_len as nat) && bits == first_host(
                Family::V6,
                addr as nat,
                prefix_len as nat,
            ) + index,
            None => index >= host_total(Family::V6, prefix_len as nat),
        },
{
    ipnet::Ipv6Net::new_assert(addr.into(), prefix_len).hosts().nth(index).map(u128::from)
}

} // verus!
