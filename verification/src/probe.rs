//! Classification of the response to one probe.

use vstd::prelude::*;
use vstd::string::StringExecFns;
use vstd::string::StringSliceAdditionalSpecFns;
use crate::outcome::ProbeOutcome;

verus! {

/// Whether `needle` stands at offset `at` of `haystack`.
pub open spec fn occurs_at(needle: Seq<u8>, haystack: Seq<u8>, at: int) -> bool {
    &&& 0 <= at
    &&& at + needle.len() <= haystack.len()
    &&& haystack.subrange(at, at + needle.len()) == needle
}

/// Whether `needle` stands somewhere in `haystack` as a contiguous run of
/// bytes.
pub open spec fn occurs_in(needle: Seq<u8>, haystack: Seq<u8>) -> bool {
    exists|at: int| occurs_at(needle, haystack, at)
}

/// The outcome for a response: failed where there is no body, positive where
/// the body holds the marker, negative otherwise.
pub open spec fn classification(body: Option<Seq<u8>>, marker: Seq<u8>) -> ProbeOutcome {
    match body {
        None => ProbeOutcome::Failed,
        Some(bytes) => if occurs_in(marker, bytes) {
            ProbeOutcome::Positive
        } else {
            ProbeOutcome::Negative
        },
    }
}

/// The marker that the diagnostic page of an edge node shows for `host`.
pub fn trace_marker(host: &str) -> (marker: String)
    ensures
        marker@ == "h="@ + host@,
{
    String::from_str("h=").concat(host)
}

/// The address of the diagnostic page for `host`.
pub fn trace_url(host: &str) -> (url: String)
    ensures
        url@ == "https://"@ + host@ + "/cdn-cgi/trace"@,
{
    String::from_str("https://").concat(host).concat("/cdn-cgi/trace")
}

/// Whether `marker` stands at offset `at` of `body`.
fn matches_at(body: &[u8], marker: &[u8], at: usize) -> (matched: bool)
    requires
        at + marker@.len() <= body@.len(),
    ensures
        matched == occurs_at(marker@, body@, at as int),
{
    let width: usize = marker.len();
    let length: usize = body.len();
    let mut k: usize = 0;
    while k < width
        invariant
            width == marker@.len(),
            length == body@.len(),
            k <= width,
            at + width <= length,
            forall|j: int| 0 <= j < k ==> body@[at + j] == marker@[j],
        decreases width - k,
    {
        if body[at + k] != marker[k] {
            return false;
        }
        k = k + 1;
    }
    assert(body@.subrange(at as int, at + width) =~= marker@);
    true
}

/// Whether the bytes of `marker` stand somewhere in `body`.
pub fn contains_marker(body: &[u8], marker: &[u8]) -> (found: bool)
    ensures
        found == occurs_in(marker@, body@),
{
    if marker.len() > body.len() {
        return false;
    }
    let last: usize = body.len() - marker.len();
    let mut at: usize = 0;
    loop
        invariant
            last == body@.len() - marker@.len(),
            at <= last,
            forall|i: int| 0 <= i < at ==> !occurs_at(marker@, body@, i),
        decreases last - at,
    {
        if matches_at(body, marker, at) {
            return true;
        }
        if at == last {
            return false;
        }
        at = at + 1;
    }
}

/// Classifies one response: `None` stands for a probe that got no body, for
/// whatever reason.
pub fn classify_response(body: Option<&str>, marker: &str) -> (outcome: ProbeOutcome)
    ensures
        outcome == classification(
            match body {
                Some(text) => Some(text.spec_bytes()),
                None => None,
            },
            marker.spec_bytes(),
        ),
{
    match body {
        None => ProbeOutcome::Failed,
        Some(text) => {
            if contains_marker(text.as_bytes(), marker.as_bytes()) {
                ProbeOutcome::Positive
            } else {
                ProbeOutcome::Negative
            }
        },
    }
}

} // verus!
