//! What one probe is asked to do and what it can yield.

use vstd::prelude::*;
use crate::address::Address;

verus! {

/// The result of probing one address.
#[derive(Clone, Copy, Debug, PartialEq, Eq, Structural, Hash)]
pub enum ProbeOutcome {
    /// The address answered as an edge node for the target hostname.
    Positive,
    /// The address answered, but not as such a node.
    Negative,
    /// The probe could not complete: timeout, refused connection, broken
    /// handshake or malformed response.
    Failed,
}

impl ProbeOutcome {
    /// Whether the outcome puts the address into the result. A failed probe
    /// counts like a negative one.
    pub open spec fn spec_is_positive(&self) -> bool {
        *self == ProbeOutcome::Positive
    }

    /// What is said of an address with this outcome: one of two sentences,
    /// the same for a negative and for a failed probe.
    pub open spec fn spec_verdict(&self) -> Seq<char> {
        if self.spec_is_positive() {
            "is behind CDN"@
        } else {
            "is not behind CDN"@
        }
    }

    /// The words to print behind the address.
    pub fn verdict(&self) -> (text: &'static str)
        ensures
            text@ == self.spec_verdict(),
    {
        match self {
            ProbeOutcome::Positive => "is behind CDN",
            ProbeOutcome::Negative => "is not behind CDN",
            ProbeOutcome::Failed => "is not behind CDN",
        }
    }

    #[verifier::when_used_as_spec(spec_is_positive)]
    pub fn is_positive(&self) -> (positive: bool)
        ensures
            positive == self.spec_is_positive(),
    {
        match self {
            ProbeOutcome::Positive => true,
            ProbeOutcome::Negative => false,
            ProbeOutcome::Failed => false,
        }
    }
}

/// One unit of scheduled work: the address to contact and the time the probe
/// may take, in seconds.
#[derive(Clone, Copy, Debug, PartialEq, Eq, Structural, Hash)]
pub struct ProbeTask {
    pub address: Address,
    pub timeout_secs: u64,
}

/// One probe that has run to its end: the address and what came of it.
#[derive(Clone, Copy, Debug, PartialEq, Eq, Structural, Hash)]
pub struct Completion {
    pub address: Address,
    pub outcome: ProbeOutcome,
}

/// What the scheduler asks of its driver next.
#[derive(Clone, Copy, Debug, PartialEq, Eq, Structural, Hash)]
pub enum Action {
    /// Start this probe now; it counts as in flight from here on.
    Dispatch(ProbeTask),
    /// The ceiling is reached or no address is left: wait until one of the
    /// probes in flight completes and report it.
    AwaitCompletion,
    /// Every address has its outcome, or the run was abandoned.
    Finished,
}

/// How far dispatching has come; for display only.
#[derive(Clone, Copy, Debug, PartialEq, Eq, Structural, Hash)]
pub struct ProgressCounter {
    pub dispatched: usize,
    pub total: usize,
}

} // verus!
