//! The failures that end a scan.

use vstd::prelude::*;

verus! {

/// Why a scan could not start or did not complete. A probe that fails is no
/// such error: it is an outcome of that probe, and the scan goes on.
#[derive(Clone, Copy, Debug, PartialEq, Eq, Structural, Hash)]
pub enum ScanError {
    /// The range holds no usable host address: its prefix is longer than an
    /// address of its family, or the text given for it names no range.
    InvalidRange,
    /// The range holds more host addresses than this machine can count.
    RangeTooLarge,
    /// The concurrency ceiling or the timeout is zero.
    InvalidConfiguration,
    /// The run did not reach its end: no new concurrent execution could be
    /// created, or the run was left early. What it had gathered is discarded.
    SchedulerResource,
}

impl ScanError {
    /// The explanation shown to the user.
    pub open spec fn spec_message(&self) -> Seq<char> {
        match *self {
            ScanError::InvalidRange => "the range has no usable host address"@,
            ScanError::RangeTooLarge => "the range has more host addresses than can be counted"@,
            ScanError::InvalidConfiguration => "concurrency and timeout must be at least 1"@,
            ScanError::SchedulerResource => "the run could not complete: no result"@,
        }
    }

    /// The explanation shown to the user.
    pub fn message(&self) -> (text: &'static str)
        ensures
            text@ == self.spec_message(),
    {
        match self {
            ScanError::InvalidRange => "the range has no usable host address",
            ScanError::RangeTooLarge => "the range has more host addresses than can be counted",
            ScanError::InvalidConfiguration => "concurrency and timeout must be at least 1",
            ScanError::SchedulerResource => "the run could not complete: no result",
        }
    }
}

} // verus!
