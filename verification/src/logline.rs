//! One line of log output, as it travels from a reader to the consumer.

use std::time::SystemTime;
use vstd::prelude::*;

verus! {

/// A point in wall-clock time, carried through unread.
#[verifier::external_type_specification]
#[verifier::external_body]
pub struct ExSystemTime(std::time::SystemTime);

/// `SystemTime` is `Copy`: its `clone` hands back the same point in time.
pub assume_specification[ <SystemTime as Clone>::clone ](t: &SystemTime) -> (r: SystemTime)
    ensures
        r == *t,
;

/// A line together with the source it came from and the time it was read.
#[derive(Debug, Clone)]
pub struct LogLine {
    /// The name of the source that produced the line.
    pub source: String,
    /// The raw text of the line.
    pub line: String,
    /// When the line was read.
    pub timestamp: SystemTime,
}

} // verus!
