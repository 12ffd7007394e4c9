//! Times and durations, in nanoseconds.
use vstd::prelude::*;

verus! {

/// One millisecond.
pub const MSECOND: u64 = 1_000_000;

/// One second.
pub const SECOND: u64 = 1_000_000_000;

/// The value that stands for the absence of a time.
pub const NONE: u64 = 0xffff_ffff_ffff_ffff;

/// How often the streaming task wakes up when the server is silent.
pub const GRANULARITY: u64 = 100 * MSECOND;

/// The latency of an element whose latency was not set.
pub const DEFAULT_LATENCY: u64 = 5 * SECOND;

/// `a - b`, and zero where that would be negative.
pub open spec fn monus(a: int, b: int) -> int {
    if a >= b {
        a - b
    } else {
        0
    }
}

/// The larger of two times.
pub open spec fn later(a: int, b: int) -> int {
    if a >= b {
        a
    } else {
        b
    }
}

} // verus!
