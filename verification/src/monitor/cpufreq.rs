//! CPU frequency of core 0 in kHz, read from cpufreq.

use vstd::prelude::*;

use crate::utils::{parse_u64_prefix, u64_prefix};

verus! {

/// Frequency in kHz held in a cpufreq file: its leading number, or 0 when
/// the file could not be read or holds no number.
pub open spec fn khz_of(content: Option<Seq<char>>) -> nat {
    match content {
        Some(c) => match u64_prefix(c) {
            Some(v) => v,
            None => 0,
        },
        None => 0,
    }
}

/// Frequency in kHz from the content of a cpufreq file (`None` when it
/// could not be read).
pub fn read_khz(content: Option<&str>) -> (r: u64)
    ensures
        r as nat == khz_of(
            match content {
                Some(c) => Some(c@),
                None => None,
            },
        ),
{
    match content {
        Some(c) => match parse_u64_prefix(c) {
            Some(v) => v,
            None => 0,
        },
        None => 0,
    }
}

/// Reader of the current and maximum frequency of core 0.
pub struct CpuFreqMonitor;

impl CpuFreqMonitor {
    /// The frequency reader.
    pub fn new() -> (r: Self) {
        CpuFreqMonitor
    }

    /// Current and maximum frequency in kHz from the contents of the
    /// current and maximum frequency files (0 where unreadable).
    pub fn poll(&self, cur: Option<&str>, max: Option<&str>) -> (r: (u64, u64))
        ensures
            r.0 as nat == khz_of(
                match cur {
                    Some(c) => Some(c@),
                    None => None,
                },
            ),
            r.1 as nat == khz_of(
                match max {
                    Some(c) => Some(c@),
                    None => None,
                },
            ),
    {
        (read_khz(cur), read_khz(max))
    }
}

} // verus!
