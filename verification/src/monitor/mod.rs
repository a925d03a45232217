//! System monitors: the parsing of the procfs and sysfs texts they read and
//! the counters they keep between polls.

pub mod cpu;
pub mod cpufreq;
pub mod memory;
pub mod network;
pub mod percore;
pub mod process;
pub mod thermal;

use vstd::prelude::*;

use crate::utils::chars::char_rows;
use crate::utils::number::{parse_u64, parse_unsigned_chars};

verus! {

/// Value of word `i` of `ws` as a `u64`, if there is such a word and it parses.
pub open spec fn word_u64(ws: Seq<Seq<char>>, i: int) -> Option<nat> {
    if 0 <= i < ws.len() {
        parse_u64(ws[i])
    } else {
        None
    }
}

/// Value of word `i`, or 0 when it is missing or does not parse.
pub open spec fn word_u64_or_zero(ws: Seq<Seq<char>>, i: int) -> nat {
    match word_u64(ws, i) {
        Some(v) => v,
        None => 0,
    }
}

/// Word `i` of `ws` parsed as a `u64`.
pub fn word_to_u64(ws: &Vec<Vec<char>>, i: usize) -> (r: Option<u64>)
    ensures
        match r {
            Some(v) => word_u64(char_rows(ws@), i as int) == Some(v as nat),
            None => word_u64(char_rows(ws@), i as int) is None,
        },
{
    if i < ws.len() {
        parse_unsigned_chars(&ws[i], 10, u64::MAX)
    } else {
        None
    }
}

/// Word `i` parsed as a `u64`, or 0.
pub fn word_to_u64_or_zero(ws: &Vec<Vec<char>>, i: usize) -> (r: u64)
    ensures
        r == word_u64_or_zero(char_rows(ws@), i as int),
{
    match word_to_u64(ws, i) {
        Some(v) => v,
        None => 0,
    }
}

/// Idle and total ticks of a CPU line's eight counters (user, nice,
/// system, idle, iowait, irq, softirq, steal): iowait counts as idle.
pub open spec fn ticks_of(f: Seq<nat>) -> (nat, nat) {
    (f[3] + f[4], f[0] + f[1] + f[2] + f[3] + f[4] + f[5] + f[6] + f[7])
}

/// Both tick sums of the counters fit a `u64`.
pub open spec fn ticks_fit(f: Seq<nat>) -> bool {
    f[0] + f[1] + f[2] + f[3] + f[4] + f[5] + f[6] + f[7] <= u64::MAX
}

/// Idle and total ticks of eight counters.
pub fn ticks(f: &[u64; 8]) -> (r: (u64, u64))
    requires
        ticks_fit(f@.map_values(|v: u64| v as nat)),
    ensures
        (r.0 as nat, r.1 as nat) == ticks_of(f@.map_values(|v: u64| v as nat)),
{
    proof {
        let g = f@.map_values(|v: u64| v as nat);
        assert(g[0] == f[0] && g[1] == f[1] && g[2] == f[2] && g[3] == f[3] && g[4] == f[4]
            && g[5] == f[5] && g[6] == f[6] && g[7] == f[7]);
    }
    (f[3] + f[4], f[0] + f[1] + f[2] + f[3] + f[4] + f[5] + f[6] + f[7])
}

/// Whether the eight counters' tick sums fit a `u64`.
pub fn ticks_in_range(f: &[u64; 8]) -> (r: bool)
    ensures
        r == ticks_fit(f@.map_values(|v: u64| v as nat)),
{
    proof {
        let g = f@.map_values(|v: u64| v as nat);
        assert(g[0] == f[0] && g[1] == f[1] && g[2] == f[2] && g[3] == f[3] && g[4] == f[4]
            && g[5] == f[5] && g[6] == f[6] && g[7] == f[7]);
    }
    let sum: u128 = f[0] as u128 + f[1] as u128 + f[2] as u128 + f[3] as u128 + f[4] as u128
        + f[5] as u128 + f[6] as u128 + f[7] as u128;
    sum <= 0xFFFF_FFFF_FFFF_FFFF
}

} // verus!
