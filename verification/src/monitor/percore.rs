//! Per-core CPU utilisation of the first four cores (`cpu0`..`cpu3` lines
//! of `/proc/stat`).

use vstd::prelude::*;

use super::{ticks, ticks_fit, ticks_in_range, ticks_of, word_to_u64_or_zero, word_u64_or_zero};
use crate::utils::chars::{char_rows, has_prefix, lines, slice_chars, split_lines, split_words, starts_with, str_chars, words};
use crate::utils::number::{parse_unsigned, parse_unsigned_chars};
use crate::utils::AppError;

verus! {

/// The counters of one CPU line, each 0 when missing or malformed.
pub open spec fn line_fields(ws: Seq<Seq<char>>) -> Seq<nat> {
    seq![
        word_u64_or_zero(ws, 1),
        word_u64_or_zero(ws, 2),
        word_u64_or_zero(ws, 3),
        word_u64_or_zero(ws, 4),
        word_u64_or_zero(ws, 5),
        word_u64_or_zero(ws, 6),
        word_u64_or_zero(ws, 7),
        word_u64_or_zero(ws, 8),
    ]
}

/// Core number of a `cpuN` line: `N` parsed as a `usize`, or 99 (no core
/// that is reported) when it does not parse.
pub open spec fn core_index(ws: Seq<Seq<char>>) -> nat {
    let name = if ws.len() > 0 {
        ws[0]
    } else {
        seq![]
    };
    match parse_unsigned(if name.len() >= 3 {
        name.skip(3)
    } else {
        seq![]
    }, 10, usize::MAX as nat) {
        Some(n) => n,
        None => 99,
    }
}

/// `"cpu"`.
pub open spec fn cpu_prefix() -> Seq<char> {
    seq!['c', 'p', 'u']
}

/// Ticks of cores 0 to 3 after reading the CPU lines at the start of `ls`
/// (reading stops at the first line that does not start with `"cpu"`; a
/// later line for a core replaces an earlier one).
pub open spec fn scan_cores(ls: Seq<Seq<char>>, acc: Seq<(nat, nat)>) -> Seq<(nat, nat)>
    decreases ls.len(),
{
    if ls.len() == 0 || !has_prefix(ls[0], cpu_prefix()) {
        acc
    } else {
        let ws = words(ls[0]);
        let idx = core_index(ws);
        scan_cores(
            ls.drop_first(),
            if idx < 4 {
                acc.update(idx as int, ticks_of(line_fields(ws)))
            } else {
                acc
            },
        )
    }
}

/// The tick sums of every core line that is read fit a `u64`.
pub open spec fn scan_fits(ls: Seq<Seq<char>>) -> bool
    decreases ls.len(),
{
    if ls.len() == 0 || !has_prefix(ls[0], cpu_prefix()) {
        true
    } else {
        let ws = words(ls[0]);
        (core_index(ws) < 4 ==> ticks_fit(line_fields(ws))) && scan_fits(ls.drop_first())
    }
}

/// Four idle/total pairs of zero.
pub open spec fn no_ticks() -> Seq<(nat, nat)> {
    seq![(0nat, 0nat), (0nat, 0nat), (0nat, 0nat), (0nat, 0nat)]
}

/// The lines after the first one.
pub open spec fn after_first(ls: Seq<Seq<char>>) -> Seq<Seq<char>> {
    if ls.len() == 0 {
        ls
    } else {
        ls.drop_first()
    }
}

/// Idle and total ticks of cores 0 to 3 in the text of `/proc/stat`.
pub open spec fn percore_ticks(stat: Seq<char>) -> Seq<(nat, nat)> {
    scan_cores(after_first(lines(stat)), no_ticks())
}

/// The per-core tick sums of the text of `/proc/stat` fit a `u64`.
pub open spec fn percore_fits(stat: Seq<char>) -> bool {
    scan_fits(after_first(lines(stat)))
}

fn core_index_of(ws: &Vec<Vec<char>>) -> (r: u64)
    ensures
        r as nat == core_index(char_rows(ws@)),
{
    let name: Vec<char> = if ws.len() > 0 {
        slice_chars(&ws[0], 0, ws[0].len())
    } else {
        Vec::new()
    };
    proof {
        if ws@.len() > 0 {
            assert(name@ =~= char_rows(ws@)[0]);
        } else {
            assert(name@ =~= Seq::<char>::empty());
        }
    }
    let digits: Vec<char> = if name.len() >= 3 {
        slice_chars(&name, 3, name.len())
    } else {
        Vec::new()
    };
    proof {
        if name@.len() >= 3 {
            assert(digits@ =~= name@.skip(3));
        } else {
            assert(digits@ =~= Seq::<char>::empty());
        }
    }
    match parse_unsigned_chars(&digits, 10, usize::MAX as u64) {
        Some(n) => n,
        None => 99,
    }
}

fn line_counters(ws: &Vec<Vec<char>>) -> (f: [u64; 8])
    ensures
        f@.map_values(|v: u64| v as nat) == line_fields(char_rows(ws@)),
{
    let f = [
        word_to_u64_or_zero(ws, 1),
        word_to_u64_or_zero(ws, 2),
        word_to_u64_or_zero(ws, 3),
        word_to_u64_or_zero(ws, 4),
        word_to_u64_or_zero(ws, 5),
        word_to_u64_or_zero(ws, 6),
        word_to_u64_or_zero(ws, 7),
        word_to_u64_or_zero(ws, 8),
    ];
    proof {
        assert(f@.map_values(|v: u64| v as nat) =~= line_fields(char_rows(ws@)));
    }
    f
}

/// Whether the per-core tick sums of the text of `/proc/stat` fit a `u64`.
#[verifier::rlimit(40)]
pub fn percore_in_range(stat: &str) -> (r: bool)
    ensures
        r == percore_fits(stat@),
{
    let v = str_chars(stat);
    let ls = split_lines(&v);
    let ghost all = after_first(char_rows(ls@));
    let cpu = vec!['c', 'p', 'u'];
    proof {
        assert(cpu@ =~= cpu_prefix());
    }
    if ls.len() == 0 {
        return true;
    }
    let mut i: usize = 1;
    proof {
        assert(char_rows(ls@).skip(1) =~= all);
    }
    while i < ls.len()
        invariant
            1 <= i <= ls@.len(),
            cpu@ == cpu_prefix(),
            all == after_first(char_rows(ls@)),
            char_rows(ls@) == lines(stat@),
            scan_fits(all) == scan_fits(char_rows(ls@).skip(i as int)),
        decreases ls@.len() - i,
    {
        let ghost rest = char_rows(ls@).skip(i as int);
        proof {
            assert(rest.drop_first() =~= char_rows(ls@).skip(i + 1));
            assert(rest[0] == ls@[i as int]@);
        }
        if !starts_with(&ls[i], &cpu) {
            proof {
                assert(!has_prefix(rest[0], cpu_prefix()));
            }
            return true;
        }
        let ws = split_words(&ls[i]);
        let idx = core_index_of(&ws);
        if idx < 4 {
            let f = line_counters(&ws);
            if !ticks_in_range(&f) {
                return false;
            }
        }
        i = i + 1;
    }
    proof {
        assert(char_rows(ls@).skip(i as int) =~= Seq::<Seq<char>>::empty());
    }
    true
}

/// Idle and total ticks of cores 0 to 3 in the text of `/proc/stat`.
#[verifier::rlimit(40)]
pub fn read_percore_stats(stat: &str) -> (r: [(u64, u64); 4])
    requires
        percore_fits(stat@),
    ensures
        r@.map_values(|p: (u64, u64)| (p.0 as nat, p.1 as nat)) == percore_ticks(stat@),
{
    let v = str_chars(stat);
    let ls = split_lines(&v);
    let ghost all = after_first(char_rows(ls@));
    let cpu = vec!['c', 'p', 'u'];
    proof {
        assert(cpu@ =~= cpu_prefix());
    }
    let mut cores = [(0u64, 0u64); 4];
    proof {
        assert(cores@.map_values(|p: (u64, u64)| (p.0 as nat, p.1 as nat)) =~= no_ticks());
    }
    if ls.len() == 0 {
        return cores;
    }
    let mut i: usize = 1;
    proof {
        assert(char_rows(ls@).skip(1) =~= all);
    }
    while i < ls.len()
        invariant
            1 <= i <= ls@.len(),
            cpu@ == cpu_prefix(),
            all == after_first(char_rows(ls@)),
            char_rows(ls@) == lines(stat@),
            scan_fits(char_rows(ls@).skip(i as int)),
            scan_cores(all, no_ticks()) == scan_cores(
                char_rows(ls@).skip(i as int),
                cores@.map_values(|p: (u64, u64)| (p.0 as nat, p.1 as nat)),
            ),
        decreases ls@.len() - i,
    {
        let ghost rest = char_rows(ls@).skip(i as int);
        proof {
            assert(rest.drop_first() =~= char_rows(ls@).skip(i + 1));
            assert(rest[0] == ls@[i as int]@);
        }
        if !starts_with(&ls[i], &cpu) {
            proof {
                assert(!has_prefix(rest[0], cpu_prefix()));
                assert(scan_cores(rest, cores@.map_values(|p: (u64, u64)| (p.0 as nat, p.1 as nat)))
                    == cores@.map_values(|p: (u64, u64)| (p.0 as nat, p.1 as nat)));
            }
            return cores;
        }
        let ws = split_words(&ls[i]);
        let idx = core_index_of(&ws);
        if idx < 4 {
            let f = line_counters(&ws);
            let t = ticks(&f);
            let ghost before = cores@.map_values(|p: (u64, u64)| (p.0 as nat, p.1 as nat));
            cores[idx as usize] = t;
            proof {
                assert(cores@.map_values(|p: (u64, u64)| (p.0 as nat, p.1 as nat)) =~= before.update(
                    idx as int,
                    ticks_of(line_fields(char_rows(ws@))),
                ));
            }
        }
        i = i + 1;
    }
    proof {
        assert(char_rows(ls@).skip(i as int) =~= Seq::<Seq<char>>::empty());
    }
    cores
}

/// Per-core utilisation between polls: the tick counts of the previous
/// poll are kept for each of the first four cores.
pub struct PerCoreMonitor {
    prev_idle: [u64; 4],
    prev_total: [u64; 4],
}

impl View for PerCoreMonitor {
    type V = (Seq<u64>, Seq<u64>);

    closed spec fn view(&self) -> (Seq<u64>, Seq<u64>) {
        (self.prev_idle@, self.prev_total@)
    }
}

impl PerCoreMonitor {
    /// A monitor whose baseline is the text of `/proc/stat`.
    pub fn new(stat: &str) -> (r: Self)
        requires
            percore_fits(stat@),
        ensures
            forall|i: int| 0 <= i < 4 ==> (r@.0[i] as nat, r@.1[i] as nat) == #[trigger] percore_ticks(stat@)[i],
            r@.0.len() == 4 && r@.1.len() == 4,
    {
        let cores = read_percore_stats(stat);
        let prev_idle = [cores[0].0, cores[1].0, cores[2].0, cores[3].0];
        let prev_total = [cores[0].1, cores[1].1, cores[2].1, cores[3].1];
        let r = PerCoreMonitor { prev_idle, prev_total };
        proof {
            assert forall|i: int| 0 <= i < 4 implies (r@.0[i] as nat, r@.1[i] as nat) == #[trigger] percore_ticks(stat@)[i] by {
                assert(percore_ticks(stat@)[i] == cores@.map_values(|p: (u64, u64)| (p.0 as nat, p.1 as nat))[i]);
            }
        }
        r
    }

    /// Reads the text of `/proc/stat` of a new poll and returns, for each
    /// core, the idle and total ticks spent since the previous poll (0 when
    /// a counter went backwards); the new counts become the baseline. A
    /// core's utilisation is `1 - idle / total`, and 0 when `total` is 0.
    pub fn poll(&mut self, stat: &str) -> (r: [(u64, u64); 4])
        requires
            percore_fits(stat@),
            old(self)@.0.len() == 4 && old(self)@.1.len() == 4,
        ensures
            final(self)@.0.len() == 4 && final(self)@.1.len() == 4,
            forall|i: int|
                0 <= i < 4 ==> {
                    let (idle, total) = #[trigger] percore_ticks(stat@)[i];
                    &&& (final(self)@.0[i] as nat, final(self)@.1[i] as nat) == (idle, total)
                    &&& r@[i].0 == if idle >= old(self)@.0[i] { idle - old(self)@.0[i] } else { 0 }
                    &&& r@[i].1 == if total >= old(self)@.1[i] { total - old(self)@.1[i] } else { 0 }
                },
    {
        let cores = read_percore_stats(stat);
        let mut deltas = [(0u64, 0u64); 4];
        let ghost old_idle = self.prev_idle@;
        let ghost old_total = self.prev_total@;
        let mut i: usize = 0;
        while i < 4
            invariant
                i <= 4,
                cores@.map_values(|p: (u64, u64)| (p.0 as nat, p.1 as nat)) == percore_ticks(stat@),
                self.prev_idle@.len() == 4 && self.prev_total@.len() == 4,
                deltas@.len() == 4,
                forall|k: int| i <= k < 4 ==> self.prev_idle@[k] == old_idle[k] && self.prev_total@[k] == old_total[k],
                forall|k: int|
                    0 <= k < i ==> {
                        let (idle, total) = #[trigger] percore_ticks(stat@)[k];
                        &&& (self.prev_idle@[k] as nat, self.prev_total@[k] as nat) == (idle, total)
                        &&& deltas@[k].0 == if idle >= old_idle[k] { idle - old_idle[k] } else { 0 }
                        &&& deltas@[k].1 == if total >= old_total[k] { total - old_total[k] } else { 0 }
                    },
            decreases 4 - i,
        {
            proof {
                assert(percore_ticks(stat@)[i as int] == (cores@[i as int].0 as nat, cores@[i as int].1 as nat));
            }
            let d_idle = cores[i].0.saturating_sub(self.prev_idle[i]);
            let d_total = cores[i].1.saturating_sub(self.prev_total[i]);
            self.prev_idle[i] = cores[i].0;
            self.prev_total[i] = cores[i].1;
            deltas[i] = (d_idle, d_total);
            i = i + 1;
        }
        deltas
    }
}

} // verus!
