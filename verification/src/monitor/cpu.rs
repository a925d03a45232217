//! Whole-system CPU utilisation from the first line of `/proc/stat`.

use vstd::prelude::*;

use super::{ticks, ticks_fit, ticks_in_range, ticks_of, word_to_u64, word_to_u64_or_zero, word_u64, word_u64_or_zero};
use crate::utils::chars::{chars_eq, char_rows, split_words, str_chars, words};
use crate::utils::AppError;

verus! {

/// `"cpu"`.
pub open spec fn cpu_word() -> Seq<char> {
    seq!['c', 'p', 'u']
}

/// The eight counters of the aggregate CPU line (`cpu user nice system idle
/// iowait irq softirq steal ...`): the first four must be present and
/// parse, the others count as 0 when missing or malformed. `None` when the
/// line is not a well-formed aggregate CPU line.
pub open spec fn cpu_fields(line: Seq<char>) -> Option<Seq<nat>> {
    let ws = words(line);
    if ws.len() == 0 || ws[0] != cpu_word() || word_u64(ws, 1) is None || word_u64(ws, 2) is None
        || word_u64(ws, 3) is None || word_u64(ws, 4) is None {
        None
    } else {
        Some(
            seq![
                word_u64(ws, 1)->0,
                word_u64(ws, 2)->0,
                word_u64(ws, 3)->0,
                word_u64(ws, 4)->0,
                word_u64_or_zero(ws, 5),
                word_u64_or_zero(ws, 6),
                word_u64_or_zero(ws, 7),
                word_u64_or_zero(ws, 8),
            ],
        )
    }
}

/// The aggregate line's tick sums fit a `u64` (always so for a running
/// kernel; adding them up overflows otherwise).
pub open spec fn cpu_line_fits(line: Seq<char>) -> bool {
    cpu_fields(line) matches Some(f) ==> ticks_fit(f)
}

fn parse_error(msg: &str) -> (r: AppError)
    ensures
        match r {
            AppError::Parse(m) => m@ == msg@,
            _ => false,
        },
{
    AppError::Parse(String::from_str(msg))
}

/// The eight counters of the aggregate CPU line.
pub fn cpu_stat_fields(line: &str) -> (r: Result<[u64; 8], AppError>)
    ensures
        match r {
            Ok(f) => cpu_fields(line@) == Some(f@.map_values(|v: u64| v as nat)),
            Err(e) => cpu_fields(line@) is None && e is Parse,
        },
{
    let v = str_chars(line);
    let ws = split_words(&v);
    let cpu = vec!['c', 'p', 'u'];
    proof {
        assert(cpu@ =~= cpu_word());
    }
    if ws.len() == 0 || !chars_eq(&ws[0], &cpu) {
        return Err(parse_error("cpu: /proc/stat 格式异常"));
    }
    let user = match word_to_u64(&ws, 1) {
        Some(x) => x,
        None => return Err(parse_error("cpu user")),
    };
    let nice = match word_to_u64(&ws, 2) {
        Some(x) => x,
        None => return Err(parse_error("cpu nice")),
    };
    let system = match word_to_u64(&ws, 3) {
        Some(x) => x,
        None => return Err(parse_error("cpu system")),
    };
    let idle = match word_to_u64(&ws, 4) {
        Some(x) => x,
        None => return Err(parse_error("cpu idle")),
    };
    let f = [
        user,
        nice,
        system,
        idle,
        word_to_u64_or_zero(&ws, 5),
        word_to_u64_or_zero(&ws, 6),
        word_to_u64_or_zero(&ws, 7),
        word_to_u64_or_zero(&ws, 8),
    ];
    proof {
        assert(f@.map_values(|v: u64| v as nat) =~= cpu_fields(line@)->0);
    }
    Ok(f)
}

/// Whether the aggregate line's tick sums fit a `u64`.
pub fn cpu_line_in_range(line: &str) -> (r: bool)
    ensures
        r == cpu_line_fits(line@),
{
    match cpu_stat_fields(line) {
        Ok(f) => ticks_in_range(&f),
        Err(_) => true,
    }
}

/// Idle and total ticks of the aggregate CPU line.
pub fn read_cpu_stats(line: &str) -> (r: Result<(u64, u64), AppError>)
    requires
        cpu_line_fits(line@),
    ensures
        match r {
            Ok((idle, total)) => cpu_fields(line@) matches Some(f) && ticks_of(f) == (
                idle as nat,
                total as nat,
            ),
            Err(e) => cpu_fields(line@) is None && e is Parse,
        },
{
    let f = cpu_stat_fields(line)?;
    Ok(ticks(&f))
}

/// Utilisation between polls of the aggregate CPU line: the tick counts of
/// the previous poll are kept, and whether a poll has been made yet. The
/// counts read when the monitor is made are its baseline, so the first poll
/// only takes a fresh baseline and reports no ticks.
pub struct CpuMonitor {
    prev_idle: u64,
    prev_total: u64,
    polled: bool,
}

impl View for CpuMonitor {
    /// Idle and total ticks of the baseline, and whether a poll was made.
    type V = (u64, u64, bool);

    closed spec fn view(&self) -> (u64, u64, bool) {
        (self.prev_idle, self.prev_total, self.polled)
    }
}

impl CpuMonitor {
    /// A monitor whose baseline is the aggregate CPU line `line`.
    pub fn new(line: &str) -> (r: Result<Self, AppError>)
        requires
            cpu_line_fits(line@),
        ensures
            match r {
                Ok(m) => cpu_fields(line@) matches Some(f) && ticks_of(f) == (m@.0 as nat, m@.1 as nat)
                    && !m@.2,
                Err(e) => cpu_fields(line@) is None && e is Parse,
            },
    {
        let (idle, total) = read_cpu_stats(line)?;
        Ok(CpuMonitor { prev_idle: idle, prev_total: total, polled: false })
    }

    /// Reads the aggregate CPU line of a new poll and returns the idle and
    /// total ticks spent since the previous poll (each 0 when the counter
    /// went backwards); the new counts become the baseline. The first poll
    /// only sets the baseline and returns `(0, 0)`. Utilisation is
    /// `1 - idle / total` of these deltas, and 0 when `total` is 0.
    pub fn poll(&mut self, line: &str) -> (r: Result<(u64, u64), AppError>)
        requires
            cpu_line_fits(line@),
        ensures
            match r {
                Ok((d_idle, d_total)) => cpu_fields(line@) matches Some(f) && {
                    let (idle, total) = ticks_of(f);
                    &&& final(self)@ == (idle as u64, total as u64, true)
                    &&& d_idle == if !old(self)@.2 {
                        0
                    } else if idle >= old(self)@.0 {
                        idle - old(self)@.0
                    } else {
                        0
                    }
                    &&& d_total == if !old(self)@.2 {
                        0
                    } else if total >= old(self)@.1 {
                        total - old(self)@.1
                    } else {
                        0
                    }
                },
                Err(e) => cpu_fields(line@) is None && e is Parse && final(self)@ == old(self)@,
            },
    {
        let (idle, total) = read_cpu_stats(line)?;
        let (d_idle, d_total) = if self.polled {
            (idle.saturating_sub(self.prev_idle), total.saturating_sub(self.prev_total))
        } else {
            (0, 0)
        };
        self.prev_idle = idle;
        self.prev_total = total;
        self.polled = true;
        Ok((d_idle, d_total))
    }
}

} // verus!
