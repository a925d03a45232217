//! The monitor's own process figures from `/proc/self/stat`.

use vstd::prelude::*;

use super::{word_to_u64, word_u64};
use crate::utils::chars::{slice_chars, split_words, str_chars, trim, trim_chars, words};
use crate::utils::AppError;

verus! {

/// Index of the last `c` in `s`.
pub open spec fn last_index(s: Seq<char>, c: char) -> Option<int>
    decreases s.len(),
{
    if s.len() == 0 {
        None
    } else if s.last() == c {
        Some(s.len() - 1)
    } else {
        last_index(s.drop_last(), c)
    }
}

/// The fields after the command name are where the text expects them: the
/// character after the last `')'` exists and is ASCII (slicing there at a
/// byte offset panics otherwise).
pub open spec fn stat_sliceable(stat: Seq<char>) -> bool {
    let t = trim(stat);
    last_index(t, ')') matches Some(r) ==> r + 1 < t.len() && (t[r + 1] as u32) < 0x80
}

/// Whether the stat text can be read past its command name (see
/// [`stat_sliceable`]).
pub fn proc_stat_sliceable(stat: &str) -> (r: bool)
    ensures
        r == stat_sliceable(stat@),
{
    let v = str_chars(stat);
    let t = trim_chars(&v);
    match rfind_char(&t, ')') {
        Some(r) => r < t.len() && t.len() - r > 1 && (t[r + 1] as u32) < 0x80,
        None => true,
    }
}

/// Raw figures of one read of the process stat file.
pub struct ProcStat {
    pub utime: u64,
    pub stime: u64,
    pub num_threads: u32,
    pub vsize_bytes: u64,
    pub rss_pages: u64,
}

/// Words after the command name: the text from two characters after the
/// last `')'` of the trimmed stat text.
pub open spec fn stat_words(stat: Seq<char>) -> Option<Seq<Seq<char>>> {
    let t = trim(stat);
    match last_index(t, ')') {
        Some(r) => Some(words(t.skip(r + 2))),
        None => None,
    }
}

/// Figures of the stat text: utime (word 11 after the command name),
/// stime (12), threads (17, truncated to 32 bits), vsize (20) and rss
/// pages (21). `None` when the text has no `')'` or one of them is
/// missing or malformed.
pub open spec fn proc_figures(stat: Seq<char>) -> Option<(nat, nat, nat, nat, nat)> {
    match stat_words(stat) {
        Some(ws) => if word_u64(ws, 11) is Some && word_u64(ws, 12) is Some && word_u64(ws, 17) is Some
            && word_u64(ws, 20) is Some && word_u64(ws, 21) is Some {
            Some(
                (
                    word_u64(ws, 11)->0,
                    word_u64(ws, 12)->0,
                    word_u64(ws, 17)->0 % 0x1_0000_0000,
                    word_u64(ws, 20)->0,
                    word_u64(ws, 21)->0,
                ),
            )
        } else {
            None
        },
        None => None,
    }
}

fn rfind_char(v: &Vec<char>, c: char) -> (r: Option<usize>)
    ensures
        match r {
            Some(i) => last_index(v@, c) == Some(i as int),
            None => last_index(v@, c) is None,
        },
{
    let mut i: usize = v.len();
    proof {
        assert(v@.take(i as int) =~= v@);
    }
    while i > 0
        invariant
            i <= v@.len(),
            last_index(v@, c) == last_index(v@.take(i as int), c),
        decreases i,
    {
        let ghost t = v@.take(i as int);
        proof {
            assert(t.drop_last() =~= v@.take(i - 1));
        }
        if v[i - 1] == c {
            return Some(i - 1);
        }
        i = i - 1;
    }
    proof {
        assert(v@.take(0) =~= Seq::<char>::empty());
    }
    None
}

fn parse_error(msg: &str) -> (r: AppError)
    ensures
        match r {
            AppError::Parse(m) => m@ == msg@,
            _ => false,
        },
{
    AppError::Parse(String::from_str(msg))
}

/// Reads the figures of the stat text of the own process.
pub fn read_proc_stat(stat: &str) -> (r: Result<ProcStat, AppError>)
    requires
        stat_sliceable(stat@),
    ensures
        match r {
            Ok(p) => proc_figures(stat@) == Some(
                (
                    p.utime as nat,
                    p.stime as nat,
                    p.num_threads as nat,
                    p.vsize_bytes as nat,
                    p.rss_pages as nat,
                ),
            ),
            Err(e) => proc_figures(stat@) is None && e is Parse,
        },
{
    let v = str_chars(stat);
    let t = trim_chars(&v);
    let rparen = match rfind_char(&t, ')') {
        Some(r) => r,
        None => return Err(parse_error("进程 stat: 找不到 comm 右括号")),
    };
    assert(t@ == trim(stat@));
    assert(rparen + 1 < t@.len());
    assert(t@.len() == t.len());
    let after = slice_chars(&t, rparen + 2, t.len());
    proof {
        assert(after@ =~= t@.skip(rparen + 2));
    }
    let ws = split_words(&after);
    let utime = match word_to_u64(&ws, 11) {
        Some(x) => x,
        None => return Err(parse_error("utime 解析失败")),
    };
    let stime = match word_to_u64(&ws, 12) {
        Some(x) => x,
        None => return Err(parse_error("stime 解析失败")),
    };
    let threads = match word_to_u64(&ws, 17) {
        Some(x) => x,
        None => return Err(parse_error("num_threads 解析失败")),
    };
    let vsize_bytes = match word_to_u64(&ws, 20) {
        Some(x) => x,
        None => return Err(parse_error("vsize 解析失败")),
    };
    let rss_pages = match word_to_u64(&ws, 21) {
        Some(x) => x,
        None => return Err(parse_error("rss 解析失败")),
    };
    let num_threads = (threads % 0x1_0000_0000) as u32;
    Ok(ProcStat { utime, stime, num_threads, vsize_bytes, rss_pages })
}

/// The monitor's own process accounting between polls: CPU ticks used
/// since the last poll, and memory and threads now. The caller turns ticks
/// into a percentage with the clock. The figures read when the monitor is
/// made are its baseline; the first poll only takes a fresh baseline and
/// reports no ticks.
pub struct ProcessMonitor {
    pub prev_utime: u64,
    pub prev_stime: u64,
    pub page_size: u64,
    /// Whether a poll has been made.
    pub polled: bool,
}

/// One poll of the own process.
#[derive(Debug, Clone, Copy, PartialEq, Eq)]
pub struct ProcessSample {
    /// User-mode ticks since the last poll.
    pub d_utime: u64,
    /// Kernel-mode ticks since the last poll.
    pub d_stime: u64,
    /// Resident memory in KiB.
    pub rss_kb: u64,
    /// Virtual memory in KiB.
    pub vm_kb: u64,
    pub threads: u32,
}

impl ProcessMonitor {
    /// A monitor whose baseline is the figures `stat`; `page_size` is the
    /// system's memory page size in bytes.
    pub fn new(stat: &ProcStat, page_size: u64) -> (r: Self)
        ensures
            r.prev_utime == stat.utime,
            r.prev_stime == stat.stime,
            r.page_size == page_size,
            !r.polled,
    {
        ProcessMonitor { prev_utime: stat.utime, prev_stime: stat.stime, page_size, polled: false }
    }

    /// Takes the figures read now: ticks used since the last poll (zero
    /// where a counter went backwards, and both zero on the first poll,
    /// which only sets the baseline), resident memory (pages times page
    /// size, in KiB), virtual memory in KiB and threads; the new figures
    /// become the baseline.
    pub fn poll(&mut self, stat: &ProcStat) -> (r: ProcessSample)
        requires
            stat.rss_pages * old(self).page_size <= u64::MAX,
        ensures
            r.d_utime == if !old(self).polled {
                0
            } else if stat.utime >= old(self).prev_utime {
                stat.utime - old(self).prev_utime
            } else {
                0
            },
            r.d_stime == if !old(self).polled {
                0
            } else if stat.stime >= old(self).prev_stime {
                stat.stime - old(self).prev_stime
            } else {
                0
            },
            r.rss_kb == stat.rss_pages * old(self).page_size / 1024,
            r.vm_kb == stat.vsize_bytes / 1024,
            r.threads == stat.num_threads,
            final(self).prev_utime == stat.utime,
            final(self).prev_stime == stat.stime,
            final(self).page_size == old(self).page_size,
            final(self).polled,
    {
        let (d_utime, d_stime) = if self.polled {
            (stat.utime.saturating_sub(self.prev_utime), stat.stime.saturating_sub(self.prev_stime))
        } else {
            (0, 0)
        };
        self.prev_utime = stat.utime;
        self.prev_stime = stat.stime;
        self.polled = true;
        ProcessSample {
            d_utime,
            d_stime,
            rss_kb: stat.rss_pages * self.page_size / 1024,
            vm_kb: stat.vsize_bytes / 1024,
            threads: stat.num_threads,
        }
    }
}

} // verus!
