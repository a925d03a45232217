//! System memory from `/proc/meminfo`: total cached once, used = total -
//! available per poll.

use vstd::prelude::*;

use crate::utils::chars::{char_rows, has_prefix, lines, slice_chars, split_lines, starts_with, str_chars, string_from_chars};
use crate::utils::{u64_prefix, u64_prefix_chars};
use crate::utils::AppError;

verus! {

/// Index of the first line of `ls` that starts with `field`.
pub open spec fn field_line(ls: Seq<Seq<char>>, field: Seq<char>) -> Option<int>
    decreases ls.len(),
{
    if ls.len() == 0 {
        None
    } else if has_prefix(ls[0], field) {
        Some(0)
    } else {
        match field_line(ls.drop_first(), field) {
            Some(i) => Some(i + 1),
            None => None,
        }
    }
}

/// Value of `field` in the meminfo text: the leading number after the
/// field name on the first line that starts with it.
pub open spec fn meminfo_value(text: Seq<char>, field: Seq<char>) -> Option<Option<nat>> {
    let ls = lines(text);
    match field_line(ls, field) {
        Some(i) => Some(u64_prefix(ls[i].skip(field.len() as int))),
        None => None,
    }
}

proof fn lemma_field_line(ls: Seq<Seq<char>>, field: Seq<char>, i: int)
    requires
        0 <= i <= ls.len(),
        forall|t: int| 0 <= t < i ==> !has_prefix(#[trigger] ls[t], field),
    ensures
        field_line(ls, field) == match field_line(ls.skip(i), field) {
            Some(j) => Some(j + i),
            None => None::<int>,
        },
    decreases i,
{
    if i > 0 {
        assert(ls.skip(i) =~= ls.drop_first().skip(i - 1));
        assert forall|t: int| 0 <= t < i - 1 implies !has_prefix(#[trigger] ls.drop_first()[t], field) by {
            assert(ls.drop_first()[t] == ls[t + 1]);
        }
        lemma_field_line(ls.drop_first(), field, i - 1);
    } else {
        assert(ls.skip(0) =~= ls);
    }
}

/// Reads `field` (such as `"MemTotal:"`) from the meminfo text: its value
/// in KiB; a line without a number is a parse error, a missing field a
/// not-found error.
pub fn read_field(text: &str, field: &str) -> (r: Result<u64, AppError>)
    ensures
        match r {
            Ok(v) => meminfo_value(text@, field@) == Some(Some(v as nat)),
            Err(e) => match meminfo_value(text@, field@) {
                Some(p) => p is None && e is Parse,
                None => e is NotFound,
            },
        },
{
    let v = str_chars(text);
    let f = str_chars(field);
    let ls = split_lines(&v);
    let ghost rows = char_rows(ls@);
    let mut i: usize = 0;
    while i < ls.len()
        invariant
            i <= ls@.len(),
            rows == char_rows(ls@),
            rows == lines(text@),
            f@ == field@,
            forall|t: int| 0 <= t < i ==> !has_prefix(#[trigger] rows[t], f@),
        decreases ls@.len() - i,
    {
        if starts_with(&ls[i], &f) {
            let rest = slice_chars(&ls[i], f.len(), ls[i].len());
            proof {
                lemma_field_line(rows, f@, i as int);
                assert(rows[i as int] == ls@[i as int]@);
                assert(rows.skip(i as int)[0] == rows[i as int]);
                assert(rows.skip(i as int).len() > 0);
                assert(field_line(rows.skip(i as int), f@) == Some(0int));
                assert(field_line(rows, f@) == Some(i as int));
                assert(rest@ =~= rows[i as int].skip(f@.len() as int));
            }
            return match u64_prefix_chars(&rest) {
                Some(n) => Ok(n),
                None => {
                    let mut msg = String::from_str("meminfo: ");
                    msg.append(ls_string(&ls[i]).as_str());
                    Err(AppError::Parse(msg))
                },
            };
        }
        i = i + 1;
    }
    proof {
        lemma_field_line(rows, f@, i as int);
        assert(rows.skip(i as int) =~= Seq::<Seq<char>>::empty());
    }
    let mut msg = String::from_str("meminfo 字段: ");
    msg.append(field);
    Err(AppError::NotFound(msg))
}

fn ls_string(v: &Vec<char>) -> (r: String)
    ensures
        r@ == v@,
{
    string_from_chars(v)
}

/// Total memory of a meminfo text, 0 when it cannot be read from it.
pub open spec fn total_of(text: Seq<char>) -> nat {
    match meminfo_value(text, "MemTotal:"@) {
        Some(Some(v)) => v,
        _ => 0,
    }
}

/// Memory figures: the total in KiB is read once and kept.
pub struct MemoryMonitor {
    total_kb: u64,
}

impl View for MemoryMonitor {
    type V = u64;

    closed spec fn view(&self) -> u64 {
        self.total_kb
    }
}

/// Used memory: the total minus what is available (capped at the total).
pub open spec fn used_of(total: nat, available: nat) -> nat {
    if available >= total {
        0
    } else {
        (total - available) as nat
    }
}

impl MemoryMonitor {
    /// A monitor with the total read from the meminfo text (0 when it does
    /// not hold a readable `MemTotal:`; an unreadable file reads as empty).
    pub fn new(meminfo: &str) -> (r: Self)
        ensures
            r@ == total_of(meminfo@),
    {
        let total_kb = match read_field(meminfo, "MemTotal:") {
            Ok(v) => v,
            Err(_) => 0,
        };
        MemoryMonitor { total_kb }
    }

    /// Total memory in KiB.
    pub fn total_kb(&self) -> (r: u64)
        ensures
            r == self@,
    {
        self.total_kb
    }

    /// Used memory in KiB: the total minus `MemAvailable:` (capped at the
    /// total) from the meminfo text.
    pub fn used_kb(&self, meminfo: &str) -> (r: Result<u64, AppError>)
        ensures
            match r {
                Ok(u) => meminfo_value(meminfo@, "MemAvailable:"@) matches Some(Some(a)) && u
                    == used_of(self@ as nat, a),
                Err(e) => match meminfo_value(meminfo@, "MemAvailable:"@) {
                    Some(p) => p is None && e is Parse,
                    None => e is NotFound,
                },
            },
    {
        let available = read_field(meminfo, "MemAvailable:")?;
        let capped = if available < self.total_kb {
            available
        } else {
            self.total_kb
        };
        Ok(self.total_kb.saturating_sub(capped))
    }
}

/// Used memory never exceeds the total, and all of it is used when
/// nothing is available.
pub proof fn law_used_within_total(total: nat, available: nat)
    ensures
        used_of(total, available) <= total,
        used_of(total, 0) == total,
{
}

} // verus!
