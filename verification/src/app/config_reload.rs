//! Settings reload decisions: the baseline modification time of the
//! settings file and the night-time quiet period.

use vstd::prelude::*;

verus! {

/// The first known modification time among the candidate settings paths
/// (in search order), 0 when none is known.
pub open spec fn first_mtime(mtimes: Seq<Option<i64>>) -> i64
    decreases mtimes.len(),
{
    if mtimes.len() == 0 {
        0
    } else {
        match mtimes[0] {
            Some(t) => t,
            None => first_mtime(mtimes.drop_first()),
        }
    }
}

/// Baseline modification time of the settings file, from the modification
/// times of the candidate paths in search order (`None` where the file is
/// missing), so that the first check does not see a change.
pub fn config_mtime(mtimes: &[Option<i64>]) -> (r: i64)
    ensures
        r == first_mtime(mtimes@),
{
    let mut i: usize = 0;
    proof {
        assert(mtimes@.skip(0) =~= mtimes@);
    }
    while i < mtimes.len()
        invariant
            i <= mtimes@.len(),
            first_mtime(mtimes@) == first_mtime(mtimes@.skip(i as int)),
        decreases mtimes@.len() - i,
    {
        proof {
            assert(mtimes@.skip(i as int).drop_first() =~= mtimes@.skip(i + 1));
            assert(mtimes@.skip(i as int)[0] == mtimes@[i as int]);
        }
        if let Some(t) = mtimes[i] {
            return t;
        }
        i = i + 1;
    }
    proof {
        assert(mtimes@.skip(i as int) =~= Seq::<Option<i64>>::empty());
    }
    0
}

/// Whether local hour `h` lies in the quiet period from `begin` up to (not
/// including) `end`, which wraps past midnight when `begin > end`.
pub open spec fn in_night(h: u8, begin: u8, end: u8) -> bool {
    if begin <= end {
        begin <= h && h < end
    } else {
        h >= begin || h < end
    }
}

/// Whether the local hour (`None` when the local time is unknown) lies in
/// the night-time quiet period.
pub fn is_night(hour: Option<u8>, begin: u8, end: u8) -> (r: bool)
    ensures
        r == match hour {
            Some(h) => in_night(h, begin, end),
            None => false,
        },
{
    match hour {
        Some(h) => if begin <= end {
            h >= begin && h < end
        } else {
            h >= begin || h < end
        },
        None => false,
    }
}

/// The quiet period covers exactly the hours from `begin` up to `end`:
/// with `begin == end` it is empty, and an hour and the hours of the
/// complementary period (`end` to `begin`) never overlap.
pub proof fn law_night_complement(h: u8, begin: u8, end: u8)
    requires
        begin != end,
    ensures
        in_night(h, begin, begin) == false,
        in_night(h, begin, end) != in_night(h, end, begin),
{
}

/// Whether the settings are to be read again: `Some` with the new
/// modification time when the settings file exists and its modification
/// time `found` differs from the one last seen, `cfg_mtime`; `None`
/// otherwise (no file, or no change).
pub fn reload_decision(cfg_mtime: i64, found: Option<i64>) -> (r: Option<i64>)
    ensures
        r == match found {
            Some(m) => if m != cfg_mtime {
                Some(m)
            } else {
                None
            },
            None => None,
        },
{
    match found {
        Some(m) => if m != cfg_mtime {
            Some(m)
        } else {
            None
        },
        None => None,
    }
}

} // verus!
