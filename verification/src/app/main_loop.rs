//! Decisions of the main loop. The display is redrawn four times a second;
//! every fourth frame is a monitor frame (the monitors are polled once a
//! second), every sixtieth monitor frame re-evaluates the night-time quiet
//! period, and memory is handed back to the system every
//! `malloc_trim_secs` seconds.

use vstd::prelude::*;

verus! {

/// Display frames per monitor frame.
pub const FRAMES_PER_MONITOR: u64 = 4;
/// Monitor frames between two looks at the clock for the quiet period.
pub const NIGHT_CHECK_FRAMES: u64 = 60;
/// Contrast outside the quiet period.
pub const DAY_CONTRAST: u8 = 0xCF;

/// State of the main loop.
#[derive(Debug, Clone, Copy, PartialEq, Eq)]
pub struct MainLoop {
    /// Display frame counter (starts at 1).
    pub cycle: u64,
    /// The quiet-period contrast is in effect.
    pub night: bool,
    /// Monitor frames since the quiet period was last evaluated.
    pub night_check: u64,
}

/// What a display frame does besides redrawing.
#[derive(Debug, Clone, Copy, PartialEq, Eq)]
pub struct FramePlan {
    /// Poll the monitors and event sources.
    pub monitor: bool,
    /// Look at the clock for the quiet period.
    pub check_night: bool,
}

/// Frame `cycle` is a monitor frame.
pub open spec fn is_monitor_frame(cycle: u64) -> bool {
    cycle % 4 == 0
}

/// `n` is a multiple of `m` (only 0 is a multiple of 0).
pub open spec fn multiple_of(n: u64, m: u64) -> bool {
    if m == 0 {
        n == 0
    } else {
        n % m == 0
    }
}

impl MainLoop {
    /// The loop before its first frame.
    pub fn new() -> (r: Self)
        ensures
            r == (MainLoop { cycle: 1, night: false, night_check: 0 }),
    {
        MainLoop { cycle: 1, night: false, night_check: 0 }
    }

    /// Plans the current frame: a monitor frame every fourth cycle, and on
    /// every sixtieth monitor frame a look at the clock.
    pub fn begin_frame(&mut self) -> (r: FramePlan)
        requires
            old(self).night_check < u64::MAX,
        ensures
            r.monitor == is_monitor_frame(old(self).cycle),
            final(self).cycle == old(self).cycle,
            final(self).night == old(self).night,
            !r.monitor ==> !r.check_night && final(self).night_check == old(self).night_check,
            r.monitor ==> r.check_night == (old(self).night_check + 1 >= NIGHT_CHECK_FRAMES),
            r.monitor ==> final(self).night_check == if r.check_night {
                0
            } else {
                old(self).night_check + 1
            },
            old(self).night_check < NIGHT_CHECK_FRAMES ==> final(self).night_check < NIGHT_CHECK_FRAMES,
    {
        if self.cycle % FRAMES_PER_MONITOR != 0 {
            return FramePlan { monitor: false, check_night: false };
        }
        self.night_check = self.night_check + 1;
        let check = self.night_check >= NIGHT_CHECK_FRAMES;
        if check {
            self.night_check = 0;
        }
        FramePlan { monitor: true, check_night: check }
    }

    /// Takes the result of looking at the clock; returns the contrast to
    /// set when the quiet period began or ended.
    pub fn night_update(&mut self, now_night: bool, night_contrast: u8) -> (r: Option<u8>)
        ensures
            *final(self) == (MainLoop { night: now_night, ..*old(self) }),
            r == if now_night == old(self).night {
                None
            } else if now_night {
                Some(night_contrast)
            } else {
                Some(DAY_CONTRAST)
            },
    {
        if now_night == self.night {
            return None;
        }
        self.night = now_night;
        Some(
            if now_night {
                night_contrast
            } else {
                DAY_CONTRAST
            },
        )
    }

    /// Ends the frame; returns whether memory is to be handed back now
    /// (when the new cycle is a multiple of `malloc_trim_secs * 4`).
    pub fn end_frame(&mut self, malloc_trim_secs: u64) -> (r: bool)
        requires
            old(self).cycle < u64::MAX,
            malloc_trim_secs * 4 <= u64::MAX,
        ensures
            *final(self) == (MainLoop { cycle: (old(self).cycle + 1) as u64, ..*old(self) }),
            r == multiple_of(final(self).cycle, (malloc_trim_secs * 4) as u64),
    {
        self.cycle = self.cycle + 1;
        let period = malloc_trim_secs * 4;
        if period == 0 {
            self.cycle == 0
        } else {
            self.cycle % period == 0
        }
    }
}

/// Over any four consecutive frames exactly one is a monitor frame.
pub proof fn law_one_monitor_frame_in_four(c: u64)
    requires
        c <= u64::MAX - 3,
    ensures
        (is_monitor_frame(c) as int) + (is_monitor_frame((c + 1) as u64) as int) + (
        is_monitor_frame((c + 2) as u64) as int) + (is_monitor_frame((c + 3) as u64) as int) == 1,
{
}

} // verus!
