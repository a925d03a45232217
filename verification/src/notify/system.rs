//! Resource alerts with hysteresis: an alert fires when its reading
//! reaches the high threshold, and fires again only after the reading has
//! come back to the safe threshold. The readings are compared with their
//! thresholds by the caller; the latches decide.

use vstd::prelude::*;

use super::{pushed, pushed_all, Notification, Notifier, NotifierState, NotifyKind};

verus! {

/// One alert's latch: whether it has fired and not yet been re-armed.
#[derive(Debug, Clone, Copy, PartialEq, Eq)]
pub struct AlertLatch {
    pub fired: bool,
}

/// One reading compared with its thresholds, with the message to show if
/// the alert fires.
pub struct AlertReading {
    /// The reading is at or above the high threshold.
    pub high: bool,
    /// The reading is at or below the safe threshold (or unknown).
    pub safe: bool,
    pub message: String,
}

/// Whether a latch in state `fired` fires on a reading.
pub open spec fn fires(fired: bool, high: bool) -> bool {
    !fired && high
}

/// Latch state after a reading.
pub open spec fn latched(fired: bool, high: bool, safe: bool) -> bool {
    if !fired {
        high
    } else {
        !safe
    }
}

impl AlertLatch {
    /// A latch that has not fired.
    pub fn new() -> (r: Self)
        ensures
            !r.fired,
    {
        AlertLatch { fired: false }
    }

    /// Feeds one reading; returns whether the alert fires now.
    pub fn step(&mut self, high: bool, safe: bool) -> (r: bool)
        ensures
            r == fires(old(self).fired, high),
            final(self).fired == latched(old(self).fired, high, safe),
    {
        if !self.fired {
            if high {
                self.fired = true;
                return true;
            }
        } else if safe {
            self.fired = false;
        }
        false
    }
}

/// A fired alert stays silent, however high the readings, until a safe
/// reading re-arms it; the next high reading then fires it again.
pub proof fn law_alert_hysteresis(high: bool, safe: bool)
    ensures
        !fires(true, high),
        latched(true, high, safe) == !safe,
        fires(latched(true, high, true), true),
        !fires(false, false) && !latched(false, false, safe),
{
}

/// The three system alerts: CPU temperature, memory use, disk use.
pub struct SystemAlerts {
    pub temp: AlertLatch,
    pub mem: AlertLatch,
    pub disk: AlertLatch,
}

/// Messages of the alerts that fire, in the order temperature, memory, disk.
pub open spec fn alert_msgs(
    a: SystemAlerts,
    temp: (bool, Seq<char>),
    mem: (bool, Seq<char>),
    disk: (bool, Seq<char>),
) -> Seq<Seq<char>> {
    (if fires(a.temp.fired, temp.0) {
        seq![temp.1]
    } else {
        seq![]
    }) + (if fires(a.mem.fired, mem.0) {
        seq![mem.1]
    } else {
        seq![]
    }) + (if fires(a.disk.fired, disk.0) {
        seq![disk.1]
    } else {
        seq![]
    })
}

proof fn lemma_pushed_all_step(n: NotifierState, msgs: Seq<Seq<char>>, m: Seq<char>, now: u64)
    ensures
        pushed(pushed_all(n, msgs, now), m, now) == pushed_all(n, msgs.push(m), now),
{
    assert(msgs.push(m).drop_last() =~= msgs);
}

impl SystemAlerts {
    /// All three alerts armed.
    pub fn new() -> (r: Self)
        ensures
            !r.temp.fired && !r.mem.fired && !r.disk.fired,
    {
        SystemAlerts { temp: AlertLatch::new(), mem: AlertLatch::new(), disk: AlertLatch::new() }
    }

    fn feed(latch: &mut AlertLatch, r: AlertReading, kind: NotifyKind, notifier: &mut Notifier, now: u64)
        ensures
            final(latch).fired == latched(old(latch).fired, r.high, r.safe),
            final(notifier)@ == if fires(old(latch).fired, r.high) {
                pushed(old(notifier)@, r.message@, now)
            } else {
                old(notifier)@
            },
    {
        if latch.step(r.high, r.safe) {
            notifier.push(Notification::new(kind, r.message), now);
        }
    }

    /// Feeds one reading of each alert, pushing the message of each alert
    /// that fires (temperature, then memory, then disk).
    pub fn check(
        &mut self,
        temp: AlertReading,
        mem: AlertReading,
        disk: AlertReading,
        notifier: &mut Notifier,
        now: u64,
    )
        ensures
            final(self).temp.fired == latched(old(self).temp.fired, temp.high, temp.safe),
            final(self).mem.fired == latched(old(self).mem.fired, mem.high, mem.safe),
            final(self).disk.fired == latched(old(self).disk.fired, disk.high, disk.safe),
            final(notifier)@ == pushed_all(
                old(notifier)@,
                alert_msgs(
                    *old(self),
                    (temp.high, temp.message@),
                    (mem.high, mem.message@),
                    (disk.high, disk.message@),
                ),
                now,
            ),
    {
        let ghost n0 = notifier@;
        let ghost a0 = *self;
        let ghost t = (temp.high, temp.message@);
        let ghost m = (mem.high, mem.message@);
        let ghost d = (disk.high, disk.message@);
        Self::feed(&mut self.temp, temp, NotifyKind::TempAlert, notifier, now);
        let ghost n1 = notifier@;
        Self::feed(&mut self.mem, mem, NotifyKind::MemAlert, notifier, now);
        let ghost n2 = notifier@;
        Self::feed(&mut self.disk, disk, NotifyKind::DiskAlert, notifier, now);
        proof {
            let s1: Seq<Seq<char>> = if fires(a0.temp.fired, t.0) {
                seq![t.1]
            } else {
                seq![]
            };
            let s2: Seq<Seq<char>> = if fires(a0.mem.fired, m.0) {
                seq![m.1]
            } else {
                seq![]
            };
            let s3: Seq<Seq<char>> = if fires(a0.disk.fired, d.0) {
                seq![d.1]
            } else {
                seq![]
            };
            assert(pushed_all(n0, Seq::<Seq<char>>::empty(), now) == n0);
            if fires(a0.temp.fired, t.0) {
                lemma_pushed_all_step(n0, Seq::<Seq<char>>::empty(), t.1, now);
                assert(Seq::<Seq<char>>::empty().push(t.1) =~= s1);
            } else {
                assert(s1 =~= Seq::<Seq<char>>::empty());
            }
            assert(n1 == pushed_all(n0, s1, now));
            if fires(a0.mem.fired, m.0) {
                lemma_pushed_all_step(n0, s1, m.1, now);
                assert(s1.push(m.1) =~= s1 + s2);
            } else {
                assert(s1 + s2 =~= s1);
            }
            assert(n2 == pushed_all(n0, s1 + s2, now));
            if fires(a0.disk.fired, d.0) {
                lemma_pushed_all_step(n0, s1 + s2, d.1, now);
                assert((s1 + s2).push(d.1) =~= s1 + s2 + s3);
            } else {
                assert(s1 + s2 + s3 =~= s1 + s2);
            }
        }
    }
}

} // verus!
