//! Notification system: a single slot, overwritten at once by each new
//! notification and cleared once it has been shown for its duration.
//!
//! Time is given as nanoseconds on a monotonic clock.

pub mod iface;
pub mod ip;
pub mod ssh;
pub mod system;
pub mod typec;
pub mod usb;

use vstd::prelude::*;

verus! {

/// Kinds of notification.
#[derive(Debug, Clone, Copy, PartialEq, Eq)]
pub enum NotifyKind {
    SshLogin,
    UsbInsert,
    UsbRemove,
    IfaceUp,
    IfaceDown,
    TempAlert,
    MemAlert,
    DiskAlert,
    TypeCInsert,
    TypeCRemove,
    Custom,
}

/// A notification message.
#[derive(Debug)]
pub struct Notification {
    pub message: String,
}

impl Notification {
    /// A notification carrying `message`.
    pub fn new(kind: NotifyKind, message: String) -> (r: Self)
        ensures
            r.message@ == message@,
    {
        Notification { message }
    }
}

/// Whole seconds elapsed from `since` to `now` (zero when `now` is earlier),
/// as `Instant::elapsed().as_secs()` counts them.
pub open spec fn elapsed_secs(since: u64, now: u64) -> nat {
    if now >= since {
        ((now - since) / 1_000_000_000) as nat
    } else {
        0
    }
}

/// Abstract state of a notifier: the message shown, when it was pushed,
/// and how many seconds a message stays.
pub struct NotifierState {
    pub current: Option<Seq<char>>,
    pub since: Option<u64>,
    pub duration_secs: u64,
}

/// The message shown has been shown for its full duration at `now`.
pub open spec fn expired(n: NotifierState, now: u64) -> bool {
    match n.since {
        Some(s) => elapsed_secs(s, now) >= n.duration_secs,
        None => false,
    }
}

/// State after pushing `msg` at `now`.
pub open spec fn pushed(n: NotifierState, msg: Seq<char>, now: u64) -> NotifierState {
    NotifierState { current: Some(msg), since: Some(now), duration_secs: n.duration_secs }
}

/// State after asking for the current message at `now`.
pub open spec fn polled(n: NotifierState, now: u64) -> NotifierState {
    if expired(n, now) {
        NotifierState { current: None, since: None, duration_secs: n.duration_secs }
    } else {
        n
    }
}

/// Message reported when asking at `now`.
pub open spec fn shown(n: NotifierState, now: u64) -> Option<Seq<char>> {
    if expired(n, now) {
        None
    } else {
        n.current
    }
}

/// Single-slot notifier.
pub struct Notifier {
    current: Option<String>,
    since: Option<u64>,
    duration_secs: u64,
}

impl View for Notifier {
    type V = NotifierState;

    closed spec fn view(&self) -> NotifierState {
        NotifierState {
            current: match self.current {
                Some(s) => Some(s@),
                None => None,
            },
            since: self.since,
            duration_secs: self.duration_secs,
        }
    }
}

impl Notifier {
    /// An empty notifier whose messages stay `duration_secs` seconds.
    pub fn new(duration_secs: u64) -> (r: Self)
        ensures
            r@ == (NotifierState { current: None, since: None, duration_secs }),
    {
        Notifier { current: None, since: None, duration_secs }
    }

    /// Shows `note` from `now` on, replacing any message shown.
    pub fn push(&mut self, note: Notification, now: u64)
        ensures
            final(self)@ == pushed(old(self)@, note.message@, now),
    {
        self.current = Some(note.message);
        self.since = Some(now);
    }

    /// The message held, without looking at the clock.
    pub fn message(&self) -> (r: Option<&str>)
        ensures
            match r {
                Some(s) => self@.current == Some(s@),
                None => self@.current is None,
            },
    {
        match &self.current {
            Some(s) => Some(s.as_str()),
            None => None,
        }
    }

    /// The message shown at `now`; a message that has been shown for its
    /// duration is dropped and `None` is reported.
    pub fn current(&mut self, now: u64) -> (r: Option<&str>)
        ensures
            final(self)@ == polled(old(self)@, now),
            r matches Some(s) ==> shown(old(self)@, now) == Some(s@),
            r is None ==> shown(old(self)@, now) is None,
    {
        if let Some(s) = self.since {
            let elapsed = if now >= s {
                (now - s) / 1_000_000_000
            } else {
                0
            };
            if elapsed >= self.duration_secs {
                self.current = None;
                self.since = None;
                return None;
            }
        }
        match &self.current {
            Some(s) => Some(s.as_str()),
            None => None,
        }
    }
}

/// A pushed notification is shown until its duration has passed and is
/// gone from then on.
pub proof fn law_push_then_current(n: NotifierState, msg: Seq<char>, t: u64, now: u64)
    ensures
        elapsed_secs(t, now) < n.duration_secs ==> shown(pushed(n, msg, t), now) == Some(msg),
        elapsed_secs(t, now) >= n.duration_secs ==> shown(pushed(n, msg, t), now) is None,
        elapsed_secs(t, now) >= n.duration_secs ==> polled(pushed(n, msg, t), now).current is None,
{
}

/// A newer notification replaces the one shown.
pub proof fn law_push_overwrites(n: NotifierState, a: Seq<char>, b: Seq<char>, t1: u64, t2: u64)
    ensures
        pushed(pushed(n, a, t1), b, t2) == pushed(n, b, t2),
{
}

/// Once cleared, the slot stays empty until the next push.
pub proof fn law_cleared_stays_empty(n: NotifierState, t: u64, later: u64)
    requires
        expired(n, t),
    ensures
        shown(polled(n, t), later) is None,
        polled(polled(n, t), later) == polled(n, t),
{
}


/// A source of notifications, polled with what the caller read for it
/// (a directory listing, command output, interface states).
pub trait EventSource {
    /// What one poll is given.
    type Input;

    /// Looks at `input` and pushes a notification for each event found.
    fn poll(&mut self, input: Self::Input, notifier: &mut Notifier, now: u64);
}

/// State after pushing each message of `msgs` in turn at `now`.
pub open spec fn pushed_all(n: NotifierState, msgs: Seq<Seq<char>>, now: u64) -> NotifierState
    decreases msgs.len(),
{
    if msgs.len() == 0 {
        n
    } else {
        pushed(pushed_all(n, msgs.drop_last(), now), msgs.last(), now)
    }
}

/// The character sequences of a list of strings.
pub open spec fn names_of(v: Seq<String>) -> Seq<Seq<char>> {
    v.map_values(|s: String| s@)
}

/// Whether `v` holds a string equal to `x`.
pub fn contains_string(v: &Vec<String>, x: &String) -> (r: bool)
    ensures
        r == names_of(v@).contains(x@),
{
    let mut i: usize = 0;
    while i < v.len()
        invariant
            i <= v@.len(),
            forall|k: int| 0 <= k < i ==> v@[k]@ != x@,
        decreases v@.len() - i,
    {
        if v[i] == *x {
            proof {
                assert(names_of(v@)[i as int] == x@);
            }
            return true;
        }
        i = i + 1;
    }
    proof {
        if names_of(v@).contains(x@) {
            let k = choose|k: int| 0 <= k < names_of(v@).len() && names_of(v@)[k] == x@;
            assert(v@[k]@ == x@);
        }
    }
    false
}

/// A copy of a list of strings.
pub fn clone_strings(v: &Vec<String>) -> (r: Vec<String>)
    ensures
        names_of(r@) == names_of(v@),
{
    let mut r: Vec<String> = Vec::new();
    let mut i: usize = 0;
    while i < v.len()
        invariant
            i <= v@.len(),
            names_of(r@) == names_of(v@).take(i as int),
        decreases v@.len() - i,
    {
        let s = v[i].clone();
        let ghost before = names_of(r@);
        r.push(s);
        proof {
            assert(names_of(r@) =~= before.push(v@[i as int]@));
            assert(names_of(v@).take(i + 1) =~= names_of(v@).take(i as int).push(v@[i as int]@));
        }
        i = i + 1;
    }
    proof {
        assert(names_of(v@).take(v@.len() as int) =~= names_of(v@));
    }
    r
}

/// Names of `a` missing from `b`, in the order of `a`.
pub open spec fn missing_from(a: Seq<Seq<char>>, b: Seq<Seq<char>>) -> Seq<Seq<char>>
    decreases a.len(),
{
    if a.len() == 0 {
        seq![]
    } else if b.contains(a.last()) {
        missing_from(a.drop_last(), b)
    } else {
        missing_from(a.drop_last(), b).push(a.last())
    }
}

/// The strings of `a` missing from `b`, in the order of `a`.
pub fn strings_missing_from(a: &Vec<String>, b: &Vec<String>) -> (r: Vec<String>)
    ensures
        names_of(r@) == missing_from(names_of(a@), names_of(b@)),
{
    let mut r: Vec<String> = Vec::new();
    let mut i: usize = 0;
    while i < a.len()
        invariant
            i <= a@.len(),
            names_of(r@) == missing_from(names_of(a@).take(i as int), names_of(b@)),
        decreases a@.len() - i,
    {
        let ghost before = names_of(r@);
        let ghost t = names_of(a@).take(i + 1);
        proof {
            assert(t.drop_last() =~= names_of(a@).take(i as int));
            assert(t.last() == a@[i as int]@);
        }
        if !contains_string(b, &a[i]) {
            let s = a[i].clone();
            r.push(s);
            proof {
                assert(names_of(r@) =~= before.push(a@[i as int]@));
            }
        }
        i = i + 1;
    }
    proof {
        assert(names_of(a@).take(a@.len() as int) =~= names_of(a@));
    }
    r
}

} // verus!
