//! SSH login events from the SSH service journal. A user is announced
//! again only after the re-notification interval.

use vstd::prelude::*;

use super::{elapsed_secs, EventSource, pushed_all, Notification, Notifier, NotifyKind};
use crate::notify::usb::lemma_pushed_all_concat;
use crate::utils::chars::{find, find_chars, lines, slice_chars, split_lines, str_chars, string_from_chars, trim, trim_chars};

verus! {

/// Text between the first `prefix` of `s` and the next `suffix` after it
/// (or the end), trimmed; `None` when `prefix` does not occur.
pub open spec fn between(s: Seq<char>, prefix: Seq<char>, suffix: Seq<char>) -> Option<Seq<char>> {
    match find(s, prefix) {
        None => None,
        Some(i) => {
            let rest = s.skip(i + prefix.len());
            let end = match find(rest, suffix) {
                Some(j) => j,
                None => rest.len() as int,
            };
            Some(trim(rest.take(end)))
        },
    }
}

/// Text between `prefix` and `suffix` (see [`between`]).
pub fn extract_between(s: &str, prefix: &str, suffix: &str) -> (r: Option<String>)
    ensures
        match r {
            Some(t) => between(s@, prefix@, suffix@) == Some(t@),
            None => between(s@, prefix@, suffix@) is None,
        },
{
    let v = str_chars(s);
    let p = str_chars(prefix);
    let q = str_chars(suffix);
    extract_between_chars(&v, &p, &q)
}

proof fn lemma_find_from_bound(s: Seq<char>, p: Seq<char>, i: int)
    ensures
        crate::utils::chars::find_from(s, p, i) matches Some(j) ==> i <= j && j + p.len() <= s.len(),
    decreases s.len() + 1 - i,
{
    if !(i < 0 || i + p.len() > s.len()) && !crate::utils::chars::occurs_at(s, p, i) {
        lemma_find_from_bound(s, p, i + 1);
    }
}

fn extract_between_chars(v: &[char], p: &[char], q: &[char]) -> (r: Option<String>)
    ensures
        match r {
            Some(t) => between(v@, p@, q@) == Some(t@),
            None => between(v@, p@, q@) is None,
        },
{
    let i = match find_chars(v, p) {
        Some(i) => i,
        None => return None,
    };
    proof {
        lemma_find_from_bound(v@, p@, 0);
        assert(i + p@.len() <= v@.len());
    }
    let plen = p.len();
    assert(plen == p@.len());
    let vlen = v.len();
    assert(vlen == v@.len());
    let rest = slice_chars(v, i + plen, v.len());
    proof {
        assert(rest@ =~= v@.skip(i + p@.len()));
        lemma_find_from_bound(rest@, q@, 0);
    }
    let end = match find_chars(&rest, q) {
        Some(j) => j,
        None => rest.len(),
    };
    let piece = slice_chars(&rest, 0, end);
    proof {
        assert(piece@ =~= rest@.take(end as int));
    }
    let t = trim_chars(&piece);
    Some(string_from_chars(&t))
}

/// `"session opened for user"`.
pub open spec fn login_marker() -> Seq<char> {
    "session opened for user"@
}

/// Abstract state of the SSH watcher.
pub struct SshState {
    pub seen: Seq<(Seq<char>, u64)>,
    pub last_poll: Option<u64>,
    pub poll_secs: u64,
    pub renotify_secs: u64,
}

/// When `name` was last announced (the first record for it).
pub open spec fn seen_at(seen: Seq<(Seq<char>, u64)>, name: Seq<char>) -> Option<u64>
    decreases seen.len(),
{
    if seen.len() == 0 {
        None
    } else if seen[0].0 == name {
        Some(seen[0].1)
    } else {
        seen_at(seen.drop_first(), name)
    }
}

/// Records `name` as announced at `now` (replacing its first record, or appended).
pub open spec fn mark_seen(seen: Seq<(Seq<char>, u64)>, name: Seq<char>, now: u64) -> Seq<(Seq<char>, u64)>
    decreases seen.len(),
{
    if seen.len() == 0 {
        seq![(name, now)]
    } else if seen[0].0 == name {
        seq![(name, now)] + seen.drop_first()
    } else {
        seq![seen[0]] + mark_seen(seen.drop_first(), name, now)
    }
}

/// User of a journal line that reports a login, if it does.
pub open spec fn login_user(line: Seq<char>) -> Option<Seq<char>> {
    let t = trim(line);
    if t.len() == 0 || find(t, login_marker()) is None {
        None
    } else {
        match between(t, "for user "@, "("@) {
            Some(u) => Some(u),
            None => Some(seq!['?']),
        }
    }
}

/// Records and messages after reading `ls` (journal lines, in order) at `now`.
pub open spec fn logins(
    ls: Seq<Seq<char>>,
    seen: Seq<(Seq<char>, u64)>,
    renotify: u64,
    now: u64,
) -> (Seq<(Seq<char>, u64)>, Seq<Seq<char>>)
    decreases ls.len(),
{
    if ls.len() == 0 {
        (seen, seq![])
    } else {
        let (s, msgs) = logins(ls.drop_last(), seen, renotify, now);
        match login_user(ls.last()) {
            None => (s, msgs),
            Some(u) => {
                if seen_at(s, u) matches Some(t) && elapsed_secs(t, now) < renotify {
                    (s, msgs)
                } else {
                    (mark_seen(s, u, now), msgs.push(seq!['S', 'S', 'H', ' '] + u))
                }
            },
        }
    }
}

/// SSH login watcher.
pub struct SshMonitor {
    seen: Vec<(String, u64)>,
    last_poll: Option<u64>,
    poll_secs: u64,
    renotify_secs: u64,
}

/// Abstract view of the login records.
pub open spec fn records_of(v: Seq<(String, u64)>) -> Seq<(Seq<char>, u64)> {
    v.map_values(|p: (String, u64)| (p.0@, p.1))
}

impl View for SshMonitor {
    type V = SshState;

    closed spec fn view(&self) -> SshState {
        SshState {
            seen: records_of(self.seen@),
            last_poll: self.last_poll,
            poll_secs: self.poll_secs,
            renotify_secs: self.renotify_secs,
        }
    }
}

fn seen_time(seen: &Vec<(String, u64)>, name: &String) -> (r: (Option<u64>, Option<usize>))
    ensures
        r.0 == seen_at(records_of(seen@), name@),
        r.1 matches Some(i) ==> i < seen@.len() && records_of(seen@)[i as int].0 == name@ && (
        forall|k: int| 0 <= k < i ==> records_of(seen@)[k].0 != name@),
        r.1 is None ==> forall|k: int| 0 <= k < seen@.len() ==> records_of(seen@)[k].0 != name@,
{
    let mut i: usize = 0;
    proof {
        assert(records_of(seen@).skip(0) =~= records_of(seen@));
    }
    while i < seen.len()
        invariant
            i <= seen@.len(),
            seen_at(records_of(seen@), name@) == seen_at(records_of(seen@).skip(i as int), name@),
            forall|k: int| 0 <= k < i ==> records_of(seen@)[k].0 != name@,
        decreases seen@.len() - i,
    {
        let ghost rest = records_of(seen@).skip(i as int);
        proof {
            assert(rest.drop_first() =~= records_of(seen@).skip(i + 1));
            assert(rest[0] == records_of(seen@)[i as int]);
        }
        if seen[i].0 == *name {
            return (Some(seen[i].1), Some(i));
        }
        i = i + 1;
    }
    proof {
        assert(records_of(seen@).skip(i as int) =~= Seq::<(Seq<char>, u64)>::empty());
    }
    (None, None)
}

proof fn lemma_mark_seen(seen: Seq<(Seq<char>, u64)>, name: Seq<char>, now: u64, i: Option<int>)
    requires
        i matches Some(k) ==> 0 <= k < seen.len() && seen[k].0 == name && (forall|t: int|
            0 <= t < k ==> seen[t].0 != name),
        i is None ==> forall|t: int| 0 <= t < seen.len() ==> seen[t].0 != name,
    ensures
        mark_seen(seen, name, now) == match i {
            Some(k) => seen.update(k, (name, now)),
            None => seen.push((name, now)),
        },
    decreases seen.len(),
{
    if seen.len() > 0 {
        if seen[0].0 == name {
            assert(i == Some(0int));
            assert(seq![(name, now)] + seen.drop_first() =~= seen.update(0, (name, now)));
        } else {
            let j = match i {
                Some(k) => Some(k - 1),
                None => None,
            };
            assert forall|t: int| 0 <= t < seen.len() - 1 implies #[trigger] seen.drop_first()[t]
                == seen[t + 1] by {}
            lemma_mark_seen(seen.drop_first(), name, now, j);
            match i {
                Some(k) => {
                    assert(seq![seen[0]] + seen.drop_first().update(k - 1, (name, now)) =~= seen.update(
                        k,
                        (name, now),
                    ));
                },
                None => {
                    assert(seq![seen[0]] + seen.drop_first().push((name, now)) =~= seen.push(
                        (name, now),
                    ));
                },
            }
        }
    } else {
        assert(seq![(name, now)] =~= seen.push((name, now)));
    }
}

impl SshMonitor {
    /// A watcher that reads the journal at most every `poll_secs` seconds
    /// and announces a user again after `renotify_secs` seconds.
    pub fn new(poll_secs: u64, renotify_secs: u64) -> (r: Self)
        ensures
            r@ == (SshState {
                seen: Seq::<(Seq<char>, u64)>::empty(),
                last_poll: None,
                poll_secs,
                renotify_secs,
            }),
    {
        let seen: Vec<(String, u64)> = Vec::new();
        let r = SshMonitor { seen, last_poll: None, poll_secs, renotify_secs };
        proof {
            assert(r@.seen =~= Seq::<(Seq<char>, u64)>::empty());
        }
        r
    }

    /// Whether the journal is to be read at `now`: not within `poll_secs`
    /// of the previous read. A read is recorded as happening at `now`.
    pub fn due(&mut self, now: u64) -> (r: bool)
        ensures
            r == !(old(self)@.last_poll matches Some(l) && elapsed_secs(l, now) < old(
                self,
            )@.poll_secs),
            r ==> final(self)@ == (SshState { last_poll: Some(now), ..old(self)@ }),
            !r ==> final(self)@ == old(self)@,
    {
        if let Some(last) = self.last_poll {
            let elapsed = if now >= last {
                (now - last) / 1_000_000_000
            } else {
                0
            };
            if elapsed < self.poll_secs {
                return false;
            }
        }
        self.last_poll = Some(now);
        true
    }

    /// Reads the journal output: every line that reports an opened session
    /// announces its user (`"SSH pi"`) unless that user was announced less
    /// than `renotify_secs` seconds ago.
    pub fn process_output(&mut self, output: &str, notifier: &mut Notifier, now: u64)
        ensures
            ({
                let (s, msgs) = logins(lines(output@), old(self)@.seen, old(self)@.renotify_secs, now);
                &&& final(self)@ == (SshState { seen: s, ..old(self)@ })
                &&& final(notifier)@ == pushed_all(old(notifier)@, msgs, now)
            }),
    {
        let v = str_chars(output);
        let ls = split_lines(&v);
        let ghost lv = crate::utils::chars::char_rows(ls@);
        let ghost seen0 = records_of(self.seen@);
        let ghost start = notifier@;
        let marker = str_chars("session opened for user");
        let for_user = str_chars("for user ");
        let paren = str_chars("(");
        proof {
            reveal_strlit("session opened for user");
        }
        let mut i: usize = 0;
        while i < ls.len()
            invariant
                i <= ls@.len(),
                lv == crate::utils::chars::char_rows(ls@),
                lv == lines(output@),
                self.renotify_secs == old(self).renotify_secs,
                self.poll_secs == old(self).poll_secs,
                self.last_poll == old(self).last_poll,
                seen0 == old(self)@.seen,
                marker@ == login_marker(),
                for_user@ == "for user "@,
                paren@ == "("@,
                ({
                    let (s, msgs) = logins(lv.take(i as int), seen0, self.renotify_secs, now);
                    &&& records_of(self.seen@) == s
                    &&& notifier@ == pushed_all(start, msgs, now)
                }),
            decreases ls@.len() - i,
        {
            let ghost t = lv.take(i + 1);
            proof {
                assert(t.drop_last() =~= lv.take(i as int));
                assert(t.last() == ls@[i as int]@);
            }
            let trimmed = trim_chars(&ls[i]);
            let ghost (s_before, m_before) = logins(lv.take(i as int), seen0, self.renotify_secs, now);
            if trimmed.len() > 0 && find_chars(&trimmed, &marker).is_some() {
                let user = match extract_between_chars(&trimmed, &for_user, &paren) {
                    Some(u) => u,
                    None => {
                        let q = String::from_str("?");
                        proof {
                            reveal_strlit("?");
                            assert(q@ =~= seq!['?']);
                        }
                        q
                    },
                };
                let (last, at) = seen_time(&self.seen, &user);
                let recent = match last {
                    Some(l) => {
                        let elapsed = if now >= l {
                            (now - l) / 1_000_000_000
                        } else {
                            0
                        };
                        elapsed < self.renotify_secs
                    },
                    None => false,
                };
                proof {
                    assert(login_user(ls@[i as int]@) == Some(user@));
                    assert(seen_at(s_before, user@) == last);
                }
                if !recent {
                    let ghost s0 = records_of(self.seen@);
                    let ghost uv = user@;
                    proof {
                        lemma_mark_seen(
                            s0,
                            uv,
                            now,
                            match at {
                                Some(k) => Some(k as int),
                                None => None,
                            },
                        );
                    }
                    match at {
                        Some(k) => {
                            self.seen.set(k, (user.clone(), now));
                            proof {
                                assert(records_of(self.seen@) =~= s0.update(k as int, (uv, now)));
                            }
                        },
                        None => {
                            self.seen.push((user.clone(), now));
                            proof {
                                assert(records_of(self.seen@) =~= s0.push((uv, now)));
                            }
                        },
                    }
                    let mut msg = String::from_str("SSH ");
                    msg.append(user.as_str());
                    proof {
                        reveal_strlit("SSH ");
                        assert(msg@ =~= seq!['S', 'S', 'H', ' '] + uv);
                        assert(m_before.push(msg@).drop_last() =~= m_before);
                    }
                    notifier.push(Notification::new(NotifyKind::SshLogin, msg), now);
                }
            } else {
                proof {
                    assert(login_user(ls@[i as int]@) is None);
                }
            }
            i = i + 1;
        }
        proof {
            assert(lv.take(ls@.len() as int) =~= lv);
        }
    }
}

impl EventSource for SshMonitor {
    type Input = String;

    fn poll(&mut self, input: String, notifier: &mut Notifier, now: u64)
        ensures
            ({
                let (s, msgs) = logins(lines(input@), old(self)@.seen, old(self)@.renotify_secs, now);
                &&& final(self)@ == (SshState { seen: s, ..old(self)@ })
                &&& final(notifier)@ == pushed_all(old(notifier)@, msgs, now)
            }),
    {
        self.process_output(input.as_str(), notifier, now);
    }
}

proof fn lemma_mark_seen_records(seen: Seq<(Seq<char>, u64)>, name: Seq<char>, now: u64)
    ensures
        seen_at(mark_seen(seen, name, now), name) == Some(now),
    decreases seen.len(),
{
    if seen.len() > 0 && seen[0].0 != name {
        lemma_mark_seen_records(seen.drop_first(), name, now);
        let m = mark_seen(seen, name, now);
        assert(m.drop_first() =~= mark_seen(seen.drop_first(), name, now));
    }
}

/// A login by a user announced less than `renotify` seconds ago is not
/// announced again and leaves the records as they were; a login by a user
/// never announced, or announced at least `renotify` seconds ago, is
/// announced with exactly one message `"SSH <user>"` and records the user
/// as announced at `now`.
pub proof fn law_ssh_renotify_interval(
    line: Seq<char>,
    seen: Seq<(Seq<char>, u64)>,
    renotify: u64,
    now: u64,
    user: Seq<char>,
)
    requires
        login_user(line) == Some(user),
    ensures
        (seen_at(seen, user) matches Some(t) && elapsed_secs(t, now) < renotify) ==> logins(
            seq![line],
            seen,
            renotify,
            now,
        ) == (seen, Seq::<Seq<char>>::empty()),
        !(seen_at(seen, user) matches Some(t) && elapsed_secs(t, now) < renotify) ==> logins(
            seq![line],
            seen,
            renotify,
            now,
        ) == (mark_seen(seen, user, now), seq![seq!['S', 'S', 'H', ' '] + user]),
        seen_at(mark_seen(seen, user, now), user) == Some(now),
{
    assert(seq![line].drop_last() =~= Seq::<Seq<char>>::empty());
    assert(seq![line].last() == line);
    assert(logins(Seq::<Seq<char>>::empty(), seen, renotify, now) == (seen, Seq::<Seq<char>>::empty()));
    assert(Seq::<Seq<char>>::empty().push(seq!['S', 'S', 'H', ' '] + user) =~= seq![seq!['S', 'S', 'H', ' '] + user]);
    lemma_mark_seen_records(seen, user, now);
}

} // verus!
