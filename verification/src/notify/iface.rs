//! Network interface state events: interfaces going up or down.

use vstd::prelude::*;

use super::{names_of, EventSource, pushed_all, Notification, Notifier, NotifyKind};
use crate::utils::chars::{chars_eq, str_chars, trim, trim_chars};

verus! {

/// Abstract view of an interface-state list.
pub open spec fn states_of(v: Seq<(String, bool)>) -> Seq<(Seq<char>, bool)> {
    v.map_values(|p: (String, bool)| (p.0@, p.1))
}

/// State recorded for `name` (the first entry with that name).
pub open spec fn state_of(states: Seq<(Seq<char>, bool)>, name: Seq<char>) -> Option<bool>
    decreases states.len(),
{
    if states.len() == 0 {
        None
    } else if states[0].0 == name {
        Some(states[0].1)
    } else {
        state_of(states.drop_first(), name)
    }
}

/// The operational state text says the interface is up (`"up"` after
/// trimming); an unreadable state counts as down.
pub open spec fn operstate_up(content: Option<Seq<char>>) -> bool {
    match content {
        Some(c) => trim(c) == seq!['u', 'p'],
        None => false,
    }
}

/// Whether an interface is up, from the text of its operational state
/// (`None` when it could not be read).
pub fn is_up(content: Option<&str>) -> (r: bool)
    ensures
        r == operstate_up(match content {
            Some(c) => Some(c@),
            None => None,
        }),
{
    match content {
        Some(c) => {
            let t = trim_chars(&str_chars(c));
            let up = vec!['u', 'p'];
            proof {
                assert(up@ =~= seq!['u', 'p']);
            }
            chars_eq(&t, &up)
        },
        None => false,
    }
}

/// Interface states from the entries of the network class directory, each
/// with the text of its operational state: the loopback interface is left
/// out, the others keep their order.
pub open spec fn listed_states(entries: Seq<(Seq<char>, Option<Seq<char>>)>) -> Seq<(Seq<char>, bool)>
    decreases entries.len(),
{
    if entries.len() == 0 {
        seq![]
    } else {
        let rest = listed_states(entries.drop_last());
        let (name, content) = entries.last();
        if name == seq!['l', 'o'] {
            rest
        } else {
            rest.push((name, operstate_up(content)))
        }
    }
}

/// An entry of the network class directory by its views.
pub open spec fn entry_view(e: (String, Option<String>)) -> (Seq<char>, Option<Seq<char>>) {
    (e.0@, match e.1 {
        Some(c) => Some(c@),
        None => None,
    })
}

/// Interface states from the directory entries and their state texts.
pub fn read_iface_states(entries: &Vec<(String, Option<String>)>) -> (r: Vec<(String, bool)>)
    ensures
        states_of(r@) == listed_states(entries@.map_values(|e: (String, Option<String>)| entry_view(e))),
{
    let ghost ev = entries@.map_values(|e: (String, Option<String>)| entry_view(e));
    let lo = vec!['l', 'o'];
    proof {
        assert(lo@ =~= seq!['l', 'o']);
    }
    let mut out: Vec<(String, bool)> = Vec::new();
    let mut i: usize = 0;
    while i < entries.len()
        invariant
            i <= entries@.len(),
            lo@ == seq!['l', 'o'],
            ev == entries@.map_values(|e: (String, Option<String>)| entry_view(e)),
            states_of(out@) == listed_states(ev.take(i as int)),
        decreases entries@.len() - i,
    {
        proof {
            assert(ev.take(i + 1).drop_last() =~= ev.take(i as int));
            assert(ev.take(i + 1).last() == entry_view(entries@[i as int]));
        }
        let name = &entries[i].0;
        let n = str_chars(name.as_str());
        if !chars_eq(&n, &lo) {
            let up = match &entries[i].1 {
                Some(c) => is_up(Some(c.as_str())),
                None => is_up(None),
            };
            let ghost before = out@;
            out.push((name.clone(), up));
            proof {
                assert(states_of(out@) =~= states_of(before).push((name@, up)));
            }
        }
        i = i + 1;
    }
    proof {
        assert(ev.take(i as int) =~= ev);
    }
    out
}

/// Interfaces of `cur` that are up now and were not up before, in order.
pub open spec fn came_up(prev: Seq<(Seq<char>, bool)>, cur: Seq<(Seq<char>, bool)>) -> Seq<Seq<char>>
    decreases cur.len(),
{
    if cur.len() == 0 {
        seq![]
    } else if cur.last().1 && state_of(prev, cur.last().0) != Some(true) {
        came_up(prev, cur.drop_last()).push(cur.last().0)
    } else {
        came_up(prev, cur.drop_last())
    }
}

/// Interfaces of `cur` that are down now and were up before, in order.
pub open spec fn went_down(prev: Seq<(Seq<char>, bool)>, cur: Seq<(Seq<char>, bool)>) -> Seq<Seq<char>>
    decreases cur.len(),
{
    if cur.len() == 0 {
        seq![]
    } else if !cur.last().1 && state_of(prev, cur.last().0) == Some(true) {
        went_down(prev, cur.drop_last()).push(cur.last().0)
    } else {
        went_down(prev, cur.drop_last())
    }
}

/// Interfaces of `prev` that are gone from `cur`, in order.
pub open spec fn vanished(prev: Seq<(Seq<char>, bool)>, cur: Seq<(Seq<char>, bool)>) -> Seq<Seq<char>>
    decreases prev.len(),
{
    if prev.len() == 0 {
        seq![]
    } else if state_of(cur, prev.last().0) is None {
        vanished(prev.drop_last(), cur).push(prev.last().0)
    } else {
        vanished(prev.drop_last(), cur)
    }
}

/// Names joined by single spaces.
pub open spec fn joined(names: Seq<Seq<char>>) -> Seq<char>
    decreases names.len(),
{
    if names.len() == 0 {
        seq![]
    } else if names.len() == 1 {
        names[0]
    } else {
        joined(names.drop_last()) + seq![' '] + names.last()
    }
}

/// Messages of one poll: one for every interface that came up, one for
/// every interface that went down or vanished.
pub open spec fn iface_msgs(prev: Seq<(Seq<char>, bool)>, cur: Seq<(Seq<char>, bool)>) -> Seq<Seq<char>> {
    let ups = came_up(prev, cur);
    let downs = went_down(prev, cur) + vanished(prev, cur);
    (if ups.len() > 0 {
        seq![joined(ups) + seq![' ', 'u', 'p']]
    } else {
        seq![]
    }) + (if downs.len() > 0 {
        seq![joined(downs) + seq![' ', 'd', 'o', 'w', 'n']]
    } else {
        seq![]
    })
}

fn lookup_state(states: &Vec<(String, bool)>, name: &String) -> (r: Option<bool>)
    ensures
        r == state_of(states_of(states@), name@),
{
    let mut i: usize = 0;
    proof {
        assert(states_of(states@).skip(0) =~= states_of(states@));
    }
    while i < states.len()
        invariant
            i <= states@.len(),
            state_of(states_of(states@), name@) == state_of(states_of(states@).skip(i as int), name@),
        decreases states@.len() - i,
    {
        let ghost rest = states_of(states@).skip(i as int);
        proof {
            assert(rest.drop_first() =~= states_of(states@).skip(i + 1));
            assert(rest[0] == (states@[i as int].0@, states@[i as int].1));
        }
        if states[i].0 == *name {
            return Some(states[i].1);
        }
        i = i + 1;
    }
    proof {
        assert(states_of(states@).skip(i as int) =~= Seq::<(Seq<char>, bool)>::empty());
    }
    None
}

fn join_words(names: &Vec<String>, tail: &str) -> (r: String)
    ensures
        r@ == joined(names_of(names@)) + tail@,
{
    let mut s = String::new();
    let mut i: usize = 0;
    while i < names.len()
        invariant
            i <= names@.len(),
            s@ == joined(names_of(names@).take(i as int)),
        decreases names@.len() - i,
    {
        let ghost t = names_of(names@).take(i + 1);
        proof {
            assert(t.drop_last() =~= names_of(names@).take(i as int));
            assert(t.last() == names@[i as int]@);
        }
        if i > 0 {
            s.append(" ");
            proof {
                reveal_strlit(" ");
            }
        }
        s.append(names[i].as_str());
        proof {
            if i == 0 {
                assert(t.len() == 1);
                assert(s@ =~= joined(t));
            } else {
                assert(s@ =~= joined(t));
            }
        }
        i = i + 1;
    }
    proof {
        assert(names_of(names@).take(names@.len() as int) =~= names_of(names@));
    }
    s.append(tail);
    s
}

/// Interface up/down watcher.
pub struct IfaceMonitor {
    prev_states: Vec<(String, bool)>,
}

impl View for IfaceMonitor {
    type V = Seq<(Seq<char>, bool)>;

    closed spec fn view(&self) -> Seq<(Seq<char>, bool)> {
        states_of(self.prev_states@)
    }
}

impl IfaceMonitor {
    /// A watcher whose baseline is `states`: each non-loopback interface
    /// with whether its operational state is "up".
    pub fn new(states: Vec<(String, bool)>) -> (r: Self)
        ensures
            r@ == states_of(states@),
    {
        IfaceMonitor { prev_states: states }
    }

    /// Compares `current` with the previous states and pushes one message
    /// for the interfaces that came up (`"eth0 wlan0 up"`) and then one for
    /// those that went down or vanished (`"eth0 down"`).
    pub fn poll(&mut self, current: Vec<(String, bool)>, notifier: &mut Notifier, now: u64)
        ensures
            final(self)@ == states_of(current@),
            final(notifier)@ == pushed_all(
                old(notifier)@,
                iface_msgs(old(self)@, states_of(current@)),
                now,
            ),
    {
        let ghost prev = states_of(self.prev_states@);
        let ghost cur = states_of(current@);
        let mut ups: Vec<String> = Vec::new();
        let mut downs: Vec<String> = Vec::new();
        let mut i: usize = 0;
        while i < current.len()
            invariant
                i <= current@.len(),
                prev == states_of(self.prev_states@),
                cur == states_of(current@),
                names_of(ups@) == came_up(prev, cur.take(i as int)),
                names_of(downs@) == went_down(prev, cur.take(i as int)),
            decreases current@.len() - i,
        {
            let ghost t = cur.take(i + 1);
            proof {
                assert(t.drop_last() =~= cur.take(i as int));
                assert(t.last() == (current@[i as int].0@, current@[i as int].1));
            }
            let was = lookup_state(&self.prev_states, &current[i].0);
            let ghost u0 = names_of(ups@);
            let ghost d0 = names_of(downs@);
            if current[i].1 && was != Some(true) {
                ups.push(current[i].0.clone());
                proof {
                    assert(names_of(ups@) =~= u0.push(current@[i as int].0@));
                }
            } else if !current[i].1 && was == Some(true) {
                downs.push(current[i].0.clone());
                proof {
                    assert(names_of(downs@) =~= d0.push(current@[i as int].0@));
                }
            }
            i = i + 1;
        }
        proof {
            assert(cur.take(current@.len() as int) =~= cur);
        }
        let ghost mid = names_of(downs@);
        let mut j: usize = 0;
        while j < self.prev_states.len()
            invariant
                j <= self.prev_states@.len(),
                prev == states_of(self.prev_states@),
                cur == states_of(current@),
                names_of(downs@) == mid + vanished(prev.take(j as int), cur),
            decreases self.prev_states@.len() - j,
        {
            let ghost t = prev.take(j + 1);
            proof {
                assert(t.drop_last() =~= prev.take(j as int));
                assert(t.last() == (self.prev_states@[j as int].0@, self.prev_states@[j as int].1));
            }
            let ghost d0 = names_of(downs@);
            if lookup_state(&current, &self.prev_states[j].0).is_none() {
                downs.push(self.prev_states[j].0.clone());
                proof {
                    assert(names_of(downs@) =~= d0.push(self.prev_states@[j as int].0@));
                }
            }
            j = j + 1;
        }
        proof {
            assert(prev.take(self.prev_states@.len() as int) =~= prev);
        }
        let ghost start = notifier@;
        let ghost msgs = iface_msgs(prev, cur);
        if ups.len() > 0 {
            let msg = join_words(&ups, " up");
            proof {
                reveal_strlit(" up");
                assert(msg@ =~= joined(names_of(ups@)) + seq![' ', 'u', 'p']);
            }
            notifier.push(Notification::new(NotifyKind::IfaceUp, msg), now);
        }
        let ghost after_up = notifier@;
        if downs.len() > 0 {
            let msg = join_words(&downs, " down");
            proof {
                reveal_strlit(" down");
                assert(msg@ =~= joined(names_of(downs@)) + seq![' ', 'd', 'o', 'w', 'n']);
            }
            notifier.push(Notification::new(NotifyKind::IfaceDown, msg), now);
        }
        proof {
            let up_msgs: Seq<Seq<char>> = if names_of(ups@).len() > 0 {
                seq![joined(names_of(ups@)) + seq![' ', 'u', 'p']]
            } else {
                seq![]
            };
            let down_msgs: Seq<Seq<char>> = if names_of(downs@).len() > 0 {
                seq![joined(names_of(downs@)) + seq![' ', 'd', 'o', 'w', 'n']]
            } else {
                seq![]
            };
            assert(msgs =~= up_msgs + down_msgs);
            assert(pushed_all(start, Seq::<Seq<char>>::empty(), now) == start);
            if up_msgs.len() > 0 {
                assert(up_msgs.drop_last() =~= Seq::<Seq<char>>::empty());
                assert(up_msgs.last() == joined(names_of(ups@)) + seq![' ', 'u', 'p']);
            }
            assert(after_up == pushed_all(start, up_msgs, now));
            if down_msgs.len() > 0 {
                assert((up_msgs + down_msgs).drop_last() =~= up_msgs);
            } else {
                assert(up_msgs + down_msgs =~= up_msgs);
            }
        }
        self.prev_states = current;
    }
}

impl EventSource for IfaceMonitor {
    type Input = Vec<(String, bool)>;

    fn poll(&mut self, input: Vec<(String, bool)>, notifier: &mut Notifier, now: u64)
        ensures
            final(self)@ == states_of(input@),
            final(notifier)@ == pushed_all(old(notifier)@, iface_msgs(old(self)@, states_of(input@)), now),
    {
        IfaceMonitor::poll(self, input, notifier, now);
    }
}

proof fn lemma_came_up_names(prev: Seq<(Seq<char>, bool)>, cur: Seq<(Seq<char>, bool)>, k: int)
    requires
        0 <= k < cur.len(),
        cur[k].1,
        state_of(prev, cur[k].0) != Some(true),
    ensures
        came_up(prev, cur).contains(cur[k].0),
    decreases cur.len(),
{
    if k == cur.len() - 1 {
        let ups = came_up(prev, cur.drop_last()).push(cur.last().0);
        assert(ups[ups.len() - 1] == cur[k].0);
    } else {
        assert(cur.drop_last()[k] == cur[k]);
        lemma_came_up_names(prev, cur.drop_last(), k);
        let before = came_up(prev, cur.drop_last());
        let i = choose|i: int| 0 <= i < before.len() && before[i] == cur[k].0;
        let after = came_up(prev, cur);
        assert(after[i] == cur[k].0);
    }
}

proof fn lemma_went_down_names(prev: Seq<(Seq<char>, bool)>, cur: Seq<(Seq<char>, bool)>, k: int)
    requires
        0 <= k < cur.len(),
        !cur[k].1,
        state_of(prev, cur[k].0) == Some(true),
    ensures
        went_down(prev, cur).contains(cur[k].0),
    decreases cur.len(),
{
    if k == cur.len() - 1 {
        let downs = went_down(prev, cur.drop_last()).push(cur.last().0);
        assert(downs[downs.len() - 1] == cur[k].0);
    } else {
        assert(cur.drop_last()[k] == cur[k]);
        lemma_went_down_names(prev, cur.drop_last(), k);
        let before = went_down(prev, cur.drop_last());
        let i = choose|i: int| 0 <= i < before.len() && before[i] == cur[k].0;
        let after = went_down(prev, cur);
        assert(after[i] == cur[k].0);
    }
}

proof fn lemma_vanished_names(prev: Seq<(Seq<char>, bool)>, cur: Seq<(Seq<char>, bool)>, k: int)
    requires
        0 <= k < prev.len(),
        state_of(cur, prev[k].0) is None,
    ensures
        vanished(prev, cur).contains(prev[k].0),
    decreases prev.len(),
{
    if k == prev.len() - 1 {
        let v = vanished(prev.drop_last(), cur).push(prev.last().0);
        assert(v[v.len() - 1] == prev[k].0);
    } else {
        assert(prev.drop_last()[k] == prev[k]);
        lemma_vanished_names(prev.drop_last(), cur, k);
        let before = vanished(prev.drop_last(), cur);
        let i = choose|i: int| 0 <= i < before.len() && before[i] == prev[k].0;
        let after = vanished(prev, cur);
        assert(after[i] == prev[k].0);
    }
}

/// An interface of the previous states that is gone from the current ones
/// is named in the last message of the poll, `"<names> down"`.
pub proof fn law_vanished_iface_announced(prev: Seq<(Seq<char>, bool)>, cur: Seq<(Seq<char>, bool)>, k: int)
    requires
        0 <= k < prev.len(),
        forall|i: int| 0 <= i < cur.len() ==> cur[i].0 != prev[k].0,
    ensures
        exists|names: Seq<Seq<char>>|
            names.contains(prev[k].0) && iface_msgs(prev, cur).len() > 0 && #[trigger] iface_msgs(
                prev,
                cur,
            )[iface_msgs(prev, cur).len() - 1] == joined(names) + seq![' ', 'd', 'o', 'w', 'n'],
{
    lemma_state_of_absent(cur, prev[k].0);
    lemma_vanished_names(prev, cur, k);
    let downs = went_down(prev, cur) + vanished(prev, cur);
    let v = vanished(prev, cur);
    let i = choose|i: int| 0 <= i < v.len() && v[i] == prev[k].0;
    assert(downs[went_down(prev, cur).len() + i] == prev[k].0);
    assert(downs.contains(prev[k].0));
    let m = iface_msgs(prev, cur);
    assert(m[m.len() - 1] == joined(downs) + seq![' ', 'd', 'o', 'w', 'n']);
}

proof fn lemma_state_of_absent(states: Seq<(Seq<char>, bool)>, name: Seq<char>)
    requires
        forall|i: int| 0 <= i < states.len() ==> states[i].0 != name,
    ensures
        state_of(states, name) is None,
    decreases states.len(),
{
    if states.len() > 0 {
        assert(states[0].0 != name);
        assert forall|i: int| 0 <= i < states.drop_first().len() implies states.drop_first()[i].0 != name by {
            assert(states.drop_first()[i] == states[i + 1]);
        }
        lemma_state_of_absent(states.drop_first(), name);
    }
}

/// An interface that is up now and was not up before (it is new, or was
/// down) is named in the first message of the poll, `"<names> up"`; an
/// interface that was up and is down now is named in the last message,
/// `"<names> down"`.
pub proof fn law_iface_changes_are_announced(prev: Seq<(Seq<char>, bool)>, cur: Seq<(Seq<char>, bool)>, k: int)
    requires
        0 <= k < cur.len(),
    ensures
        cur[k].1 && state_of(prev, cur[k].0) != Some(true) ==> exists|names: Seq<Seq<char>>|
            names.contains(cur[k].0) && iface_msgs(prev, cur).len() > 0 && #[trigger] iface_msgs(
                prev,
                cur,
            )[0] == joined(names) + seq![' ', 'u', 'p'],
        !cur[k].1 && state_of(prev, cur[k].0) == Some(true) ==> exists|names: Seq<Seq<char>>|
            names.contains(cur[k].0) && iface_msgs(prev, cur).len() > 0 && #[trigger] iface_msgs(
                prev,
                cur,
            )[iface_msgs(prev, cur).len() - 1] == joined(names) + seq![' ', 'd', 'o', 'w', 'n'],
{
    let ups = came_up(prev, cur);
    let downs = went_down(prev, cur) + vanished(prev, cur);
    let m = iface_msgs(prev, cur);
    if cur[k].1 && state_of(prev, cur[k].0) != Some(true) {
        lemma_came_up_names(prev, cur, k);
        assert(ups.len() > 0);
        assert(m[0] == joined(ups) + seq![' ', 'u', 'p']);
    }
    if !cur[k].1 && state_of(prev, cur[k].0) == Some(true) {
        lemma_went_down_names(prev, cur, k);
        let i = choose|i: int| 0 <= i < went_down(prev, cur).len() && went_down(prev, cur)[i] == cur[k].0;
        assert(downs[i] == cur[k].0);
        assert(downs.contains(cur[k].0));
        assert(m[m.len() - 1] == joined(downs) + seq![' ', 'd', 'o', 'w', 'n']);
    }
}

} // verus!
