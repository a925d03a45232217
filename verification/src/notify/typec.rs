//! Type-C port events: ports appearing in or vanishing from the port list.

use vstd::prelude::*;

use super::{
    clone_strings, missing_from, EventSource, names_of, pushed_all, strings_missing_from, Notification,
    Notifier, NotifierState, NotifyKind,
};
use crate::utils::chars::{has_prefix, starts_with, str_chars};

verus! {

/// `"port"`.
pub open spec fn port_prefix() -> Seq<char> {
    seq!['p', 'o', 'r', 't']
}

/// Entries of the Type-C class directory that are ports, in order.
pub open spec fn typec_ports(entries: Seq<Seq<char>>) -> Seq<Seq<char>>
    decreases entries.len(),
{
    if entries.len() == 0 {
        seq![]
    } else if has_prefix(entries.last(), port_prefix()) {
        typec_ports(entries.drop_last()).push(entries.last())
    } else {
        typec_ports(entries.drop_last())
    }
}

/// Message for a port that appeared.
pub open spec fn typec_in_msg(name: Seq<char>) -> Seq<char> {
    seq!['T', 'y', 'p', 'e', 'C', ' '] + name + seq![' ', 'i', 'n']
}

/// Message for a port that vanished.
pub open spec fn typec_out_msg(name: Seq<char>) -> Seq<char> {
    seq!['T', 'y', 'p', 'e', 'C', ' '] + name + seq![' ', 'o', 'u', 't']
}

/// Messages of one poll: new ports first, then vanished ones.
pub open spec fn typec_msgs(prev: Seq<Seq<char>>, cur: Seq<Seq<char>>) -> Seq<Seq<char>> {
    missing_from(cur, prev).map_values(|n: Seq<char>| typec_in_msg(n)) + missing_from(
        prev,
        cur,
    ).map_values(|n: Seq<char>| typec_out_msg(n))
}

/// The port entries among directory entries.
pub fn list_typec_ports(entries: &Vec<String>) -> (r: Vec<String>)
    ensures
        names_of(r@) == typec_ports(names_of(entries@)),
{
    let prefix = vec!['p', 'o', 'r', 't'];
    proof {
        assert(prefix@ =~= port_prefix());
    }
    let mut r: Vec<String> = Vec::new();
    let mut i: usize = 0;
    while i < entries.len()
        invariant
            i <= entries@.len(),
            prefix@ == port_prefix(),
            names_of(r@) == typec_ports(names_of(entries@).take(i as int)),
        decreases entries@.len() - i,
    {
        let ghost t = names_of(entries@).take(i + 1);
        let ghost before = names_of(r@);
        proof {
            assert(t.drop_last() =~= names_of(entries@).take(i as int));
            assert(t.last() == entries@[i as int]@);
        }
        let cs = str_chars(entries[i].as_str());
        if starts_with(&cs, &prefix) {
            r.push(entries[i].clone());
            proof {
                assert(names_of(r@) =~= before.push(entries@[i as int]@));
            }
        }
        i = i + 1;
    }
    proof {
        assert(names_of(entries@).take(entries@.len() as int) =~= names_of(entries@));
    }
    r
}

fn message(head: &str, name: &String, tail: &str) -> (r: String)
    ensures
        r@ == head@ + name@ + tail@,
{
    let mut s = String::from_str(head);
    s.append(name.as_str());
    s.append(tail);
    s
}

/// Type-C port watcher.
pub struct TypeCMonitor {
    prev_ports: Vec<String>,
}

impl View for TypeCMonitor {
    type V = Seq<Seq<char>>;

    closed spec fn view(&self) -> Seq<Seq<char>> {
        names_of(self.prev_ports@)
    }
}

impl TypeCMonitor {
    /// A watcher whose baseline is the ports among `entries` (none when the
    /// class directory could not be read).
    pub fn new(entries: Option<Vec<String>>) -> (r: Self)
        ensures
            r@ == match entries {
                Some(e) => typec_ports(names_of(e@)),
                None => Seq::<Seq<char>>::empty(),
            },
    {
        let prev_ports = match &entries {
            Some(e) => list_typec_ports(e),
            None => Vec::new(),
        };
        proof {
            if entries is None {
                assert(names_of(prev_ports@) =~= Seq::<Seq<char>>::empty());
            }
        }
        TypeCMonitor { prev_ports }
    }

    /// Reports ports that appeared (`"TypeC port1 in"`) and vanished
    /// (`"TypeC port1 out"`) since the last poll. When the class directory
    /// could not be read nothing happens.
    pub fn poll(&mut self, entries: Option<Vec<String>>, notifier: &mut Notifier, now: u64)
        ensures
            match entries {
                Some(e) => {
                    &&& final(self)@ == typec_ports(names_of(e@))
                    &&& final(notifier)@ == pushed_all(
                        old(notifier)@,
                        typec_msgs(old(self)@, typec_ports(names_of(e@))),
                        now,
                    )
                },
                None => final(self)@ == old(self)@ && final(notifier)@ == old(notifier)@,
            },
    {
        let e = match entries {
            Some(e) => e,
            None => return,
        };
        let current = list_typec_ports(&e);
        let ghost start = notifier@;
        let ghost cur = names_of(current@);
        let ghost prev = names_of(self.prev_ports@);
        let added = strings_missing_from(&current, &self.prev_ports);
        let removed = strings_missing_from(&self.prev_ports, &current);
        let ghost ins = missing_from(cur, prev).map_values(|n: Seq<char>| typec_in_msg(n));
        let ghost outs = missing_from(prev, cur).map_values(|n: Seq<char>| typec_out_msg(n));
        let mut i: usize = 0;
        while i < added.len()
            invariant
                i <= added@.len(),
                names_of(added@) == missing_from(cur, prev),
                ins == missing_from(cur, prev).map_values(|n: Seq<char>| typec_in_msg(n)),
                notifier@ == pushed_all(start, ins.take(i as int), now),
            decreases added@.len() - i,
        {
            let msg = message("TypeC ", &added[i], " in");
            proof {
                reveal_strlit("TypeC ");
                reveal_strlit(" in");
                assert(msg@ == ins[i as int]);
                assert(ins.take(i + 1).drop_last() =~= ins.take(i as int));
            }
            notifier.push(Notification::new(NotifyKind::TypeCInsert, msg), now);
            i = i + 1;
        }
        proof {
            assert(ins.take(ins.len() as int) =~= ins);
        }
        let mut j: usize = 0;
        while j < removed.len()
            invariant
                j <= removed@.len(),
                names_of(removed@) == missing_from(prev, cur),
                outs == missing_from(prev, cur).map_values(|n: Seq<char>| typec_out_msg(n)),
                notifier@ == pushed_all(start, ins + outs.take(j as int), now),
            decreases removed@.len() - j,
        {
            let msg = message("TypeC ", &removed[j], " out");
            proof {
                reveal_strlit("TypeC ");
                reveal_strlit(" out");
                assert(msg@ == outs[j as int]);
                assert((ins + outs.take(j + 1)).drop_last() =~= ins + outs.take(j as int));
            }
            notifier.push(Notification::new(NotifyKind::TypeCRemove, msg), now);
            j = j + 1;
        }
        proof {
            assert(outs.take(outs.len() as int) =~= outs);
            assert(ins + outs =~= typec_msgs(prev, cur));
        }
        self.prev_ports = current;
    }
}

impl EventSource for TypeCMonitor {
    type Input = Option<Vec<String>>;

    fn poll(&mut self, input: Option<Vec<String>>, notifier: &mut Notifier, now: u64)
        ensures
            match input {
                Some(e) => {
                    &&& final(self)@ == typec_ports(names_of(e@))
                    &&& final(notifier)@ == pushed_all(
                        old(notifier)@,
                        typec_msgs(old(self)@, typec_ports(names_of(e@))),
                        now,
                    )
                },
                None => final(self)@ == old(self)@ && final(notifier)@ == old(notifier)@,
            },
    {
        TypeCMonitor::poll(self, input, notifier, now);
    }
}

} // verus!
