//! IPv4 address events: the active address is announced when it changes,
//! and at once when a new interface appears.

use vstd::prelude::*;

use super::{elapsed_secs, missing_from, names_of, pushed, strings_missing_from, Notification, Notifier, NotifyKind};
use crate::utils::chars::str_chars;
use crate::utils::number::{dec, push_dec};

verus! {

/// One interface address as the system lists it.
pub struct IfAddr {
    /// Interface name.
    pub name: String,
    /// The IPv4 address, when the address is an IPv4 one.
    pub ipv4: Option<[u8; 4]>,
    /// Whether the interface is up.
    pub up: bool,
}

/// `"lo"`.
pub open spec fn loopback() -> Seq<char> {
    seq!['l', 'o']
}

/// Text of an active address: `"eth0 192.168.1.100"`.
pub open spec fn ipv4_text(name: Seq<char>, o: Seq<u8>) -> Seq<char> {
    name + seq![' '] + dec(o[0] as nat) + seq!['.'] + dec(o[1] as nat) + seq!['.'] + dec(
        o[2] as nat,
    ) + seq!['.'] + dec(o[3] as nat)
}

/// An address that is announced: IPv4, not loopback, interface up, and
/// not link-local (169.254.x.x).
pub open spec fn announced(a: IfAddr) -> bool {
    &&& a.name@ != loopback()
    &&& a.ipv4 is Some
    &&& a.up
    &&& !(a.ipv4->0@[0] == 169 && a.ipv4->0@[1] == 254)
}

/// Index of the first announced address.
pub open spec fn first_announced(addrs: Seq<IfAddr>) -> Option<int>
    decreases addrs.len(),
{
    if addrs.len() == 0 {
        None
    } else {
        match first_announced(addrs.drop_last()) {
            Some(i) => Some(i),
            None => if announced(addrs.last()) {
                Some(addrs.len() - 1)
            } else {
                None
            },
        }
    }
}

/// The active IPv4 address text, if any address is announced.
pub open spec fn active_ipv4(addrs: Seq<IfAddr>) -> Option<Seq<char>> {
    match first_announced(addrs) {
        Some(i) => Some(ipv4_text(addrs[i].name@, addrs[i].ipv4->0@)),
        None => None,
    }
}

proof fn lemma_first_announced(addrs: Seq<IfAddr>, k: int)
    requires
        0 <= k <= addrs.len(),
        forall|t: int| 0 <= t < k ==> !announced(#[trigger] addrs[t]),
    ensures
        first_announced(addrs.take(k)) is None,
    decreases k,
{
    if k > 0 {
        assert(addrs.take(k).drop_last() =~= addrs.take(k - 1));
        lemma_first_announced(addrs, k - 1);
    }
}

proof fn lemma_first_announced_at(addrs: Seq<IfAddr>, k: int, n: int)
    requires
        0 <= k < n <= addrs.len(),
        forall|t: int| 0 <= t < k ==> !announced(#[trigger] addrs[t]),
        announced(addrs[k]),
    ensures
        first_announced(addrs.take(n)) == Some(k),
    decreases n,
{
    if n == k + 1 {
        lemma_first_announced(addrs, k);
        assert(addrs.take(n).drop_last() =~= addrs.take(k));
    } else {
        lemma_first_announced_at(addrs, k, n - 1);
        assert(addrs.take(n).drop_last() =~= addrs.take(n - 1));
    }
}

/// The first announced address as `"<name> a.b.c.d"`.
pub fn first_active_ipv4(addrs: &Vec<IfAddr>) -> (r: Option<String>)
    ensures
        match r {
            Some(s) => active_ipv4(addrs@) == Some(s@),
            None => active_ipv4(addrs@) is None,
        },
{
    let lo = str_chars("lo");
    proof {
        reveal_strlit("lo");
        assert(lo@ =~= loopback());
    }
    let mut i: usize = 0;
    while i < addrs.len()
        invariant
            i <= addrs@.len(),
            lo@ == loopback(),
            forall|t: int| 0 <= t < i ==> !announced(#[trigger] addrs@[t]),
        decreases addrs@.len() - i,
    {
        let a = &addrs[i];
        let name = str_chars(a.name.as_str());
        let is_lo = crate::utils::chars::chars_eq(&name, &lo);
        if !is_lo && a.up {
            if let Some(o) = a.ipv4 {
                if !(o[0] == 169 && o[1] == 254) {
                    let mut v: Vec<char> = Vec::new();
                    crate::utils::number::push_all(&mut v, &name);
                    v.push(' ');
                    push_dec(&mut v, o[0] as u64);
                    v.push('.');
                    push_dec(&mut v, o[1] as u64);
                    v.push('.');
                    push_dec(&mut v, o[2] as u64);
                    v.push('.');
                    push_dec(&mut v, o[3] as u64);
                    proof {
                        lemma_first_announced_at(addrs@, i as int, addrs@.len() as int);
                        assert(addrs@.take(addrs@.len() as int) =~= addrs@);
                        assert(v@ =~= ipv4_text(a.name@, o@));
                    }
                    return Some(crate::utils::chars::string_from_chars(&v));
                }
            }
        }
        i = i + 1;
    }
    proof {
        lemma_first_announced(addrs@, addrs@.len() as int);
        assert(addrs@.take(addrs@.len() as int) =~= addrs@);
    }
    None
}

/// Interface names other than the loopback interface, in order.
pub open spec fn non_loopback(names: Seq<Seq<char>>) -> Seq<Seq<char>>
    decreases names.len(),
{
    if names.len() == 0 {
        seq![]
    } else if names.last() == loopback() {
        non_loopback(names.drop_last())
    } else {
        non_loopback(names.drop_last()).push(names.last())
    }
}

/// The entries of the network class directory other than `"lo"`.
pub fn list_iface_names(entries: &Vec<String>) -> (r: Vec<String>)
    ensures
        names_of(r@) == non_loopback(names_of(entries@)),
{
    let lo = str_chars("lo");
    proof {
        reveal_strlit("lo");
        assert(lo@ =~= loopback());
    }
    let mut r: Vec<String> = Vec::new();
    let mut i: usize = 0;
    while i < entries.len()
        invariant
            i <= entries@.len(),
            lo@ == loopback(),
            names_of(r@) == non_loopback(names_of(entries@).take(i as int)),
        decreases entries@.len() - i,
    {
        let ghost t = names_of(entries@).take(i + 1);
        proof {
            assert(t.drop_last() =~= names_of(entries@).take(i as int));
            assert(t.last() == entries@[i as int]@);
        }
        let name = str_chars(entries[i].as_str());
        if !crate::utils::chars::chars_eq(&name, &lo) {
            let ghost before = names_of(r@);
            r.push(entries[i].clone());
            proof {
                assert(names_of(r@) =~= before.push(entries@[i as int]@));
            }
        }
        i = i + 1;
    }
    proof {
        assert(names_of(entries@).take(entries@.len() as int) =~= names_of(entries@));
    }
    r
}

/// Abstract state of the address watcher.
pub struct IpState {
    pub last_poll: Option<u64>,
    pub last_ip: Option<Seq<char>>,
    pub known_ifaces: Seq<Seq<char>>,
    pub poll_secs: u64,
}

/// IPv4 address watcher.
pub struct IpMonitor {
    last_poll: Option<u64>,
    last_ip: Option<String>,
    known_ifaces: Vec<String>,
    poll_secs: u64,
}

impl View for IpMonitor {
    type V = IpState;

    closed spec fn view(&self) -> IpState {
        IpState {
            last_poll: self.last_poll,
            last_ip: match self.last_ip {
                Some(s) => Some(s@),
                None => None,
            },
            known_ifaces: names_of(self.known_ifaces@),
            poll_secs: self.poll_secs,
        }
    }
}

impl IpMonitor {
    /// A watcher that looks up the address at most every `poll_secs`
    /// seconds; `ifaces` are the interfaces present now.
    pub fn new(poll_secs: u64, ifaces: Vec<String>) -> (r: Self)
        ensures
            r@ == (IpState {
                last_poll: None,
                last_ip: None,
                known_ifaces: names_of(ifaces@),
                poll_secs,
            }),
    {
        IpMonitor { last_poll: None, last_ip: None, known_ifaces: ifaces, poll_secs }
    }

    /// First half of a poll with the interfaces present now. Returns
    /// `Some(new_iface)` when the address is to be looked up (a new
    /// interface appeared, or `poll_secs` have passed since the last
    /// lookup), recording the lookup time; `None` otherwise.
    pub fn begin_poll(&mut self, current: Vec<String>, now: u64) -> (r: Option<bool>)
        ensures
            ({
                let new_iface = missing_from(names_of(current@), old(self)@.known_ifaces).len() > 0;
                let skip = !new_iface && (old(self)@.last_poll matches Some(l) && elapsed_secs(
                    l,
                    now,
                ) < old(self)@.poll_secs);
                &&& skip ==> r is None && final(self)@ == (IpState {
                    known_ifaces: names_of(current@),
                    ..old(self)@
                })
                &&& !skip ==> r == Some(new_iface) && final(self)@ == (IpState {
                    known_ifaces: names_of(current@),
                    last_poll: Some(now),
                    ..old(self)@
                })
            }),
    {
        let fresh = strings_missing_from(&current, &self.known_ifaces);
        let new_iface = fresh.len() > 0;
        self.known_ifaces = current;
        if !new_iface {
            if let Some(last) = self.last_poll {
                let elapsed = if now >= last {
                    (now - last) / 1_000_000_000
                } else {
                    0
                };
                if elapsed < self.poll_secs {
                    return None;
                }
            }
        }
        self.last_poll = Some(now);
        Some(new_iface)
    }

    /// Second half of a poll: `entry` is the active address found (see
    /// [`first_active_ipv4`]). It is announced unless it is the address
    /// announced last and no new interface appeared.
    pub fn finish_poll(
        &mut self,
        entry: Option<String>,
        new_iface: bool,
        notifier: &mut Notifier,
        now: u64,
    )
        ensures
            match entry {
                None => final(self)@ == old(self)@ && final(notifier)@ == old(notifier)@,
                Some(e) => if !new_iface && old(self)@.last_ip == Some(e@) {
                    final(self)@ == old(self)@ && final(notifier)@ == old(notifier)@
                } else {
                    &&& final(self)@ == (IpState { last_ip: Some(e@), ..old(self)@ })
                    &&& final(notifier)@ == pushed(old(notifier)@, e@, now)
                },
            },
    {
        let e = match entry {
            Some(e) => e,
            None => return,
        };
        if !new_iface {
            if let Some(last) = &self.last_ip {
                if *last == e {
                    return;
                }
            }
        }
        self.last_ip = Some(e.clone());
        notifier.push(Notification::new(NotifyKind::Custom, e), now);
    }
}

} // verus!
