//! USB device events: devices appearing in or vanishing from the device
//! list, named by their product string when it can be read.

use vstd::prelude::*;

use super::{
    contains_string, missing_from, EventSource, names_of, pushed_all, strings_missing_from, Notification,
    Notifier, NotifierState, NotifyKind,
};
use crate::utils::chars::{has_prefix, str_chars};
use crate::utils::is_ascii_digit;

verus! {

/// Abstract view of a list of name pairs.
pub open spec fn pairs_of(v: Seq<(String, String)>) -> Seq<(Seq<char>, Seq<char>)> {
    v.map_values(|p: (String, String)| (p.0@, p.1@))
}

/// Index of the first pair whose name is `k`.
pub open spec fn key_index(c: Seq<(Seq<char>, Seq<char>)>, k: Seq<char>) -> Option<int>
    decreases c.len(),
{
    if c.len() == 0 {
        None
    } else if c.last().0 == k && key_index(c.drop_last(), k) is None {
        Some(c.len() - 1)
    } else {
        key_index(c.drop_last(), k)
    }
}

/// Value paired with `k`, if any.
pub open spec fn value_of(c: Seq<(Seq<char>, Seq<char>)>, k: Seq<char>) -> Option<Seq<char>> {
    match key_index(c, k) {
        Some(i) => Some(c[i].1),
        None => None,
    }
}

/// Pairs with `k` paired with `v` (replacing the first pair named `k`, or
/// appended).
pub open spec fn put(c: Seq<(Seq<char>, Seq<char>)>, k: Seq<char>, v: Seq<char>) -> Seq<(Seq<char>, Seq<char>)> {
    match key_index(c, k) {
        Some(i) => c.update(i, (k, v)),
        None => c.push((k, v)),
    }
}

/// Pairs without any pair named `k`.
pub open spec fn drop_key(c: Seq<(Seq<char>, Seq<char>)>, k: Seq<char>) -> Seq<(Seq<char>, Seq<char>)>
    decreases c.len(),
{
    if c.len() == 0 {
        seq![]
    } else if c.last().0 == k {
        drop_key(c.drop_last(), k)
    } else {
        drop_key(c.drop_last(), k).push(c.last())
    }
}

/// Names without `k`.
pub open spec fn drop_name(p: Seq<Seq<char>>, k: Seq<char>) -> Seq<Seq<char>>
    decreases p.len(),
{
    if p.len() == 0 {
        seq![]
    } else if p.last() == k {
        drop_name(p.drop_last(), k)
    } else {
        drop_name(p.drop_last(), k).push(p.last())
    }
}

/// `"USB "`.
pub open spec fn usb_head() -> Seq<char> {
    seq!['U', 'S', 'B', ' ']
}

/// Message for a device that appeared.
pub open spec fn usb_in_msg(desc: Seq<char>) -> Seq<char> {
    usb_head() + desc
}

/// Message for a device that vanished.
pub open spec fn usb_out_msg(desc: Seq<char>) -> Seq<char> {
    usb_head() + desc + seq![' ', 'o', 'u', 't']
}

/// Whether a device-directory entry names a root hub (`"usb"` followed by
/// digits only), which is not reported.
pub open spec fn is_root_hub(name: Seq<char>) -> bool {
    &&& has_prefix(name, seq!['u', 's', 'b'])
    &&& forall|i: int| 3 <= i < name.len() ==> is_ascii_digit(#[trigger] name[i])
}

/// Device entries among directory entries, in order.
pub open spec fn usb_devices(entries: Seq<Seq<char>>) -> Seq<Seq<char>>
    decreases entries.len(),
{
    if entries.len() == 0 {
        seq![]
    } else if is_root_hub(entries.last()) {
        usb_devices(entries.drop_last())
    } else {
        usb_devices(entries.drop_last()).push(entries.last())
    }
}

/// Abstract state of the USB watcher.
pub struct UsbState {
    pub devices: Seq<Seq<char>>,
    pub products: Seq<(Seq<char>, Seq<char>)>,
    pub pending: Seq<Seq<char>>,
}

/// Retrying the devices whose product string was not readable yet: each
/// one that has a product now is named and reported; the others stay.
/// Returns the product list, the devices still waiting, and the messages.
pub open spec fn retry(
    pending: Seq<Seq<char>>,
    known: Seq<(Seq<char>, Seq<char>)>,
    names: Seq<(Seq<char>, Seq<char>)>,
) -> (Seq<(Seq<char>, Seq<char>)>, Seq<Seq<char>>, Seq<Seq<char>>)
    decreases pending.len(),
{
    if pending.len() == 0 {
        (names, seq![], seq![])
    } else {
        let (n, kept, msgs) = retry(pending.drop_last(), known, names);
        let d = pending.last();
        match value_of(known, d) {
            Some(p) => (put(n, d, p), kept, msgs.push(usb_in_msg(p))),
            None => (n, kept.push(d), msgs),
        }
    }
}

/// Handling devices that appeared: named ones are reported at once, the
/// others wait for their product string.
pub open spec fn arrive(
    added: Seq<Seq<char>>,
    known: Seq<(Seq<char>, Seq<char>)>,
    names: Seq<(Seq<char>, Seq<char>)>,
    pending: Seq<Seq<char>>,
) -> (Seq<(Seq<char>, Seq<char>)>, Seq<Seq<char>>, Seq<Seq<char>>)
    decreases added.len(),
{
    if added.len() == 0 {
        (names, pending, seq![])
    } else {
        let (n, p, msgs) = arrive(added.drop_last(), known, names, pending);
        let d = added.last();
        match value_of(known, d) {
            Some(q) => (put(n, d, q), p, msgs.push(usb_in_msg(q))),
            None => (n, if p.contains(d) {
                p
            } else {
                p.push(d)
            }, msgs),
        }
    }
}

/// Handling devices that vanished: each is reported by its remembered
/// product name (or "device") and forgotten.
pub open spec fn depart(
    gone: Seq<Seq<char>>,
    names: Seq<(Seq<char>, Seq<char>)>,
    pending: Seq<Seq<char>>,
) -> (Seq<(Seq<char>, Seq<char>)>, Seq<Seq<char>>, Seq<Seq<char>>)
    decreases gone.len(),
{
    if gone.len() == 0 {
        (names, pending, seq![])
    } else {
        let (n, p, msgs) = depart(gone.drop_last(), names, pending);
        let d = gone.last();
        let desc = match value_of(n, d) {
            Some(q) => q,
            None => seq!['d', 'e', 'v', 'i', 'c', 'e'],
        };
        (drop_key(n, d), drop_name(p, d), msgs.push(usb_out_msg(desc)))
    }
}

/// State and messages after one poll that found the device list `cur`,
/// with `known` the readable product strings.
pub open spec fn usb_step(s: UsbState, cur: Seq<Seq<char>>, known: Seq<(Seq<char>, Seq<char>)>) -> (UsbState, Seq<Seq<char>>) {
    let (n1, kept, m1) = retry(s.pending, known, s.products);
    let (n2, p2, m2) = arrive(missing_from(cur, s.devices), known, n1, kept);
    let (n3, p3, m3) = depart(missing_from(s.devices, cur), n2, p2);
    (UsbState { devices: cur, products: n3, pending: p3 }, m1 + m2 + m3)
}

fn find_key(c: &Vec<(String, String)>, k: &String) -> (r: Option<usize>)
    ensures
        match r {
            Some(i) => key_index(pairs_of(c@), k@) == Some(i as int),
            None => key_index(pairs_of(c@), k@) is None,
        },
{
    let mut j: usize = 0;
    while j < c.len()
        invariant
            j <= c@.len(),
            forall|t: int| 0 <= t < j ==> pairs_of(c@)[t].0 != k@,
        decreases c@.len() - j,
    {
        if c[j].0 == *k {
            proof {
                lemma_key_index_prefix(pairs_of(c@), k@, j as int);
            }
            return Some(j);
        }
        j = j + 1;
    }
    proof {
        lemma_key_index_none(pairs_of(c@), k@);
    }
    None
}

proof fn lemma_key_index_prefix(c: Seq<(Seq<char>, Seq<char>)>, k: Seq<char>, j: int)
    requires
        0 <= j < c.len(),
        c[j].0 == k,
        forall|t: int| 0 <= t < j ==> c[t].0 != k,
    ensures
        key_index(c, k) == Some(j),
    decreases c.len(),
{
    if c.len() - 1 > j {
        lemma_key_index_prefix(c.drop_last(), k, j);
    } else {
        lemma_key_index_none(c.drop_last(), k);
    }
}

proof fn lemma_key_index_none(c: Seq<(Seq<char>, Seq<char>)>, k: Seq<char>)
    requires
        forall|t: int| 0 <= t < c.len() ==> c[t].0 != k,
    ensures
        key_index(c, k) is None,
    decreases c.len(),
{
    if c.len() > 0 {
        lemma_key_index_none(c.drop_last(), k);
    }
}

proof fn lemma_key_index_bound(c: Seq<(Seq<char>, Seq<char>)>, k: Seq<char>)
    ensures
        key_index(c, k) matches Some(i) ==> 0 <= i < c.len() && c[i].0 == k,
    decreases c.len(),
{
    if c.len() > 0 {
        lemma_key_index_bound(c.drop_last(), k);
    }
}

fn get_value(c: &Vec<(String, String)>, k: &String) -> (r: Option<String>)
    ensures
        match r {
            Some(v) => value_of(pairs_of(c@), k@) == Some(v@),
            None => value_of(pairs_of(c@), k@) is None,
        },
{
    proof {
        lemma_key_index_bound(pairs_of(c@), k@);
    }
    match find_key(c, k) {
        Some(i) => Some(c[i].1.clone()),
        None => None,
    }
}

fn put_value(c: &mut Vec<(String, String)>, k: String, v: String)
    ensures
        pairs_of(final(c)@) == put(pairs_of(old(c)@), k@, v@),
{
    proof {
        lemma_key_index_bound(pairs_of(c@), k@);
    }
    let ghost (kv, vv) = (k@, v@);
    match find_key(c, &k) {
        Some(i) => {
            c.set(i, (k, v));
            proof {
                assert(pairs_of(c@) =~= pairs_of(old(c)@).update(i as int, (kv, vv)));
            }
        },
        None => {
            c.push((k, v));
            proof {
                assert(pairs_of(c@) =~= pairs_of(old(c)@).push((kv, vv)));
            }
        },
    }
}

fn remove_key(c: &mut Vec<(String, String)>, k: &String)
    ensures
        pairs_of(final(c)@) == drop_key(pairs_of(old(c)@), k@),
{
    let mut r: Vec<(String, String)> = Vec::new();
    let mut i: usize = 0;
    while i < c.len()
        invariant
            i <= c@.len(),
            c@ == old(c)@,
            pairs_of(r@) == drop_key(pairs_of(c@).take(i as int), k@),
        decreases c@.len() - i,
    {
        let ghost t = pairs_of(c@).take(i + 1);
        proof {
            assert(t.drop_last() =~= pairs_of(c@).take(i as int));
        }
        if c[i].0 != *k {
            let ghost before = pairs_of(r@);
            r.push((c[i].0.clone(), c[i].1.clone()));
            proof {
                assert(pairs_of(r@) =~= before.push(pairs_of(c@)[i as int]));
            }
        }
        i = i + 1;
    }
    proof {
        assert(pairs_of(c@).take(c@.len() as int) =~= pairs_of(c@));
    }
    *c = r;
}

fn remove_name(p: &mut Vec<String>, k: &String)
    ensures
        names_of(final(p)@) == drop_name(names_of(old(p)@), k@),
{
    let mut r: Vec<String> = Vec::new();
    let mut i: usize = 0;
    while i < p.len()
        invariant
            i <= p@.len(),
            p@ == old(p)@,
            names_of(r@) == drop_name(names_of(p@).take(i as int), k@),
        decreases p@.len() - i,
    {
        let ghost t = names_of(p@).take(i + 1);
        proof {
            assert(t.drop_last() =~= names_of(p@).take(i as int));
        }
        if p[i] != *k {
            let ghost before = names_of(r@);
            r.push(p[i].clone());
            proof {
                assert(names_of(r@) =~= before.push(names_of(p@)[i as int]));
            }
        }
        i = i + 1;
    }
    proof {
        assert(names_of(p@).take(p@.len() as int) =~= names_of(p@));
    }
    *p = r;
}

fn in_message(desc: &String) -> (r: String)
    ensures
        r@ == usb_in_msg(desc@),
{
    let mut s = String::from_str("USB ");
    s.append(desc.as_str());
    proof {
        reveal_strlit("USB ");
        assert(s@ =~= usb_in_msg(desc@));
    }
    s
}

fn out_message(desc: &String) -> (r: String)
    ensures
        r@ == usb_out_msg(desc@),
{
    let mut s = String::from_str("USB ");
    s.append(desc.as_str());
    s.append(" out");
    proof {
        reveal_strlit("USB ");
        reveal_strlit(" out");
        assert(s@ =~= usb_out_msg(desc@));
    }
    s
}

/// Device entries among the entries of the USB device directory: root
/// hubs (`"usb"` followed by digits) are left out.
pub fn list_usb_devices(entries: &Vec<String>) -> (r: Vec<String>)
    ensures
        names_of(r@) == usb_devices(names_of(entries@)),
{
    let mut r: Vec<String> = Vec::new();
    let mut i: usize = 0;
    while i < entries.len()
        invariant
            i <= entries@.len(),
            names_of(r@) == usb_devices(names_of(entries@).take(i as int)),
        decreases entries@.len() - i,
    {
        let ghost t = names_of(entries@).take(i + 1);
        proof {
            assert(t.drop_last() =~= names_of(entries@).take(i as int));
            assert(t.last() == entries@[i as int]@);
        }
        let cs = str_chars(entries[i].as_str());
        let mut hub = cs.len() >= 3 && cs[0] == 'u' && cs[1] == 's' && cs[2] == 'b';
        if hub {
            let mut k: usize = 3;
            while k < cs.len()
                invariant
                    3 <= k <= cs@.len(),
                    hub == (forall|j: int| 3 <= j < k ==> is_ascii_digit(#[trigger] cs@[j])),
                decreases cs@.len() - k,
            {
                if !('0' <= cs[k] && cs[k] <= '9') {
                    hub = false;
                }
                k = k + 1;
            }
            proof {
                assert(cs@.take(3) =~= seq!['u', 's', 'b']);
            }
        } else {
            proof {
                if cs@.len() >= 3 {
                    assert(cs@.take(3)[0] == cs@[0] && cs@.take(3)[1] == cs@[1] && cs@.take(3)[2]
                        == cs@[2]);
                }
            }
        }
        let ghost before = names_of(r@);
        if !hub {
            r.push(entries[i].clone());
            proof {
                assert(names_of(r@) =~= before.push(entries@[i as int]@));
            }
        }
        i = i + 1;
    }
    proof {
        assert(names_of(entries@).take(entries@.len() as int) =~= names_of(entries@));
    }
    r
}

/// USB device watcher.
pub struct UsbMonitor {
    prev_devices: Vec<String>,
    product_cache: Vec<(String, String)>,
    pending_names: Vec<String>,
}

impl View for UsbMonitor {
    type V = UsbState;

    closed spec fn view(&self) -> UsbState {
        UsbState {
            devices: names_of(self.prev_devices@),
            products: pairs_of(self.product_cache@),
            pending: names_of(self.pending_names@),
        }
    }
}

/// Initial product list: the devices that have a readable product string,
/// in device order.
pub open spec fn initial_products(
    devices: Seq<Seq<char>>,
    known: Seq<(Seq<char>, Seq<char>)>,
) -> Seq<(Seq<char>, Seq<char>)>
    decreases devices.len(),
{
    if devices.len() == 0 {
        seq![]
    } else {
        match value_of(known, devices.last()) {
            Some(p) => put(initial_products(devices.drop_last(), known), devices.last(), p),
            None => initial_products(devices.drop_last(), known),
        }
    }
}

proof fn lemma_key_index_spec(c: Seq<(Seq<char>, Seq<char>)>, k: Seq<char>)
    ensures
        match key_index(c, k) {
            Some(i) => 0 <= i < c.len() && c[i].0 == k && forall|t: int| 0 <= t < i ==> c[t].0 != k,
            None => forall|t: int| 0 <= t < c.len() ==> c[t].0 != k,
        },
    decreases c.len(),
{
    if c.len() > 0 {
        lemma_key_index_spec(c.drop_last(), k);
        assert forall|t: int| 0 <= t < c.len() - 1 implies #[trigger] c[t] == c.drop_last()[t] by {}
    }
}

proof fn lemma_put_value(c: Seq<(Seq<char>, Seq<char>)>, k: Seq<char>, v: Seq<char>, k2: Seq<char>)
    ensures
        value_of(put(c, k, v), k2) == if k2 == k {
            Some(v)
        } else {
            value_of(c, k2)
        },
{
    let c2 = put(c, k, v);
    lemma_key_index_spec(c, k);
    lemma_key_index_spec(c, k2);
    match key_index(c, k) {
        Some(i) => {
            assert forall|t: int| 0 <= t < c.len() implies #[trigger] c2[t].0 == c[t].0 by {}
            if k2 == k {
                lemma_key_index_prefix(c2, k, i);
            } else {
                match key_index(c, k2) {
                    Some(j) => {
                        lemma_key_index_prefix(c2, k2, j);
                    },
                    None => {
                        lemma_key_index_none(c2, k2);
                    },
                }
            }
        },
        None => {
            assert forall|t: int| 0 <= t < c.len() implies #[trigger] c2[t] == c[t] by {}
            if k2 == k {
                lemma_key_index_prefix(c2, k, c.len() as int);
            } else {
                match key_index(c, k2) {
                    Some(j) => {
                        lemma_key_index_prefix(c2, k2, j);
                    },
                    None => {
                        lemma_key_index_none(c2, k2);
                    },
                }
            }
        },
    }
}

/// A watcher remembers, for every device present when it is made, the
/// product string that could be read for it then, and nothing for any other
/// name: so a device present at start that vanishes later is reported by
/// that product name.
pub proof fn law_usb_new_remembers_products(
    devices: Seq<Seq<char>>,
    known: Seq<(Seq<char>, Seq<char>)>,
    d: Seq<char>,
)
    ensures
        value_of(initial_products(devices, known), d) == if devices.contains(d) {
            value_of(known, d)
        } else {
            None
        },
    decreases devices.len(),
{
    if devices.len() == 0 {
        lemma_key_index_none(Seq::<(Seq<char>, Seq<char>)>::empty(), d);
    } else {
        let rest = devices.drop_last();
        law_usb_new_remembers_products(rest, known, d);
        assert(devices.contains(d) == (rest.contains(d) || devices.last() == d)) by {
            if devices.contains(d) && devices.last() != d {
                let i = choose|i: int| 0 <= i < devices.len() && devices[i] == d;
                assert(rest[i] == d);
            }
            if rest.contains(d) {
                let i = choose|i: int| 0 <= i < rest.len() && rest[i] == d;
                assert(devices[i] == d);
            }
            if devices.last() == d {
                assert(devices[devices.len() - 1] == d);
            }
        }
        match value_of(known, devices.last()) {
            Some(p) => {
                lemma_put_value(initial_products(rest, known), devices.last(), p, d);
            },
            None => {},
        }
    }
}

impl UsbMonitor {
    /// A watcher whose baseline is the devices among `entries` (none when
    /// the directory could not be read); `products` pairs device names with
    /// their trimmed, non-empty product strings.
    pub fn new(entries: Option<Vec<String>>, products: &Vec<(String, String)>) -> (r: Self)
        ensures
            ({
                let devs = match entries {
                    Some(e) => usb_devices(names_of(e@)),
                    None => Seq::<Seq<char>>::empty(),
                };
                r@ == (UsbState {
                    devices: devs,
                    products: initial_products(devs, pairs_of(products@)),
                    pending: Seq::<Seq<char>>::empty(),
                })
            }),
    {
        let devices = match &entries {
            Some(e) => list_usb_devices(e),
            None => Vec::new(),
        };
        let ghost devs = names_of(devices@);
        proof {
            if entries is None {
                assert(devs =~= Seq::<Seq<char>>::empty());
            }
        }
        let mut cache: Vec<(String, String)> = Vec::new();
        let mut i: usize = 0;
        while i < devices.len()
            invariant
                i <= devices@.len(),
                devs == names_of(devices@),
                pairs_of(cache@) == initial_products(devs.take(i as int), pairs_of(products@)),
            decreases devices@.len() - i,
        {
            let ghost t = devs.take(i + 1);
            proof {
                assert(t.drop_last() =~= devs.take(i as int));
                assert(t.last() == devices@[i as int]@);
            }
            match get_value(products, &devices[i]) {
                Some(p) => put_value(&mut cache, devices[i].clone(), p),
                None => {},
            }
            i = i + 1;
        }
        proof {
            assert(devs.take(devices@.len() as int) =~= devs);
        }
        let pending_names: Vec<String> = Vec::new();
        proof {
            assert(names_of(pending_names@) =~= Seq::<Seq<char>>::empty());
        }
        let r = UsbMonitor { prev_devices: devices, product_cache: cache, pending_names };
        proof {
            assert(r@.pending =~= Seq::<Seq<char>>::empty());
        }
        r
    }

    /// Compares the device list with the previous one. Devices still
    /// waiting for a product string are retried first; new devices are
    /// reported as `"USB <product>"` (or wait when the product string is
    /// not readable yet); vanished devices are reported as
    /// `"USB <product> out"` (`"USB device out"` when it was never named).
    /// When the directory could not be read nothing happens.
    pub fn poll(
        &mut self,
        entries: Option<Vec<String>>,
        products: &Vec<(String, String)>,
        notifier: &mut Notifier,
        now: u64,
    )
        ensures
            match entries {
                Some(e) => {
                    let (s, msgs) = usb_step(
                        old(self)@,
                        usb_devices(names_of(e@)),
                        pairs_of(products@),
                    );
                    &&& final(self)@ == s
                    &&& final(notifier)@ == pushed_all(old(notifier)@, msgs, now)
                },
                None => final(self)@ == old(self)@ && final(notifier)@ == old(notifier)@,
            },
    {
        let e = match entries {
            Some(e) => e,
            None => return,
        };
        let current = list_usb_devices(&e);
        let ghost known = pairs_of(products@);
        let ghost cur = names_of(current@);
        let ghost s0 = self@;
        let added = strings_missing_from(&current, &self.prev_devices);
        let gone = strings_missing_from(&self.prev_devices, &current);
        let (kept, m1) = retry_pending(&mut self.product_cache, &self.pending_names, products);
        self.pending_names = kept;
        let mut m2: Vec<String> = Vec::new();
        arrive_devices(&mut self.product_cache, &mut self.pending_names, &added, products, &mut m2);
        let mut m3: Vec<String> = Vec::new();
        depart_devices(&mut self.product_cache, &mut self.pending_names, &gone, &mut m3);
        let ghost start = notifier@;
        push_messages(notifier, &m1, NotifyKind::UsbInsert, now);
        push_messages(notifier, &m2, NotifyKind::UsbInsert, now);
        push_messages(notifier, &m3, NotifyKind::UsbRemove, now);
        proof {
            lemma_pushed_all_concat(start, names_of(m1@), names_of(m2@), now);
            lemma_pushed_all_concat(start, names_of(m1@) + names_of(m2@), names_of(m3@), now);
        }
        self.prev_devices = current;
    }
}

/// Pushing two lists one after the other is pushing their concatenation.
pub proof fn lemma_pushed_all_concat(n: NotifierState, a: Seq<Seq<char>>, b: Seq<Seq<char>>, now: u64)
    ensures
        pushed_all(pushed_all(n, a, now), b, now) == pushed_all(n, a + b, now),
    decreases b.len(),
{
    if b.len() == 0 {
        assert(a + b =~= a);
    } else {
        lemma_pushed_all_concat(n, a, b.drop_last(), now);
        assert((a + b).drop_last() =~= a + b.drop_last());
    }
}

fn push_messages(notifier: &mut Notifier, msgs: &Vec<String>, kind: NotifyKind, now: u64)
    ensures
        final(notifier)@ == pushed_all(old(notifier)@, names_of(msgs@), now),
{
    let ghost start = notifier@;
    let mut i: usize = 0;
    while i < msgs.len()
        invariant
            i <= msgs@.len(),
            notifier@ == pushed_all(start, names_of(msgs@).take(i as int), now),
        decreases msgs@.len() - i,
    {
        proof {
            assert(names_of(msgs@).take(i + 1).drop_last() =~= names_of(msgs@).take(i as int));
        }
        notifier.push(Notification::new(kind, msgs[i].clone()), now);
        i = i + 1;
    }
    proof {
        assert(names_of(msgs@).take(msgs@.len() as int) =~= names_of(msgs@));
    }
}

fn retry_pending(
    cache: &mut Vec<(String, String)>,
    pending: &Vec<String>,
    products: &Vec<(String, String)>,
) -> (r: (Vec<String>, Vec<String>))
    ensures
        (pairs_of(final(cache)@), names_of(r.0@), names_of(r.1@)) == retry(
            names_of(pending@),
            pairs_of(products@),
            pairs_of(old(cache)@),
        ),
{
    let ghost c0 = pairs_of(cache@);
    let ghost known = pairs_of(products@);
    let mut kept: Vec<String> = Vec::new();
    let mut msgs: Vec<String> = Vec::new();
    let mut i: usize = 0;
    while i < pending.len()
        invariant
            i <= pending@.len(),
            known == pairs_of(products@),
            (pairs_of(cache@), names_of(kept@), names_of(msgs@)) == retry(
                names_of(pending@).take(i as int),
                known,
                c0,
            ),
        decreases pending@.len() - i,
    {
        let ghost t = names_of(pending@).take(i + 1);
        proof {
            assert(t.drop_last() =~= names_of(pending@).take(i as int));
            assert(t.last() == pending@[i as int]@);
        }
        let ghost k0 = names_of(kept@);
        let ghost m0 = names_of(msgs@);
        match get_value(products, &pending[i]) {
            Some(p) => {
                let msg = in_message(&p);
                put_value(cache, pending[i].clone(), p);
                msgs.push(msg);
                proof {
                    assert(names_of(msgs@) =~= m0.push(msg@));
                }
            },
            None => {
                kept.push(pending[i].clone());
                proof {
                    assert(names_of(kept@) =~= k0.push(pending@[i as int]@));
                }
            },
        }
        i = i + 1;
    }
    proof {
        assert(names_of(pending@).take(pending@.len() as int) =~= names_of(pending@));
    }
    (kept, msgs)
}

fn arrive_devices(
    cache: &mut Vec<(String, String)>,
    pending: &mut Vec<String>,
    added: &Vec<String>,
    products: &Vec<(String, String)>,
    msgs: &mut Vec<String>,
)
    requires
        old(msgs)@.len() == 0,
    ensures
        (pairs_of(final(cache)@), names_of(final(pending)@), names_of(final(msgs)@)) == arrive(
            names_of(added@),
            pairs_of(products@),
            pairs_of(old(cache)@),
            names_of(old(pending)@),
        ),
{
    let ghost c0 = pairs_of(cache@);
    let ghost p0 = names_of(pending@);
    let ghost known = pairs_of(products@);
    let mut i: usize = 0;
    proof {
        assert(names_of(msgs@) =~= Seq::<Seq<char>>::empty());
    }
    while i < added.len()
        invariant
            i <= added@.len(),
            known == pairs_of(products@),
            (pairs_of(cache@), names_of(pending@), names_of(msgs@)) == arrive(
                names_of(added@).take(i as int),
                known,
                c0,
                p0,
            ),
        decreases added@.len() - i,
    {
        let ghost t = names_of(added@).take(i + 1);
        proof {
            assert(t.drop_last() =~= names_of(added@).take(i as int));
            assert(t.last() == added@[i as int]@);
        }
        let ghost q0 = names_of(pending@);
        let ghost m0 = names_of(msgs@);
        match get_value(products, &added[i]) {
            Some(p) => {
                let msg = in_message(&p);
                put_value(cache, added[i].clone(), p);
                msgs.push(msg);
                proof {
                    assert(names_of(msgs@) =~= m0.push(msg@));
                }
            },
            None => {
                if !contains_string(pending, &added[i]) {
                    pending.push(added[i].clone());
                    proof {
                        assert(names_of(pending@) =~= q0.push(added@[i as int]@));
                    }
                }
            },
        }
        i = i + 1;
    }
    proof {
        assert(names_of(added@).take(added@.len() as int) =~= names_of(added@));
    }
}

fn depart_devices(
    cache: &mut Vec<(String, String)>,
    pending: &mut Vec<String>,
    gone: &Vec<String>,
    msgs: &mut Vec<String>,
)
    requires
        old(msgs)@.len() == 0,
    ensures
        (pairs_of(final(cache)@), names_of(final(pending)@), names_of(final(msgs)@)) == depart(
            names_of(gone@),
            pairs_of(old(cache)@),
            names_of(old(pending)@),
        ),
{
    let ghost c0 = pairs_of(cache@);
    let ghost p0 = names_of(pending@);
    let mut i: usize = 0;
    proof {
        assert(names_of(msgs@) =~= Seq::<Seq<char>>::empty());
    }
    while i < gone.len()
        invariant
            i <= gone@.len(),
            (pairs_of(cache@), names_of(pending@), names_of(msgs@)) == depart(
                names_of(gone@).take(i as int),
                c0,
                p0,
            ),
        decreases gone@.len() - i,
    {
        let ghost t = names_of(gone@).take(i + 1);
        proof {
            assert(t.drop_last() =~= names_of(gone@).take(i as int));
            assert(t.last() == gone@[i as int]@);
        }
        let ghost m0 = names_of(msgs@);
        let desc = match get_value(cache, &gone[i]) {
            Some(d) => d,
            None => {
                let d = String::from_str("device");
                proof {
                    reveal_strlit("device");
                    assert(d@ =~= seq!['d', 'e', 'v', 'i', 'c', 'e']);
                }
                d
            },
        };
        remove_key(cache, &gone[i]);
        remove_name(pending, &gone[i]);
        let msg = out_message(&desc);
        msgs.push(msg);
        proof {
            assert(names_of(msgs@) =~= m0.push(msg@));
        }
        i = i + 1;
    }
    proof {
        assert(names_of(gone@).take(gone@.len() as int) =~= names_of(gone@));
    }
}

impl EventSource for UsbMonitor {
    type Input = (Option<Vec<String>>, Vec<(String, String)>);

    fn poll(&mut self, input: (Option<Vec<String>>, Vec<(String, String)>), notifier: &mut Notifier, now: u64)
        ensures
            match input.0 {
                Some(e) => {
                    let (s, msgs) = usb_step(old(self)@, usb_devices(names_of(e@)), pairs_of(input.1@));
                    &&& final(self)@ == s
                    &&& final(notifier)@ == pushed_all(old(notifier)@, msgs, now)
                },
                None => final(self)@ == old(self)@ && final(notifier)@ == old(notifier)@,
            },
    {
        let (entries, products) = input;
        UsbMonitor::poll(self, entries, &products, notifier, now);
    }
}

proof fn lemma_value_of_push(c: Seq<(Seq<char>, Seq<char>)>, x: (Seq<char>, Seq<char>), k: Seq<char>)
    ensures
        value_of(c.push(x), k) == match value_of(c, k) {
            Some(v) => Some(v),
            None => if x.0 == k {
                Some(x.1)
            } else {
                None
            },
        },
{
    let c2 = c.push(x);
    assert(c2.drop_last() =~= c);
    lemma_key_index_spec(c, k);
    match key_index(c, k) {
        Some(i) => {
            assert(c2[i] == c[i]);
        },
        None => {},
    }
}

proof fn lemma_value_of_drop_key(c: Seq<(Seq<char>, Seq<char>)>, k: Seq<char>, k2: Seq<char>)
    requires
        k2 != k,
    ensures
        value_of(drop_key(c, k), k2) == value_of(c, k2),
    decreases c.len(),
{
    if c.len() == 0 {
        lemma_key_index_none(c, k2);
    } else {
        lemma_value_of_drop_key(c.drop_last(), k, k2);
        assert(c.drop_last().push(c.last()) =~= c);
        lemma_value_of_push(c.drop_last(), c.last(), k2);
        if c.last().0 != k {
            lemma_value_of_push(drop_key(c.drop_last(), k), c.last(), k2);
        }
    }
}

proof fn lemma_depart_keeps(
    gone: Seq<Seq<char>>,
    names: Seq<(Seq<char>, Seq<char>)>,
    pending: Seq<Seq<char>>,
    d: Seq<char>,
)
    requires
        !gone.contains(d),
    ensures
        value_of(depart(gone, names, pending).0, d) == value_of(names, d),
    decreases gone.len(),
{
    if gone.len() > 0 {
        assert(gone.drop_last().contains(d) ==> gone.contains(d)) by {
            if gone.drop_last().contains(d) {
                let i = choose|i: int| 0 <= i < gone.drop_last().len() && gone.drop_last()[i] == d;
                assert(gone[i] == d);
            }
        }
        assert(gone[gone.len() - 1] != d);
        lemma_depart_keeps(gone.drop_last(), names, pending, d);
        lemma_value_of_drop_key(depart(gone.drop_last(), names, pending).0, gone.last(), d);
    }
}

proof fn lemma_depart_names(
    gone: Seq<Seq<char>>,
    names: Seq<(Seq<char>, Seq<char>)>,
    pending: Seq<Seq<char>>,
    d: Seq<char>,
    p: Seq<char>,
)
    requires
        gone.contains(d),
        value_of(names, d) == Some(p),
    ensures
        depart(gone, names, pending).2.contains(usb_out_msg(p)),
    decreases gone.len(),
{
    let rest = gone.drop_last();
    let (n, pp, msgs) = depart(rest, names, pending);
    let all = depart(gone, names, pending).2;
    if rest.contains(d) {
        lemma_depart_names(rest, names, pending, d, p);
        let i = choose|i: int| 0 <= i < msgs.len() && msgs[i] == usb_out_msg(p);
        assert(all[i] == msgs[i]);
    } else {
        let i = choose|i: int| 0 <= i < gone.len() && gone[i] == d;
        if i < gone.len() - 1 {
            assert(rest[i] == d);
        }
        lemma_depart_keeps(rest, names, pending, d);
        assert(all[all.len() - 1] == usb_out_msg(p));
    }
}

proof fn lemma_arrive_keeps(
    added: Seq<Seq<char>>,
    known: Seq<(Seq<char>, Seq<char>)>,
    names: Seq<(Seq<char>, Seq<char>)>,
    pending: Seq<Seq<char>>,
    d: Seq<char>,
)
    requires
        !added.contains(d),
    ensures
        value_of(arrive(added, known, names, pending).0, d) == value_of(names, d),
    decreases added.len(),
{
    if added.len() > 0 {
        let rest = added.drop_last();
        assert(!rest.contains(d)) by {
            if rest.contains(d) {
                let i = choose|i: int| 0 <= i < rest.len() && rest[i] == d;
                assert(added[i] == d);
            }
        }
        assert(added[added.len() - 1] != d);
        lemma_arrive_keeps(rest, known, names, pending, d);
        match value_of(known, added.last()) {
            Some(q) => {
                lemma_put_value(arrive(rest, known, names, pending).0, added.last(), q, d);
            },
            None => {},
        }
    }
}

proof fn lemma_retry_keeps(
    pending: Seq<Seq<char>>,
    known: Seq<(Seq<char>, Seq<char>)>,
    names: Seq<(Seq<char>, Seq<char>)>,
    d: Seq<char>,
)
    requires
        !pending.contains(d),
    ensures
        value_of(retry(pending, known, names).0, d) == value_of(names, d),
    decreases pending.len(),
{
    if pending.len() > 0 {
        let rest = pending.drop_last();
        assert(!rest.contains(d)) by {
            if rest.contains(d) {
                let i = choose|i: int| 0 <= i < rest.len() && rest[i] == d;
                assert(pending[i] == d);
            }
        }
        assert(pending[pending.len() - 1] != d);
        lemma_retry_keeps(rest, known, names, d);
        match value_of(known, pending.last()) {
            Some(q) => {
                lemma_put_value(retry(rest, known, names).0, pending.last(), q, d);
            },
            None => {},
        }
    }
}

proof fn lemma_missing_from(a: Seq<Seq<char>>, b: Seq<Seq<char>>, x: Seq<char>)
    ensures
        missing_from(a, b).contains(x) == (a.contains(x) && !b.contains(x)),
    decreases a.len(),
{
    if a.len() > 0 {
        let rest = a.drop_last();
        lemma_missing_from(rest, b, x);
        assert(a.contains(x) == (rest.contains(x) || a.last() == x)) by {
            if a.contains(x) && a.last() != x {
                let i = choose|i: int| 0 <= i < a.len() && a[i] == x;
                assert(rest[i] == x);
            }
            if rest.contains(x) {
                let i = choose|i: int| 0 <= i < rest.len() && rest[i] == x;
                assert(a[i] == x);
            }
            if a.last() == x {
                assert(a[a.len() - 1] == x);
            }
        }
        let m = missing_from(rest, b);
        if !b.contains(a.last()) {
            assert(m.push(a.last()).contains(x) == (m.contains(x) || a.last() == x)) by {
                let mp = m.push(a.last());
                if mp.contains(x) && a.last() != x {
                    let i = choose|i: int| 0 <= i < mp.len() && mp[i] == x;
                    assert(m[i] == x);
                }
                if m.contains(x) {
                    let i = choose|i: int| 0 <= i < m.len() && m[i] == x;
                    assert(mp[i] == x);
                }
                if a.last() == x {
                    assert(mp[mp.len() - 1] == x);
                }
            }
        }
    }
}

/// A device that vanishes is reported by the product name the watcher
/// remembers for it: when `d` was in the device list with product `p`, is
/// not waiting for its product string, and is missing from the new list,
/// the poll reports `"USB <p> out"`.
pub proof fn law_usb_vanished_reported_by_product(
    s: UsbState,
    cur: Seq<Seq<char>>,
    known: Seq<(Seq<char>, Seq<char>)>,
    d: Seq<char>,
    p: Seq<char>,
)
    requires
        s.devices.contains(d),
        !cur.contains(d),
        !s.pending.contains(d),
        value_of(s.products, d) == Some(p),
    ensures
        usb_step(s, cur, known).1.contains(usb_head() + p + seq![' ', 'o', 'u', 't']),
{
    let (n1, kept, m1) = retry(s.pending, known, s.products);
    let added = missing_from(cur, s.devices);
    let (n2, p2, m2) = arrive(added, known, n1, kept);
    let gone = missing_from(s.devices, cur);
    lemma_retry_keeps(s.pending, known, s.products, d);
    lemma_missing_from(cur, s.devices, d);
    lemma_arrive_keeps(added, known, n1, kept, d);
    lemma_missing_from(s.devices, cur, d);
    lemma_depart_names(gone, n2, p2, d, p);
    let m3 = depart(gone, n2, p2).2;
    let all = m1 + m2 + m3;
    let i = choose|i: int| 0 <= i < m3.len() && m3[i] == usb_out_msg(p);
    assert(all[m1.len() + m2.len() + i] == m3[i]);
}

} // verus!
