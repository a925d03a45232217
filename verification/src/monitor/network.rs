//! Network counters from `/proc/net/dev` and the choice of the interface
//! to watch (default route, else the busiest interface that is up, else the
//! first configured candidate that exists).

use vstd::prelude::*;

use super::{word_to_u64, word_u64};
use crate::monitor::percore::after_first;
use crate::notify::contains_string;
use crate::notify::names_of;
use crate::utils::chars::{
    char_rows, chars_eq, find, find_chars, has_prefix, lines, skip_ws, slice_chars, split_lines,
    split_words, starts_with, str_chars, string_from_chars, trim, trim_chars, trim_start, words,
};
use crate::utils::AppError;

verus! {

/// `"00000000"`, the destination and mask of the default route.
pub open spec fn zero_word() -> Seq<char> {
    seq!['0', '0', '0', '0', '0', '0', '0', '0']
}

/// Interface of the first default route among route-table lines (a blank
/// line ends the search without a result).
pub open spec fn route_scan(ls: Seq<Seq<char>>) -> Option<Seq<char>>
    decreases ls.len(),
{
    if ls.len() == 0 {
        None
    } else {
        let ws = words(ls[0]);
        if ws.len() == 0 {
            None
        } else if ws.len() > 1 && ws[1] == zero_word() && ws.len() > 7 && ws[7] == zero_word() {
            Some(ws[0])
        } else {
            route_scan(ls.drop_first())
        }
    }
}

/// Interface of the default route in the text of `/proc/net/route`.
pub open spec fn default_route(text: Seq<char>) -> Option<Seq<char>> {
    route_scan(after_first(lines(text)))
}

/// Interface of the default route in the text of `/proc/net/route`.
pub fn default_route_iface(text: &str) -> (r: Option<String>)
    ensures
        match r {
            Some(s) => default_route(text@) == Some(s@),
            None => default_route(text@) is None,
        },
{
    let v = str_chars(text);
    let ls = split_lines(&v);
    if ls.len() == 0 {
        return None;
    }
    let zeros = vec!['0', '0', '0', '0', '0', '0', '0', '0'];
    proof {
        assert(zeros@ =~= zero_word());
        assert(char_rows(ls@).skip(1) =~= after_first(char_rows(ls@)));
    }
    let mut i: usize = 1;
    while i < ls.len()
        invariant
            1 <= i <= ls@.len(),
            zeros@ == zero_word(),
            char_rows(ls@) == lines(text@),
            default_route(text@) == route_scan(char_rows(ls@).skip(i as int)),
        decreases ls@.len() - i,
    {
        let ghost rest = char_rows(ls@).skip(i as int);
        proof {
            assert(rest.drop_first() =~= char_rows(ls@).skip(i + 1));
            assert(rest[0] == ls@[i as int]@);
        }
        let ws = split_words(&ls[i]);
        if ws.len() == 0 {
            return None;
        }
        if ws.len() > 7 && chars_eq(&ws[1], &zeros) && chars_eq(&ws[7], &zeros) {
            return Some(string_from_chars(&ws[0]));
        }
        i = i + 1;
    }
    proof {
        assert(char_rows(ls@).skip(i as int) =~= Seq::<Seq<char>>::empty());
    }
    None
}

/// `"lo"`.
pub open spec fn lo_name() -> Seq<char> {
    seq!['l', 'o']
}

/// Lines after the first two.
pub open spec fn after_header(ls: Seq<Seq<char>>) -> Seq<Seq<char>> {
    if ls.len() <= 2 {
        seq![]
    } else {
        ls.skip(2)
    }
}

/// Busiest interface among `/proc/net/dev` lines: the non-loopback interface
/// in `up` with the largest received plus sent bytes (saturating); an
/// interface that is up but whose counters do not parse ends the search
/// with no result.
pub open spec fn busiest(ls: Seq<Seq<char>>, up: Seq<Seq<char>>, best: Option<Seq<char>>, best_total: nat) -> Option<Seq<char>>
    decreases ls.len(),
{
    if ls.len() == 0 {
        best
    } else {
        let t = trim_start(ls[0]);
        match find(t, seq![':']) {
            None => busiest(ls.drop_first(), up, best, best_total),
            Some(c) => {
                let name = trim(t.take(c));
                if name == lo_name() || !up.contains(name) {
                    busiest(ls.drop_first(), up, best, best_total)
                } else {
                    let ws = words(t.skip(c + 1));
                    match (word_u64(ws, 0), word_u64(ws, 8)) {
                        (Some(rx), Some(tx)) => {
                            let total = if rx + tx > u64::MAX {
                                u64::MAX as nat
                            } else {
                                rx + tx
                            };
                            if total > best_total {
                                busiest(ls.drop_first(), up, Some(name), total)
                            } else {
                                busiest(ls.drop_first(), up, best, best_total)
                            }
                        },
                        _ => None,
                    }
                }
            },
        }
    }
}

/// Busiest interface that is up in the text of `/proc/net/dev`.
pub open spec fn most_active(text: Seq<char>, up: Seq<Seq<char>>) -> Option<Seq<char>> {
    busiest(after_header(lines(text)), up, None, 0)
}

/// The interface name and the counter words of a `/proc/net/dev` line
/// (`"<name>: <counters>"`), if it has a `':'`.
pub open spec fn dev_entry(l: Seq<char>) -> Option<(Seq<char>, Seq<Seq<char>>)> {
    let t = trim_start(l);
    match find(t, seq![':']) {
        Some(c) => Some((trim(t.take(c)), words(t.skip(c + 1)))),
        None => None,
    }
}

/// The line is not the entry of a non-loopback interface in `up`, or it is
/// one whose received (first counter) plus sent (ninth counter) bytes are
/// below `bound`.
pub open spec fn traffic_below(l: Seq<char>, up: Seq<Seq<char>>, bound: nat) -> bool {
    match dev_entry(l) {
        Some((n, ws)) => n == lo_name() || !up.contains(n) || (word_u64(ws, 0) is Some && word_u64(ws, 8) is Some
            && word_u64(ws, 0)->0 + word_u64(ws, 8)->0 < bound),
        None => true,
    }
}

proof fn lemma_busiest_keeps(ls: Seq<Seq<char>>, up: Seq<Seq<char>>, best: Option<Seq<char>>, bt: nat)
    requires
        bt <= u64::MAX,
        forall|m: int| #![trigger ls[m]] 0 <= m < ls.len() ==> traffic_below(ls[m], up, bt + 1),
    ensures
        busiest(ls, up, best, bt) == best,
    decreases ls.len(),
{
    if ls.len() > 0 {
        assert(traffic_below(ls[0], up, bt + 1));
        assert forall|m: int| #![trigger ls.drop_first()[m]] 0 <= m < ls.drop_first().len() implies traffic_below(
            ls.drop_first()[m],
            up,
            bt + 1,
        ) by {
            assert(ls.drop_first()[m] == ls[m + 1]);
        }
        lemma_busiest_keeps(ls.drop_first(), up, best, bt);
    }
}

proof fn lemma_busiest_finds(
    ls: Seq<Seq<char>>,
    up: Seq<Seq<char>>,
    best: Option<Seq<char>>,
    bt: nat,
    k: int,
    name: Seq<char>,
    rx: nat,
    tx: nat,
)
    requires
        0 <= k < ls.len(),
        dev_entry(ls[k]) matches Some((n, ws)) && n == name && word_u64(ws, 0) == Some(rx) && word_u64(
            ws,
            8,
        ) == Some(tx),
        name != lo_name(),
        up.contains(name),
        bt < rx + tx <= u64::MAX,
        forall|m: int| #![trigger ls[m]] 0 <= m < ls.len() && m != k ==> traffic_below(ls[m], up, rx + tx),
    ensures
        busiest(ls, up, best, bt) == Some(name),
    decreases ls.len(),
{
    let rest = ls.drop_first();
    assert forall|m: int| #![trigger rest[m]] 0 <= m < rest.len() && m != k - 1 implies traffic_below(
        rest[m],
        up,
        rx + tx,
    ) by {
        assert(rest[m] == ls[m + 1]);
    }
    if k == 0 {
        assert forall|m: int| #![trigger rest[m]] 0 <= m < rest.len() implies traffic_below(
            rest[m],
            up,
            (rx + tx) + 1,
        ) by {
            assert(rest[m] == ls[m + 1]);
            assert(traffic_below(ls[m + 1], up, rx + tx));
        }
        lemma_busiest_keeps(rest, up, Some(name), (rx + tx) as nat);
    } else {
        assert(traffic_below(ls[0], up, rx + tx));
        let t = trim_start(ls[0]);
        match find(t, seq![':']) {
            None => {
                lemma_busiest_finds(rest, up, best, bt, k - 1, name, rx, tx);
            },
            Some(c) => {
                let n0 = trim(t.take(c));
                let ws = words(t.skip(c + 1));
                if n0 == lo_name() || !up.contains(n0) {
                    lemma_busiest_finds(rest, up, best, bt, k - 1, name, rx, tx);
                } else {
                    let r0 = word_u64(ws, 0)->0;
                    let t0 = word_u64(ws, 8)->0;
                    assert(r0 + t0 < rx + tx);
                    if r0 + t0 > bt {
                        lemma_busiest_finds(rest, up, Some(n0), (r0 + t0) as nat, k - 1, name, rx, tx);
                    } else {
                        lemma_busiest_finds(rest, up, best, bt, k - 1, name, rx, tx);
                    }
                }
            },
        }
    }
}

/// The busiest interface is the one with the most traffic: when the entry
/// of a non-loopback interface that is up has more received plus sent
/// bytes (and more than none) than every other such entry, whose counters
/// all parse, that interface is the one chosen.
pub proof fn law_busiest_has_most_traffic(text: Seq<char>, up: Seq<Seq<char>>, k: int, name: Seq<char>, rx: nat, tx: nat)
    requires
        0 <= k < after_header(lines(text)).len(),
        dev_entry(after_header(lines(text))[k]) matches Some((n, ws)) && n == name && word_u64(ws, 0) == Some(
            rx,
        ) && word_u64(ws, 8) == Some(tx),
        name != lo_name(),
        up.contains(name),
        0 < rx + tx <= u64::MAX,
        forall|m: int|
            #![trigger after_header(lines(text))[m]]
            0 <= m < after_header(lines(text)).len() && m != k ==> traffic_below(
                after_header(lines(text))[m],
                up,
                rx + tx,
            ),
    ensures
        most_active(text, up) == Some(name),
{
    lemma_busiest_finds(after_header(lines(text)), up, None, 0, k, name, rx, tx);
}

/// The interface of `/proc/net/dev` text with the most traffic among those
/// named in `up` (interfaces whose operational state is "up").
#[verifier::rlimit(40)]
pub fn most_active_up_iface(text: &str, up: &Vec<String>) -> (r: Option<String>)
    ensures
        match r {
            Some(s) => most_active(text@, names_of(up@)) == Some(s@),
            None => most_active(text@, names_of(up@)) is None,
        },
{
    let v = str_chars(text);
    let ls = split_lines(&v);
    if ls.len() <= 2 {
        return None;
    }
    let lo = vec!['l', 'o'];
    let colon = vec![':'];
    proof {
        assert(lo@ =~= lo_name());
        assert(colon@ =~= seq![':']);
    }
    let mut best: Option<String> = None;
    let mut best_total: u64 = 0;
    let mut i: usize = 2;
    while i < ls.len()
        invariant
            2 <= i <= ls@.len(),
            lo@ == lo_name(),
            colon@ == seq![':'],
            char_rows(ls@) == lines(text@),
            most_active(text@, names_of(up@)) == busiest(
                char_rows(ls@).skip(i as int),
                names_of(up@),
                match best {
                    Some(b) => Some(b@),
                    None => None,
                },
                best_total as nat,
            ),
        decreases ls@.len() - i,
    {
        let ghost rest = char_rows(ls@).skip(i as int);
        proof {
            assert(rest.drop_first() =~= char_rows(ls@).skip(i + 1));
            assert(rest[0] == ls@[i as int]@);
        }
        let a = skip_ws(&ls[i], 0);
        let t = slice_chars(&ls[i], a, ls[i].len());
        proof {
            assert(ls@[i as int]@.skip(0) =~= ls@[i as int]@);
            assert(t@ =~= trim_start(ls@[i as int]@));
        }
        match find_chars(&t, &colon) {
            None => {},
            Some(c) => {
                proof {
                    crate::utils::chars::lemma_find_bound(t@, colon@);
                }
                let head = slice_chars(&t, 0, c);
                let name_v = trim_chars(&head);
                proof {
                    assert(head@ =~= t@.take(c as int));
                }
                let name = string_from_chars(&name_v);
                if !chars_eq(&name_v, &lo) && contains_string(up, &name) {
                    let tail = slice_chars(&t, c + 1, t.len());
                    proof {
                        assert(tail@ =~= t@.skip(c + 1));
                    }
                    let ws = split_words(&tail);
                    let rx = match word_to_u64(&ws, 0) {
                        Some(x) => x,
                        None => return None,
                    };
                    let tx = match word_to_u64(&ws, 8) {
                        Some(x) => x,
                        None => return None,
                    };
                    let total = rx.saturating_add(tx);
                    if total > best_total {
                        best_total = total;
                        best = Some(name);
                    }
                }
            },
        }
        i = i + 1;
    }
    proof {
        assert(char_rows(ls@).skip(i as int) =~= Seq::<Seq<char>>::empty());
    }
    best
}

/// Index of the first line whose start (after leading white space) is `needle`.
pub open spec fn stats_line(ls: Seq<Seq<char>>, needle: Seq<char>) -> Option<int>
    decreases ls.len(),
{
    if ls.len() == 0 {
        None
    } else if has_prefix(trim_start(ls[0]), needle) {
        Some(0)
    } else {
        match stats_line(ls.drop_first(), needle) {
            Some(i) => Some(i + 1),
            None => None,
        }
    }
}

/// Received and sent bytes of `iface` in `/proc/net/dev` text: words 1
/// and 9 of the first line that starts with `"<iface>:"`. `None` when there
/// is no such line; `Some(None)` when the counters do not parse.
pub open spec fn iface_stats(text: Seq<char>, iface: Seq<char>) -> Option<Option<(nat, nat)>> {
    let ls = lines(text);
    match stats_line(ls, iface + seq![':']) {
        None => None,
        Some(i) => {
            let ws = words(trim_start(ls[i]));
            match (word_u64(ws, 1), word_u64(ws, 9)) {
                (Some(rx), Some(tx)) => Some(Some((rx, tx))),
                _ => Some(None),
            }
        },
    }
}

proof fn lemma_stats_line(ls: Seq<Seq<char>>, needle: Seq<char>, i: int)
    requires
        0 <= i <= ls.len(),
        forall|t: int| 0 <= t < i ==> !has_prefix(trim_start(#[trigger] ls[t]), needle),
    ensures
        stats_line(ls, needle) == match stats_line(ls.skip(i), needle) {
            Some(j) => Some(j + i),
            None => None::<int>,
        },
    decreases i,
{
    if i > 0 {
        assert(ls.skip(i) =~= ls.drop_first().skip(i - 1));
        assert forall|t: int| 0 <= t < i - 1 implies !has_prefix(
            trim_start(#[trigger] ls.drop_first()[t]),
            needle,
        ) by {
            assert(ls.drop_first()[t] == ls[t + 1]);
        }
        lemma_stats_line(ls.drop_first(), needle, i - 1);
    } else {
        assert(ls.skip(0) =~= ls);
    }
}

/// Received and sent bytes of `iface` in the text of `/proc/net/dev`.
pub fn read_iface_stats(text: &str, iface: &str) -> (r: Result<(u64, u64), AppError>)
    ensures
        match r {
            Ok((rx, tx)) => iface_stats(text@, iface@) == Some(Some((rx as nat, tx as nat))),
            Err(e) => match iface_stats(text@, iface@) {
                Some(p) => p is None && e is Parse,
                None => e is NotFound,
            },
        },
{
    let v = str_chars(text);
    let mut needle = str_chars(iface);
    needle.push(':');
    let ls = split_lines(&v);
    let ghost rows = char_rows(ls@);
    let mut i: usize = 0;
    while i < ls.len()
        invariant
            i <= ls@.len(),
            rows == char_rows(ls@),
            rows == lines(text@),
            needle@ == iface@ + seq![':'],
            forall|t: int| 0 <= t < i ==> !has_prefix(trim_start(#[trigger] rows[t]), needle@),
        decreases ls@.len() - i,
    {
        let a = skip_ws(&ls[i], 0);
        let t = slice_chars(&ls[i], a, ls[i].len());
        proof {
            assert(ls@[i as int]@.skip(0) =~= ls@[i as int]@);
            assert(t@ =~= trim_start(rows[i as int]));
        }
        if starts_with(&t, &needle) {
            proof {
                lemma_stats_line(rows, needle@, i as int);
                assert(rows.skip(i as int)[0] == rows[i as int]);
                assert(rows.skip(i as int).len() > 0);
                assert(stats_line(rows.skip(i as int), needle@) == Some(0int));
            }
            let ws = split_words(&t);
            let rx = match word_to_u64(&ws, 1) {
                Some(x) => x,
                None => return Err(AppError::Parse(String::from_str("net/dev rx"))),
            };
            let tx = match word_to_u64(&ws, 9) {
                Some(x) => x,
                None => return Err(AppError::Parse(String::from_str("net/dev tx"))),
            };
            return Ok((rx, tx));
        }
        i = i + 1;
    }
    proof {
        lemma_stats_line(rows, needle@, i as int);
        assert(rows.skip(i as int) =~= Seq::<Seq<char>>::empty());
    }
    let mut msg = String::from_str("接口 '");
    msg.append(iface);
    msg.append("' 在 /proc/net/dev 中未找到");
    Err(AppError::NotFound(msg))
}

/// First candidate that exists (`(name, exists)` pairs in priority order).
pub open spec fn first_existing(c: Seq<(Seq<char>, bool)>) -> Option<Seq<char>>
    decreases c.len(),
{
    if c.len() == 0 {
        None
    } else if c[0].1 {
        Some(c[0].0)
    } else {
        first_existing(c.drop_first())
    }
}

/// Interface to watch: the default-route interface when it is up, else the
/// busiest interface that is up, else the first configured candidate that
/// exists; `None` when there is none.
pub open spec fn best_iface(
    route: Option<(Seq<char>, bool)>,
    busiest_up: Option<Seq<char>>,
    candidates: Seq<(Seq<char>, bool)>,
) -> Option<Seq<char>> {
    match route {
        Some((r, true)) => Some(r),
        _ => if busiest_up is Some {
            busiest_up
        } else {
            first_existing(candidates)
        },
    }
}

/// A default-route interface (with whether it is up) by its view.
pub open spec fn route_view(route: Option<(String, bool)>) -> Option<(Seq<char>, bool)> {
    match route {
        Some((n, u)) => Some((n@, u)),
        None => None,
    }
}

/// An optional interface name by its view.
pub open spec fn name_view(name: Option<String>) -> Option<Seq<char>> {
    match name {
        Some(n) => Some(n@),
        None => None,
    }
}

/// Chooses the interface to watch from the default-route interface (with
/// whether it is up), the busiest interface that is up, and the configured
/// candidates (with whether each exists). No interface at all is a
/// not-found error.
pub fn select_best_iface(
    route: Option<(String, bool)>,
    busiest_up: Option<String>,
    candidates: &Vec<(String, bool)>,
) -> (r: Result<String, AppError>)
    ensures
        ({
            let rv = route_view(route);
            let bv = name_view(busiest_up);
            let cv = candidates@.map_values(|p: (String, bool)| (p.0@, p.1));
            match r {
                Ok(s) => best_iface(rv, bv, cv) == Some(s@),
                Err(e) => best_iface(rv, bv, cv) is None && e is NotFound,
            }
        }),
{
    let ghost rv = route_view(route);
    let ghost bv = name_view(busiest_up);
    if let Some((name, true)) = route {
        return Ok(name);
    }
    if let Some(name) = busiest_up {
        return Ok(name);
    }
    let ghost cv = candidates@.map_values(|p: (String, bool)| (p.0@, p.1));
    let mut i: usize = 0;
    proof {
        assert(cv.skip(0) =~= cv);
    }
    while i < candidates.len()
        invariant
            i <= candidates@.len(),
            cv == candidates@.map_values(|p: (String, bool)| (p.0@, p.1)),
            rv == route_view(route),
            bv == name_view(busiest_up),
            best_iface(rv, bv, cv) == first_existing(cv.skip(i as int)),
        decreases candidates@.len() - i,
    {
        let ghost rest = cv.skip(i as int);
        proof {
            assert(rest.drop_first() =~= cv.skip(i + 1));
            assert(rest[0] == (candidates@[i as int].0@, candidates@[i as int].1));
        }
        if candidates[i].1 {
            proof {
                assert(first_existing(rest) == Some(rest[0].0));
            }
            return Ok(candidates[i].0.clone());
        }
        i = i + 1;
    }
    proof {
        assert(cv.skip(i as int) =~= Seq::<(Seq<char>, bool)>::empty());
    }
    Err(AppError::NotFound(String::from_str("未找到任何非 loopback 网络接口")))
}

/// Throughput bookkeeping of the watched interface. The caller reads the
/// counters and the clock; every tenth poll it re-evaluates the best
/// interface and switches to it when it differs.
pub struct NetworkMonitor {
    iface: String,
    prev_rx: u64,
    prev_tx: u64,
    priority: Vec<String>,
    poll_count: u64,
}

/// Abstract state of a network monitor.
pub struct NetworkState {
    pub iface: Seq<char>,
    pub prev_rx: u64,
    pub prev_tx: u64,
    pub priority: Seq<Seq<char>>,
    pub poll_count: u64,
}

impl View for NetworkMonitor {
    type V = NetworkState;

    closed spec fn view(&self) -> NetworkState {
        NetworkState {
            iface: self.iface@,
            prev_rx: self.prev_rx,
            prev_tx: self.prev_tx,
            priority: names_of(self.priority@),
            poll_count: self.poll_count,
        }
    }
}

/// `a - b`, or zero when the counter went backwards.
pub open spec fn counter_delta(a: u64, b: u64) -> u64 {
    if a >= b {
        (a - b) as u64
    } else {
        0
    }
}

impl NetworkMonitor {
    /// A monitor of `iface` (chosen from `priority` and the system's
    /// interfaces by the caller) whose counters stand at `rx` and `tx`.
    pub fn new_with_priority(priority: Vec<String>, iface: String, rx: u64, tx: u64) -> (r: Self)
        ensures
            r@ == (NetworkState {
                iface: iface@,
                prev_rx: rx,
                prev_tx: tx,
                priority: names_of(priority@),
                poll_count: 0,
            }),
    {
        NetworkMonitor { iface, prev_rx: rx, prev_tx: tx, priority, poll_count: 0 }
    }

    /// A monitor with the default candidates `eth0`, `end0`, `wlan0`.
    pub fn new(iface: String, rx: u64, tx: u64) -> (r: Self)
        ensures
            r@ == (NetworkState {
                iface: iface@,
                prev_rx: rx,
                prev_tx: tx,
                priority: seq![seq!['e', 't', 'h', '0'], seq!['e', 'n', 'd', '0'], seq!['w', 'l', 'a', 'n', '0']],
                poll_count: 0,
            }),
    {
        let p = vec![
            string_from_chars(&vec!['e', 't', 'h', '0']),
            string_from_chars(&vec!['e', 'n', 'd', '0']),
            string_from_chars(&vec!['w', 'l', 'a', 'n', '0']),
        ];
        proof {
            assert(names_of(p@) =~= seq![
                seq!['e', 't', 'h', '0'],
                seq!['e', 'n', 'd', '0'],
                seq!['w', 'l', 'a', 'n', '0'],
            ]);
        }
        Self::new_with_priority(p, iface, rx, tx)
    }

    /// Bytes received on the watched interface at the last poll.
    pub fn total_rx(&self) -> (r: u64)
        ensures
            r == self@.prev_rx,
    {
        self.prev_rx
    }

    /// Bytes sent on the watched interface at the last poll.
    pub fn total_tx(&self) -> (r: u64)
        ensures
            r == self@.prev_tx,
    {
        self.prev_tx
    }

    /// The watched interface.
    pub fn iface_name(&self) -> (r: &str)
        ensures
            r@ == self@.iface,
    {
        self.iface.as_str()
    }

    /// The candidate interfaces, in priority order.
    pub fn priority(&self) -> (r: &Vec<String>)
        ensures
            names_of(r@) == self@.priority,
    {
        &self.priority
    }

    /// Polls started so far.
    pub fn poll_count(&self) -> (r: u64)
        ensures
            r == self@.poll_count,
    {
        self.poll_count
    }

    /// Starts a poll; returns whether this poll re-evaluates the best
    /// interface (every tenth poll).
    pub fn begin_poll(&mut self) -> (r: bool)
        requires
            old(self)@.poll_count < u64::MAX,
        ensures
            final(self)@ == (NetworkState { poll_count: (old(self)@.poll_count + 1) as u64, ..old(self)@ }),
            r == ((old(self)@.poll_count + 1) % 10 == 0),
    {
        self.poll_count = self.poll_count + 1;
        self.poll_count % 10 == 0
    }

    /// Switches to `best` with its counters at `rx` and `tx` when it is not
    /// the interface watched; returns whether it switched (the rates then
    /// restart from zero).
    pub fn switch_to(&mut self, best: String, rx: u64, tx: u64) -> (r: bool)
        ensures
            r == (best@ != old(self)@.iface),
            r ==> final(self)@ == (NetworkState {
                iface: best@,
                prev_rx: rx,
                prev_tx: tx,
                ..old(self)@
            }),
            !r ==> final(self)@ == old(self)@,
    {
        if best == self.iface {
            return false;
        }
        self.iface = best;
        self.prev_rx = rx;
        self.prev_tx = tx;
        true
    }

    /// Records the counters read now; returns the bytes received and sent
    /// since the last poll (zero where a counter went backwards).
    pub fn record(&mut self, rx: u64, tx: u64) -> (r: (u64, u64))
        ensures
            r == (counter_delta(rx, old(self)@.prev_rx), counter_delta(tx, old(self)@.prev_tx)),
            final(self)@ == (NetworkState { prev_rx: rx, prev_tx: tx, ..old(self)@ }),
    {
        let d = (rx.saturating_sub(self.prev_rx), tx.saturating_sub(self.prev_tx));
        self.prev_rx = rx;
        self.prev_tx = tx;
        d
    }
}

} // verus!
