//! Typed reads of the settings file.
//!
//! The settings are a table of sections; a key is either `section.key`
//! (split at the first `.`) or a top-level key. A missing key, or a value
//! of the wrong type or out of range, reads as the given default.

use vstd::prelude::*;

use crate::utils::chars::{chars_eq, find, find_chars, lemma_find_bound, slice_chars, str_chars};
use crate::notify::names_of;
use toml::{Table, Value};
use crate::utils::number::{all_digits, digit_val, digits_value, parse_unsigned, parse_unsigned_chars};

verus! {

/// A settings value, as far as the typed reads look at it.
pub enum ConfigScalar {
    /// A string.
    Str(String),
    /// An integer.
    Int(i64),
    /// An array: its string items, `None` for items of another type.
    List(Vec<Option<String>>),
    /// Any other value (a float, a boolean, a date, a nested table).
    Other,
}

/// A top-level entry of the settings: a plain value or a section.
pub enum ConfigEntry {
    Value(ConfigScalar),
    Section(Vec<(String, ConfigScalar)>),
}

/// The settings: top-level entries by name, as in the file (names are unique).
pub struct ConfigTable {
    pub entries: Vec<(String, ConfigEntry)>,
}

/// What a settings value holds, as plain values.
pub enum ScalarView {
    Str(Seq<char>),
    Int(i64),
    /// The items of an array: the text of each string item, `None` for the others.
    List(Seq<Option<Seq<char>>>),
    Other,
}

/// What a top-level entry holds, as plain values.
pub enum EntryView {
    Value(ScalarView),
    /// The keys and values of a section, in order.
    Section(Seq<(Seq<char>, ScalarView)>),
}

/// What the settings hold: the top-level entries by name, in order.
pub struct ConfigView {
    pub entries: Seq<(Seq<char>, EntryView)>,
}

/// The texts of a list of optional strings.
pub open spec fn opt_texts(v: Seq<Option<String>>) -> Seq<Option<Seq<char>>> {
    v.map_values(|o: Option<String>| match o {
        Some(s) => Some(s@),
        None => None,
    })
}

impl View for ConfigScalar {
    type V = ScalarView;

    open spec fn view(&self) -> ScalarView {
        match self {
            ConfigScalar::Str(s) => ScalarView::Str(s@),
            ConfigScalar::Int(i) => ScalarView::Int(*i),
            ConfigScalar::List(items) => ScalarView::List(opt_texts(items@)),
            ConfigScalar::Other => ScalarView::Other,
        }
    }
}

/// Name-value pairs with the name and the value each taken by its view.
pub open spec fn pairs_view<V: View>(es: Seq<(String, V)>) -> Seq<(Seq<char>, V::V)> {
    es.map_values(|p: (String, V)| (p.0@, p.1@))
}

impl View for ConfigEntry {
    type V = EntryView;

    open spec fn view(&self) -> EntryView {
        match self {
            ConfigEntry::Value(v) => EntryView::Value(v@),
            ConfigEntry::Section(es) => EntryView::Section(pairs_view(es@)),
        }
    }
}

impl View for ConfigTable {
    type V = ConfigView;

    open spec fn view(&self) -> ConfigView {
        ConfigView { entries: pairs_view(self.entries@) }
    }
}

/// The settings with no entry.
pub open spec fn empty_settings() -> ConfigView {
    ConfigView { entries: Seq::empty() }
}

impl ConfigTable {
    /// Settings with no entry: every read gives its default.
    pub fn empty() -> (r: Self)
        ensures
            r@ == empty_settings(),
    {
        let r = ConfigTable { entries: Vec::new() };
        proof {
            assert(r@.entries =~= Seq::<(Seq<char>, EntryView)>::empty());
        }
        r
    }
}

/// The value of the first entry of `es` named `k`.
pub open spec fn lookup<V>(es: Seq<(Seq<char>, V)>, k: Seq<char>) -> Option<V>
    decreases es.len(),
{
    if es.len() == 0 {
        None
    } else if es[0].0 == k {
        Some(es[0].1)
    } else {
        lookup(es.drop_first(), k)
    }
}

/// The value that `key` names: in section `s` for `s.k`, at the top level
/// otherwise. A section itself is no value.
pub open spec fn value_at(t: ConfigView, key: Seq<char>) -> Option<ScalarView> {
    match find(key, seq!['.']) {
        Some(i) => match lookup(t.entries, key.take(i)) {
            Some(EntryView::Section(es)) => lookup(es, key.skip(i + 1)),
            _ => None,
        },
        None => match lookup(t.entries, key) {
            Some(EntryView::Value(v)) => Some(v),
            Some(EntryView::Section(_)) => Some(ScalarView::Other),
            None => None,
        },
    }
}

/// The integer under `key`, if there is one.
pub open spec fn int_at(t: ConfigView, key: Seq<char>) -> Option<int> {
    match value_at(t, key) {
        Some(ScalarView::Int(i)) => Some(i as int),
        _ => None,
    }
}

/// The integer under `key` when it lies in `lo..=hi`, else `default`.
pub open spec fn int_or(t: ConfigView, key: Seq<char>, lo: int, hi: int, default: int) -> int {
    match int_at(t, key) {
        Some(i) => if lo <= i <= hi {
            i
        } else {
            default
        },
        None => default,
    }
}

fn lookup_exec<'a, V: View>(es: &'a Vec<(String, V)>, k: &[char]) -> (r: Option<&'a V>)
    ensures
        match r {
            Some(v) => lookup(pairs_view(es@), k@) == Some(v@),
            None => lookup(pairs_view(es@), k@) is None,
        },
{
    let ghost pv = pairs_view(es@);
    let mut i: usize = 0;
    proof {
        assert(pv.skip(0) =~= pv);
    }
    while i < es.len()
        invariant
            i <= es@.len(),
            pv == pairs_view(es@),
            lookup(pv, k@) == lookup(pv.skip(i as int), k@),
        decreases es@.len() - i,
    {
        proof {
            assert(pv.skip(i as int).drop_first() =~= pv.skip(i + 1));
            assert(pv.skip(i as int)[0] == pv[i as int]);
        }
        let name = str_chars(es[i].0.as_str());
        if chars_eq(&name, k) {
            return Some(&es[i].1);
        }
        i = i + 1;
    }
    proof {
        assert(pv.skip(i as int) =~= Seq::<(Seq<char>, V::V)>::empty());
    }
    None
}

/// The value that `key` names (`section.key` or a top-level key).
pub fn get_value<'a>(root: &'a ConfigTable, key: &str) -> (r: Option<&'a ConfigScalar>)
    ensures
        match r {
            Some(v) => value_at(root@, key@) == Some(v@),
            None => value_at(root@, key@) is None,
        },
{
    let kv = str_chars(key);
    let dot = vec!['.'];
    proof {
        assert(dot@ =~= seq!['.']);
        lemma_find_bound(kv@, dot@);
    }
    match find_chars(&kv, &dot) {
        Some(i) => {
            assert(i + 1 <= kv@.len());
            assert(kv@.len() == kv.len());
            let section = slice_chars(&kv, 0, i);
            let k = slice_chars(&kv, i + 1, kv.len());
            proof {
                assert(section@ =~= kv@.take(i as int));
                assert(k@ =~= kv@.skip(i + 1));
            }
            match lookup_exec(&root.entries, &section) {
                Some(ConfigEntry::Section(es)) => lookup_exec(es, &k),
                _ => None,
            }
        },
        None => match lookup_exec(&root.entries, &kv) {
            Some(ConfigEntry::Value(v)) => Some(v),
            Some(ConfigEntry::Section(_)) => Some(&OTHER),
            None => None,
        },
    }
}

/// A value of none of the types that the reads look for.
pub const OTHER: ConfigScalar = ConfigScalar::Other;

fn int_value(root: &ConfigTable, key: &str) -> (r: Option<i64>)
    ensures
        match r {
            Some(i) => int_at(root@, key@) == Some(i as int),
            None => int_at(root@, key@) is None,
        },
{
    match get_value(root, key) {
        Some(ConfigScalar::Int(i)) => Some(*i),
        _ => None,
    }
}

/// The string under `key`, or `default`.
pub fn get_str(root: &ConfigTable, key: &str, default: &str) -> (r: String)
    ensures
        r@ == match value_at(root@, key@) {
            Some(ScalarView::Str(s)) => s,
            _ => default@,
        },
{
    match get_value(root, key) {
        Some(ConfigScalar::Str(s)) => s.clone(),
        _ => default.to_owned(),
    }
}

/// The integer under `key` when it fits a `u8`, else `default` (a value
/// out of range is not truncated).
pub fn get_u8(root: &ConfigTable, key: &str, default: u8) -> (r: u8)
    ensures
        r == int_or(root@, key@, 0, 255, default as int),
{
    match int_value(root, key) {
        Some(i) => if 0 <= i && i <= 255 {
            i as u8
        } else {
            default
        },
        None => default,
    }
}

/// The integer under `key` when it fits a `u32`, else `default`.
pub fn get_u32(root: &ConfigTable, key: &str, default: u32) -> (r: u32)
    ensures
        r == int_or(root@, key@, 0, u32::MAX as int, default as int),
{
    match int_value(root, key) {
        Some(i) => if 0 <= i && i <= 0xFFFF_FFFF {
            i as u32
        } else {
            default
        },
        None => default,
    }
}

/// The integer under `key` when it is not negative, else `default`.
pub fn get_u64(root: &ConfigTable, key: &str, default: u64) -> (r: u64)
    ensures
        r == int_or(root@, key@, 0, u64::MAX as int, default as int),
{
    match int_value(root, key) {
        Some(i) => if 0 <= i {
            i as u64
        } else {
            default
        },
        None => default,
    }
}

/// The integer under `key` when it fits a `usize`, else `default`.
pub fn get_usize(root: &ConfigTable, key: &str, default: usize) -> (r: usize)
    ensures
        r == int_or(root@, key@, 0, usize::MAX as int, default as int),
{
    match int_value(root, key) {
        Some(i) => if 0 <= i && (i as u64) <= (usize::MAX as u64) {
            i as usize
        } else {
            default
        },
        None => default,
    }
}

/// The texts of a list of string slices.
pub open spec fn str_views(v: Seq<&str>) -> Seq<Seq<char>> {
    v.map_values(|s: &str| s@)
}

/// The string items of a list, in order.
pub open spec fn string_items(items: Seq<Option<Seq<char>>>) -> Seq<Seq<char>>
    decreases items.len(),
{
    if items.len() == 0 {
        seq![]
    } else {
        let rest = string_items(items.drop_last());
        match items.last() {
            Some(s) => rest.push(s),
            None => rest,
        }
    }
}

/// The string items of the array under `key` (other items are left out),
/// or `default` when `key` names no array.
pub fn get_str_list(root: &ConfigTable, key: &str, default: &[&str]) -> (r: Vec<String>)
    ensures
        names_of(r@) == match value_at(root@, key@) {
            Some(ScalarView::List(items)) => string_items(items),
            _ => str_views(default@),
        },
{
    let mut out: Vec<String> = Vec::new();
    match get_value(root, key) {
        Some(ConfigScalar::List(items)) => {
            let mut i: usize = 0;
            while i < items.len()
                invariant
                    i <= items@.len(),
                    names_of(out@) == string_items(opt_texts(items@).take(i as int)),
                decreases items@.len() - i,
            {
                proof {
                    assert(opt_texts(items@).take(i + 1).drop_last() =~= opt_texts(items@).take(i as int));
                }
                match &items[i] {
                    Some(s) => {
                        out.push(s.clone());
                    },
                    None => {},
                }
                proof {
                    assert(names_of(out@) =~= string_items(opt_texts(items@).take(i + 1)));
                }
                i = i + 1;
            }
            proof {
                assert(opt_texts(items@).take(i as int) =~= opt_texts(items@));
            }
        },
        _ => {
            let mut i: usize = 0;
            while i < default.len()
                invariant
                    i <= default@.len(),
                    out@.len() == i,
                    names_of(out@) == str_views(default@.take(i as int)),
                decreases default@.len() - i,
            {
                let ghost prev = out@;
                let item = default[i].to_owned();
                out.push(item);
                proof {
                    assert forall|k: int| 0 <= k < i + 1 implies #[trigger] names_of(out@)[k]
                        == str_views(default@.take(i + 1))[k] by {
                        if k < i {
                            assert(names_of(prev)[k] == str_views(default@.take(
                                i as int,
                            ))[k]);
                        }
                    }
                    assert(names_of(out@) =~= str_views(default@.take(i + 1)));
                }
                i = i + 1;
            }
            proof {
                assert(default@.take(i as int) =~= default@);
            }
        },
    }
    out
}

/// `v` capped at `i32::MAX`.
pub fn clamp_i32(v: u64) -> (r: i32)
    ensures
        r as int == if v <= i32::MAX as u64 {
            v as int
        } else {
            i32::MAX as int
        },
{
    if v <= 0x7FFF_FFFF {
        v as i32
    } else {
        0x7FFF_FFFF
    }
}

/// `s` without any number of leading `"0x"`.
pub open spec fn strip_all_0x(s: Seq<char>) -> Seq<char>
    decreases s.len(),
{
    if s.len() >= 2 && s[0] == '0' && s[1] == 'x' {
        strip_all_0x(s.skip(2))
    } else {
        s
    }
}

/// The I2C address written as hexadecimal after any number of `0x`
/// prefixes (`"0x3C"`), if it is a byte.
pub fn parse_i2c_addr(s: &str) -> (r: Option<u8>)
    ensures
        match r {
            Some(a) => parse_unsigned(strip_all_0x(s@), 16, 255) == Some(a as nat),
            None => parse_unsigned(strip_all_0x(s@), 16, 255) is None,
        },
{
    let v = str_chars(s);
    let mut a: usize = 0;
    proof {
        assert(v@.skip(0) =~= v@);
    }
    while a < v.len() && v.len() - a >= 2 && v[a] == '0' && v[a + 1] == 'x'
        invariant
            a <= v@.len(),
            strip_all_0x(v@) == strip_all_0x(v@.skip(a as int)),
        decreases v@.len() - a,
    {
        proof {
            assert(v@.skip(a as int).skip(2) =~= v@.skip(a + 2));
        }
        a = a + 2;
    }
    let rest = slice_chars(&v, a, v.len());
    proof {
        assert(rest@ =~= v@.skip(a as int));
    }
    match parse_unsigned_chars(&rest, 16, 255) {
        Some(b) => Some(b as u8),
        None => None,
    }
}

/// What the `toml` crate reads from the settings text `text`: `None` when
/// it is no TOML document.
pub uninterp spec fn toml_settings(text: Seq<char>) -> Option<ConfigView>;

/// Parses `text` with `toml`'s `str::parse::<toml::Table>`. Its result, a
/// function of the text alone, is named by [`toml_settings`]; the table is
/// taken over entry by entry in `toml`'s order, a nested table as a section,
/// strings, integers and arrays as values and any other value as
/// `ConfigScalar::Other`.
#[verifier::external_body]
pub(crate) fn parse_settings(text: &str) -> (r: Option<ConfigTable>)
    ensures
        match r {
            Some(t) => toml_settings(text@) == Some(t@),
            None => toml_settings(text@) is None,
        },
{
    let t = text.parse::<Table>().ok()?;
    let sc = |v: Value| match v {
        Value::String(x) => ConfigScalar::Str(x),
        Value::Integer(i) => ConfigScalar::Int(i),
        Value::Array(a) => ConfigScalar::List(a.iter().map(|x| x.as_str().map(String::from)).collect()),
        _ => ConfigScalar::Other,
    };
    Some(ConfigTable { entries: t.into_iter().map(|(k, v)| (k, match v {
        Value::Table(m) => ConfigEntry::Section(m.into_iter().map(|(n, x)| (n, sc(x))).collect()),
        _ => ConfigEntry::Value(sc(v)),
    })).collect() })
}

/// The settings from the text of the settings file (`None` when no file was
/// found): what it parses to, and no entries when it does not parse.
pub fn load(text: Option<&str>) -> (r: ConfigTable)
    ensures
        r@ == match text {
            Some(t) => match toml_settings(t@) {
                Some(c) => c,
                None => empty_settings(),
            },
            None => empty_settings(),
        },
{
    match text {
        Some(t) => match parse_settings(t) {
            Some(c) => c,
            None => ConfigTable::empty(),
        },
        None => ConfigTable::empty(),
    }
}

/// The integer settings of the program.
#[derive(Debug, Clone, Copy, PartialEq, Eq, Structural)]
pub struct IntSettings {
    pub i2c_bus: u8,
    pub i2c_addr: u8,
    pub night_begin: u8,
    pub night_end: u8,
    pub night_contrast: u8,
    pub blink_interval: u64,
    pub poll_interval_ms: i32,
    pub boot_frame_ms: i32,
    pub done_frame_ms: i32,
    pub shutdown_frame_ms: u64,
    pub malloc_trim_secs: u64,
    pub notify_duration_secs: u64,
    pub ssh_poll_secs: u64,
    pub ssh_renotify_secs: u64,
    pub ip_poll_secs: u64,
}

/// The `u8` setting under `key`, or `default`.
pub open spec fn u8_setting(c: ConfigView, key: Seq<char>, default: u8) -> u8 {
    int_or(c, key, 0, 255, default as int) as u8
}

/// The `u64` setting under `key`, or `default`.
pub open spec fn u64_setting(c: ConfigView, key: Seq<char>, default: u64) -> u64 {
    int_or(c, key, 0, u64::MAX as int, default as int) as u64
}

/// `v` capped at `i32::MAX`.
pub open spec fn capped_i32(v: u64) -> i32 {
    if v <= i32::MAX as u64 {
        v as i32
    } else {
        i32::MAX
    }
}

/// The string setting under `key`, or `default`.
pub open spec fn str_setting(c: ConfigView, key: Seq<char>, default: Seq<char>) -> Seq<char> {
    match value_at(c, key) {
        Some(ScalarView::Str(s)) => s,
        _ => default,
    }
}

/// The display's I2C address: `display.i2c_addr` read as hexadecimal after
/// any number of `0x` prefixes (default `"0x3C"`), and `0x3C` when that is
/// no byte.
pub open spec fn addr_setting(c: ConfigView) -> u8 {
    match parse_unsigned(strip_all_0x(str_setting(c, "display.i2c_addr"@, "0x3C"@)), 16, 255) {
        Some(a) => a as u8,
        None => 0x3C,
    }
}

/// Every integer setting: its key and its default (a value of the wrong
/// type or out of range reads as the default); the frame times are capped
/// at `i32::MAX`.
pub open spec fn int_settings(c: ConfigView) -> IntSettings {
    IntSettings {
        i2c_bus: u8_setting(c, "display.i2c_bus"@, 1),
        i2c_addr: addr_setting(c),
        night_begin: u8_setting(c, "display.night_begin"@, 23),
        night_end: u8_setting(c, "display.night_end"@, 7),
        night_contrast: u8_setting(c, "display.night_contrast"@, 40),
        blink_interval: u64_setting(c, "display.blink_interval"@, 6),
        poll_interval_ms: capped_i32(u64_setting(c, "poll.interval_ms"@, 250)),
        boot_frame_ms: capped_i32(u64_setting(c, "boot.frame_ms"@, 250)),
        done_frame_ms: capped_i32(u64_setting(c, "boot.done_ms"@, 400)),
        shutdown_frame_ms: capped_i32(u64_setting(c, "shutdown.frame_ms"@, 200)) as u64,
        malloc_trim_secs: u64_setting(c, "poll.malloc_trim_secs"@, 5),
        notify_duration_secs: u64_setting(c, "notify.duration_secs"@, 2),
        ssh_poll_secs: u64_setting(c, "notify.ssh_poll_secs"@, 5),
        ssh_renotify_secs: u64_setting(c, "notify.ssh_renotify_secs"@, 300),
        ip_poll_secs: u64_setting(c, "notify.ip_poll_secs"@, 2),
    }
}

/// The integer settings read from `cfg`.
pub fn runtime_settings(cfg: &ConfigTable) -> (r: IntSettings)
    ensures
        r == int_settings(cfg@),
{
    let addr_text = get_str(cfg, "display.i2c_addr", "0x3C");
    let i2c_addr = match parse_i2c_addr(addr_text.as_str()) {
        Some(a) => a,
        None => 0x3C,
    };
    IntSettings {
        i2c_bus: get_u8(cfg, "display.i2c_bus", 1),
        i2c_addr,
        night_begin: get_u8(cfg, "display.night_begin", 23),
        night_end: get_u8(cfg, "display.night_end", 7),
        night_contrast: get_u8(cfg, "display.night_contrast", 40),
        blink_interval: get_u64(cfg, "display.blink_interval", 6),
        poll_interval_ms: clamp_i32(get_u64(cfg, "poll.interval_ms", 250)),
        boot_frame_ms: clamp_i32(get_u64(cfg, "boot.frame_ms", 250)),
        done_frame_ms: clamp_i32(get_u64(cfg, "boot.done_ms", 400)),
        shutdown_frame_ms: clamp_i32(get_u64(cfg, "shutdown.frame_ms", 200)) as u64,
        malloc_trim_secs: get_u64(cfg, "poll.malloc_trim_secs", 5),
        notify_duration_secs: get_u64(cfg, "notify.duration_secs", 2),
        ssh_poll_secs: get_u64(cfg, "notify.ssh_poll_secs", 5),
        ssh_renotify_secs: get_u64(cfg, "notify.ssh_renotify_secs", 300),
        ip_poll_secs: get_u64(cfg, "notify.ip_poll_secs", 2),
    }
}

/// `cur` with the settings that take effect without a restart read anew
/// from `c`: the night period, the night contrast and the memory-trim
/// interval.
pub open spec fn hot_settings(cur: IntSettings, c: ConfigView) -> IntSettings {
    IntSettings {
        night_begin: u8_setting(c, "display.night_begin"@, 23),
        night_end: u8_setting(c, "display.night_end"@, 7),
        night_contrast: u8_setting(c, "display.night_contrast"@, 40),
        malloc_trim_secs: u64_setting(c, "poll.malloc_trim_secs"@, 5),
        ..cur
    }
}

/// `cur` with the night period, the night contrast and the memory-trim
/// interval read anew from `cfg`; every other setting is kept.
pub fn hot_update(cur: IntSettings, cfg: &ConfigTable) -> (r: IntSettings)
    ensures
        r == hot_settings(cur, cfg@),
{
    IntSettings {
        night_begin: get_u8(cfg, "display.night_begin", 23),
        night_end: get_u8(cfg, "display.night_end", 7),
        night_contrast: get_u8(cfg, "display.night_contrast", 40),
        malloc_trim_secs: get_u64(cfg, "poll.malloc_trim_secs", 5),
        ..cur
    }
}

/// The settings after the settings file changed to `text`: those that
/// take effect without a restart read anew, when the text parses; `None`
/// (the settings stay) when it does not.
pub fn reload_settings(cur: IntSettings, text: &str) -> (r: Option<IntSettings>)
    ensures
        r == match toml_settings(text@) {
            Some(c) => Some(hot_settings(cur, c)),
            None => None,
        },
{
    match parse_settings(text) {
        Some(cfg) => Some(hot_update(cur, &cfg)),
        None => None,
    }
}

/// The file paths and the network interface order of the settings.
pub struct PathSettings {
    pub thermal_path: String,
    pub font_config_path: String,
    pub net_iface_priority: Vec<String>,
}

/// The default order of network interfaces.
pub open spec fn default_ifaces() -> Seq<Seq<char>> {
    seq!["eth0"@, "end0"@, "wlan0"@]
}

/// The paths and interface order read from `cfg`: `path.thermal` (default
/// the first thermal zone), `path.font_config` (default
/// `"configs/font.txt"`) and the string items of `net.iface_priority`
/// (default `eth0`, `end0`, `wlan0`).
pub fn path_settings(cfg: &ConfigTable) -> (r: PathSettings)
    ensures
        r.thermal_path@ == str_setting(cfg@, "path.thermal"@, "/sys/class/thermal/thermal_zone0/temp"@),
        r.font_config_path@ == str_setting(cfg@, "path.font_config"@, "configs/font.txt"@),
        names_of(r.net_iface_priority@) == match value_at(cfg@, "net.iface_priority"@) {
            Some(ScalarView::List(items)) => string_items(items),
            _ => default_ifaces(),
        },
{
    let defaults: [&str; 3] = ["eth0", "end0", "wlan0"];
    proof {
        assert(str_views(defaults@) =~= default_ifaces());
    }
    PathSettings {
        thermal_path: get_str(cfg, "path.thermal", "/sys/class/thermal/thermal_zone0/temp"),
        font_config_path: get_str(cfg, "path.font_config", "configs/font.txt"),
        net_iface_priority: get_str_list(cfg, "net.iface_priority", &defaults),
    }
}

/// Without a settings file every integer setting has its default: I2C bus
/// 1 at address `0x3C`, night from 23 to 7 at contrast 40, a blink every 6
/// frames, 250 ms frames, 250 ms boot steps, 400 ms for the last one,
/// 200 ms shutdown steps, memory trimmed every 5 s, notifications shown for
/// 2 s, SSH read every 5 s and announced again after 300 s, addresses
/// checked every 2 s.
pub proof fn law_defaults_without_settings()
    ensures
        int_settings(empty_settings()) == (IntSettings {
            i2c_bus: 1,
            i2c_addr: 0x3C,
            night_begin: 23,
            night_end: 7,
            night_contrast: 40,
            blink_interval: 6,
            poll_interval_ms: 250,
            boot_frame_ms: 250,
            done_frame_ms: 400,
            shutdown_frame_ms: 200,
            malloc_trim_secs: 5,
            notify_duration_secs: 2,
            ssh_poll_secs: 5,
            ssh_renotify_secs: 300,
            ip_poll_secs: 2,
        }),
{
    reveal_strlit("0x3C");
    let s = "0x3C"@;
    assert(s.skip(2) =~= seq!['3', 'C']);
    assert(strip_all_0x(seq!['3', 'C']) == seq!['3', 'C']);
    assert(strip_all_0x(s) == seq!['3', 'C']);
    let d = seq!['3', 'C'];
    assert(d.drop_last() =~= seq!['3']);
    assert(seq!['3'].drop_last() =~= Seq::<char>::empty());
    assert(digits_value(Seq::<char>::empty(), 16) == 0);
    assert(digit_val('3') == 3);
    assert(digit_val('C') == 12);
    assert(seq!['3'].last() == '3');
    assert(d.last() == 'C');
    assert(digits_value(seq!['3'], 16) == 3);
    assert(digits_value(d, 16) == 0x3C);
    assert(all_digits(d, 16));
    assert(parse_unsigned(d, 16, 255) == Some(0x3Cnat));
}

} // verus!
