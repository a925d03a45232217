//! Bounded formatting of the metric rows: label on the left, value on the
//! right, padded with spaces to 14 characters (70 px at 5 px per character).

use vstd::prelude::*;

use crate::utils::chars::{str_chars, string_from_chars, trim, trim_chars};
use crate::utils::number::{
    dec, f64_scale, fixed0, fixed0_chars, fixed1, fixed1_chars, lemma_dec_len, lemma_dec_len_pow,
    pad_left, pow10, push_all, push_dec, push_fixed0, push_padded, round_half_even, to_f64,
    u64_to_f64_value,
};

verus! {

/// Characters that fit one metric row.
pub const ROW_CHARS: usize = 14;

/// `n` spaces.
pub open spec fn spaces(n: nat) -> Seq<char> {
    Seq::new(n, |i: int| ' ')
}

/// `label` on the left and `value` on the right of a 14-character row; when
/// they do not fit they are simply joined.
pub open spec fn aligned(label: Seq<char>, value: Seq<char>) -> Seq<char> {
    if label.len() + value.len() >= 14 {
        label + value
    } else {
        label + spaces((14 - label.len() - value.len()) as nat) + value
    }
}

/// `"RAM"`.
pub open spec fn ram_label() -> Seq<char> {
    seq!['R', 'A', 'M']
}

/// `"Disk"`.
pub open spec fn disk_label() -> Seq<char> {
    seq!['D', 'i', 's', 'k']
}

/// Value part of the RAM row: used and total in MiB, or in GiB once either
/// reaches 10,000,000 KiB (`{:4.0}/{:.0}` of the values as `f64`).
pub open spec fn ram_value(used_kb: nat, total_kb: nat) -> Seq<char> {
    let big = (if used_kb > total_kb {
        used_kb
    } else {
        total_kb
    }) >= 10_000_000;
    let d: nat = if big {
        1_048_576
    } else {
        1024
    };
    pad_left(fixed0(to_f64(used_kb), d), 4) + seq!['/'] + fixed0(to_f64(total_kb), d) + seq![
        if big {
            'G'
        } else {
            'M'
        },
    ]
}

/// The RAM row.
pub open spec fn ram_text(used_kb: nat, total_kb: nat) -> Seq<char> {
    aligned(ram_label(), ram_value(used_kb, total_kb))
}

/// Value part of the disk row: used (one decimal) and total in GiB, or in
/// TiB once the total reaches 10^12 bytes.
pub open spec fn disk_value(used: nat, total: nat) -> Seq<char> {
    let big = total >= 1_000_000_000_000;
    let d: nat = if big {
        0x100_0000_0000
    } else {
        0x4000_0000
    };
    fixed1(to_f64(used), d) + seq!['/'] + fixed0(to_f64(total), d) + seq![
        if big {
            'T'
        } else {
            'G'
        },
    ]
}

/// The disk row.
pub open spec fn disk_text(used: nat, total: nat) -> Seq<char> {
    aligned(disk_label(), disk_value(used, total))
}

/// Compact memory size of at most five characters for realistic sizes.
pub open spec fn mem_compact(kb: nat) -> Seq<char> {
    let f = to_f64(kb);
    if kb >= 100_000_000 {
        pad_left(fixed0(f, 1_048_576), 3) + seq!['G']
    } else if kb >= 10_000_000 {
        pad_left(fixed1(f, 1_048_576), 3) + seq!['G']
    } else if kb >= 100_000 {
        pad_left(fixed0(f, 1024), 4) + seq!['M']
    } else if kb >= 10_000 {
        pad_left(fixed1(f, 1024), 4) + seq!['M']
    } else {
        pad_left(dec(kb), 4) + seq!['k']
    }
}

/// Compact uptime: seconds, minutes and seconds, hours and minutes, or
/// days and hours.
pub open spec fn uptime_text(s: nat) -> Seq<char> {
    if s < 60 {
        dec(s) + seq!['s']
    } else if s < 3600 {
        dec(s / 60) + seq!['m'] + dec(s % 60) + seq!['s']
    } else if s < 86400 {
        dec(s / 3600) + seq!['h'] + dec((s % 3600) / 60) + seq!['m']
    } else {
        dec(s / 86400) + seq!['d'] + dec((s % 86400) / 3600) + seq!['h']
    }
}

/// Label left, value right, padded to 14 characters.
pub fn align_chars(label: &[char], value: &[char]) -> (r: Vec<char>)
    ensures
        r@ == aligned(label@, value@),
{
    let mut out: Vec<char> = Vec::new();
    push_all(&mut out, label);
    let total = label.len() as u128 + value.len() as u128;
    if total < 14 {
        let pad = 14 - (total as usize);
        let mut k: usize = 0;
        let ghost mid = out@;
        while k < pad
            invariant
                k <= pad,
                out@ == mid + spaces(k as nat),
            decreases pad - k,
        {
            out.push(' ');
            proof {
                assert(spaces((k + 1) as nat) =~= spaces(k as nat).push(' '));
            }
            k = k + 1;
        }
    }
    push_all(&mut out, value);
    proof {
        assert(out@ =~= aligned(label@, value@));
    }
    out
}

/// Label left, value right, padded to 14 characters.
pub fn align(label: &str, value: &str) -> (r: String)
    ensures
        r@ == aligned(label@, value@),
{
    let l = str_chars(label);
    let v = str_chars(value);
    string_from_chars(&align_chars(&l, &v))
}

/// RAM row: `"RAM  1531/3909M"`.
pub fn fmt_ram(used_kb: u64, total_kb: u64) -> (r: String)
    ensures
        r@ == ram_text(used_kb as nat, total_kb as nat),
{
    let max_kb = if used_kb > total_kb {
        used_kb
    } else {
        total_kb
    };
    let big = max_kb >= 10_000_000;
    let d: u128 = if big {
        1_048_576
    } else {
        1024
    };
    let u = fixed0_chars(u64_to_f64_value(used_kb), d);
    let mut value: Vec<char> = Vec::new();
    push_padded(&mut value, &u, 4);
    value.push('/');
    push_fixed0(&mut value, u64_to_f64_value(total_kb), d);
    value.push(
        if big {
            'G'
        } else {
            'M'
        },
    );
    proof {
        assert(value@ =~= ram_value(used_kb as nat, total_kb as nat));
    }
    let label = vec!['R', 'A', 'M'];
    proof {
        assert(label@ =~= ram_label());
    }
    string_from_chars(&align_chars(&label, &value))
}

/// Disk row from the used and total bytes of the root file system:
/// `"Disk  4.2/29G"`.
pub fn fmt_disk(used: u64, total: u64) -> (r: String)
    ensures
        r@ == disk_text(used as nat, total as nat),
{
    let big = total >= 1_000_000_000_000;
    let d: u128 = if big {
        0x100_0000_0000
    } else {
        0x4000_0000
    };
    let mut value = fixed1_chars(u64_to_f64_value(used), d);
    value.push('/');
    push_fixed0(&mut value, u64_to_f64_value(total), d);
    value.push(
        if big {
            'T'
        } else {
            'G'
        },
    );
    proof {
        assert(value@ =~= disk_value(used as nat, total as nat));
    }
    let label = vec!['D', 'i', 's', 'k'];
    proof {
        assert(label@ =~= disk_label());
    }
    string_from_chars(&align_chars(&label, &value))
}

/// Compact memory size (`{:4}k`, `{:4.1}M`, `{:4.0}M`, `{:3.1}G`, `{:3.0}G`).
pub fn fmt_mem_compact_chars(kb: u64) -> (r: Vec<char>)
    ensures
        r@ == mem_compact(kb as nat),
{
    let f = u64_to_f64_value(kb);
    let mut out: Vec<char> = Vec::new();
    if kb >= 100_000_000 {
        let t = fixed0_chars(f, 1_048_576);
        push_padded(&mut out, &t, 3);
        out.push('G');
    } else if kb >= 10_000_000 {
        let t = fixed1_chars(f, 1_048_576);
        push_padded(&mut out, &t, 3);
        out.push('G');
    } else if kb >= 100_000 {
        let t = fixed0_chars(f, 1024);
        push_padded(&mut out, &t, 4);
        out.push('M');
    } else if kb >= 10_000 {
        let t = fixed1_chars(f, 1024);
        push_padded(&mut out, &t, 4);
        out.push('M');
    } else {
        let mut t: Vec<char> = Vec::new();
        push_dec(&mut t, kb);
        push_padded(&mut out, &t, 4);
        out.push('k');
    }
    proof {
        assert(out@ =~= mem_compact(kb as nat));
    }
    out
}

/// Compact memory size as a string.
pub fn fmt_mem_compact(kb: u64) -> (r: String)
    ensures
        r@ == mem_compact(kb as nat),
{
    string_from_chars(&fmt_mem_compact_chars(kb))
}

/// Compact uptime: `"0s"`, `"59s"`, `"5m30s"`, `"2h15m"`, `"30d12h"`.
pub fn fmt_uptime(secs: u64) -> (r: String)
    ensures
        r@ == uptime_text(secs as nat),
{
    let s = secs;
    let mut out: Vec<char> = Vec::new();
    if s < 60 {
        push_dec(&mut out, s);
        out.push('s');
    } else if s < 3600 {
        push_dec(&mut out, s / 60);
        out.push('m');
        push_dec(&mut out, s % 60);
        out.push('s');
    } else if s < 86400 {
        push_dec(&mut out, s / 3600);
        out.push('h');
        push_dec(&mut out, (s % 3600) / 60);
        out.push('m');
    } else {
        push_dec(&mut out, s / 86400);
        out.push('d');
        push_dec(&mut out, (s % 86400) / 3600);
        out.push('h');
    }
    proof {
        assert(out@ =~= uptime_text(secs as nat));
    }
    string_from_chars(&out)
}


/// `{:02}`: the decimal digits of `n`, with a leading zero below ten.
pub open spec fn two_digits(n: nat) -> Seq<char> {
    if n < 10 {
        seq!['0'] + dec(n)
    } else {
        dec(n)
    }
}

/// Wall-clock text from the local hour and minute, `"--:--"` when the
/// local time is unknown.
pub open spec fn clock_text(clock: Option<(u32, u32)>) -> Seq<char> {
    match clock {
        Some((h, m)) => two_digits(h as nat) + seq![':'] + two_digits(m as nat),
        None => seq!['-', '-', ':', '-', '-'],
    }
}

fn push_two_digits(out: &mut Vec<char>, n: u32)
    ensures
        final(out)@ == old(out)@ + two_digits(n as nat),
{
    if n < 10 {
        out.push('0');
    }
    push_dec(out, n as u64);
}

/// Local wall-clock time `"14:30"` from the hour and minute of the local
/// time, or `"--:--"` when it could not be had.
pub fn fmt_clock(clock: Option<(u32, u32)>) -> (r: String)
    ensures
        r@ == clock_text(clock),
{
    let mut out: Vec<char> = Vec::new();
    match clock {
        Some((h, m)) => {
            push_two_digits(&mut out, h);
            out.push(':');
            push_two_digits(&mut out, m);
        },
        None => {
            out.push('-');
            out.push('-');
            out.push(':');
            out.push('-');
            out.push('-');
        },
    }
    proof {
        assert(out@ =~= clock_text(clock));
    }
    string_from_chars(&out)
}

proof fn lemma_dec_u64_len(n: nat)
    requires
        n <= u64::MAX,
    ensures
        dec(n).len() <= 20,
{
    reveal_with_fuel(pow10, 21);
    assert(pow10(20) == 100_000_000_000_000_000_000nat);
    lemma_dec_len_pow(n, 20);
}

/// The uptime and clock texts of the status bar are short: at most 42
/// and 21 characters.
pub proof fn lemma_status_texts_short(secs: u64, clock: Option<(u32, u32)>)
    ensures
        uptime_text(secs as nat).len() <= 42,
        clock_text(clock).len() <= 21,
{
    let s = secs as nat;
    lemma_dec_u64_len(s);
    lemma_dec_u64_len(s / 60);
    lemma_dec_u64_len(s % 60);
    lemma_dec_u64_len(s / 3600);
    lemma_dec_u64_len((s % 3600) / 60);
    lemma_dec_u64_len(s / 86400);
    lemma_dec_u64_len((s % 86400) / 3600);
    if let Some((h, m)) = clock {
        assert(pow10(10) == 10_000_000_000nat) by {
            reveal_with_fuel(pow10, 11);
        }
        lemma_dec_len_pow(h as nat, 10);
        lemma_dec_len_pow(m as nat, 10);
    }
}

/// Own-process row: resident memory (compact) and the CPU share text
/// (formatted by the caller), `"Me 1584k  0.0%"`.
pub open spec fn self_text(rss_kb: nat, cpu: Seq<char>) -> Seq<char> {
    aligned(seq!['M', 'e'], mem_compact(rss_kb) + seq![' ', ' '] + cpu)
}

/// Own-process row from the resident memory in KiB and the CPU share
/// text (`"0.0%"`, `"100%"`).
pub fn fmt_self(rss_kb: u64, cpu: &str) -> (r: String)
    ensures
        r@ == self_text(rss_kb as nat, cpu@),
{
    let mut value = fmt_mem_compact_chars(rss_kb);
    value.push(' ');
    value.push(' ');
    let c = str_chars(cpu);
    push_all(&mut value, &c);
    let label = vec!['M', 'e'];
    proof {
        assert(label@ =~= seq!['M', 'e']);
        assert(value@ =~= mem_compact(rss_kb as nat) + seq![' ', ' '] + cpu@);
    }
    string_from_chars(&align_chars(&label, &value))
}

/// Thread count shown, at most 99.
pub open spec fn shown_threads(threads: nat) -> nat {
    if threads > 99 {
        99
    } else {
        threads
    }
}

/// Threads and network row: `"Th" + threads` on the left, `"↑" + sent +
/// "↓" + received` (rate texts trimmed) on the right.
pub open spec fn net_th_text(tx: Seq<char>, rx: Seq<char>, threads: nat) -> Seq<char> {
    aligned(seq!['T', 'h'] + dec(shown_threads(threads)), seq!['↑'] + trim(tx) + seq!['↓'] + trim(rx))
}

/// Threads and network row from the sent and received rate texts
/// (formatted by the caller) and the thread count (shown up to 99).
pub fn fmt_net_th(tx: &str, rx: &str, threads: u32) -> (r: String)
    ensures
        r@ == net_th_text(tx@, rx@, threads as nat),
{
    let shown = if threads > 99 {
        99
    } else {
        threads
    };
    let mut label = vec!['T', 'h'];
    push_dec(&mut label, shown as u64);
    let mut value = vec!['↑'];
    let t = trim_chars(&str_chars(tx));
    push_all(&mut value, &t);
    value.push('↓');
    let r = trim_chars(&str_chars(rx));
    push_all(&mut value, &r);
    proof {
        assert(label@ =~= seq!['T', 'h'] + dec(shown_threads(threads as nat)));
        assert(value@ =~= seq!['↑'] + trim(tx@) + seq!['↓'] + trim(rx@));
    }
    string_from_chars(&align_chars(&label, &value))
}

/// Arrow for the temperature trend: up for 1, down for -1, none otherwise.
pub open spec fn trend_arrow(trend: i8) -> Seq<char> {
    if trend == 1 {
        seq!['↑']
    } else if trend == -1 {
        seq!['↓']
    } else {
        seq![]
    }
}

/// CPU row: the trend arrow against the temperature text, then, when the
/// frequency is known, `" "`, `"!"` if throttled, and the frequency text.
pub open spec fn cpu_temp_freq_text(temp: Seq<char>, freq: Option<Seq<char>>, trend: i8, throttling: bool) -> Seq<char> {
    let v = match freq {
        Some(f) => trend_arrow(trend) + temp + seq!['°', 'C', ' '] + (if throttling {
            seq!['!']
        } else {
            seq![]
        }) + f,
        None => trend_arrow(trend) + temp + seq!['°', 'C'],
    };
    aligned(seq!['C', 'P', 'U'], v)
}

/// CPU row from the temperature text, the frequency text (`None` when the
/// frequency is unknown), the temperature trend and whether the CPU is
/// throttled; the numbers are formatted by the caller.
pub fn fmt_cpu_temp_freq(temp: &str, freq: Option<&str>, trend: i8, throttling: bool) -> (r: String)
    ensures
        r@ == cpu_temp_freq_text(temp@, match freq {
            Some(f) => Some(f@),
            None => None,
        }, trend, throttling),
{
    let mut v: Vec<char> = Vec::new();
    if trend == 1 {
        v.push('↑');
    } else if trend == -1 {
        v.push('↓');
    }
    let t = str_chars(temp);
    push_all(&mut v, &t);
    v.push('°');
    v.push('C');
    match freq {
        Some(f) => {
            v.push(' ');
            if throttling {
                v.push('!');
            }
            let fc = str_chars(f);
            push_all(&mut v, &fc);
        },
        None => {},
    }
    let label = vec!['C', 'P', 'U'];
    proof {
        assert(label@ =~= seq!['C', 'P', 'U']);
        match freq {
            Some(f) => {
                assert(v@ =~= trend_arrow(trend) + temp@ + seq!['°', 'C', ' '] + (if throttling {
                    seq!['!']
                } else {
                    seq![]
                }) + f@);
            },
            None => {
                assert(v@ =~= trend_arrow(trend) + temp@ + seq!['°', 'C']);
            },
        }
    }
    string_from_chars(&align_chars(&label, &v))
}

/// Padding never shortens: a padded field is as wide as the field or the text.
pub proof fn lemma_pad_left_len(s: Seq<char>, w: nat)
    ensures
        pad_left(s, w).len() == if s.len() < w {
            w
        } else {
            s.len()
        },
{
}

proof fn lemma_to_f64_exact(n: nat)
    requires
        n < 0x20_0000_0000_0000,
    ensures
        to_f64(n) == n,
{
    assert(f64_scale(n, 1) == 1);
}

proof fn lemma_fixed0_len(a: nat, b: nat, k: nat)
    requires
        b > 0,
        k >= 1,
        a / b + 1 < pow10(k),
    ensures
        fixed0(a, b).len() <= k,
{
    lemma_dec_len_pow(round_half_even(a, b), k);
}

proof fn lemma_fixed1_len(a: nat, b: nat, k: nat)
    requires
        b > 0,
        k >= 1,
        ((10 * a) / b + 1) / 10 < pow10(k),
    ensures
        fixed1(a, b).len() <= k + 2,
{
    let t = round_half_even(10 * a, b);
    assert(t <= (10 * a) / b + 1);
    assert(t / 10 <= ((10 * a) / b + 1) / 10) by (nonlinear_arith)
        requires
            t <= (10 * a) / b + 1,
    ;
    lemma_dec_len_pow(t / 10, k);
    lemma_dec_len(t % 10);
}

/// A metric row is exactly 14 characters wide unless its label and value
/// together are longer, in which case nothing is dropped.
pub proof fn law_aligned_width(label: Seq<char>, value: Seq<char>)
    ensures
        aligned(label, value).len() == if label.len() + value.len() < 14 {
            14
        } else {
            label.len() + value.len()
        },
        label.len() + value.len() <= 14 ==> aligned(label, value).len() == 14,
{
}

/// The RAM row fits its 14 characters for every size below 10^10 KiB.
pub proof fn law_ram_row_fits(used_kb: nat, total_kb: nat)
    requires
        used_kb < 10_000_000_000,
        total_kb < 10_000_000_000,
    ensures
        ram_text(used_kb, total_kb).len() == 14,
{
    lemma_to_f64_exact(used_kb);
    lemma_to_f64_exact(total_kb);
    assert(pow10(4) == 10000) by {
        reveal_with_fuel(pow10, 5);
    }
    let big = (if used_kb > total_kb {
        used_kb
    } else {
        total_kb
    }) >= 10_000_000;
    if big {
        lemma_fixed0_len(used_kb, 1_048_576, 4);
        lemma_fixed0_len(total_kb, 1_048_576, 4);
    } else {
        lemma_fixed0_len(used_kb, 1024, 4);
        lemma_fixed0_len(total_kb, 1024, 4);
    }
    let d: nat = if big {
        1_048_576
    } else {
        1024
    };
    lemma_pad_left_len(fixed0(used_kb, d), 4);
    assert(ram_value(used_kb, total_kb).len() <= 10);
}

/// The disk row fits its 14 characters whenever the used bytes do not
/// exceed the total and the total is below 10^15 bytes.
pub proof fn law_disk_row_fits(used: nat, total: nat)
    requires
        used <= total,
        total < 1_000_000_000_000_000,
    ensures
        disk_text(used, total).len() == 14,
{
    lemma_to_f64_exact(used);
    lemma_to_f64_exact(total);
    assert(pow10(3) == 1000) by {
        reveal_with_fuel(pow10, 4);
    }
    if total >= 1_000_000_000_000 {
        lemma_fixed1_len(used, 0x100_0000_0000, 3);
        lemma_fixed0_len(total, 0x100_0000_0000, 3);
    } else {
        lemma_fixed1_len(used, 0x4000_0000, 3);
        lemma_fixed0_len(total, 0x4000_0000, 3);
    }
    assert(disk_value(used, total).len() <= 10);
}

/// The compact memory size has at most five characters for every size up
/// to 10^10 KiB.
pub proof fn law_mem_compact_fits(kb: nat)
    requires
        kb <= 10_000_000_000,
    ensures
        mem_compact(kb).len() <= 5,
{
    lemma_to_f64_exact(kb);
    assert(pow10(4) == 10000 && pow10(2) == 100) by {
        reveal_with_fuel(pow10, 5);
    }
    if kb >= 100_000_000 {
        lemma_fixed0_len(kb, 1_048_576, 4);
        lemma_pad_left_len(fixed0(kb, 1_048_576), 3);
    } else if kb >= 10_000_000 {
        lemma_fixed1_len(kb, 1_048_576, 2);
        lemma_pad_left_len(fixed1(kb, 1_048_576), 3);
    } else if kb >= 100_000 {
        lemma_fixed0_len(kb, 1024, 4);
        lemma_pad_left_len(fixed0(kb, 1024), 4);
    } else if kb >= 10_000 {
        lemma_fixed1_len(kb, 1024, 2);
        lemma_pad_left_len(fixed1(kb, 1024), 4);
    } else {
        lemma_dec_len_pow(kb, 4);
        lemma_pad_left_len(dec(kb), 4);
    }
}

/// The own-process row is exactly 14 characters for resident sizes up to
/// 10^10 KiB and CPU texts of at most 5 characters (`"99.9%"`, `"100%"`).
pub proof fn law_self_row_fits(rss_kb: nat, cpu: Seq<char>)
    requires
        rss_kb <= 10_000_000_000,
        cpu.len() <= 5,
    ensures
        self_text(rss_kb, cpu).len() == 14,
{
    law_mem_compact_fits(rss_kb);
    law_aligned_width(seq!['M', 'e'], mem_compact(rss_kb) + seq![' ', ' '] + cpu);
}

/// The threads and network row is exactly 14 characters when each rate
/// text is at most 4 characters after trimming, whatever the thread count.
pub proof fn law_net_th_row_fits(tx: Seq<char>, rx: Seq<char>, threads: nat)
    requires
        trim(tx).len() <= 4,
        trim(rx).len() <= 4,
    ensures
        net_th_text(tx, rx, threads).len() == 14,
{
    lemma_dec_len(shown_threads(threads));
    law_aligned_width(
        seq!['T', 'h'] + dec(shown_threads(threads)),
        seq!['↑'] + trim(tx) + seq!['↓'] + trim(rx),
    );
}

/// The CPU row fits its 14 characters for temperature texts of at most 3
/// characters and frequency texts of at most 4 (at most 2 when throttled,
/// where the warning mark takes a column).
pub proof fn law_cpu_row_fits(temp: Seq<char>, freq: Option<Seq<char>>, trend: i8, throttling: bool)
    requires
        temp.len() <= 3,
        freq matches Some(f) ==> f.len() <= if throttling {
            2int
        } else {
            4int
        },
    ensures
        cpu_temp_freq_text(temp, freq, trend, throttling).len() == 14,
{
    let v = match freq {
        Some(f) => trend_arrow(trend) + temp + seq!['°', 'C', ' '] + (if throttling {
            seq!['!']
        } else {
            seq![]
        }) + f,
        None => trend_arrow(trend) + temp + seq!['°', 'C'],
    };
    law_aligned_width(seq!['C', 'P', 'U'], v);
}

} // verus!
