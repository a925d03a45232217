//! Unsigned integer parsing (the rules of `str::parse` and
//! `from_str_radix`) and decimal rendering.

use vstd::prelude::*;

verus! {

/// Value of `c` as a digit (`0-9`, then `a-z` / `A-Z` from 10); 99 for
/// characters that are no digit in any radix.
pub open spec fn digit_val(c: char) -> nat {
    let u = c as u32;
    if 48 <= u && u <= 57 {
        (u - 48) as nat
    } else if 97 <= u && u <= 122 {
        (u - 87) as nat
    } else if 65 <= u && u <= 90 {
        (u - 55) as nat
    } else {
        99
    }
}

/// Every character of `d` is a digit in `radix`.
pub open spec fn all_digits(d: Seq<char>, radix: nat) -> bool {
    forall|i: int| 0 <= i < d.len() ==> #[trigger] digit_val(d[i]) < radix
}

/// Value of the digit string `d` in `radix`.
pub open spec fn digits_value(d: Seq<char>, radix: nat) -> nat
    decreases d.len(),
{
    if d.len() == 0 {
        0
    } else {
        digits_value(d.drop_last(), radix) * radix + digit_val(d.last())
    }
}

/// Unsigned parse as `from_str_radix` does it: an optional `'+'`, then at
/// least one digit, and a value no larger than `max`.
pub open spec fn parse_unsigned(s: Seq<char>, radix: nat, max: nat) -> Option<nat> {
    let d = if s.len() > 0 && s[0] == '+' {
        s.drop_first()
    } else {
        s
    };
    if d.len() > 0 && all_digits(d, radix) && digits_value(d, radix) <= max {
        Some(digits_value(d, radix))
    } else {
        None
    }
}

/// `str::parse::<u64>()`.
pub open spec fn parse_u64(s: Seq<char>) -> Option<nat> {
    parse_unsigned(s, 10, u64::MAX as nat)
}

proof fn lemma_digits_value_grows(d: Seq<char>, k: int, radix: nat)
    requires
        0 <= k <= d.len(),
        radix >= 1,
    ensures
        digits_value(d.take(k), radix) <= digits_value(d, radix),
    decreases d.len() - k,
{
    if k < d.len() {
        lemma_digits_value_grows(d, k + 1, radix);
        assert(d.take(k + 1).drop_last() =~= d.take(k));
        let v = digits_value(d.take(k), radix);
        assert(v * radix >= v) by (nonlinear_arith)
            requires
                radix >= 1,
        ;
    } else {
        assert(d.take(k) =~= d);
    }
}

fn digit_of(c: char) -> (r: u32)
    ensures
        r == digit_val(c),
{
    let u = c as u32;
    if 48 <= u && u <= 57 {
        u - 48
    } else if 97 <= u && u <= 122 {
        u - 87
    } else if 65 <= u && u <= 90 {
        u - 55
    } else {
        99
    }
}

/// Parses `v` as an unsigned number in `radix` no larger than `max`.
pub fn parse_unsigned_chars(v: &[char], radix: u32, max: u64) -> (r: Option<u64>)
    requires
        2 <= radix <= 36,
    ensures
        r matches Some(n) ==> parse_unsigned(v@, radix as nat, max as nat) == Some(n as nat),
        r is None ==> parse_unsigned(v@, radix as nat, max as nat) is None,
{
    let start: usize = if v.len() > 0 && v[0] == '+' {
        1
    } else {
        0
    };
    let ghost d = if v@.len() > 0 && v@[0] == '+' {
        v@.drop_first()
    } else {
        v@
    };
    assert(d =~= v@.skip(start as int));
    if start == v.len() {
        return None;
    }
    let mut acc: u64 = 0;
    let mut i = start;
    while i < v.len()
        invariant
            start <= i <= v@.len(),
            d =~= v@.skip(start as int),
            d == (if v@.len() > 0 && v@[0] == '+' {
                v@.drop_first()
            } else {
                v@
            }),
            d.len() > 0,
            2 <= radix <= 36,
            all_digits(d.take(i - start), radix as nat),
            acc == digits_value(d.take(i - start), radix as nat),
            acc <= max,
        decreases v@.len() - i,
    {
        let dv = digit_of(v[i]);
        let ghost k = i - start;
        proof {
            assert(d.take(k + 1).drop_last() =~= d.take(k));
            assert(d[k] == v@[i as int]);
        }
        if dv >= radix {
            proof {
                assert(digit_val(d[k]) >= radix);
                assert(!all_digits(d, radix as nat));
                assert(parse_unsigned(v@, radix as nat, max as nat) is None);
            }
            return None;
        }
        proof {
            assert(acc as u128 * radix as u128 <= 0xFFFF_FFFF_FFFF_FFFFu128 * 36) by (nonlinear_arith)
                requires
                    acc <= 0xFFFF_FFFF_FFFF_FFFFu64,
                    radix <= 36,
            ;
        }
        let next: u128 = acc as u128 * radix as u128 + dv as u128;
        proof {
            assert(next == digits_value(d.take(k + 1), radix as nat));
        }
        if next > max as u128 {
            proof {
                if all_digits(d, radix as nat) {
                    lemma_digits_value_grows(d, k + 1, radix as nat);
                }
            }
            return None;
        }
        acc = next as u64;
        proof {
            assert forall|t: int| 0 <= t < k + 1 implies #[trigger] digit_val(
                d.take(k + 1)[t],
            ) < radix as nat by {
                if t < k {
                    assert(d.take(k + 1)[t] == d.take(k)[t]);
                }
            }
        }
        i = i + 1;
    }
    proof {
        assert(d.take(v@.len() - start) =~= d);
    }
    Some(acc)
}

/// The characters `'0'` to `'9'`.
pub const DIGIT_CHARS: [char; 10] = ['0', '1', '2', '3', '4', '5', '6', '7', '8', '9'];

/// Decimal digit character of `d < 10`.
pub open spec fn digit_char(d: nat) -> char {
    DIGIT_CHARS@[d as int]
}

/// Decimal rendering of `n` (no sign, no leading zeros).
pub open spec fn dec(n: nat) -> Seq<char>
    decreases n,
{
    if n < 10 {
        seq![digit_char(n)]
    } else {
        dec(n / 10).push(digit_char(n % 10))
    }
}

/// `s` right-aligned in a field of `width` characters (padded with spaces).
pub open spec fn pad_left(s: Seq<char>, width: nat) -> Seq<char> {
    if s.len() < width {
        Seq::new((width - s.len()) as nat, |i: int| ' ') + s
    } else {
        s
    }
}

pub proof fn lemma_dec_len(n: nat)
    ensures
        1 <= dec(n).len(),
        n < 10 ==> dec(n).len() == 1,
        10 <= n < 100 ==> dec(n).len() == 2,
        100 <= n < 1000 ==> dec(n).len() == 3,
        1000 <= n < 10000 ==> dec(n).len() == 4,
        n >= 10 ==> dec(n).len() == dec(n / 10).len() + 1,
    decreases n,
{
    if n >= 10 {
        lemma_dec_len(n / 10);
    }
}

/// `10^k`.
pub open spec fn pow10(k: nat) -> nat
    decreases k,
{
    if k == 0 {
        1
    } else {
        10 * pow10((k - 1) as nat)
    }
}

/// A number below `10^k` has at most `k` decimal digits.
pub proof fn lemma_dec_len_pow(n: nat, k: nat)
    requires
        k >= 1,
        n < pow10(k),
    ensures
        dec(n).len() <= k,
    decreases k,
{
    lemma_dec_len(n);
    if n >= 10 {
        if k == 1 {
            assert(pow10(1) == 10) by {
                reveal_with_fuel(pow10, 2);
            }
        } else {
            let p = pow10((k - 1) as nat);
            assert(n / 10 < p) by (nonlinear_arith)
                requires
                    n < 10 * p,
            ;
            lemma_dec_len_pow(n / 10, (k - 1) as nat);
        }
    }
}

/// Appends the decimal rendering of `n`.
pub fn push_dec(out: &mut Vec<char>, n: u64)
    ensures
        final(out)@ == old(out)@ + dec(n as nat),
    decreases n,
{
    if n < 10 {
        out.push(DIGIT_CHARS[n as usize]);
    } else {
        push_dec(out, n / 10);
        out.push(DIGIT_CHARS[(n % 10) as usize]);
        proof {
            assert(dec(n as nat) == dec((n / 10) as nat).push(digit_char((n % 10) as nat)));
        }
    }
}

/// Decimal rendering of `n`.
pub fn dec_chars(n: u64) -> (r: Vec<char>)
    ensures
        r@ == dec(n as nat),
{
    let mut v: Vec<char> = Vec::new();
    push_dec(&mut v, n);
    assert(v@ =~= dec(n as nat));
    v
}

/// Appends `s` right-aligned in a field of `width` characters.
pub fn push_padded(out: &mut Vec<char>, s: &[char], width: usize)
    ensures
        final(out)@ == old(out)@ + pad_left(s@, width as nat),
{
    let ghost start = out@;
    let mut k = s.len();
    while k < width
        invariant
            s@.len() <= k <= width || (k == s@.len() && k >= width),
            out@ == start + Seq::new((k - s@.len()) as nat, |i: int| ' '),
        decreases width - k,
    {
        out.push(' ');
        proof {
            assert(Seq::new((k + 1 - s@.len()) as nat, |i: int| ' ') =~= Seq::new(
                (k - s@.len()) as nat,
                |i: int| ' ',
            ).push(' '));
        }
        k = k + 1;
    }
    let ghost mid = out@;
    let mut i: usize = 0;
    while i < s.len()
        invariant
            i <= s@.len(),
            out@ == mid + s@.take(i as int),
        decreases s@.len() - i,
    {
        out.push(s[i]);
        proof {
            assert(s@.take(i + 1) =~= s@.take(i as int).push(s@[i as int]));
        }
        i = i + 1;
    }
    proof {
        assert(s@.take(s@.len() as int) =~= s@);
        if s@.len() < width {
            assert(k == width);
            assert(out@ =~= start + pad_left(s@, width as nat));
        } else {
            assert(Seq::new((k - s@.len()) as nat, |i: int| ' ') =~= Seq::<char>::empty());
            assert(out@ =~= start + pad_left(s@, width as nat));
        }
    }
}

/// Appends the characters `s`.
pub fn push_all(out: &mut Vec<char>, s: &[char])
    ensures
        final(out)@ == old(out)@ + s@,
{
    push_padded(out, s, 0);
}


/// `a / b` rounded to the nearest integer, ties to the even one.
pub open spec fn round_half_even(a: nat, b: nat) -> nat {
    let q = a / b;
    let r = a % b;
    if 2 * r > b {
        q + 1
    } else if 2 * r < b {
        q
    } else if q % 2 == 0 {
        q
    } else {
        q + 1
    }
}

/// Smallest power of two `p' >= p` (starting from a power of two `p`) with
/// `n / p' < 2^53`: the spacing of the double-precision values near `n`.
pub open spec fn f64_scale(n: nat, p: nat) -> nat
    decreases n - p,
{
    if p == 0 || n / p < 0x20_0000_0000_0000 {
        p
    } else {
        proof {
            assert(n >= 2 * p) by (nonlinear_arith)
                requires
                    p > 0,
                    n / p >= 0x20_0000_0000_0000,
            ;
        }
        f64_scale(n, 2 * p)
    }
}

/// Value of `n as f64`: `n` rounded to 53 significant bits, ties to even.
pub open spec fn to_f64(n: nat) -> nat {
    let p = f64_scale(n, 1);
    round_half_even(n, p) * p
}

/// `{:.0}` of the exact quotient `a / b`.
pub open spec fn fixed0(a: nat, b: nat) -> Seq<char> {
    dec(round_half_even(a, b))
}

/// `{:.1}` of the exact quotient `a / b`.
pub open spec fn fixed1(a: nat, b: nat) -> Seq<char> {
    let t = round_half_even(10 * a, b);
    dec(t / 10) + seq!['.'] + dec(t % 10)
}

/// `a / b` rounded half to even.
pub fn round_half_even_u128(a: u128, b: u128) -> (r: u128)
    requires
        b > 0,
        a < 0xFFFF_FFFF_FFFF_FFFF_FFFF_FFFF_FFFF_FFFF,
    ensures
        r == round_half_even(a as nat, b as nat),
{
    let q = a / b;
    let rem = a % b;
    proof {
        assert(q * b + rem == a && rem < b) by (nonlinear_arith)
            requires
                b > 0,
                q == a / b,
                rem == a % b,
        ;
        assert(q < 0xFFFF_FFFF_FFFF_FFFF_FFFF_FFFF_FFFF_FFFF) by (nonlinear_arith)
            requires
                b > 0,
                q == a / b,
                a < 0xFFFF_FFFF_FFFF_FFFF_FFFF_FFFF_FFFF_FFFF,
        ;
    }
    if rem > b - rem {
        q + 1
    } else if rem < b - rem {
        q
    } else if q % 2 == 0 {
        q
    } else {
        q + 1
    }
}

/// The spacing of the double-precision values near `n`.
fn f64_spacing(n: u64) -> (p: u64)
    ensures
        p == f64_scale(n as nat, 1),
        1 <= p <= 0x1000,
{
    let mut p: u64 = 1;
    while n / p >= 0x20_0000_0000_0000
        invariant
            1 <= p <= 0x1000,
            f64_scale(n as nat, p as nat) == f64_scale(n as nat, 1),
        decreases n - p,
    {
        proof {
            assert(n >= 0x20_0000_0000_0000 * p) by (nonlinear_arith)
                requires
                    p >= 1,
                    n / p >= 0x20_0000_0000_0000,
            ;
            assert(p < 0x800) by (nonlinear_arith)
                requires
                    p >= 1,
                    n >= 0x20_0000_0000_0000 * p,
                    n <= 0xFFFF_FFFF_FFFF_FFFF,
            ;
        }
        p = p * 2;
    }
    p
}

/// Value of `n as f64`, exactly.
pub fn u64_to_f64_value(n: u64) -> (r: u128)
    ensures
        r == to_f64(n as nat),
        r <= 0x1_0000_0000_0000_1000,
{
    let p = f64_spacing(n);
    let q = round_half_even_u128(n as u128, p as u128);
    proof {
        assert(q <= (n as nat) / (p as nat) + 1);
        assert(q * p <= 0x1_0000_0000_0000_1000) by (nonlinear_arith)
            requires
                p >= 1,
                p <= 0x1000,
                n <= 0xFFFF_FFFF_FFFF_FFFFnat,
                q <= (n as nat) / (p as nat) + 1,
        ;
    }
    q * (p as u128)
}

/// Appends `{:.0}` of `a / b`.
pub fn push_fixed0(out: &mut Vec<char>, a: u128, b: u128)
    requires
        b >= 1024,
        a <= 0x1_0000_0000_0000_1000,
    ensures
        final(out)@ == old(out)@ + fixed0(a as nat, b as nat),
{
    let q = round_half_even_u128(a, b);
    proof {
        assert(q <= a / b + 1);
        assert(a / b <= 0x1_0000_0000_0000_1000nat / 1024) by (nonlinear_arith)
            requires
                b >= 1024,
                a <= 0x1_0000_0000_0000_1000,
        ;
    }
    push_dec(out, q as u64);
}

/// `{:.1}` of `a / b`.
pub fn fixed1_chars(a: u128, b: u128) -> (r: Vec<char>)
    requires
        b >= 1024,
        a <= 0x1_0000_0000_0000_1000,
    ensures
        r@ == fixed1(a as nat, b as nat),
{
    let t = round_half_even_u128(10 * a, b);
    proof {
        assert(t <= (10 * a as int) / (b as int) + 1);
        assert((10 * a as int) / (b as int) <= 0xA_0000_0000_0000_A000int / 1024) by (nonlinear_arith)
            requires
                b >= 1024,
                a <= 0x1_0000_0000_0000_1000,
        ;
    }
    let mut out: Vec<char> = Vec::new();
    push_dec(&mut out, (t / 10) as u64);
    out.push('.');
    push_dec(&mut out, (t % 10) as u64);
    proof {
        assert(out@ =~= fixed1(a as nat, b as nat));
    }
    out
}

/// `{:.0}` of `a / b`.
pub fn fixed0_chars(a: u128, b: u128) -> (r: Vec<char>)
    requires
        b >= 1024,
        a <= 0x1_0000_0000_0000_1000,
    ensures
        r@ == fixed0(a as nat, b as nat),
{
    let mut out: Vec<char> = Vec::new();
    push_fixed0(&mut out, a, b);
    proof {
        assert(out@ =~= fixed0(a as nat, b as nat));
    }
    out
}

} // verus!
