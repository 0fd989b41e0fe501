//! Time codes: from a time string to milliseconds.
//!
//! Two families of forms are read. A string that ends in `s` is a number of
//! seconds with an optional fraction, rounded to the nearest millisecond.
//! Any other string is a clock time `HH:MM:SS`, `MM:SS` or `SS`, whose
//! seconds may carry a fraction of one to three digits.

use crate::error::{invalid_time, invalid_time_message, ConvertError};
use crate::text::{chars_of, index_of, lemma_index_of_is};
use vstd::prelude::*;

verus! {

/// An ASCII decimal digit.
pub open spec fn is_digit(c: char) -> bool {
    0x30 <= c as u32 <= 0x39
}

/// The number that a digit stands for.
pub open spec fn digit_value(c: char) -> nat {
    (c as u32 - 0x30) as nat
}

/// Every character of `s` is a digit.
pub open spec fn all_digits(s: Seq<char>) -> bool {
    forall|i: int| 0 <= i < s.len() ==> is_digit(#[trigger] s[i])
}

/// The number written by the digits of `s`, most significant first.
pub open spec fn decimal_value(s: Seq<char>) -> nat
    decreases s.len(),
{
    if s.len() == 0 {
        0
    } else {
        decimal_value(s.drop_last()) * 10 + digit_value(s.last())
    }
}

/// The value of a non-empty string of digits, if it fits 64 bits.
pub open spec fn bounded_digits(s: Seq<char>) -> Option<u64> {
    if s.len() > 0 && all_digits(s) && decimal_value(s) <= u64::MAX {
        Some(decimal_value(s) as u64)
    } else {
        None
    }
}

/// The value of an unsigned integer literal: digits, which a `+` may precede.
pub open spec fn unsigned_value(s: Seq<char>) -> Option<u64> {
    if s.len() > 0 && s[0] == '+' {
        bounded_digits(s.drop_first())
    } else {
        bounded_digits(s)
    }
}

/// The milliseconds that a clock fraction of one to three digits stands for:
/// the digits are left-justified, so `4` is 400 and `45` is 450.
pub open spec fn fraction_millis(f: Seq<char>) -> Option<u64> {
    if 1 <= f.len() <= 3 && all_digits(f) {
        let scale: nat = if f.len() == 1 {
            100
        } else if f.len() == 2 {
            10
        } else {
            1
        };
        Some((decimal_value(f) * scale) as u64)
    } else {
        None
    }
}

/// The seconds component of a clock time: whole seconds and milliseconds.
pub open spec fn clock_seconds(s: Seq<char>) -> Option<(u64, u64)> {
    let dot = index_of(s, '.');
    if dot == s.len() {
        match unsigned_value(s) {
            Some(sec) => Some((sec, 0u64)),
            None => None,
        }
    } else {
        match (unsigned_value(s.subrange(0, dot)), fraction_millis(s.subrange(dot + 1, s.len() as int))) {
            (Some(sec), Some(ms)) => Some((sec, ms)),
            _ => None,
        }
    }
}

/// The total of a clock time in milliseconds. Minutes are under 60; seconds
/// are under 60 when a minutes component stands before them; the total fits
/// 64 bits.
pub open spec fn clock_total(hours: u64, minutes: u64, seconds: u64, millis: u64, paired: bool) -> Option<u64> {
    let total = hours * 3_600_000 + minutes * 60_000 + seconds * 1000 + millis;
    if minutes < 60 && (paired ==> seconds < 60) && total <= u64::MAX {
        Some(total as u64)
    } else {
        None
    }
}

/// The value of a clock time `HH:MM:SS[.fff]`, `MM:SS[.fff]` or `SS[.fff]`.
pub open spec fn clock_time(s: Seq<char>) -> Option<u64> {
    let c1 = index_of(s, ':');
    if c1 == s.len() {
        match clock_seconds(s) {
            Some((sec, ms)) => clock_total(0, 0, sec, ms, false),
            None => None,
        }
    } else {
        let first = s.subrange(0, c1);
        let rest = s.subrange(c1 + 1, s.len() as int);
        let c2 = index_of(rest, ':');
        if c2 == rest.len() {
            match (unsigned_value(first), clock_seconds(rest)) {
                (Some(min), Some((sec, ms))) => clock_total(0, min, sec, ms, true),
                _ => None,
            }
        } else {
            let second = rest.subrange(0, c2);
            let third = rest.subrange(c2 + 1, rest.len() as int);
            match (unsigned_value(first), unsigned_value(second), clock_seconds(third)) {
                (Some(h), Some(min), Some((sec, ms))) => clock_total(h, min, sec, ms, true),
                _ => None,
            }
        }
    }
}

/// Ten to the power `n`.
pub open spec fn pow10(n: nat) -> nat
    decreases n,
{
    if n == 0 {
        1
    } else {
        10 * pow10((n - 1) as nat)
    }
}

/// The fraction of a second `0.f` in milliseconds, rounded to the nearest
/// millisecond, a half rounded up.
pub open spec fn rounded_millis(f: Seq<char>) -> nat {
    ((2000 * decimal_value(f) + pow10(f.len())) / (2 * pow10(f.len()))) as nat
}

/// The rounded fraction by its digits: the first three digits, and one more
/// millisecond when the fourth digit is 5 or above.
pub open spec fn millis_by_digits(f: Seq<char>) -> nat {
    let d0 = if f.len() > 0 { digit_value(f[0]) } else { 0 };
    let d1 = if f.len() > 1 { digit_value(f[1]) } else { 0 };
    let d2 = if f.len() > 2 { digit_value(f[2]) } else { 0 };
    let up: nat = if f.len() > 3 && digit_value(f[3]) >= 5 { 1 } else { 0 };
    d0 * 100 + d1 * 10 + d2 + up
}

/// The value of a number of seconds `digits[.digits]`, which a `+` may
/// precede, in milliseconds.
pub open spec fn seconds_value(t: Seq<char>) -> Option<u64> {
    let body = if t.len() > 0 && t[0] == '+' { t.drop_first() } else { t };
    let dot = index_of(body, '.');
    let whole = body.subrange(0, dot);
    let frac = if dot < body.len() { body.subrange(dot + 1, body.len() as int) } else { Seq::<char>::empty() };
    let total = decimal_value(whole) * 1000 + rounded_millis(frac);
    if whole.len() > 0 && all_digits(whole) && (dot < body.len() ==> frac.len() > 0) && all_digits(frac)
        && total <= u64::MAX {
        Some(total as u64)
    } else {
        None
    }
}

/// The milliseconds that a time string stands for, or `None` where it is of
/// no recognised form or its value does not fit 64 bits.
pub open spec fn timecode_ms(s: Seq<char>) -> Option<u64> {
    if s.len() > 0 && s.last() == 's' {
        seconds_value(s.drop_last())
    } else {
        clock_time(s)
    }
}

/// The value of a prefix of a string of digits is at most the value of the whole.
pub proof fn lemma_decimal_prefix(s: Seq<char>, k: int)
    requires
        0 <= k <= s.len(),
    ensures
        decimal_value(s.subrange(0, k)) <= decimal_value(s),
    decreases s.len(),
{
    if k == s.len() {
        assert(s.subrange(0, k) == s);
    } else {
        assert(s.drop_last().subrange(0, k) == s.subrange(0, k));
        lemma_decimal_prefix(s.drop_last(), k);
    }
}

/// A power of ten is positive.
pub proof fn lemma_pow10_positive(n: nat)
    ensures
        pow10(n) > 0,
    decreases n,
{
    if n > 0 {
        lemma_pow10_positive((n - 1) as nat);
    }
}

/// A string of `n` digits stands for a number below ten to the power `n`.
pub proof fn lemma_decimal_bound(s: Seq<char>)
    requires
        all_digits(s),
    ensures
        decimal_value(s) < pow10(s.len()),
    decreases s.len(),
{
    if s.len() > 0 {
        let t = s.drop_last();
        assert forall|i: int| 0 <= i < t.len() implies is_digit(#[trigger] t[i]) by {
            assert(t[i] == s[i]);
        }
        lemma_decimal_bound(t);
        assert(is_digit(s.last()));
    }
}

/// The number that two strings of digits stand for, one after the other.
pub proof fn lemma_decimal_append(a: Seq<char>, b: Seq<char>)
    ensures
        decimal_value(a + b) == decimal_value(a) * pow10(b.len()) + decimal_value(b),
    decreases b.len(),
{
    if b.len() == 0 {
        assert(a + b == a);
        assert(decimal_value(a) * 1 == decimal_value(a)) by (nonlinear_arith);
    } else {
        let c = b.drop_last();
        assert((a + b).drop_last() == a + c);
        assert((a + b).last() == b.last());
        lemma_decimal_append(a, c);
        let x = decimal_value(a) as int;
        let y = decimal_value(c) as int;
        let small = pow10(c.len()) as int;
        let large = pow10(b.len()) as int;
        assert(large == 10 * small);
        assert((x * small + y) * 10 == x * large + y * 10) by (nonlinear_arith)
            requires
                large == 10 * small,
        ;
    }
}

/// The value of up to four digits.
proof fn lemma_decimal_short(f: Seq<char>)
    requires
        f.len() <= 4,
    ensures
        f.len() == 0 ==> decimal_value(f) == 0,
        f.len() == 1 ==> decimal_value(f) == digit_value(f[0]),
        f.len() == 2 ==> decimal_value(f) == digit_value(f[0]) * 10 + digit_value(f[1]),
        f.len() == 3 ==> decimal_value(f) == digit_value(f[0]) * 100 + digit_value(f[1]) * 10 + digit_value(f[2]),
        f.len() == 4 ==> decimal_value(f) == digit_value(f[0]) * 1000 + digit_value(f[1]) * 100 + digit_value(
            f[2],
        ) * 10 + digit_value(f[3]),
    decreases f.len(),
{
    if f.len() > 0 {
        let g = f.drop_last();
        lemma_decimal_short(g);
        if g.len() > 0 {
            assert(g[0] == f[0]);
        }
        if g.len() > 1 {
            assert(g[1] == f[1]);
        }
        if g.len() > 2 {
            assert(g[2] == f[2]);
        }
    }
}

/// A quotient is known from the two multiples of the divisor that enclose
/// the dividend.
proof fn lemma_quotient(a: int, b: int, q: int)
    by (nonlinear_arith)
    requires
        b > 0,
        b * q <= a < b * (q + 1),
    ensures
        a / b == q,
{
}

/// The digits of a fraction give its value rounded to the nearest
/// millisecond, a half rounded up.
pub proof fn lemma_rounded_by_digits(f: Seq<char>)
    requires
        all_digits(f),
    ensures
        rounded_millis(f) == millis_by_digits(f),
{
    let n = f.len();
    let v = decimal_value(f) as int;
    let r = millis_by_digits(f) as int;
    let p = pow10(n) as int;
    lemma_pow10_positive(n);
    if n <= 3 {
        lemma_decimal_short(f);
        assert(pow10(0) == 1);
        assert(pow10(1) == 10);
        assert(pow10(2) == 100);
        assert(pow10(3) == 1000);
        if n == 0 {
            assert(r * p == 1000 * v);
        } else if n == 1 {
            assert(r * p == 1000 * v);
        } else if n == 2 {
            assert(r * p == 1000 * v);
        } else {
            assert(n == 3);
            assert(p == 1000);
            assert(v == digit_value(f[0]) * 100 + digit_value(f[1]) * 10 + digit_value(f[2]));
            assert(r == v);
            assert(r * p == 1000 * v);
        }
        assert((2 * p) * r <= 2000 * v + p < (2 * p) * (r + 1)) by (nonlinear_arith)
            requires
                r * p == 1000 * v,
                p > 0,
        ;
        lemma_quotient(2000 * v + p, 2 * p, r);
    } else {
        let head = f.subrange(0, 4);
        let tail = f.subrange(4, n as int);
        assert(f == head + tail);
        lemma_decimal_append(head, tail);
        lemma_decimal_short(head);
        assert forall|i: int| 0 <= i < tail.len() implies is_digit(#[trigger] tail[i]) by {
            assert(tail[i] == f[i + 4]);
        }
        lemma_decimal_bound(tail);
        let q = pow10(tail.len()) as int;
        let t = decimal_value(tail) as int;
        let d3 = digit_value(f[3]) as int;
        let r0 = (digit_value(f[0]) * 100 + digit_value(f[1]) * 10 + digit_value(f[2])) as int;
        assert(head[0] == f[0] && head[1] == f[1] && head[2] == f[2] && head[3] == f[3]);
        assert(is_digit(f[3]));
        assert(decimal_value(head) == 10 * r0 + d3);
        assert(pow10(4) == 10000) by {
            assert(pow10(0) == 1);
            assert(pow10(1) == 10);
            assert(pow10(2) == 100);
            assert(pow10(3) == 1000);
        }
        assert(n == tail.len() + 4);
        lemma_pow10_split(tail.len(), 4);
        assert(p == q * 10000);
        assert(v == (10 * r0 + d3) * q + t);
        assert((2 * p) * r <= 2000 * v + p < (2 * p) * (r + 1)) by (nonlinear_arith)
            requires
                p == q * 10000,
                v == (10 * r0 + d3) * q + t,
                0 <= t < q,
                0 <= d3 <= 9,
                r == r0 + (if d3 >= 5 { 1int } else { 0int }),
                r0 >= 0,
        ;
        lemma_quotient(2000 * v + p, 2 * p, r);
    }
}

/// Ten to the power of a sum.
proof fn lemma_pow10_split(a: nat, b: nat)
    ensures
        pow10(a + b) == pow10(a) * pow10(b),
    decreases b,
{
    if b == 0 {
        assert(pow10(a) * 1 == pow10(a)) by (nonlinear_arith);
    } else {
        lemma_pow10_split(a, (b - 1) as nat);
        assert(pow10(a) * (10 * pow10((b - 1) as nat)) == 10 * (pow10(a) * pow10((b - 1) as nat)))
            by (nonlinear_arith);
        assert(a + b - 1 == a + (b - 1));
    }
}

fn is_digit_char(c: char) -> (r: bool)
    ensures
        r == is_digit(c),
{
    let n: u32 = c as u32;
    0x30 <= n && n <= 0x39
}

fn digit_of(c: char) -> (d: u64)
    requires
        is_digit(c),
    ensures
        d == digit_value(c),
        d <= 9,
{
    let n: u32 = c as u32;
    (n - 0x30) as u64
}

/// Tells whether `v[from..to]` holds digits only.
fn digits_only(v: &Vec<char>, from: usize, to: usize) -> (r: bool)
    requires
        from <= to <= v.len(),
    ensures
        r == all_digits(v@.subrange(from as int, to as int)),
{
    let mut i: usize = from;
    while i < to
        invariant
            from <= i <= to <= v.len(),
            all_digits(v@.subrange(from as int, i as int)),
        decreases to - i,
    {
        if !is_digit_char(v[i]) {
            assert(v@.subrange(from as int, to as int)[i - from] == v@[i as int]);
            return false;
        }
        assert forall|j: int| 0 <= j < i + 1 - from implies is_digit(
            #[trigger] v@.subrange(from as int, i + 1)[j],
        ) by {
            if j < i - from {
                assert(v@.subrange(from as int, i as int)[j] == v@[from + j]);
            }
        }
        i += 1;
    }
    true
}

/// Reads `v[from..to]` as a non-empty string of digits.
fn parse_digits(v: &Vec<char>, from: usize, to: usize) -> (r: Option<u64>)
    requires
        from <= to <= v.len(),
    ensures
        r == bounded_digits(v@.subrange(from as int, to as int)),
{
    let ghost whole = v@.subrange(from as int, to as int);
    if from == to {
        return None;
    }
    let mut acc: u64 = 0;
    let mut i: usize = from;
    while i < to
        invariant
            from <= i <= to <= v.len(),
            whole == v@.subrange(from as int, to as int),
            all_digits(v@.subrange(from as int, i as int)),
            acc == decimal_value(v@.subrange(from as int, i as int)),
        decreases to - i,
    {
        let c = v[i];
        let ghost next = v@.subrange(from as int, i + 1);
        proof {
            assert(next.drop_last() == v@.subrange(from as int, i as int));
            assert(next.last() == c);
            assert(whole.subrange(0, i + 1 - from) == next);
        }
        if !is_digit_char(c) {
            assert(whole[i - from] == c);
            return None;
        }
        let d = digit_of(c);
        if acc > (u64::MAX - d) / 10 {
            proof {
                assert(decimal_value(next) > u64::MAX);
                lemma_decimal_prefix(whole, i + 1 - from);
            }
            return None;
        }
        acc = acc * 10 + d;
        assert forall|j: int| 0 <= j < next.len() implies is_digit(#[trigger] next[j]) by {
            if j < i - from {
                assert(v@.subrange(from as int, i as int)[j] == v@[from + j]);
            }
        }
        i += 1;
    }
    Some(acc)
}

/// Reads `v[from..to]` as an unsigned integer literal.
fn parse_unsigned(v: &Vec<char>, from: usize, to: usize) -> (r: Option<u64>)
    requires
        from <= to <= v.len(),
    ensures
        r == unsigned_value(v@.subrange(from as int, to as int)),
{
    let ghost s = v@.subrange(from as int, to as int);
    if from < to && v[from] == '+' {
        assert(s[0] == v@[from as int]);
        assert(s.drop_first() == v@.subrange(from + 1, to as int));
        parse_digits(v, from + 1, to)
    } else {
        if from < to {
            assert(s[0] == v@[from as int]);
        }
        parse_digits(v, from, to)
    }
}

/// The position of the first `c` in `v[from..to]`, or `to` if there is none.
fn find_char(v: &Vec<char>, from: usize, to: usize, c: char) -> (k: usize)
    requires
        from <= to <= v.len(),
    ensures
        from <= k <= to,
        k - from == index_of(v@.subrange(from as int, to as int), c),
{
    let mut k: usize = from;
    while k < to && v[k] != c
        invariant
            from <= k <= to <= v.len(),
            forall|j: int| from <= j < k ==> v@[j] != c,
        decreases to - k,
    {
        k += 1;
    }
    proof {
        lemma_index_of_is(v@.subrange(from as int, to as int), c, k - from);
    }
    k
}

/// Reads `v[from..to]` as a clock fraction.
fn parse_fraction(v: &Vec<char>, from: usize, to: usize) -> (r: Option<u64>)
    requires
        from <= to <= v.len(),
    ensures
        r == fraction_millis(v@.subrange(from as int, to as int)),
{
    let n = to - from;
    if n == 0 || n > 3 {
        return None;
    }
    match parse_digits(v, from, to) {
        None => {
            proof {
                let f = v@.subrange(from as int, to as int);
                if all_digits(f) {
                    lemma_fraction_bound(f);
                }
            }
            None
        },
        Some(val) => {
            proof {
                lemma_fraction_bound(v@.subrange(from as int, to as int));
            }
            if n == 1 {
                Some(val * 100)
            } else if n == 2 {
                Some(val * 10)
            } else {
                Some(val)
            }
        },
    }
}

/// A string of up to three digits stands for a number below one thousand.
proof fn lemma_fraction_bound(f: Seq<char>)
    requires
        f.len() <= 3,
        all_digits(f),
    ensures
        f.len() == 0 ==> decimal_value(f) == 0,
        f.len() == 1 ==> decimal_value(f) <= 9,
        f.len() == 2 ==> decimal_value(f) <= 99,
        f.len() == 3 ==> decimal_value(f) <= 999,
    decreases f.len(),
{
    if f.len() > 0 {
        let g = f.drop_last();
        assert forall|i: int| 0 <= i < g.len() implies is_digit(#[trigger] g[i]) by {
            assert(g[i] == f[i]);
        }
        lemma_fraction_bound(g);
        assert(is_digit(f.last()));
    }
}

/// Reads `v[from..to]` as the seconds component of a clock time.
fn parse_clock_seconds(v: &Vec<char>, from: usize, to: usize) -> (r: Option<(u64, u64)>)
    requires
        from <= to <= v.len(),
    ensures
        r == clock_seconds(v@.subrange(from as int, to as int)),
{
    let ghost s = v@.subrange(from as int, to as int);
    let dot = find_char(v, from, to, '.');
    if dot == to {
        match parse_unsigned(v, from, to) {
            Some(sec) => Some((sec, 0u64)),
            None => None,
        }
    } else {
        proof {
            assert(s.subrange(0, dot - from) == v@.subrange(from as int, dot as int));
            assert(s.subrange(dot - from + 1, s.len() as int) == v@.subrange(dot + 1, to as int));
        }
        let sec = parse_unsigned(v, from, dot);
        let ms = parse_fraction(v, dot + 1, to);
        match (sec, ms) {
            (Some(sec), Some(ms)) => Some((sec, ms)),
            _ => None,
        }
    }
}

/// Adds the components of a clock time up.
fn total_of(hours: u64, minutes: u64, seconds: u64, millis: u64, paired: bool) -> (r: Option<u64>)
    ensures
        r == clock_total(hours, minutes, seconds, millis, paired),
{
    if minutes >= 60 || (paired && seconds >= 60) {
        return None;
    }
    let total: u128 = (hours as u128) * 3_600_000 + (minutes as u128) * 60_000 + (seconds as u128)
        * 1000 + (millis as u128);
    if total > u64::MAX as u128 {
        None
    } else {
        Some(total as u64)
    }
}

/// Reads the characters as a clock time.
fn parse_clock(v: &Vec<char>) -> (r: Option<u64>)
    ensures
        r == clock_time(v@),
{
    let n = v.len();
    let ghost s = v@;
    assert(v@.subrange(0, n as int) == s);
    let c1 = find_char(v, 0, n, ':');
    if c1 == n {
        match parse_clock_seconds(v, 0, n) {
            Some((sec, ms)) => total_of(0, 0, sec, ms, false),
            None => None,
        }
    } else {
        let ghost rest = s.subrange(c1 + 1, n as int);
        let first = parse_unsigned(v, 0, c1);
        let c2 = find_char(v, c1 + 1, n, ':');
        if c2 == n {
            let secs = parse_clock_seconds(v, c1 + 1, n);
            match (first, secs) {
                (Some(min), Some((sec, ms))) => total_of(0, min, sec, ms, true),
                _ => None,
            }
        } else {
            proof {
                assert(rest.subrange(0, c2 - c1 - 1) == v@.subrange(c1 + 1, c2 as int));
                assert(rest.subrange(c2 - c1, rest.len() as int) == v@.subrange(c2 + 1, n as int));
            }
            let second = parse_unsigned(v, c1 + 1, c2);
            let secs = parse_clock_seconds(v, c2 + 1, n);
            match (first, second, secs) {
                (Some(h), Some(min), Some((sec, ms))) => total_of(h, min, sec, ms, true),
                _ => None,
            }
        }
    }
}

/// Reads `v[0..to]` as a number of seconds.
fn parse_seconds(v: &Vec<char>, to: usize) -> (r: Option<u64>)
    requires
        to <= v.len(),
    ensures
        r == seconds_value(v@.subrange(0, to as int)),
{
    let ghost t = v@.subrange(0, to as int);
    let from: usize = if to > 0 && v[0] == '+' { 1 } else { 0 };
    let ghost body = v@.subrange(from as int, to as int);
    proof {
        if to > 0 {
            assert(t[0] == v@[0]);
        }
        if from == 1 {
            assert(t.drop_first() == body);
        } else {
            assert(t == body);
        }
    }
    let dot = find_char(v, from, to, '.');
    let ghost whole = v@.subrange(from as int, dot as int);
    assert(body.subrange(0, dot - from) == whole);
    let frac_from: usize = if dot < to { dot + 1 } else { to };
    let ghost frac = v@.subrange(frac_from as int, to as int);
    proof {
        if dot < to {
            assert(body.subrange(dot - from + 1, body.len() as int) == frac);
        } else {
            assert(frac == Seq::<char>::empty());
        }
    }
    let whole_value = parse_digits(v, from, dot);
    if dot < to && frac_from == to {
        return None;
    }
    if !digits_only(v, frac_from, to) {
        return None;
    }
    match whole_value {
        None => None,
        Some(sec) => {
            let n = to - frac_from;
            proof {
                lemma_rounded_by_digits(frac);
            }
            let d0: u64 = if n > 0 { digit_of(v[frac_from]) } else { 0 };
            let d1: u64 = if n > 1 { digit_of(v[frac_from + 1]) } else { 0 };
            let d2: u64 = if n > 2 { digit_of(v[frac_from + 2]) } else { 0 };
            let up: u64 = if n > 3 && digit_of(v[frac_from + 3]) >= 5 { 1 } else { 0 };
            let total: u128 = (sec as u128) * 1000 + (d0 * 100 + d1 * 10 + d2 + up) as u128;
            if total > u64::MAX as u128 {
                None
            } else {
                Some(total as u64)
            }
        },
    }
}

/// Converts a time string to milliseconds.
///
/// Returns the value where the string is of a recognised form, and an
/// [`ConvertError::InvalidTime`] that holds the string where it is not.
pub fn parse_ttml_time_to_ms(time_str: &str) -> (r: Result<u64, ConvertError>)
    ensures
        match timecode_ms(time_str@) {
            Some(ms) => r == Ok::<u64, ConvertError>(ms),
            None => r matches Err(ConvertError::InvalidTime(m)) && m@ == invalid_time_message(
                time_str@,
            ),
        },
{
    let v = chars_of(time_str);
    let n = v.len();
    let value = if n > 0 && v[n - 1] == 's' {
        assert(v@.drop_last() == v@.subrange(0, n - 1));
        parse_seconds(&v, n - 1)
    } else {
        parse_clock(&v)
    };
    match value {
        Some(ms) => Ok(ms),
        None => Err(invalid_time(time_str)),
    }
}

} // verus!
