//! Numbers and words in a text, read byte by byte: white
//! space is ASCII white space, letters are compared without regard to case,
//! and numbers are written in decimal.

use vstd::prelude::*;

verus! {

pub open spec fn is_space(b: u8) -> bool {
    b == 0x20 || (0x09 <= b <= 0x0d)
}

pub open spec fn is_digit(b: u8) -> bool {
    0x30 <= b <= 0x39
}

/// The first place from `i` on that holds no white space.
pub open spec fn skip_space(s: Seq<u8>, i: int) -> int
    decreases s.len() - i,
{
    if 0 <= i < s.len() && is_space(s[i]) {
        skip_space(s, i + 1)
    } else {
        i
    }
}

/// The place behind the last byte before `j` that is no white space, not
/// before `start`.
pub open spec fn back_over_space(s: Seq<u8>, start: int, j: int) -> int
    decreases j,
{
    if j > start && 0 < j <= s.len() && is_space(s[j - 1]) {
        back_over_space(s, start, j - 1)
    } else {
        j
    }
}

/// The text without the white space at its ends.
pub open spec fn trimmed(s: Seq<u8>) -> Seq<u8> {
    let a = skip_space(s, 0);
    let b = back_over_space(s, a, s.len() as int);
    if 0 <= a <= b <= s.len() {
        s.subrange(a, b)
    } else {
        Seq::empty()
    }
}

pub fn trim(bytes: &[u8]) -> (out: &[u8])
    ensures
        out@ == trimmed(bytes@),
{
    let mut a: usize = 0;
    while a < bytes.len() && (bytes[a] == 0x20 || (0x09 <= bytes[a] && bytes[a] <= 0x0d))
        invariant
            a <= bytes@.len(),
            skip_space(bytes@, 0) == skip_space(bytes@, a as int),
        decreases bytes@.len() - a,
    {
        a = a + 1;
    }
    let mut b: usize = bytes.len();
    while b > a && (bytes[b - 1] == 0x20 || (0x09 <= bytes[b - 1] && bytes[b - 1] <= 0x0d))
        invariant
            a <= b <= bytes@.len(),
            back_over_space(bytes@, a as int, bytes@.len() as int) == back_over_space(
                bytes@,
                a as int,
                b as int,
            ),
        decreases b,
    {
        b = b - 1;
    }
    vstd::slice::slice_subrange(bytes, a, b)
}

/// The lower-case form of an ASCII letter; any other byte as it is.
pub open spec fn lower(b: u8) -> u8 {
    if 0x41 <= b <= 0x5a {
        (b + 0x20) as u8
    } else {
        b
    }
}

pub open spec fn lowered(s: Seq<u8>) -> Seq<u8> {
    Seq::new(s.len(), |i: int| lower(s[i]))
}

pub fn to_lower(bytes: &[u8]) -> (out: Vec<u8>)
    ensures
        out@ == lowered(bytes@),
{
    let mut out: Vec<u8> = Vec::new();
    let mut i: usize = 0;
    while i < bytes.len()
        invariant
            i <= bytes@.len(),
            out@.len() == i,
            forall|k: int| 0 <= k < i ==> out@[k] == lower(bytes@[k]),
        decreases bytes@.len() - i,
    {
        let b = bytes[i];
        out.push(
            if 0x41 <= b && b <= 0x5a {
                b + 0x20
            } else {
                b
            },
        );
        i = i + 1;
    }
    assert(out@ =~= lowered(bytes@));
    out
}

pub fn bytes_eq(a: &[u8], b: &[u8]) -> (same: bool)
    ensures
        same == (a@ == b@),
{
    if a.len() != b.len() {
        return false;
    }
    let mut i: usize = 0;
    while i < a.len()
        invariant
            i <= a@.len(),
            a@.len() == b@.len(),
            forall|k: int| 0 <= k < i ==> a@[k] == b@[k],
        decreases a@.len() - i,
    {
        if a[i] != b[i] {
            return false;
        }
        i = i + 1;
    }
    assert(a@ =~= b@);
    true
}

/// `pattern` stands in `s` at the place `i`.
pub open spec fn stands_at(s: Seq<u8>, pattern: Seq<u8>, i: int) -> bool {
    0 <= i && i + pattern.len() <= s.len() && s.subrange(i, i + pattern.len()) == pattern
}

/// `s` begins with `head`.
pub open spec fn starts_with(s: Seq<u8>, head: Seq<u8>) -> bool {
    stands_at(s, head, 0)
}

/// `s` ends with `tail`.
pub open spec fn ends_with(s: Seq<u8>, tail: Seq<u8>) -> bool {
    stands_at(s, tail, s.len() - tail.len())
}

pub fn has_prefix(s: &[u8], head: &[u8]) -> (r: bool)
    ensures
        r == starts_with(s@, head@),
{
    head.len() <= s.len() && bytes_eq(vstd::slice::slice_subrange(s, 0, head.len()), head)
}

pub fn has_suffix(s: &[u8], tail: &[u8]) -> (r: bool)
    ensures
        r == ends_with(s@, tail@),
{
    let n = s.len();
    tail.len() <= n && bytes_eq(vstd::slice::slice_subrange(s, n - tail.len(), n), tail)
}

/// `pattern` stands somewhere in `s`.
pub open spec fn contains_bytes(s: Seq<u8>, pattern: Seq<u8>) -> bool {
    exists|i: int| stands_at(s, pattern, i)
}

pub fn contains(s: &[u8], pattern: &[u8]) -> (found: bool)
    ensures
        found == contains_bytes(s@, pattern@),
{
    if pattern.len() > s.len() {
        assert forall|i: int| !stands_at(s@, pattern@, i) by {}
        return false;
    }
    if pattern.len() == 0 {
        assert(s@.subrange(0, 0) =~= pattern@);
        assert(stands_at(s@, pattern@, 0));
        return true;
    }
    let last: usize = s.len() - pattern.len();
    let mut i: usize = 0;
    while i <= last
        invariant
            i <= last + 1,
            last == s@.len() - pattern@.len(),
            pattern@.len() > 0,
            s@.len() <= usize::MAX,
            forall|k: int| 0 <= k < i ==> !stands_at(s@, pattern@, k),
        decreases last + 1 - i,
    {
        let window = vstd::slice::slice_subrange(s, i, i + pattern.len());
        if bytes_eq(window, pattern) {
            assert(stands_at(s@, pattern@, i as int));
            return true;
        }
        i = i + 1;
    }
    assert forall|k: int| !stands_at(s@, pattern@, k) by {
        if 0 <= k && k + pattern@.len() <= s@.len() {
            assert(k < i);
        }
    }
    false
}

/// The number that the decimal digits `s` write. What is not a digit
/// counts as nothing.
pub open spec fn digits_value(s: Seq<u8>) -> nat
    decreases s.len(),
{
    if s.len() == 0 {
        0
    } else {
        digits_value(s.drop_last()) * 10 + (if is_digit(s.last()) {
            (s.last() - 0x30) as nat
        } else {
            0
        })
    }
}

pub open spec fn all_digits(s: Seq<u8>) -> bool {
    forall|i: int| 0 <= i < s.len() ==> is_digit(#[trigger] s[i])
}

/// The whole number that a text writes: a sign, if any, and one decimal
/// digit at least; nothing else.
pub open spec fn integer_of(s: Seq<u8>) -> Option<int> {
    let signed = s.len() > 0 && (s[0] == 0x2b || s[0] == 0x2d);
    let digits = if signed {
        s.subrange(1, s.len() as int)
    } else {
        s
    };
    if digits.len() == 0 || !all_digits(digits) {
        None
    } else if s[0] == 0x2d {
        Some(-(digits_value(digits) as int))
    } else {
        Some(digits_value(digits) as int)
    }
}

/// The number of a text as a 64-bit integer, if it is one.
pub open spec fn i64_of(s: Seq<u8>) -> Option<i64> {
    match integer_of(s) {
        Some(v) => if i64::MIN <= v <= i64::MAX {
            Some(v as i64)
        } else {
            None
        },
        None => None,
    }
}

/// The number of a text as a 32-bit integer, if it is one.
pub open spec fn i32_of(s: Seq<u8>) -> Option<i32> {
    match integer_of(s) {
        Some(v) => if i32::MIN <= v <= i32::MAX {
            Some(v as i32)
        } else {
            None
        },
        None => None,
    }
}

/// The number of a text as a byte, if it is one; a minus sign is not taken.
pub open spec fn u8_of(s: Seq<u8>) -> Option<u8> {
    match integer_of(s) {
        Some(v) => if 0 <= v <= u8::MAX && !(s.len() > 0 && s[0] == 0x2d) {
            Some(v as u8)
        } else {
            None
        },
        None => None,
    }
}

/// What the exec code counts up to; every number that matters is far
/// below.
pub const DIGITS_CAP: u128 = 1_000_000_000_000_000_000_000_000_000_000;

/// The value of a run of digits, as far as it is below the cap.
pub open spec fn capped(v: nat) -> nat {
    if v > DIGITS_CAP {
        (DIGITS_CAP + 1) as nat
    } else {
        v
    }
}

/// Reads the digits of `s` from `from` on. Hands back whether all are
/// digits, and their value, held at the cap.
fn read_digits(s: &[u8], from: usize) -> (r: (bool, u128))
    requires
        from <= s@.len(),
    ensures
        r.0 == all_digits(s@.subrange(from as int, s@.len() as int)),
        r.0 ==> r.1 == capped(digits_value(s@.subrange(from as int, s@.len() as int))),
{
    let ghost digits = s@.subrange(from as int, s@.len() as int);
    let mut acc: u128 = 0;
    let mut i: usize = from;
    assert(digits.subrange(0, 0) =~= Seq::<u8>::empty());
    while i < s.len()
        invariant
            from <= i <= s@.len(),
            digits == s@.subrange(from as int, s@.len() as int),
            all_digits(digits.subrange(0, i - from)),
            acc == capped(digits_value(digits.subrange(0, i - from))),
            acc <= DIGITS_CAP + 1,
        decreases s@.len() - i,
    {
        let b = s[i];
        if !(0x30 <= b && b <= 0x39) {
            assert(digits[i - from] == b);
            return (false, 0);
        }
        proof {
            let next = digits.subrange(0, i - from + 1);
            assert(next.drop_last() =~= digits.subrange(0, i - from));
            assert(next.last() == b);
        }
        acc = if acc > DIGITS_CAP {
            acc
        } else {
            let grown: u128 = acc * 10 + (b - 0x30) as u128;
            if grown > DIGITS_CAP {
                DIGITS_CAP + 1
            } else {
                grown
            }
        };
        i = i + 1;
    }
    assert(digits.subrange(0, digits.len() as int) =~= digits);
    (true, acc)
}

/// The whole number of a text within the bounds `low` and `high`.
fn parse_integer(s: &[u8], low: i128, high: i128) -> (r: Option<i128>)
    requires
        -(DIGITS_CAP as int) <= low <= high <= DIGITS_CAP,
    ensures
        r == (match integer_of(s@) {
            Some(v) => if low <= v <= high {
                Some(v as i128)
            } else {
                None
            },
            None => None,
        }),
{
    let signed = s.len() > 0 && (s[0] == 0x2b || s[0] == 0x2d);
    let from: usize = if signed {
        1
    } else {
        0
    };
    if s.len() == from {
        assert(s@.subrange(from as int, s@.len() as int).len() == 0);
        if !signed {
            assert(s@.subrange(0, s@.len() as int) =~= s@);
        }
        return None;
    }
    if !signed {
        assert(s@.subrange(0, s@.len() as int) =~= s@);
    }
    let (ok, value) = read_digits(s, from);
    if !ok {
        return None;
    }
    if value > DIGITS_CAP {
        return None;
    }
    let v: i128 = if s[0] == 0x2d {
        -(value as i128)
    } else {
        value as i128
    };
    if low <= v && v <= high {
        Some(v)
    } else {
        None
    }
}

pub fn parse_i64(s: &[u8]) -> (r: Option<i64>)
    ensures
        r == i64_of(s@),
{
    match parse_integer(s, i64::MIN as i128, i64::MAX as i128) {
        Some(v) => Some(v as i64),
        None => None,
    }
}

pub fn parse_i32(s: &[u8]) -> (r: Option<i32>)
    ensures
        r == i32_of(s@),
{
    match parse_integer(s, i32::MIN as i128, i32::MAX as i128) {
        Some(v) => Some(v as i32),
        None => None,
    }
}

pub fn parse_u8(s: &[u8]) -> (r: Option<u8>)
    ensures
        r == u8_of(s@),
{
    if s.len() > 0 && s[0] == 0x2d {
        return None;
    }
    match parse_integer(s, 0, u8::MAX as i128) {
        Some(v) => Some(v as u8),
        None => None,
    }
}


/// The most digits that a decimal number is read with.
pub const MAX_DIGITS: usize = 30;

pub open spec fn pow10(n: nat) -> nat
    decreases n,
{
    if n == 0 {
        1
    } else {
        10 * pow10((n - 1) as nat)
    }
}

/// A decimal number: `digits` over ten to the power of `scale`, negative
/// or not.
#[derive(Clone, Copy, Debug, PartialEq, Eq, Structural)]
pub struct Decimal {
    pub negative: bool,
    pub digits: u128,
    pub scale: u32,
}

/// The place of the first full stop from `i` on, or the length.
pub open spec fn find_stop(s: Seq<u8>, i: int) -> int
    decreases s.len() - i,
{
    if 0 <= i < s.len() && s[i] != 0x2e {
        find_stop(s, i + 1)
    } else {
        i
    }
}

/// The decimal number that a text writes: a sign, if any, digits, and
/// digits behind a full stop, if any; one digit at least and thirty at
/// most; nothing else.
pub open spec fn decimal_of(s: Seq<u8>) -> Option<Decimal> {
    let signed = s.len() > 0 && (s[0] == 0x2b || s[0] == 0x2d);
    let body = if signed {
        s.subrange(1, s.len() as int)
    } else {
        s
    };
    let stop = find_stop(body, 0);
    let whole = body.subrange(0, stop);
    let fraction = if stop < body.len() {
        body.subrange(stop + 1, body.len() as int)
    } else {
        Seq::empty()
    };
    if !all_digits(whole) || !all_digits(fraction) || whole.len() + fraction.len() == 0
        || whole.len() + fraction.len() > MAX_DIGITS {
        None
    } else {
        Some(
            Decimal {
                negative: s[0] == 0x2d,
                digits: (digits_value(whole) * pow10(fraction.len()) + digits_value(
                    fraction,
                )) as u128,
                scale: fraction.len() as u32,
            },
        )
    }
}

/// A run of `n` digits writes a number below ten to the power of `n`.
pub proof fn lemma_digits_bound(s: Seq<u8>)
    ensures
        digits_value(s) < pow10(s.len()),
    decreases s.len(),
{
    if s.len() > 0 {
        lemma_digits_bound(s.drop_last());
    }
}

/// Powers of ten rise with the exponent.
pub proof fn lemma_pow10_rises(a: nat, b: nat)
    requires
        a <= b,
    ensures
        pow10(a) <= pow10(b),
        pow10(a) >= 1,
    decreases b,
{
    if a < b {
        lemma_pow10_rises(a, (b - 1) as nat);
    } else if a > 0 {
        lemma_pow10_rises((a - 1) as nat, (a - 1) as nat);
    }
}

/// Ten to the power of thirty is the cap of the digits.
pub proof fn lemma_pow10_cap()
    ensures
        pow10(30) == DIGITS_CAP,
{
    reveal_with_fuel(pow10, 32);
}

fn power_of_ten(n: u32) -> (p: u128)
    requires
        n <= MAX_DIGITS,
    ensures
        p == pow10(n as nat),
        1 <= p <= DIGITS_CAP,
{
    let mut p: u128 = 1;
    let mut i: u32 = 0;
    proof {
        lemma_pow10_cap();
    }
    while i < n
        invariant
            i <= n <= MAX_DIGITS,
            p == pow10(i as nat),
            pow10(30) == DIGITS_CAP,
        decreases n - i,
    {
        proof {
            lemma_pow10_rises((i + 1) as nat, 30);
        }
        p = p * 10;
        i = i + 1;
    }
    proof {
        lemma_pow10_rises(n as nat, 30);
    }
    p
}

pub fn parse_decimal(s: &[u8]) -> (r: Option<Decimal>)
    ensures
        r == decimal_of(s@),
        r matches Some(d) ==> d.scale <= MAX_DIGITS && d.digits <= DIGITS_CAP,
{
    let signed = s.len() > 0 && (s[0] == 0x2b || s[0] == 0x2d);
    let from: usize = if signed {
        1
    } else {
        0
    };
    let body = vstd::slice::slice_subrange(s, from, s.len());
    if !signed {
        assert(body@ =~= s@);
    }
    let mut stop: usize = 0;
    while stop < body.len() && body[stop] != 0x2e
        invariant
            stop <= body@.len(),
            find_stop(body@, 0) == find_stop(body@, stop as int),
        decreases body@.len() - stop,
    {
        stop = stop + 1;
    }
    let whole = vstd::slice::slice_subrange(body, 0, stop);
    let fraction = if stop < body.len() {
        vstd::slice::slice_subrange(body, stop + 1, body.len())
    } else {
        vstd::slice::slice_subrange(body, stop, stop)
    };
    assert(stop >= body@.len() ==> fraction@ =~= Seq::<u8>::empty());
    let (whole_ok, whole_value) = read_digits(whole, 0);
    let (fraction_ok, fraction_value) = read_digits(fraction, 0);
    assert(whole@.subrange(0, whole@.len() as int) =~= whole@);
    assert(fraction@.subrange(0, fraction@.len() as int) =~= fraction@);
    if !whole_ok || !fraction_ok {
        return None;
    }
    if whole.len() > MAX_DIGITS || fraction.len() > MAX_DIGITS - whole.len() || whole.len()
        + fraction.len() == 0 {
        return None;
    }
    let scale: u32 = fraction.len() as u32;
    let unit = power_of_ten(scale);
    proof {
        lemma_digits_bound(whole@);
        lemma_digits_bound(fraction@);
        lemma_pow10_cap();
        lemma_pow10_rises(whole@.len(), 30);
        lemma_pow10_rises(fraction@.len(), 30);
        let w = digits_value(whole@);
        let f = digits_value(fraction@);
        let pw = pow10(whole@.len());
        let pf = pow10(fraction@.len());
        assert(w * pf + f < pw * pf) by (nonlinear_arith)
            requires
                w < pw,
                f < pf,
                pf >= 1,
        ;
        lemma_pow10_adds(whole@.len(), fraction@.len());
        lemma_pow10_rises(whole@.len() + fraction@.len(), 30);
    }
    let digits: u128 = whole_value * unit + fraction_value;
    Some(Decimal { negative: s[0] == 0x2d, digits, scale })
}

/// Ten to the power of a sum is the product of the powers.
pub proof fn lemma_pow10_adds(a: nat, b: nat)
    ensures
        pow10(a + b) == pow10(a) * pow10(b),
    decreases b,
{
    if b > 0 {
        lemma_pow10_adds(a, (b - 1) as nat);
        assert(10 * (pow10(a) * pow10((b - 1) as nat)) == pow10(a) * (10 * pow10((b - 1) as nat)))
            by (nonlinear_arith);
    } else {
        assert(pow10(a) * 1 == pow10(a));
    }
}

/// Quotient to the nearest whole number, halves upwards, of two numbers
/// that are not negative.
pub open spec fn rounded(n: nat, d: nat) -> nat {
    ((2 * n + d) / (2 * d)) as nat
}

/// Microseconds per quarter note at the tempo that a decimal number gives
/// in quarter notes per minute; none for a tempo that is not positive.
pub open spec fn tempo_of(d: Decimal) -> Option<u32> {
    if d.negative || d.digits == 0 {
        None
    } else {
        let us = (60_000_000 * pow10(d.scale as nat)) as int / (d.digits as int);
        if us > u32::MAX {
            Some(u32::MAX)
        } else {
            Some(us as u32)
        }
    }
}

pub fn tempo_from(d: Decimal) -> (us_per_quarter: Option<u32>)
    requires
        d.scale <= MAX_DIGITS,
    ensures
        us_per_quarter == tempo_of(d),
{
    if d.negative || d.digits == 0 {
        return None;
    }
    let unit = power_of_ten(d.scale);
    let us: u128 = (60_000_000 * unit) / d.digits;
    if us > u32::MAX as u128 {
        Some(u32::MAX)
    } else {
        Some(us as u32)
    }
}

/// The velocity that a decimal number gives: a share of one up to 1, a
/// percentage up to 100, a velocity beyond; to the nearest whole number,
/// between 0 and 127.
pub open spec fn velocity_of(d: Decimal) -> u8 {
    let unit = pow10(d.scale as nat);
    let v = if d.negative {
        0
    } else if d.digits <= unit {
        rounded((d.digits * 127) as nat, unit)
    } else if d.digits <= 100 * unit {
        rounded((d.digits * 127) as nat, 100 * unit)
    } else {
        rounded(d.digits as nat, unit)
    };
    if v > 127 {
        127
    } else {
        v as u8
    }
}

pub fn velocity_from(d: Decimal) -> (velocity: u8)
    requires
        d.scale <= MAX_DIGITS,
        d.digits <= DIGITS_CAP,
    ensures
        velocity == velocity_of(d),
{
    if d.negative {
        return 0;
    }
    let unit = power_of_ten(d.scale);
    let v: u128 = if d.digits <= unit {
        (2 * (d.digits * 127) + unit) / (2 * unit)
    } else if d.digits <= 100 * unit {
        (2 * (d.digits * 127) + 100 * unit) / (2 * (100 * unit))
    } else {
        (2 * d.digits + unit) / (2 * unit)
    };
    if v > 127 {
        127
    } else {
        v as u8
    }
}

/// Whether a decimal number is 64 or more: the pedal is down.
pub open spec fn is_pedal_down(d: Decimal) -> bool {
    !d.negative && d.digits >= 64 * pow10(d.scale as nat)
}

pub fn pedal_down_from(d: Decimal) -> (down: bool)
    requires
        d.scale <= MAX_DIGITS,
    ensures
        down == is_pedal_down(d),
{
    let unit = power_of_ten(d.scale);
    !d.negative && d.digits >= 64 * unit
}

} // verus!
