//! Numbers as text: whole numbers, decimal fractions, and spans of time.
//!
//! Quantities that carry a fraction (seconds, decibels) are held as a whole count
//! of billionths, so that every comparison and clamp on them is exact.

use vstd::prelude::*;

use crate::text;

verus! {

// ---------------------------------------------------------------------------
// Whole numbers
// ---------------------------------------------------------------------------

/// The value of one decimal digit.
pub open spec fn digit(c: char) -> nat {
    (c as nat - '0' as nat) as nat
}

/// The decimal digit with value `n`.
pub open spec fn digit_char(n: nat) -> char {
    (n + 48) as char
}

/// The number that the digits `s` write.
pub open spec fn value(s: Seq<char>) -> nat
    decreases s.len(),
{
    if s.len() == 0 {
        0
    } else {
        value(s.drop_last()) * 10 + digit(s.last())
    }
}

/// The decimal digits of `n`, without leading zeros.
pub open spec fn dec(n: nat) -> Seq<char>
    decreases n,
{
    if n < 10 {
        seq![digit_char(n)]
    } else {
        dec(n / 10).push(digit_char(n % 10))
    }
}

/// The decimal digits of `n`, behind a minus sign where it is negative.
pub open spec fn dec_int(n: int) -> Seq<char> {
    if n < 0 {
        seq!['-'] + dec((-n) as nat)
    } else {
        dec(n as nat)
    }
}

/// At least two decimal digits of `n`.
pub open spec fn dec2(n: nat) -> Seq<char> {
    if n < 10 {
        seq!['0'] + dec(n)
    } else {
        dec(n)
    }
}

/// What is written is digits, and it reads back as the number.
pub proof fn dec_reads_back(n: nat)
    ensures
        dec(n).len() > 0,
        text::all_digits(dec(n)),
        value(dec(n)) == n,
    decreases n,
{
    if n < 10 {
        let s = dec(n);
        assert(s.drop_last() =~= Seq::<char>::empty());
        assert(value(s.drop_last()) == 0);
        assert(s.last() == digit_char(n));
    } else {
        dec_reads_back(n / 10);
        let s = dec(n);
        assert(s.drop_last() =~= dec(n / 10));
        assert(s.last() == digit_char(n % 10));
        assert forall|i: int| 0 <= i < s.len() implies text::is_digit(#[trigger] s[i]) by {
            if i < s.len() - 1 {
                assert(s[i] == dec(n / 10)[i]);
            }
        }
    }
}

/// A longer row of digits writes no smaller number.
pub proof fn value_grows(s: Seq<char>, k: int)
    requires
        0 <= k <= s.len(),
    ensures
        value(s.take(k)) <= value(s),
    decreases s.len() - k,
{
    if k < s.len() {
        value_grows(s, k + 1);
        assert(s.take(k + 1).drop_last() =~= s.take(k));
    } else {
        assert(s.take(k) =~= s);
    }
}

/// The number that `s` writes in decimal digits alone, where it is at most `max`.
pub open spec fn nat_of(s: Seq<char>, max: nat) -> Option<nat> {
    if s.len() > 0 && text::all_digits(s) && value(s) <= max {
        Some(value(s))
    } else {
        None
    }
}

/// The number that `s` writes in decimal digits, behind an optional plus sign,
/// where it is at most `max`.
pub open spec fn unsigned_of(s: Seq<char>, max: nat) -> Option<nat> {
    if s.len() > 0 && s[0] == '+' {
        nat_of(s.skip(1), max)
    } else {
        nat_of(s, max)
    }
}

/// The number that `s` writes in decimal digits, behind an optional sign, where it
/// lies between `-(max + 1)` and `max`.
pub open spec fn signed_of(s: Seq<char>, max: nat) -> Option<int> {
    if s.len() > 0 && s[0] == '-' {
        match nat_of(s.skip(1), max + 1) {
            Some(n) => Some(-n),
            None => None,
        }
    } else {
        match unsigned_of(s, max) {
            Some(n) => Some(n as int),
            None => None,
        }
    }
}

/// A written number reads back, with or without a bound that admits it.
pub proof fn dec_is_unsigned(n: nat, max: nat)
    requires
        n <= max,
    ensures
        unsigned_of(dec(n), max) == Some(n),
        nat_of(dec(n), max) == Some(n),
{
    dec_reads_back(n);
    assert(text::is_digit(dec(n)[0]));
}

/// A written number with a sign reads back.
pub proof fn dec_int_is_signed(n: int, max: nat)
    requires
        -(max + 1) <= n <= max,
    ensures
        signed_of(dec_int(n), max) == Some(n),
{
    if n < 0 {
        let m = (-n) as nat;
        dec_reads_back(m);
        assert(dec_int(n).skip(1) =~= dec(m));
    } else {
        dec_is_unsigned(n as nat, max);
        dec_reads_back(n as nat);
        assert(text::is_digit(dec(n as nat)[0]));
    }
}

fn digits_from(v: &Vec<char>, from: usize, max: u64) -> (r: Option<u64>)
    requires
        from <= v@.len(),
    ensures
        (match r {
            Some(n) => Some(n as nat),
            None => None::<nat>,
        }) == nat_of(v@.skip(from as int), max as nat),
{
    let ghost s = v@.skip(from as int);
    if from == v.len() {
        return None;
    }
    let mut acc: u64 = 0;
    let mut i: usize = from;
    while i < v.len()
        invariant
            from <= i <= v@.len(),
            s == v@.skip(from as int),
            acc == value(s.take(i - from)),
            acc <= max,
            forall|k: int| 0 <= k < i - from ==> text::is_digit(#[trigger] s[k]),
        decreases v@.len() - i,
    {
        let c = v[i];
        assert(s[i - from] == c);
        if !text::is_decimal_digit(c) {
            return None;
        }
        let d: u64 = (c as u8 - 48) as u64;
        let next: u128 = (acc as u128) * 10 + (d as u128);
        assert(s.take(i - from + 1).drop_last() =~= s.take(i - from));
        assert(next == value(s.take(i - from + 1)));
        if next > max as u128 {
            proof {
                value_grows(s, i - from + 1);
            }
            return None;
        }
        acc = next as u64;
        i += 1;
    }
    assert(s.take(s.len() as int) =~= s);
    Some(acc)
}

/// The number that `s` writes, where it is at most `max`.
pub fn parse_up_to(s: &str, max: u64) -> (r: Option<u64>)
    ensures
        (match r {
            Some(n) => Some(n as nat),
            None => None::<nat>,
        }) == unsigned_of(s@, max as nat),
        r matches Some(n) ==> n <= max,
{
    let v = text::chars(s);
    if v.len() > 0 && v[0] == '+' {
        digits_from(&v, 1, max)
    } else {
        assert(v@.skip(0) =~= v@);
        digits_from(&v, 0, max)
    }
}

/// The `u64` that `s` writes.
pub fn parse_u64(s: &str) -> (r: Option<u64>)
    ensures
        (match r {
            Some(n) => Some(n as nat),
            None => None::<nat>,
        }) == unsigned_of(s@, u64::MAX as nat),
{
    parse_up_to(s, u64::MAX)
}

/// The `usize` that `s` writes.
pub fn parse_usize(s: &str) -> (r: Option<usize>)
    ensures
        (match r {
            Some(n) => Some(n as nat),
            None => None::<nat>,
        }) == unsigned_of(s@, usize::MAX as nat),
{
    match parse_up_to(s, usize::MAX as u64) {
        Some(n) => Some(n as usize),
        None => None,
    }
}

/// The `u32` that `s` writes.
pub fn parse_u32(s: &str) -> (r: Option<u32>)
    ensures
        (match r {
            Some(n) => Some(n as nat),
            None => None::<nat>,
        }) == unsigned_of(s@, u32::MAX as nat),
{
    match parse_up_to(s, u32::MAX as u64) {
        Some(n) => Some(n as u32),
        None => None,
    }
}

/// The `u16` that `s` writes.
pub fn parse_u16(s: &str) -> (r: Option<u16>)
    ensures
        (match r {
            Some(n) => Some(n as nat),
            None => None::<nat>,
        }) == unsigned_of(s@, u16::MAX as nat),
{
    match parse_up_to(s, u16::MAX as u64) {
        Some(n) => Some(n as u16),
        None => None,
    }
}

/// The `u8` that `s` writes.
pub fn parse_u8(s: &str) -> (r: Option<u8>)
    ensures
        (match r {
            Some(n) => Some(n as nat),
            None => None::<nat>,
        }) == unsigned_of(s@, u8::MAX as nat),
{
    match parse_up_to(s, u8::MAX as u64) {
        Some(n) => Some(n as u8),
        None => None,
    }
}

/// The `i32` that `s` writes.
pub fn parse_i32(s: &str) -> (r: Option<i32>)
    ensures
        (match r {
            Some(n) => Some(n as int),
            None => None::<int>,
        }) == signed_of(s@, i32::MAX as nat),
{
    let v = text::chars(s);
    if v.len() > 0 && v[0] == '-' {
        match digits_from(&v, 1, 0x8000_0000) {
            Some(n) => Some((0 - (n as i64)) as i32),
            None => None,
        }
    } else {
        match parse_up_to(s, i32::MAX as u64) {
            Some(n) => Some(n as i32),
            None => None,
        }
    }
}

/// Appends the decimal digits of `n`.
pub fn push_dec(out: &mut String, n: u128)
    ensures
        final(out)@ == old(out)@ + dec(n as nat),
    decreases n,
{
    if n >= 10 {
        push_dec(out, n / 10);
    }
    let ghost before = out@;
    let d: u8 = (n % 10) as u8;
    out.push((48 + d) as char);
    proof {
        if n < 10 {
            assert(before.push(digit_char(n as nat)) =~= before + dec(n as nat));
        } else {
            assert(out@ =~= old(out)@ + dec((n / 10) as nat).push(digit_char((n % 10) as nat)));
        }
    }
}

/// The decimal digits of `n`.
pub fn dec_u64(n: u64) -> (r: String)
    ensures
        r@ == dec(n as nat),
{
    let mut out = String::new();
    push_dec(&mut out, n as u128);
    assert(Seq::<char>::empty() + dec(n as nat) =~= dec(n as nat));
    out
}

/// The decimal digits of `n`.
pub fn dec_usize(n: usize) -> (r: String)
    ensures
        r@ == dec(n as nat),
{
    dec_u64(n as u64)
}

/// The decimal digits of `n`, behind a minus sign where it is negative.
pub fn dec_i64(n: i64) -> (r: String)
    ensures
        r@ == dec_int(n as int),
{
    if n < 0 {
        let mut out = String::new();
        out.push('-');
        push_dec(&mut out, (0 - (n as i128)) as u128);
        assert(out@ =~= seq!['-'] + dec((-n) as nat));
        out
    } else {
        dec_u64(n as u64)
    }
}

/// At least two decimal digits of `n`.
pub fn dec2_u64(n: u64) -> (r: String)
    ensures
        r@ == dec2(n as nat),
{
    if n < 10 {
        let mut out = String::new();
        out.push('0');
        push_dec(&mut out, n as u128);
        assert(out@ =~= seq!['0'] + dec(n as nat));
        out
    } else {
        dec_u64(n)
    }
}


/// The larger of two numbers.
pub open spec fn larger(a: int, b: int) -> int {
    if a < b {
        b
    } else {
        a
    }
}

/// The smaller of two numbers.
pub open spec fn smaller(a: int, b: int) -> int {
    if a < b {
        a
    } else {
        b
    }
}

/// `n`, or the bound that it lies beyond.
pub open spec fn clamped(n: int, lo: int, hi: int) -> int {
    if n < lo {
        lo
    } else if n > hi {
        hi
    } else {
        n
    }
}

/// `n`, or the bound that it lies beyond.
pub fn clamp_i128(n: i128, lo: i128, hi: i128) -> (r: i128)
    requires
        lo <= hi,
    ensures
        r == clamped(n as int, lo as int, hi as int),
{
    if n < lo {
        lo
    } else if n > hi {
        hi
    } else {
        n
    }
}

/// `n`, or the bound that it lies beyond.
pub fn clamp_u64(n: u64, lo: u64, hi: u64) -> (r: u64)
    requires
        lo <= hi,
    ensures
        r == clamped(n as int, lo as int, hi as int),
{
    if n < lo {
        lo
    } else if n > hi {
        hi
    } else {
        n
    }
}

// ---------------------------------------------------------------------------
// Quantities with a fraction
// ---------------------------------------------------------------------------

/// How many billionths make one.
pub const BILLION: i128 = 1_000_000_000;

/// The largest magnitude, in billionths, that a finite quantity is held with.
pub const REAL_LIMIT: i128 = 10_000_000_000_000_000_000_000_000_000_000_000_000;

/// The largest decimal exponent that is told apart from larger ones.
pub const EXPONENT_LIMIT: i128 = 1_000_000_000_000_000_000_000_000_000_000;

/// A number of seconds or decibels: a count of billionths, or no number at all.
#[derive(Clone, Copy, Debug, PartialEq, Eq, Structural)]
pub enum Real {
    /// A finite number, in billionths.
    Finite(i128),
    /// Positive infinity.
    PosInf,
    /// Negative infinity.
    NegInf,
    /// Not a number.
    Nan,
}

impl Real {
    /// A finite number lies within the limit.
    pub open spec fn wf(self) -> bool {
        self matches Real::Finite(n) ==> -REAL_LIMIT <= n <= REAL_LIMIT
    }

    /// The finite number, or `d` where there is none.
    pub open spec fn or_default(self, d: int) -> int {
        match self {
            Real::Finite(n) => n as int,
            _ => d,
        }
    }

    /// The finite number, or `d` where there is none.
    pub fn finite_or(self, d: i128) -> (r: i128)
        ensures
            r == self.or_default(d as int),
    {
        match self {
            Real::Finite(n) => n,
            _ => d,
        }
    }

    /// The number of `n` whole units.
    pub fn of_u64(n: u64) -> (r: Real)
        ensures
            r == Real::Finite((n * 1_000_000_000) as i128),
            r->Finite_0 == n * 1_000_000_000,
    {
        Real::Finite((n as i128) * BILLION)
    }

    /// Whether this is a finite number.
    pub fn is_finite(&self) -> (r: bool)
        ensures
            r == (self is Finite),
    {
        matches!(self, Real::Finite(_))
    }
}

/// Ten to the power `k`.
pub open spec fn pow10(k: nat) -> nat
    decreases k,
{
    if k == 0 {
        1
    } else {
        10 * pow10((k - 1) as nat)
    }
}

/// The characters that introduce an exponent.
pub open spec fn exp_marks() -> Set<char> {
    set!['e', 'E']
}

/// The length of the longest prefix of `s` without a character in `cs`.
pub open spec fn span_without(s: Seq<char>, cs: Set<char>) -> nat
    decreases s.len(),
{
    if s.len() > 0 && !cs.contains(s[0]) {
        1 + span_without(s.drop_first(), cs)
    } else {
        0
    }
}

/// The first position of a character in `cs`, as far as there is one.
pub proof fn span_without_is_first(s: Seq<char>, cs: Set<char>)
    ensures
        span_without(s, cs) <= s.len(),
        forall|i: int| 0 <= i < span_without(s, cs) ==> !cs.contains(#[trigger] s[i]),
        span_without(s, cs) < s.len() ==> cs.contains(s[span_without(s, cs) as int]),
    decreases s.len(),
{
    if s.len() > 0 && !cs.contains(s[0]) {
        span_without_is_first(s.drop_first(), cs);
        assert forall|i: int| 0 <= i < span_without(s, cs) implies !cs.contains(
            #[trigger] s[i],
        ) by {
            if i > 0 {
                assert(s[i] == s.drop_first()[i - 1]);
            }
        }
    }
}

/// The number that exponent digits behind an optional sign write; beyond the
/// exponent limit all count as the limit.
pub open spec fn exponent_of(s: Seq<char>) -> Option<int> {
    let neg = s.len() > 0 && s[0] == '-';
    let t = if s.len() > 0 && (s[0] == '-' || s[0] == '+') {
        s.skip(1)
    } else {
        s
    };
    if t.len() == 0 || !text::all_digits(t) {
        None
    } else {
        let n = if value(t) > EXPONENT_LIMIT {
            EXPONENT_LIMIT as int
        } else {
            value(t) as int
        };
        Some(
            if neg {
                -n
            } else {
                n
            },
        )
    }
}

/// The first `n` places of the digits `d`, which zeros continue.
pub open spec fn padded(d: Seq<char>, n: int) -> Seq<char> {
    Seq::new(
        (if n > 0 {
            n
        } else {
            0
        }) as nat,
        |i: int|
            if i < d.len() {
                d[i]
            } else {
                '0'
            },
    )
}

/// A digit at place `n` rounds the places before it up.
pub open spec fn rounds_up(d: Seq<char>, n: int) -> bool {
    0 <= n < d.len() && d[n] >= '5'
}

/// The least whole number that reads as infinite, in digits: halfway between the largest
/// number of double precision and the power of two behind it.
pub const INFINITE_FROM: &'static str = "179769313486231580793728971405303415079934132710037826936173778980444968292764750946649017977587207096330286416692887910946555547851940402630657488671505820681908902000708383676273854845817711531764475730270069855571366959622842914819860834936475292719074168444365510704342711559699508093042880177904174497792";

/// The number that the digits `d` write with the decimal point behind place `q` reads as
/// infinite.
pub open spec fn is_infinite(d: Seq<char>, q: int) -> bool {
    value(padded(d, q)) >= value(INFINITE_FROM@)
}

/// The billionths in the number that the digits `d` write with the decimal point behind
/// place `q`. What follows them rounds where the nearest is asked for, and is dropped
/// where it is not. What exceeds the limit is held as the limit, and an infinite number
/// has none.
pub open spec fn magnitude(d: Seq<char>, q: int, nearest: bool) -> Option<nat> {
    if is_infinite(d, q) {
        None
    } else {
        let n = value(padded(d, q + 9)) + if nearest && rounds_up(d, q + 9) {
            1nat
        } else {
            0
        };
        Some(
            if n > REAL_LIMIT {
                REAL_LIMIT as nat
            } else {
                n
            },
        )
    }
}

/// The digits on both sides of the decimal point of `m`, and how many stand before it.
pub open spec fn mantissa_of(m: Seq<char>) -> Option<(Seq<char>, int)> {
    let k = span_without(m, text::just('.')) as int;
    let before = m.take(k);
    let after = if k < m.len() {
        m.skip(k + 1)
    } else {
        Seq::empty()
    };
    if text::all_digits(before) && text::all_digits(after) && before.len() + after.len() > 0 {
        Some((before + after, k))
    } else {
        None
    }
}

/// The digits of a decimal number without a sign, and behind which of them its decimal
/// point stands.
pub open spec fn numeral_of(t: Seq<char>) -> Option<(Seq<char>, int)> {
    let k = span_without(t, exp_marks()) as int;
    match mantissa_of(t.take(k)) {
        None => None,
        Some((d, q)) => if k == t.len() {
            Some((d, q))
        } else {
            match exponent_of(t.skip(k + 1)) {
                None => None,
                Some(e) => Some((d, q + e)),
            }
        },
    }
}

/// What a decimal number without a sign writes: `None` where it is malformed,
/// `Some(None)` where it is infinite, otherwise its billionths.
pub open spec fn decimal_of(t: Seq<char>, nearest: bool) -> Option<Option<nat>> {
    match numeral_of(t) {
        None => None,
        Some((d, q)) => Some(magnitude(d, q, nearest)),
    }
}

/// The number that `s` writes: an optional sign, and then `inf`, `infinity` or `nan`
/// in any letter case, or a decimal number with an optional fraction and exponent.
#[verifier::opaque]
pub open spec fn number_of(s: Seq<char>, nearest: bool) -> Option<Real> {
    let neg = s.len() > 0 && s[0] == '-';
    let t = if s.len() > 0 && (s[0] == '-' || s[0] == '+') {
        s.skip(1)
    } else {
        s
    };
    let infinite = if neg {
        Real::NegInf
    } else {
        Real::PosInf
    };
    let l = text::ascii_lower(t);
    if l == text::ascii_lower("inf"@) || l == text::ascii_lower("infinity"@) {
        Some(infinite)
    } else if l == text::ascii_lower("nan"@) {
        Some(Real::Nan)
    } else {
        match decimal_of(t, nearest) {
            None => None,
            Some(None) => Some(infinite),
            Some(Some(n)) => Some(
                Real::Finite(
                    (if neg {
                        -n
                    } else {
                        n as int
                    }) as i128,
                ),
            ),
        }
    }
}

/// The number that `s` writes, to the nearest billionth.
pub open spec fn real_of(s: Seq<char>) -> Option<Real> {
    number_of(s, true)
}

/// The number that `s` writes, without what is smaller than a billionth.
pub open spec fn cut_of(s: Seq<char>) -> Option<Real> {
    number_of(s, false)
}

/// The largest number that is not told apart from zero, in digits, the first of which
/// stands at the 324th decimal place: half of the least number of double precision.
pub const ZERO_UP_TO: &'static str = "24703282292062327208828439643411068618252990130716238221279284125033775363510437593264991818081799618989828234772285886546332835517796989819938739800539093906315035659515570226392290858392449105184435931802849936536152500319370457678249219365623669863658480757001585769269903706311928279558551332927834338409351978015531246597263579574622766465272827220056374006485499977096599470454020828166226237857393450736339007967761930577506740176324673600968951340535537458516661134223766678604162159680461914467291840300530057530849048765391711386591646239524912623653881879636239373280423891018672348497668235089863388587925628302755995657524455507255189313690836254779186948667994968324049705821028513185451396213837722826145437693412532098591327667236328125";

/// The number that the digits `d` write with the decimal point behind place `q` is told
/// apart from zero.
#[verifier::opaque]
pub open spec fn is_told(d: Seq<char>, q: int) -> bool {
    let n = if d.len() > q + 1075 {
        d.len() as int
    } else {
        q + 1075
    };
    value(padded(d, n)) > value(ZERO_UP_TO@) * pow10((n - q - 1075) as nat)
}

/// The text writes a number below zero that is told apart from it.
#[verifier::opaque]
pub open spec fn below_zero(s: Seq<char>) -> bool {
    &&& s.len() > 0
    &&& s[0] == '-'
    &&& match numeral_of(s.skip(1)) {
        Some((d, q)) => is_told(d, q),
        None => false,
    }
}

/// A quotient, to the nearest.
pub open spec fn rounded(a: nat, b: nat) -> nat {
    (2 * a + b) / (2 * b)
}

/// The billionths in `unit` times the number that the digits `d` write with the decimal
/// point behind place `q`, to the nearest.
pub open spec fn scaled(d: Seq<char>, q: int, unit: nat) -> nat {
    let n = if d.len() > q + 9 {
        d.len() as int
    } else {
        q + 9
    };
    rounded(value(padded(d, n)) * unit, pow10((n - q - 9) as nat))
}

/// The billionths in `unit` times the decimal number that `s` writes behind an optional
/// sign, to the nearest.
#[verifier::opaque]
pub open spec fn multiple_of(s: Seq<char>, unit: nat) -> Option<nat> {
    let t = if s.len() > 0 && (s[0] == '-' || s[0] == '+') {
        s.skip(1)
    } else {
        s
    };
    match numeral_of(t) {
        Some((d, q)) => Some(scaled(d, q, unit)),
        None => None,
    }
}

proof fn value_of_zeros(s: Seq<char>)
    requires
        forall|i: int| 0 <= i < s.len() ==> #[trigger] s[i] == '0',
    ensures
        value(s) == 0,
    decreases s.len(),
{
    if s.len() > 0 {
        value_of_zeros(s.drop_last());
    }
}

proof fn value_at_least(s: Seq<char>, z: int)
    requires
        0 <= z < s.len(),
        text::all_digits(s),
        s[z] != '0',
    ensures
        value(s) >= pow10((s.len() - z - 1) as nat),
    decreases s.len(),
{
    if z < s.len() - 1 {
        value_at_least(s.drop_last(), z);
    } else {
        assert(text::is_digit(s.last()));
    }
}

proof fn pow10_grows(a: nat, b: nat)
    requires
        a <= b,
    ensures
        pow10(a) <= pow10(b),
    decreases b,
{
    if a < b {
        pow10_grows(a, (b - 1) as nat);
    }
}

proof fn pow10_limit()
    ensures
        pow10(37) == REAL_LIMIT,
        pow10(9) == 1_000_000_000,
{
    reveal_with_fuel(pow10, 38);
}

proof fn value_below(s: Seq<char>)
    requires
        text::all_digits(s),
    ensures
        value(s) < pow10(s.len()),
    decreases s.len(),
{
    if s.len() > 0 {
        let init = s.drop_last();
        assert forall|i: int| 0 <= i < init.len() implies text::is_digit(#[trigger] init[i]) by {
            assert(init[i] == s[i]);
        }
        value_below(init);
        assert(text::is_digit(s[s.len() - 1]));
    }
}

proof fn value_past_zeros(s: Seq<char>, z: int)
    requires
        0 <= z <= s.len(),
        forall|i: int| 0 <= i < z ==> #[trigger] s[i] == '0',
    ensures
        value(s) == value(s.skip(z)),
{
    value_of_zeros(s.take(z));
    value_of_row(s.take(z), s.skip(z));
    assert(s.take(z) + s.skip(z) =~= s);
    let p = pow10(s.skip(z).len());
    assert(0 * p == 0);
}

/// The first place at which two rows of digits differ tells which is smaller.
proof fn value_by_place(a: Seq<char>, b: Seq<char>, k: int)
    requires
        a.len() == b.len(),
        0 <= k < a.len(),
        text::all_digits(a),
        text::all_digits(b),
        forall|i: int| 0 <= i < k ==> #[trigger] a[i] == b[i],
        a[k] < b[k],
    ensures
        value(a) < value(b),
    decreases a.len(),
{
    let x = a.drop_last();
    let y = b.drop_last();
    assert(text::is_digit(a[a.len() - 1]) && text::is_digit(b[b.len() - 1]));
    if k == a.len() - 1 {
        assert(x =~= y);
    } else {
        assert forall|i: int| 0 <= i < x.len() implies text::is_digit(#[trigger] x[i]) by {
            assert(x[i] == a[i]);
        }
        assert forall|i: int| 0 <= i < y.len() implies text::is_digit(#[trigger] y[i]) by {
            assert(y[i] == b[i]);
        }
        value_by_place(x, y, k);
    }
}

proof fn infinite_digits()
    ensures
        INFINITE_FROM@.len() == 309,
        text::all_digits(INFINITE_FROM@),
        pow10(308) <= value(INFINITE_FROM@) < pow10(309),
{
    let s = INFINITE_FROM@;
    assert(s.len() == 309 && s[0] == '1' && text::all_digits(s)) by {
        reveal_strlit(
            "179769313486231580793728971405303415079934132710037826936173778980444968292764750946649017977587207096330286416692887910946555547851940402630657488671505820681908902000708383676273854845817711531764475730270069855571366959622842914819860834936475292719074168444365510704342711559699508093042880177904174497792",
        );
    }
    value_at_least(s, 0);
    value_below(s);
}

proof fn padded_is_digits(d: Seq<char>, n: int)
    requires
        text::all_digits(d),
    ensures
        text::all_digits(padded(d, n)),
{
    assert forall|i: int| 0 <= i < padded(d, n).len() implies text::is_digit(
        #[trigger] padded(d, n)[i],
    ) by {
        if i < d.len() {
            assert(text::is_digit(d[i]));
        }
    }
}

/// How many places a number has before its point decides whether it is infinite, but for
/// those with as many as the least infinite one.
proof fn places_decide(d: Seq<char>, q: int, z: int)
    requires
        text::all_digits(d),
        0 <= z < d.len(),
        d[z] != '0',
        forall|i: int| 0 <= i < z ==> #[trigger] d[i] == '0',
    ensures
        q - z > 309 ==> is_infinite(d, q),
        q - z < 309 ==> !is_infinite(d, q),
        q - z >= 0 ==> value(padded(d, q)) == value(padded(d, q).skip(z)),
{
    let s = padded(d, q);
    infinite_digits();
    padded_is_digits(d, q);
    if q - z >= 0 {
        value_past_zeros(s, z);
        let t = s.skip(z);
        assert forall|i: int| 0 <= i < t.len() implies text::is_digit(#[trigger] t[i]) by {
            assert(t[i] == s[z + i]);
        }
        value_below(t);
        if q - z > 309 {
            assert(s[z] == d[z]);
            value_at_least(s, z);
            pow10_grows(309, (q - z - 1) as nat);
        } else if q - z < 309 {
            pow10_grows((q - z) as nat, 308);
        }
    } else {
        value_of_zeros(s);
        pow10_grows(0, 308);
    }
}

/// The first place at which the digits of `d` from place `z` on, which zeros continue,
/// differ from those of `limit`.
fn first_difference(d: &Vec<char>, z: usize, limit: &Vec<char>) -> (r: usize)
    requires
        z <= d@.len(),
    ensures
        r <= limit@.len(),
        forall|j: int| 0 <= j < r ==> digit_from(d@, z as int, j) == #[trigger] limit@[j],
        r < limit@.len() ==> digit_from(d@, z as int, r as int) != limit@[r as int],
{
    let n: usize = d.len();
    let mut i: usize = 0;
    while i < limit.len()
        invariant
            i <= limit@.len(),
            n == d@.len(),
            z <= n,
            forall|j: int| 0 <= j < i ==> digit_from(d@, z as int, j) == #[trigger] limit@[j],
        decreases limit@.len() - i,
    {
        let c = if i < n - z {
            d[z + i]
        } else {
            '0'
        };
        if c != limit[i] {
            return i;
        }
        i += 1;
    }
    i
}

/// The digit of `d` at place `j` behind place `z`, which zeros continue.
spec fn digit_from(d: Seq<char>, z: int, j: int) -> char {
    if z + j < d.len() {
        d[z + j]
    } else {
        '0'
    }
}

/// Whether a number with as many places before its point as the least infinite one is
/// infinite.
fn reaches_infinity(d: &Vec<char>, q: i128, z: usize) -> (r: bool)
    requires
        text::all_digits(d@),
        z < d@.len(),
        d@[z as int] != '0',
        forall|i: int| 0 <= i < z ==> #[trigger] d@[i] == '0',
        q - z == 309,
    ensures
        r == is_infinite(d@, q as int),
{
    let limit = text::chars(INFINITE_FROM);
    let n: usize = d.len();
    let ghost part = padded(d@, q as int).skip(z as int);
    proof {
        infinite_digits();
        padded_is_digits(d@, q as int);
        places_decide(d@, q as int, z as int);
        assert forall|i: int| 0 <= i < part.len() implies text::is_digit(#[trigger] part[i]) by {
            assert(part[i] == padded(d@, q as int)[z + i]);
        }
        assert forall|i: int| 0 <= i < part.len() implies #[trigger] part[i] == digit_from(
            d@,
            z as int,
            i,
        ) by {}
    }
    let i: usize = first_difference(d, z, &limit);
    if i == limit.len() {
        assert(part =~= limit@);
        return true;
    }
    let c = if i < n - z {
        d[z + i]
    } else {
        '0'
    };
    proof {
        assert(c == part[i as int]);
        assert forall|j: int| 0 <= j < i implies #[trigger] part[j] == limit@[j] by {}
        if c < limit@[i as int] {
            value_by_place(part, limit@, i as int);
        } else {
            value_by_place(limit@, part, i as int);
        }
    }
    c > limit[i]
}

fn magnitude_exec(d: &Vec<char>, q: i128, nearest: bool) -> (r: Option<u128>)
    requires
        text::all_digits(d@),
        -2 * EXPONENT_LIMIT <= q <= 2 * EXPONENT_LIMIT,
    ensures
        (match r {
            Some(n) => Some(n as nat),
            None => None::<nat>,
        }) == magnitude(d@, q as int, nearest),
        r matches Some(n) ==> n <= REAL_LIMIT,
{
    let mut z: usize = 0;
    while z < d.len() && d[z] == '0'
        invariant
            z <= d@.len(),
            forall|i: int| 0 <= i < z ==> #[trigger] d@[i] == '0',
        decreases d@.len() - z,
    {
        z += 1;
    }
    let ghost n = q + 9;
    let ghost pad = padded(d@, n);
    if z == d.len() {
        proof {
            value_of_zeros(pad);
            value_of_zeros(padded(d@, q as int));
            infinite_digits();
            pow10_grows(0, 308);
        }
        return Some(0);
    }
    let p: i128 = q - (z as i128);
    proof {
        places_decide(d@, q as int, z as int);
    }
    if p > 309 {
        return None;
    }
    if p == 309 && reaches_infinity(d, q, z) {
        return None;
    }
    if p > 28 {
        proof {
            assert(pad[z as int] == d@[z as int]);
            assert(text::all_digits(pad));
            value_at_least(pad, z as int);
            pow10_grows(37, (pad.len() - z - 1) as nat);
            pow10_limit();
        }
        return Some(REAL_LIMIT as u128);
    }
    let end: i128 = q + 9;
    if end < 0 {
        assert(pad =~= Seq::<char>::empty());
        return Some(0);
    }
    let mut acc: u128 = 0;
    let mut j: i128 = if (z as i128) < end {
        z as i128
    } else {
        end
    };
    proof {
        value_of_zeros(pad.take(j as int));
    }
    let ghost start = j;
    while j < end
        invariant
            0 <= start <= j <= end == n,
            start == z || start == end,
            z < d@.len(),
            text::all_digits(d@),
            end - z <= 37,
            pad == padded(d@, n),
            pad.len() == n,
            acc == value(pad.take(j as int)),
            acc < pow10((j - start) as nat),
        decreases end - j,
    {
        proof {
            pow10_grows((j - start) as nat, 37);
            pow10_limit();
        }
        let c = if j < d.len() as i128 {
            d[j as usize]
        } else {
            '0'
        };
        assert(c == pad[j as int]);
        assert(text::is_digit(c));
        let digit: u128 = (c as u8 - 48) as u128;
        assert(pad.take(j + 1).drop_last() =~= pad.take(j as int));
        acc = acc * 10 + digit;
        j += 1;
    }
    proof {
        pow10_grows((end - start) as nat, 37);
        pow10_limit();
    }
    assert(pad.take(n) =~= pad);
    if nearest && end < d.len() as i128 && d[end as usize] >= '5' {
        acc += 1;
    }
    Some(acc)
}


fn exponent(s: &str) -> (r: Option<i128>)
    ensures
        (match r {
            Some(n) => Some(n as int),
            None => None::<int>,
        }) == exponent_of(s@),
        r matches Some(n) ==> -EXPONENT_LIMIT <= n <= EXPONENT_LIMIT,
{
    let v = text::chars(s);
    let signed = v.len() > 0 && (v[0] == '-' || v[0] == '+');
    let from: usize = if signed {
        1
    } else {
        0
    };
    let ghost t = v@.skip(from as int);
    assert(v@.skip(0) =~= v@);
    if from == v.len() {
        return None;
    }
    let mut acc: i128 = 0;
    let mut i: usize = from;
    while i < v.len()
        invariant
            from <= i <= v@.len(),
            t == v@.skip(from as int),
            t == (if s@.len() > 0 && (s@[0] == '-' || s@[0] == '+') {
                s@.skip(1)
            } else {
                s@
            }),
            0 <= acc <= EXPONENT_LIMIT,
            acc == value(t.take(i - from)) || (acc == EXPONENT_LIMIT && value(t.take(i - from))
                > EXPONENT_LIMIT),
            forall|k: int| 0 <= k < i - from ==> text::is_digit(#[trigger] t[k]),
        decreases v@.len() - i,
    {
        let c = v[i];
        assert(t[i - from] == c);
        if !text::is_decimal_digit(c) {
            assert(!text::is_digit(t[i - from]));
            return None;
        }
        assert(t.take(i - from + 1).drop_last() =~= t.take(i - from));
        acc = acc * 10 + ((c as u8 - 48) as i128);
        if acc > EXPONENT_LIMIT {
            acc = EXPONENT_LIMIT;
        }
        i += 1;
    }
    assert(t.take(t.len() as int) =~= t);
    Some(
        if v[0] == '-' {
            0 - acc
        } else {
            acc
        },
    )
}

fn mantissa(m: &str) -> (r: Option<(Vec<char>, usize)>)
    ensures
        (match r {
            Some(t) => Some((t.0@, t.1 as int)),
            None => None::<(Seq<char>, int)>,
        }) == mantissa_of(m@),
        r matches Some(t) ==> text::all_digits(t.0@),
{
    let v = text::chars(m);
    let mut k: usize = 0;
    while k < v.len() && v[k] != '.'
        invariant
            k <= v@.len(),
            forall|i: int| 0 <= i < k ==> #[trigger] v@[i] != '.',
        decreases v@.len() - k,
    {
        k += 1;
    }
    proof {
        span_without_is_first(m@, text::just('.'));
        let n = span_without(m@, text::just('.')) as int;
        if n < k {
            assert(v@[n] != '.');
        }
        if k < n {
            assert(!text::just('.').contains(m@[k as int]));
        }
        assert(n == k);
    }
    let before = text::text_between(&v, 0, k);
    let after = if k < v.len() {
        text::text_between(&v, k + 1, v.len())
    } else {
        String::new()
    };
    assert(before@ =~= m@.take(k as int));
    if k < v.len() {
        assert(after@ =~= m@.skip(k + 1));
    }
    let mut digits = text::chars(before.as_str());
    let mut tail = text::chars(after.as_str());
    if text::only_digits(before.as_str()) && text::only_digits(after.as_str()) && (digits.len() > 0
        || tail.len() > 0) {
        digits.append(&mut tail);
        assert(text::all_digits(before@ + after@)) by {
            assert forall|i: int| 0 <= i < (before@ + after@).len() implies text::is_digit(
                #[trigger] (before@ + after@)[i],
            ) by {
                if i < before@.len() {
                    assert(text::is_digit(before@[i]));
                } else {
                    assert(text::is_digit(after@[i - before@.len()]));
                }
            }
        }
        Some((digits, k))
    } else {
        None
    }
}

fn numeral(t: &str) -> (r: Option<(Vec<char>, i128)>)
    ensures
        (match r {
            Some((d, q)) => Some((d@, q as int)),
            None => None::<(Seq<char>, int)>,
        }) == numeral_of(t@),
        r matches Some((d, q)) ==> text::all_digits(d@) && -2 * EXPONENT_LIMIT <= q <= 2
            * EXPONENT_LIMIT,
{
    let v = text::chars(t);
    let len: usize = v.len();
    let mut k: usize = 0;
    while k < v.len() && v[k] != 'e' && v[k] != 'E'
        invariant
            k <= v@.len(),
            forall|i: int| 0 <= i < k ==> #[trigger] v@[i] != 'e' && v@[i] != 'E',
        decreases v@.len() - k,
    {
        k += 1;
    }
    proof {
        span_without_is_first(t@, exp_marks());
        let n = span_without(t@, exp_marks()) as int;
        if n < k {
            assert(v@[n] != 'e' && v@[n] != 'E');
        }
        if k < n {
            assert(!exp_marks().contains(t@[k as int]));
        }
        assert(n == k);
    }
    let m = text::text_between(&v, 0, k);
    assert(m@ =~= t@.take(k as int));
    match mantissa(m.as_str()) {
        None => None,
        Some((d, q)) => {
            if k == len {
                Some((d, q as i128))
            } else {
                let tail = text::text_between(&v, k + 1, len);
                assert(tail@ =~= t@.skip(k + 1));
                match exponent(tail.as_str()) {
                    None => None,
                    Some(e) => Some((d, (q as i128) + e)),
                }
            }
        },
    }
}

fn decimal(t: &str, nearest: bool) -> (r: Option<Option<u128>>)
    ensures
        (match r {
            Some(Some(n)) => Some(Some(n as nat)),
            Some(None) => Some(None::<nat>),
            None => None::<Option<nat>>,
        }) == decimal_of(t@, nearest),
        r matches Some(Some(n)) ==> n <= REAL_LIMIT,
{
    match numeral(t) {
        None => None,
        Some((d, q)) => Some(magnitude_exec(&d, q, nearest)),
    }
}

proof fn zero_digits()
    ensures
        ZERO_UP_TO@.len() == 752,
        text::all_digits(ZERO_UP_TO@),
        pow10(751) <= value(ZERO_UP_TO@) < pow10(752),
{
    let s = ZERO_UP_TO@;
    assert(s.len() == 752 && s[0] == '2' && text::all_digits(s)) by {
        reveal_strlit(
            "24703282292062327208828439643411068618252990130716238221279284125033775363510437593264991818081799618989828234772285886546332835517796989819938739800539093906315035659515570226392290858392449105184435931802849936536152500319370457678249219365623669863658480757001585769269903706311928279558551332927834338409351978015531246597263579574622766465272827220056374006485499977096599470454020828166226237857393450736339007967761930577506740176324673600968951340535537458516661134223766678604162159680461914467291840300530057530849048765391711386591646239524912623653881879636239373280423891018672348497668235089863388587925628302755995657524455507255189313690836254779186948667994968324049705821028513185451396213837722826145437693412532098591327667236328125",
        );
    }
    value_at_least(s, 0);
    value_below(s);
}

/// Digits behind which zeros follow.
spec fn lengthened(s: Seq<char>, k: nat) -> Seq<char> {
    s + Seq::new(k, |i: int| '0')
}

proof fn value_lengthened(s: Seq<char>, k: nat)
    requires
        text::all_digits(s),
    ensures
        value(lengthened(s, k)) == value(s) * pow10(k),
        text::all_digits(lengthened(s, k)),
{
    let zeros = Seq::new(k, |i: int| '0');
    value_of_row(s, zeros);
    value_of_zeros(zeros);
    assert forall|i: int| 0 <= i < lengthened(s, k).len() implies text::is_digit(
        #[trigger] lengthened(s, k)[i],
    ) by {
        if i < s.len() {
            assert(text::is_digit(s[i]));
        }
    }
}

/// Where its first digit other than zero stands decides whether a number is told apart
/// from zero, but for those that begin at the same place as the largest that is not.
proof fn place_tells(d: Seq<char>, q: int, z: int, n: int)
    requires
        text::all_digits(d),
        0 <= z < d.len(),
        d[z] != '0',
        forall|i: int| 0 <= i < z ==> #[trigger] d[i] == '0',
        n == (if d.len() > q + 1075 {
            d.len() as int
        } else {
            q + 1075
        }),
    ensures
        q - z > -323 ==> is_told(d, q),
        q - z < -323 ==> !is_told(d, q),
        value(padded(d, n)) == value(padded(d, n).skip(z)),
        text::all_digits(padded(d, n).skip(z)),
{
    reveal(is_told);
    let s = padded(d, n);
    let k = (n - q - 1075) as nat;
    let limit = lengthened(ZERO_UP_TO@, k);
    zero_digits();
    value_lengthened(ZERO_UP_TO@, k);
    padded_is_digits(d, n);
    value_past_zeros(s, z);
    let t = s.skip(z);
    assert forall|i: int| 0 <= i < t.len() implies text::is_digit(#[trigger] t[i]) by {
        assert(t[i] == s[z + i]);
    }
    value_below(t);
    value_below(limit);
    assert(limit[0] == ZERO_UP_TO@[0]);
    assert(ZERO_UP_TO@[0] != '0') by {
        if ZERO_UP_TO@[0] == '0' {
            value_past_zeros(ZERO_UP_TO@, 1);
            let rest = ZERO_UP_TO@.skip(1);
            assert forall|i: int| 0 <= i < rest.len() implies text::is_digit(
                #[trigger] rest[i],
            ) by {
                assert(rest[i] == ZERO_UP_TO@[i + 1]);
            }
            value_below(rest);
        }
    }
    value_at_least(limit, 0);
    if q - z > -323 {
        assert(s[z] == d[z]);
        value_at_least(s, z);
        pow10_grows(limit.len(), (n - z - 1) as nat);
    } else if q - z < -323 {
        pow10_grows((n - z) as nat, (limit.len() - 1) as nat);
    }
}

/// Whether a number that begins at the same place as the largest that is not told apart
/// from zero is told apart from it.
fn exceeds_zero(d: &Vec<char>, q: i128, z: usize) -> (r: bool)
    requires
        text::all_digits(d@),
        z < d@.len(),
        d@[z as int] != '0',
        forall|i: int| 0 <= i < z ==> #[trigger] d@[i] == '0',
        q - z == -323,
    ensures
        r == is_told(d@, q as int),
{
    let limit = text::chars(ZERO_UP_TO);
    let n: usize = d.len();
    let ghost m = if d@.len() > q + 1075 {
        d@.len() as int
    } else {
        q + 1075
    };
    let ghost k = (m - q - 1075) as nat;
    let ghost part = padded(d@, m).skip(z as int);
    let ghost bound = lengthened(ZERO_UP_TO@, k);
    proof {
        reveal(is_told);
        zero_digits();
        place_tells(d@, q as int, z as int, m);
        value_lengthened(ZERO_UP_TO@, k);
        assert(part.len() == bound.len());
        assert forall|i: int| 0 <= i < part.len() implies #[trigger] part[i] == digit_from(
            d@,
            z as int,
            i,
        ) by {}
        assert forall|i: int| 0 <= i < 752 implies #[trigger] bound[i] == limit@[i] by {}
    }
    let i: usize = first_difference(d, z, &limit);
    if i < limit.len() {
        let c = if i < n - z {
            d[z + i]
        } else {
            '0'
        };
        proof {
            assert(c == part[i as int]);
            assert forall|j: int| 0 <= j < i implies #[trigger] part[j] == bound[j] by {
                assert(bound[j] == limit@[j]);
            }
            assert(bound[i as int] == limit@[i as int]);
            if c < limit@[i as int] {
                value_by_place(part, bound, i as int);
            } else {
                value_by_place(bound, part, i as int);
            }
        }
        return c > limit[i];
    }
    let mut j: usize = i;
    while j < n - z
        invariant
            n == d@.len(),
            z < n,
            752 <= j,
            limit@ == ZERO_UP_TO@,
            part.len() == bound.len(),
            bound == lengthened(ZERO_UP_TO@, k),
            limit@.len() == 752,
            part == padded(d@, m).skip(z as int),
            m >= n,
            text::all_digits(part),
            text::all_digits(bound),
            forall|l: int| 0 <= l < part.len() ==> #[trigger] part[l] == digit_from(d@, z as int, l),
            forall|l: int| 0 <= l < j && l < part.len() ==> #[trigger] part[l] == bound[l],
            value(padded(d@, m)) == value(part),
            value(bound) == value(ZERO_UP_TO@) * pow10(k),
            m == (if d@.len() > q + 1075 {
                d@.len() as int
            } else {
                q + 1075
            }),
            k == m - q - 1075,
        decreases n - z - j,
    {
        let c = d[z + j];
        proof {
            assert(c == part[j as int]);
            assert(bound[j as int] == '0');
            assert(text::is_digit(part[j as int]));
        }
        if c != '0' {
            proof {
                reveal(is_told);
                value_by_place(bound, part, j as int);
            }
            return true;
        }
        j += 1;
    }
    proof {
        assert forall|l: int| 0 <= l < part.len() implies #[trigger] part[l] == bound[l] by {
            if l >= j {
                assert(part[l] == '0');
            }
        }
        assert(part =~= bound);
    }
    false
}

fn told(d: &Vec<char>, q: i128) -> (r: bool)
    requires
        text::all_digits(d@),
        -2 * EXPONENT_LIMIT <= q <= 2 * EXPONENT_LIMIT,
    ensures
        r == is_told(d@, q as int),
{
    let mut z: usize = 0;
    while z < d.len() && d[z] == '0'
        invariant
            z <= d@.len(),
            forall|i: int| 0 <= i < z ==> #[trigger] d@[i] == '0',
        decreases d@.len() - z,
    {
        z += 1;
    }
    let ghost m = if d@.len() > q + 1075 {
        d@.len() as int
    } else {
        q + 1075
    };
    if z == d.len() {
        proof {
            reveal(is_told);
            value_of_zeros(padded(d@, m));
            let a = value(ZERO_UP_TO@);
            let b = pow10((m - q - 1075) as nat);
            assert(a * b >= 0) by (nonlinear_arith);
        }
        return false;
    }
    let p: i128 = q - (z as i128);
    proof {
        place_tells(d@, q as int, z as int, m);
    }
    if p == -323 {
        exceeds_zero(d, q, z)
    } else {
        p > -323
    }
}

/// Whether the text writes a number below zero that is told apart from it.
pub fn is_below_zero(s: &str) -> (r: bool)
    ensures
        r == below_zero(s@),
{
    proof {
        reveal(below_zero);
    }
    let v = text::chars(s);
    let len: usize = v.len();
    if len == 0 || v[0] != '-' {
        return false;
    }
    let t = text::text_between(&v, 1, len);
    assert(t@ =~= s@.skip(1));
    match numeral(t.as_str()) {
        None => false,
        Some((d, q)) => told(&d, q),
    }
}

/// Rounding leaves whole multiples of the divisor alone.
proof fn rounded_past_whole(a: nat, r: nat, b: nat)
    requires
        b > 0,
    ensures
        rounded(a * b + r, b) == a + rounded(r, b),
{
    assert(2 * (a * b + r) + b == a * (2 * b) + (2 * r + b)) by (nonlinear_arith);
    vstd::arithmetic::div_mod::lemma_hoist_over_denominator(
        (2 * r + b) as int,
        a as int,
        2 * b,
    );
}

/// The billionths of a number that are whole, and the rest of its digits.
proof fn scaled_in_parts(d: Seq<char>, q: int, unit: nat, rest: Seq<char>)
    requires
        text::all_digits(d),
        d.len() > q + 9,
        rest == (if q + 9 >= 0 {
            d.skip(q + 9)
        } else {
            Seq::new((-(q + 9)) as nat, |i: int| '0') + d
        }),
    ensures
        rest.len() == d.len() - (q + 9),
        scaled(d, q, unit) == value(padded(d, q + 9)) * unit + rounded(
            value(rest) * unit,
            pow10(rest.len()),
        ),
{
    let a = value(padded(d, q + 9));
    let k = rest.len();
    let r = value(rest);
    assert(padded(d, d.len() as int) =~= d);
    if q + 9 >= 0 {
        assert(padded(d, q + 9) + rest =~= d);
        value_of_row(padded(d, q + 9), rest);
    } else {
        let zeros = Seq::new((-(q + 9)) as nat, |i: int| '0');
        value_of_row(zeros, d);
        value_of_zeros(zeros);
        assert(0 * pow10(d.len()) == 0);
        assert(padded(d, q + 9) =~= Seq::<char>::empty());
        assert(0 * pow10(k) == 0);
    }
    assert(value(d) == a * pow10(k) + r);
    pow10_positive(k);
    assert((a * pow10(k) + r) * unit == (a * unit) * pow10(k) + r * unit) by (nonlinear_arith);
    rounded_past_whole(a * unit, r * unit, pow10(k));
}

/// One place more to the front of a product that is built from its end.
proof fn product_grows(t: nat, c: nat, unit: nat, m: nat)
    requires
        m > 0,
    ensures
        ((c * pow10(m) + t) * unit) / pow10(m) == c * unit + ((t * unit) / pow10(
            (m - 1) as nat,
        )) / 10,
{
    let p = pow10((m - 1) as nat);
    pow10_positive((m - 1) as nat);
    assert(pow10(m) == 10 * p);
    vstd::arithmetic::div_mod::lemma_div_denominator((t * unit) as int, p as int, 10);
    assert(p * 10 == 10 * p);
    assert((c * (10 * p) + t) * unit == (c * unit) * (10 * p) + t * unit) by (nonlinear_arith);
    vstd::arithmetic::div_mod::lemma_hoist_over_denominator(
        (t * unit) as int,
        (c * unit) as int,
        10 * p,
    );
}

/// One place behind the point is enough to round by.
proof fn rounded_by_one_place(x: nat, k: nat)
    requires
        k > 0,
    ensures
        rounded(x, pow10(k)) == (x / pow10((k - 1) as nat) + 5) / 10,
{
    let p = pow10((k - 1) as nat);
    pow10_positive((k - 1) as nat);
    assert(pow10(k) == 10 * p);
    let y = x + 5 * p;
    assert(2 * x + 10 * p == 2 * y);
    assert((2 * y) / (2 * (10 * p)) == y / (10 * p)) by {
        vstd::arithmetic::div_mod::lemma_div_denominator((2 * y) as int, 2, (10 * p) as int);
        assert((2 * y) / 2 == y);
    }
    vstd::arithmetic::div_mod::lemma_div_denominator(y as int, p as int, 10);
    assert(p * 10 == 10 * p);
    vstd::arithmetic::div_mod::lemma_hoist_over_denominator(x as int, 5, p);
}

/// A product of digits with a small number, from the first decimal place on, rounded.
fn rounded_product(rest: &Vec<char>, unit: u128) -> (r: u128)
    requires
        text::all_digits(rest@),
        rest@.len() > 0,
        unit <= 3600,
    ensures
        r == rounded(value(rest@) * unit as nat, pow10(rest@.len())),
        r <= 3601,
{
    let n: usize = rest.len();
    let c = rest[n - 1];
    assert(text::is_digit(rest@[n - 1]));
    let digit: u128 = (c as u8 - 48) as u128;
    proof {
        let last = rest@.skip(n - 1);
        assert(last.drop_last() =~= Seq::<char>::empty());
        assert(last.last() == c);
        assert(value(Seq::<char>::empty()) == 0);
        assert(value(last) == digit);
        assert(pow10(0) == 1);
        let x = value(last) * unit as nat;
        assert(x / 1 == x);
        assert(x / pow10(0) == x);
        assert(0 <= digit * unit <= 9 * 3600) by (nonlinear_arith)
            requires
                digit <= 9,
                unit <= 3600,
        ;
    }
    let mut w: u128 = digit * unit;
    let mut i: usize = n - 1;
    while i > 0
        invariant
            n == rest@.len(),
            0 <= i < n,
            text::all_digits(rest@),
            unit <= 3600,
            w <= 36000,
            w == (value(rest@.skip(i as int)) * unit as nat) / pow10((n - i - 1) as nat),
        decreases i,
    {
        let ghost tail = rest@.skip(i as int);
        i -= 1;
        let c = rest[i];
        assert(text::is_digit(rest@[i as int]));
        let digit: u128 = (c as u8 - 48) as u128;
        proof {
            let head = seq![c];
            assert(head + tail =~= rest@.skip(i as int));
            value_of_row(head, tail);
            assert(head.drop_last() =~= Seq::<char>::empty());
            assert(value(Seq::<char>::empty()) == 0);
            assert(value(head) == digit);
            product_grows(value(tail), digit as nat, unit as nat, (n - i - 1) as nat);
            assert(digit * unit <= 9 * 3600) by (nonlinear_arith)
                requires
                    digit <= 9,
                    unit <= 3600,
            ;
        }
        w = digit * unit + w / 10;
    }
    proof {
        assert(rest@.skip(0) =~= rest@);
        rounded_by_one_place(value(rest@) * unit as nat, rest@.len());
    }
    (w + 5) / 10
}

/// The whole billionths of a number are not more than those of a multiple of it.
proof fn whole_within_scaled(d: Seq<char>, q: int, unit: nat)
    requires
        text::all_digits(d),
        unit > 0,
    ensures
        scaled(d, q, unit) >= value(padded(d, q + 9)),
        d.len() <= q + 9 ==> scaled(d, q, unit) == value(padded(d, q + 9)) * unit,
{
    let a = value(padded(d, q + 9));
    assert(a * unit >= a) by (nonlinear_arith)
        requires
            unit > 0,
    ;
    if d.len() <= q + 9 {
        assert(pow10(0) == 1);
        assert((2 * (a * unit) + 1) / 2 == a * unit);
    } else {
        let rest = if q + 9 >= 0 {
            d.skip(q + 9)
        } else {
            Seq::new((-(q + 9)) as nat, |i: int| '0') + d
        };
        scaled_in_parts(d, q, unit, rest);
    }
}

/// An infinite number has more whole billionths than the longest span.
proof fn infinite_is_long(d: Seq<char>, q: int)
    requires
        text::all_digits(d),
    ensures
        is_infinite(d, q) ==> value(padded(d, q + 9)) > MAX_SPAN_NANOS,
{
    if is_infinite(d, q) {
        infinite_digits();
        pow10_grows(37, 308);
        pow10_limit();
        if q < 0 {
            value_of_zeros(padded(d, q));
        } else {
            let head = padded(d, q);
            let tail = padded(d, q + 9).skip(q);
            assert(head + tail =~= padded(d, q + 9));
            value_of_row(head, tail);
            pow10_positive(tail.len());
            let (x, y) = (value(head), pow10(tail.len()));
            assert(x * y >= x) by (nonlinear_arith)
                requires
                    y > 0,
            ;
        }
    }
}

/// What lies below a hundred thousandth rounds away, even a few thousand times.
proof fn small_rounds_away(d: Seq<char>, rest: Seq<char>, unit: nat)
    requires
        text::all_digits(d),
        rest.len() >= d.len() + 5,
        rest == Seq::new((rest.len() - d.len()) as nat, |i: int| '0') + d,
        unit <= 3600,
    ensures
        rounded(value(rest) * unit, pow10(rest.len())) == 0,
{
    let zeros = Seq::new((rest.len() - d.len()) as nat, |i: int| '0');
    value_of_row(zeros, d);
    value_of_zeros(zeros);
    assert(0 * pow10(d.len()) == 0);
    value_below(d);
    pow10_grows(d.len() + 5, rest.len());
    let x = value(rest);
    let p = pow10(d.len());
    assert(pow10(d.len() + 5) == 100_000 * p) by {
        reveal_with_fuel(pow10, 6);
    }
    let b = pow10(rest.len());
    assert(2 * (x * unit) < b) by (nonlinear_arith)
        requires
            x < p,
            unit <= 3600,
            b >= 100_000 * p,
            x >= 0,
    ;
    vstd::arithmetic::div_mod::lemma_basic_div((2 * (x * unit) + b) as int, (2 * b) as int);
}

/// The billionths in `unit` times a number, unless they exceed the longest span.
fn scaled_exec(d: &Vec<char>, q: i128, unit: u128) -> (r: Option<u128>)
    requires
        text::all_digits(d@),
        -2 * EXPONENT_LIMIT <= q <= 2 * EXPONENT_LIMIT,
        0 < unit <= 3600,
    ensures
        r matches Some(n) ==> n == scaled(d@, q as int, unit as nat),
        r is None ==> scaled(d@, q as int, unit as nat) > MAX_SPAN_NANOS,
{
    let end: i128 = q + 9;
    let len: i128 = d.len() as i128;
    let ghost whole = value(padded(d@, q + 9));
    let ghost rest = if end >= 0 {
        d@.skip(end as int)
    } else {
        Seq::new((-end) as nat, |i: int| '0') + d@
    };
    proof {
        whole_within_scaled(d@, q as int, unit as nat);
        infinite_is_long(d@, q as int);
    }
    let a: u128 = match magnitude_exec(d, q, false) {
        Some(a) => a,
        None => return None,
    };
    if a > MAX_SPAN_NANOS {
        return None;
    }
    assert(a == whole);
    assert(0 <= a * unit <= MAX_SPAN_NANOS * 3600) by (nonlinear_arith)
        requires
            a <= MAX_SPAN_NANOS,
            unit <= 3600,
    ;
    if end >= len {
        return Some(a * unit);
    }
    proof {
        scaled_in_parts(d@, q as int, unit as nat, rest);
    }
    if end < -4 {
        proof {
            assert(padded(d@, q + 9) =~= Seq::<char>::empty());
            assert(whole == 0);
            assert(0 * (unit as nat) == 0);
            assert(rest =~= Seq::new((rest.len() - d@.len()) as nat, |i: int| '0') + d@);
            small_rounds_away(d@, rest, unit as nat);
        }
        return Some(0);
    }
    let mut digits: Vec<char> = Vec::new();
    let mut i: i128 = end;
    while i < len
        invariant
            -4 <= end <= i <= len,
            len == d@.len() <= usize::MAX,
            text::all_digits(d@),
            text::all_digits(digits@),
            digits@.len() == i - end,
            rest.len() == len - end,
            forall|j: int| 0 <= j < rest.len() ==> #[trigger] rest[j] == (if end + j < 0 {
                '0'
            } else {
                d@[end + j]
            }),
            forall|j: int| 0 <= j < digits@.len() ==> #[trigger] digits@[j] == rest[j],
        decreases len - i,
    {
        let c = if i < 0 {
            '0'
        } else {
            assert(text::is_digit(d@[i as int]));
            d[i as usize]
        };
        assert(c == rest[i - end]);
        digits.push(c);
        i += 1;
    }
    assert(digits@ =~= rest);
    Some(a * unit + rounded_product(&digits, unit))
}

/// The billionths in `unit` times the decimal number that `s` writes behind an optional
/// sign, unless they exceed the longest span.
pub fn parse_multiple(s: &str, unit: u128) -> (r: Option<u128>)
    requires
        0 < unit <= 3600,
    ensures
        match multiple_of(s@, unit as nat) {
            Some(n) => if n <= MAX_SPAN_NANOS {
                r == Some(n as u128)
            } else {
                r is None
            },
            None => r is None,
        },
{
    proof {
        reveal(multiple_of);
    }
    let v = text::chars(s);
    let from: usize = if v.len() > 0 && (v[0] == '-' || v[0] == '+') {
        1
    } else {
        0
    };
    let t = text::text_between(&v, from, v.len());
    assert(t@ =~= v@.skip(from as int));
    assert(v@.skip(0) =~= v@);
    match numeral(t.as_str()) {
        None => None,
        Some((d, q)) => match scaled_exec(&d, q, unit) {
            Some(n) => if n <= MAX_SPAN_NANOS {
                Some(n)
            } else {
                None
            },
            None => None,
        },
    }
}

/// The number that `s` writes, to the nearest billionth.
pub fn parse_real(s: &str) -> (r: Option<Real>)
    ensures
        r == real_of(s@),
        r matches Some(n) ==> n.wf(),
{
    parse_number(s, true)
}

/// The number that `s` writes, without what is smaller than a billionth.
pub fn parse_cut(s: &str) -> (r: Option<Real>)
    ensures
        r == cut_of(s@),
        r matches Some(n) ==> n.wf(),
{
    parse_number(s, false)
}

fn parse_number(s: &str, nearest: bool) -> (r: Option<Real>)
    ensures
        r == number_of(s@, nearest),
        r matches Some(n) ==> n.wf(),
{
    proof {
        reveal(number_of);
    }
    let v = text::chars(s);
    let neg = v.len() > 0 && v[0] == '-';
    let signed = v.len() > 0 && (v[0] == '-' || v[0] == '+');
    let from: usize = if signed {
        1
    } else {
        0
    };
    let t = text::text_between(&v, from, v.len());
    assert(t@ =~= (if signed {
        s@.skip(1)
    } else {
        s@
    }));
    let infinite = if neg {
        Real::NegInf
    } else {
        Real::PosInf
    };
    if text::same_ignoring_case(t.as_str(), "inf") || text::same_ignoring_case(
        t.as_str(),
        "infinity",
    ) {
        Some(infinite)
    } else if text::same_ignoring_case(t.as_str(), "nan") {
        Some(Real::Nan)
    } else {
        match decimal(t.as_str(), nearest) {
            None => None,
            Some(None) => Some(infinite),
            Some(Some(n)) => Some(
                Real::Finite(
                    if neg {
                        0 - (n as i128)
                    } else {
                        n as i128
                    },
                ),
            ),
        }
    }
}


// ---------------------------------------------------------------------------
// Writing quantities
// ---------------------------------------------------------------------------

/// The `k` decimal places of the fraction `f` over ten to the `k`, without the
/// zeros that would end them.
pub open spec fn fraction_digits(f: nat, k: nat) -> Seq<char>
    decreases k,
{
    if f == 0 || k == 0 {
        Seq::empty()
    } else {
        let p = pow10((k - 1) as nat);
        seq![digit_char(f / p)] + fraction_digits(f % p, (k - 1) as nat)
    }
}

/// `n` billionths as a decimal number, without needless zeros.
pub open spec fn show_billionths(n: nat) -> Seq<char> {
    if n % 1_000_000_000 == 0 {
        dec(n / 1_000_000_000)
    } else {
        dec(n / 1_000_000_000) + seq!['.'] + fraction_digits(n % 1_000_000_000, 9)
    }
}

/// A quantity as text.
pub open spec fn show_real(r: Real) -> Seq<char> {
    match r {
        Real::Finite(n) => if n < 0 {
            seq!['-'] + show_billionths((-n) as nat)
        } else {
            show_billionths(n as nat)
        },
        Real::PosInf => "inf"@,
        Real::NegInf => "-inf"@,
        Real::Nan => "NaN"@,
    }
}

proof fn pow10_positive(k: nat)
    ensures
        pow10(k) > 0,
    decreases k,
{
    if k > 0 {
        pow10_positive((k - 1) as nat);
    }
}

proof fn fraction_digit_bounds(f: nat, k: nat)
    requires
        k > 0,
        f < pow10(k),
    ensures
        f / pow10((k - 1) as nat) < 10,
        f % pow10((k - 1) as nat) < pow10((k - 1) as nat),
        f == (f / pow10((k - 1) as nat)) * pow10((k - 1) as nat) + f % pow10((k - 1) as nat),
{
    let p = pow10((k - 1) as nat);
    pow10_positive((k - 1) as nat);
    vstd::arithmetic::div_mod::lemma_fundamental_div_mod(f as int, p as int);
    vstd::arithmetic::div_mod::lemma_mod_bound(f as int, p as int);
    vstd::arithmetic::mul::lemma_mul_is_commutative(p as int, (f / p) as int);
    assert(f / p < 10) by (nonlinear_arith)
        requires
            f < 10 * p,
            p > 0,
    ;
}

proof fn fraction_digits_shape(f: nat, k: nat)
    requires
        f < pow10(k),
    ensures
        fraction_digits(f, k).len() <= k,
        text::all_digits(fraction_digits(f, k)),
        f > 0 ==> fraction_digits(f, k).len() > 0,
    decreases k,
{
    if f > 0 && k > 0 {
        let p = pow10((k - 1) as nat);
        fraction_digit_bounds(f, k);
        fraction_digits_shape(f % p, (k - 1) as nat);
        let s = fraction_digits(f, k);
        assert forall|i: int| 0 <= i < s.len() implies text::is_digit(#[trigger] s[i]) by {
            if i > 0 {
                assert(s[i] == fraction_digits(f % p, (k - 1) as nat)[i - 1]);
            }
        }
    }
}

/// The digits of two texts in a row write the first number shifted, plus the second.
pub proof fn value_of_row(a: Seq<char>, b: Seq<char>)
    ensures
        value(a + b) == value(a) * pow10(b.len()) + value(b),
    decreases b.len(),
{
    if b.len() == 0 {
        assert(a + b =~= a);
        assert(pow10(b.len()) == 1);
        assert(value(a) * 1 == value(a));
    } else {
        let c = b.drop_last();
        value_of_row(a, c);
        assert((a + b).drop_last() =~= a + c);
        assert((a + b).last() == b.last());
        assert(pow10(b.len()) == 10 * pow10(c.len()));
        let x = value(a);
        let y = pow10(c.len());
        assert((x * y) * 10 == x * (10 * y)) by (nonlinear_arith);
    }
}

proof fn value_of_fraction(f: nat, k: nat)
    requires
        f < pow10(k),
    ensures
        value(padded(fraction_digits(f, k), k as int)) == f,
    decreases k,
{
    let d = fraction_digits(f, k);
    let s = padded(d, k as int);
    if f == 0 || k == 0 {
        value_of_zeros(s);
    } else {
        let p = pow10((k - 1) as nat);
        fraction_digit_bounds(f, k);
        fraction_digits_shape(f % p, (k - 1) as nat);
        value_of_fraction(f % p, (k - 1) as nat);
        let rest = padded(fraction_digits(f % p, (k - 1) as nat), k - 1);
        let head = seq![digit_char(f / p)];
        assert(s =~= head + rest);
        value_of_row(head, rest);
        assert(head.drop_last() =~= Seq::<char>::empty());
        assert(value(head.drop_last()) == 0);
        assert(head.last() == digit_char(f / p));
        assert(value(head) == f / p);
    }
}

proof fn dec_len(n: nat, k: nat)
    requires
        n < pow10(k),
        k > 0,
    ensures
        dec(n).len() <= k,
    decreases n,
{
    if n >= 10 {
        if k == 1 {
            reveal_with_fuel(pow10, 2);
        }
        dec_len(n / 10, (k - 1) as nat);
    }
}

proof fn within_the_limit_is_finite(d: Seq<char>, q: int)
    requires
        value(padded(d, q)) <= REAL_LIMIT,
    ensures
        !is_infinite(d, q),
{
    infinite_digits();
    pow10_limit();
    pow10_grows(38, 308);
    assert(pow10(38) == 10 * pow10(37));
}

/// A quantity that is written reads back as the same quantity.
#[verifier::spinoff_prover]
#[verifier::rlimit(40)]
pub proof fn shown_billionths_read_back(n: nat)
    requires
        n <= REAL_LIMIT,
    ensures
        real_of(show_billionths(n)) == Some(Real::Finite(n as i128)),
        cut_of(show_billionths(n)) == Some(Real::Finite(n as i128)),
        numeral_of(show_billionths(n)) matches Some((d, q)) && text::all_digits(d) && 0 <= q
            && d.len() <= q + 9 && value(padded(d, q + 9)) == n,
        show_billionths(n).len() > 0,
        text::is_digit(show_billionths(n)[0]),
        forall|i: int|
            0 <= i < show_billionths(n).len() ==> text::is_digit(#[trigger] show_billionths(n)[i])
                || show_billionths(n)[i] == '.',
{
    reveal(number_of);
    let w = n / 1_000_000_000;
    let f = n % 1_000_000_000;
    let s = show_billionths(n);
    let a = dec(w);
    let b = fraction_digits(f, 9);
    pow10_limit();
    reveal_with_fuel(pow10, 40);
    dec_reads_back(w);
    fraction_digits_shape(f, 9);
    value_of_fraction(f, 9);
    dec_len(w, 38);
    assert forall|i: int| 0 <= i < s.len() implies text::is_digit(#[trigger] s[i]) || s[i]
        == '.' by {
        if i < a.len() {
            assert(s[i] == a[i]);
        } else if i > a.len() {
            assert(s[i] == b[i - a.len() - 1]);
        }
    }
    assert(text::is_digit(a[0]));
    assert(s[0] == a[0]);
    reveal_strlit("inf");
    reveal_strlit("infinity");
    reveal_strlit("nan");
    let l = text::ascii_lower(s);
    assert(l[0] == s[0]);
    assert(text::ascii_lower("inf"@)[0] == 'i');
    assert(text::ascii_lower("infinity"@)[0] == 'i');
    assert(text::ascii_lower("nan"@)[0] == 'n');
    span_without_is_first(s, exp_marks());
    let k = span_without(s, exp_marks()) as int;
    assert(k == s.len());
    assert(s.take(k) =~= s);
    span_without_is_first(s, text::just('.'));
    let q = span_without(s, text::just('.')) as int;
    if q < a.len() {
        assert(text::is_digit(a[q]));
    }
    if f == 0 {
        assert(q == a.len());
        assert(s.take(q) =~= a);
        assert(b =~= Seq::<char>::empty());
    } else {
        if q > a.len() {
            assert(s[a.len() as int] == '.');
        }
        assert(q == a.len());
        assert(s.take(q) =~= a);
        assert(s.skip(q + 1) =~= b);
    }
    let d = a + b;
    assert(mantissa_of(s) == Some((d, q)));
    let pad = padded(d, q + 9);
    assert(pad =~= a + padded(b, 9));
    value_of_row(a, padded(b, 9));
    assert(value(pad) == w * 1_000_000_000 + f);
    assert(padded(d, q) =~= a);
    within_the_limit_is_finite(d, q);
    assert(numeral_of(s) == Some((d, q)));
}

/// A written quantity, multiplied as it is read, is the multiple; and it is below zero
/// behind a minus sign alone, unless it is zero.
#[verifier::spinoff_prover]
pub proof fn shown_billionths_are_multiplied(n: nat, unit: nat)
    requires
        n <= REAL_LIMIT,
    ensures
        multiple_of(show_billionths(n), unit) == Some(n * unit),
        !below_zero(show_billionths(n)),
        multiple_of(seq!['-'] + show_billionths(n), unit) == Some(n * unit),
        below_zero(seq!['-'] + show_billionths(n)) == (n > 0),
{
    reveal(below_zero);
    reveal(multiple_of);
    shown_billionths_read_back(n);
    let s = show_billionths(n);
    let (d, q) = numeral_of(s)->0;
    assert(s[0] != '-' && s[0] != '+');
    assert((seq!['-'] + s).skip(1) =~= s);
    let x = n * unit;
    assert(scaled(d, q, unit) == x) by {
        assert(pow10(0) == 1);
        assert((2 * x + 1) / 2 == x);
    }
    assert(is_told(d, q) == (n > 0)) by {
        reveal(is_told);
        let pad = padded(d, q + 9);
        padded_is_digits(d, q + 9);
        value_lengthened(pad, 1066);
        assert(padded(d, q + 1075) =~= lengthened(pad, 1066));
        zero_digits();
        pow10_grows(752, 1066);
        let m = if d.len() > q + 1075 {
            d.len() as int
        } else {
            q + 1075
        };
        assert(m == q + 1075);
        assert(pow10((m - q - 1075) as nat) == 1);
        let big = pow10(1066);
        let least = value(ZERO_UP_TO@);
        assert(least * 1 == least);
        assert(n == 0 ==> n * big == 0) by (nonlinear_arith);
        assert(n > 0 ==> n * big >= big) by (nonlinear_arith);
        assert(value(padded(d, m)) == n * big);
    }
}

/// A finite quantity within the limit reads back from what it is written as.
pub proof fn shown_real_reads_back(r: Real)
    requires
        r matches Real::Finite(n) ==> -REAL_LIMIT <= n <= REAL_LIMIT,
        r is Finite,
    ensures
        real_of(show_real(r)) == Some(r),
{
    reveal(number_of);
    let n = r->Finite_0;
    if n < 0 {
        let m = (-n) as nat;
        shown_billionths_read_back(m);
        let s = show_real(r);
        let t = show_billionths(m);
        assert(s.skip(1) =~= t);
        assert(t[0] != '-' && t[0] != '+');
    } else {
        shown_billionths_read_back(n as nat);
    }
}

fn push_billionths(out: &mut String, n: u128)
    ensures
        final(out)@ == old(out)@ + show_billionths(n as nat),
{
    let w: u128 = n / 1_000_000_000;
    let mut f: u64 = (n % 1_000_000_000) as u64;
    push_dec(out, w);
    if f == 0 {
        return;
    }
    out.push('.');
    let ghost f0 = f;
    let ghost start = out@;
    let mut k: u64 = 9;
    let mut p: u64 = 100_000_000;
    proof {
        pow10_limit();
        reveal_with_fuel(pow10, 10);
    }
    assert(start + fraction_digits(f0 as nat, 9) =~= out@ + fraction_digits(f as nat, k as nat));
    while f != 0
        invariant
            k <= 9,
            f < pow10(k as nat),
            k > 0 ==> p == pow10((k - 1) as nat),
            p <= 100_000_000,
            start + fraction_digits(f0 as nat, 9) == out@ + fraction_digits(f as nat, k as nat),
        decreases k,
    {
        proof {
            if k == 0 {
                assert(pow10(0) == 1);
            }
            fraction_digit_bounds(f as nat, k as nat);
            pow10_positive((k - 1) as nat);
        }
        let ghost before = out@;
        let d: u8 = (f / p) as u8;
        out.push((48 + d) as char);
        let ghost f1 = f;
        f = f % p;
        k -= 1;
        assert(fraction_digits(f1 as nat, (k + 1) as nat) == seq![digit_char(d as nat)]
            + fraction_digits(f as nat, k as nat));
        assert(before + (seq![digit_char(d as nat)] + fraction_digits(f as nat, k as nat)) =~= out@
            + fraction_digits(f as nat, k as nat));
        proof {
            if k > 0 {
                assert(pow10(k as nat) == 10 * pow10((k - 1) as nat));
            }
        }
        p = p / 10;
    }
    assert(out@ + fraction_digits(0, k as nat) =~= out@);
    assert(out@ =~= old(out)@ + show_billionths(n as nat));
}

/// A quantity as text.
pub fn real_text(r: Real) -> (s: String)
    ensures
        s@ == show_real(r),
{
    match r {
        Real::Finite(n) => {
            let mut out = String::new();
            if n < 0 {
                out.push('-');
                let m: u128 = if n == i128::MIN {
                    0x8000_0000_0000_0000_0000_0000_0000_0000
                } else {
                    (0 - n) as u128
                };
                push_billionths(&mut out, m);
                assert(out@ =~= seq!['-'] + show_billionths((-n) as nat));
            } else {
                push_billionths(&mut out, n as u128);
                assert(out@ =~= show_billionths(n as nat));
            }
            out
        },
        Real::PosInf => "inf".to_owned(),
        Real::NegInf => "-inf".to_owned(),
        Real::Nan => "NaN".to_owned(),
    }
}

// ---------------------------------------------------------------------------
// Spans of time
// ---------------------------------------------------------------------------

/// The longest span, in nanoseconds: just short of two to the 64 seconds.
pub const MAX_SPAN_NANOS: u128 = 18_446_744_073_709_551_615_999_999_999;

/// A span of time.
#[derive(Clone, Copy, Debug, PartialEq, Eq, Structural)]
pub struct Span {
    /// The span in nanoseconds.
    pub nanos: u128,
}

impl Span {
    /// The span is no longer than the longest one.
    pub open spec fn wf(self) -> bool {
        self.nanos <= MAX_SPAN_NANOS
    }

    /// A span of whole seconds.
    pub fn from_secs(secs: u64) -> (r: Span)
        ensures
            r.wf(),
            r.nanos == secs * 1_000_000_000,
    {
        Span { nanos: (secs as u128) * 1_000_000_000 }
    }

    /// A span of whole milliseconds.
    pub fn from_millis(ms: u64) -> (r: Span)
        ensures
            r.wf(),
            r.nanos == ms * 1_000_000,
    {
        Span { nanos: (ms as u128) * 1_000_000 }
    }

    /// The span of no time.
    pub fn zero() -> (r: Span)
        ensures
            r == (Span { nanos: 0 }),
    {
        Span { nanos: 0 }
    }

    /// The span that a number of seconds makes, unless it is negative, too long or
    /// no number.
    pub fn from_real(secs: Real) -> (r: Option<Span>)
        ensures
            r == span_of(secs),
            r matches Some(s) ==> s.wf(),
    {
        match secs {
            Real::Finite(n) => if 0 <= n && (n as u128) <= MAX_SPAN_NANOS {
                Some(Span { nanos: n as u128 })
            } else {
                None
            },
            _ => None,
        }
    }

    /// This span `k` times over, or the longest one where that is too long.
    pub fn saturating_mul(self, k: u32) -> (r: Span)
        requires
            self.wf(),
        ensures
            r == repeated(self, k as nat),
            r.wf(),
    {
        assert(self.nanos * k <= MAX_SPAN_NANOS * u32::MAX) by (nonlinear_arith)
            requires
                self.nanos <= MAX_SPAN_NANOS,
                k <= u32::MAX,
        ;
        let n: u128 = self.nanos * (k as u128);
        Span {
            nanos: if n > MAX_SPAN_NANOS {
                MAX_SPAN_NANOS
            } else {
                n
            },
        }
    }
}

/// The span that a number of seconds makes.
pub open spec fn span_of(secs: Real) -> Option<Span> {
    match secs {
        Real::Finite(n) => if 0 <= n <= MAX_SPAN_NANOS {
            Some(Span { nanos: n as u128 })
        } else {
            None
        },
        _ => None,
    }
}

/// A span `k` times over, or the longest one where that is too long.
pub open spec fn repeated(s: Span, k: nat) -> Span {
    Span {
        nanos: (if s.nanos * k > MAX_SPAN_NANOS {
            MAX_SPAN_NANOS as int
        } else {
            s.nanos * k
        }) as u128,
    }
}

/// A plus sign changes nothing of a whole number, nor do zeros before it; beyond its bound
/// a number is none, and a minus sign makes it no number without a sign.
pub proof fn a_whole_number_is_read_as_written(n: nat, max: nat)
    ensures
        n <= max ==> unsigned_of(seq!['+'] + dec(n), max) == Some(n),
        n <= max ==> unsigned_of(seq!['0'] + dec(n), max) == Some(n),
        n > max ==> unsigned_of(dec(n), max) is None,
        unsigned_of(seq!['-'] + dec(n), max) is None,
        unsigned_of(Seq::empty(), max) is None,
        n <= max ==> signed_of(seq!['-'] + dec(n), max) == Some(-(n as int)),
        n <= max ==> signed_of(seq!['+'] + dec(n), max) == Some(n as int),
{
    dec_reads_back(n);
    let d = dec(n);
    assert((seq!['+'] + d).skip(1) =~= d);
    assert((seq!['-'] + d).skip(1) =~= d);
    assert(text::is_digit(d[0]));
    let z = seq!['0'] + d;
    value_of_row(seq!['0'], d);
    assert(seq!['0'].drop_last() =~= Seq::<char>::empty());
    assert(value(seq!['0'].drop_last()) == 0);
    assert(value(seq!['0']) == 0);
    assert(0 * pow10(d.len()) == 0);
    assert forall|i: int| 0 <= i < z.len() implies text::is_digit(#[trigger] z[i]) by {
        if i > 0 {
            assert(z[i] == d[i - 1]);
        }
    }
    let m = seq!['-'] + d;
    assert(m[0] == '-');
    assert(!text::is_digit(m[0]));
}

/// A quantity behind a plus sign is the quantity, behind a minus sign its opposite.
pub proof fn a_sign_turns_a_quantity(n: nat)
    requires
        n <= REAL_LIMIT,
    ensures
        real_of(seq!['+'] + show_billionths(n)) == Some(Real::Finite(n as i128)),
        real_of(seq!['-'] + show_billionths(n)) == Some(Real::Finite((-(n as int)) as i128)),
{
    reveal(number_of);
    shown_billionths_read_back(n);
    let s = show_billionths(n);
    assert((seq!['+'] + s).skip(1) =~= s);
    assert((seq!['-'] + s).skip(1) =~= s);
    assert(s[0] != '+' && s[0] != '-');
}

/// A text without a digit writes no finite number.
pub proof fn without_digits_there_is_no_number(x: Seq<char>, unit: nat, max: nat)
    requires
        forall|i: int| 0 <= i < x.len() ==> !('0' <= #[trigger] x[i] <= '9'),
    ensures
        unsigned_of(x, max) is None,
        multiple_of(x, unit) is None,
        !(real_of(x) matches Some(r) && r is Finite),
        !(cut_of(x) matches Some(r) && r is Finite),
{
    reveal(multiple_of);
    reveal(number_of);
    let t = if x.len() > 0 && (x[0] == '-' || x[0] == '+') {
        x.skip(1)
    } else {
        x
    };
    assert forall|i: int| 0 <= i < t.len() implies !text::is_digit(#[trigger] t[i]) by {
        if t.len() < x.len() {
            assert(t[i] == x[i + 1]);
        }
    }
    let k = span_without(t, exp_marks()) as int;
    span_without_is_first(t, exp_marks());
    let m = t.take(k);
    let q = span_without(m, text::just('.')) as int;
    span_without_is_first(m, text::just('.'));
    let before = m.take(q);
    if before.len() > 0 {
        assert(before[0] == t[0]);
    }
    if q < m.len() && m.skip(q + 1).len() > 0 {
        assert(m.skip(q + 1)[0] == t[q + 1]);
    }
    assert(numeral_of(t) is None);
    if x.len() > 0 {
        assert(!text::is_digit(x[0]));
        if x[0] == '+' && x.skip(1).len() > 0 {
            assert(x.skip(1)[0] == x[1]);
        }
    }
}

} // verus!
