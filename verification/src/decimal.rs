//! The decimal text form of a time in seconds, exact to the nanosecond.
//!
//! Accepted is an optional sign, then digits with at most one point among
//! them and at least one digit in all, then optionally an exponent: `e` or
//! `E`, an optional sign, and at least one digit. So `12`, `12.5`, `.5`,
//! `12.`, `-0.25`, `+3`, `1.5e3` and `25E-1` are numbers. The exponent moves
//! the point. What lies past the ninth place after the point is read and
//! dropped. There is no name for infinity or for a missing number.

use crate::text::is_space;
use crate::text::is_word;
use crate::text::len_before;
use crate::text::lemma_len_before;
use crate::text::to_chars;
use vstd::prelude::*;

verus! {

/// Nanoseconds in one second.
pub const NANOS_PER_SECOND: u64 = 1_000_000_000;

/// Largest size, in nanoseconds, of a time that fits in an `i64`: that of
/// `i64::MIN`.
pub const MAX_MAGNITUDE: u64 = 9_223_372_036_854_775_808;

/// Whether `c` is one of the ten decimal digits.
pub open spec fn is_digit(c: char) -> bool {
    0x30 <= c as u32 <= 0x39
}

/// The number a decimal digit stands for.
pub open spec fn digit_of(c: char) -> nat {
    (c as u32 - 0x30) as nat
}

/// Whether `s` holds decimal digits only.
pub open spec fn all_digits(s: Seq<char>) -> bool {
    forall|i: int| 0 <= i < s.len() ==> is_digit(#[trigger] s[i])
}

/// The number that the digit string `s` denotes; 0 for the empty string.
pub open spec fn digits_value(s: Seq<char>) -> nat
    decreases s.len(),
{
    if s.len() == 0 {
        0
    } else {
        digits_value(s.drop_last()) * 10 + digit_of(s.last())
    }
}

/// Ten to the power `k`.
pub open spec fn pow10(k: nat) -> nat
    decreases k,
{
    if k == 0 {
        1
    } else {
        10 * pow10((k - 1) as nat)
    }
}

/// The first `n` digits of `d`, with `0` for each missing one; empty if `n`
/// is not positive.
pub open spec fn padded(d: Seq<char>, n: int) -> Seq<char> {
    Seq::new(
        if n > 0 {
            n as nat
        } else {
            0
        },
        |k: int|
            if k < d.len() {
                d[k]
            } else {
                '0'
            },
    )
}

/// The first nine fractional digits, with `0` for each missing one.
pub open spec fn pad9(frac: Seq<char>) -> Seq<char> {
    padded(frac, 9)
}

/// Whether `c` marks the start of an exponent.
pub open spec fn is_exponent_mark(c: char) -> bool {
    c == 'e' || c == 'E'
}

/// Number of characters of `s` before its first exponent mark; the length
/// of `s` if it has none.
pub open spec fn mantissa_len(s: Seq<char>) -> nat
    decreases s.len(),
{
    if s.len() == 0 || is_exponent_mark(s[0]) {
        0
    } else {
        1 + mantissa_len(s.drop_first())
    }
}

/// The part of an unsigned number before its exponent mark.
pub open spec fn mantissa_part(s: Seq<char>) -> Seq<char> {
    s.take(mantissa_len(s) as int)
}

/// Whether an unsigned number has an exponent mark.
pub open spec fn has_exponent(s: Seq<char>) -> bool {
    mantissa_len(s) < s.len()
}

/// The part of an unsigned number after its first exponent mark; empty if it
/// has none.
pub open spec fn exponent_part(s: Seq<char>) -> Seq<char> {
    if has_exponent(s) {
        s.skip(mantissa_len(s) as int + 1)
    } else {
        Seq::empty()
    }
}

/// The part of an unsigned decimal before its point.
pub open spec fn whole_part(s: Seq<char>) -> Seq<char> {
    s.take(len_before(s, '.') as int)
}

/// The part of an unsigned decimal after its first point; empty if it has
/// no point.
pub open spec fn frac_part(s: Seq<char>) -> Seq<char> {
    if len_before(s, '.') < s.len() {
        s.skip(len_before(s, '.') as int + 1)
    } else {
        Seq::empty()
    }
}

/// Whether `s` is an unsigned decimal: digits around at most one point, and
/// at least one digit.
pub open spec fn is_decimal(s: Seq<char>) -> bool {
    &&& all_digits(whole_part(s))
    &&& all_digits(frac_part(s))
    &&& whole_part(s).len() + frac_part(s).len() > 0
}

/// Whether `s` starts with a minus sign.
pub open spec fn is_negative(s: Seq<char>) -> bool {
    s.len() > 0 && s[0] == '-'
}

/// `s` without its leading sign, if it has one.
pub open spec fn unsigned_part(s: Seq<char>) -> Seq<char> {
    if s.len() > 0 && (s[0] == '-' || s[0] == '+') {
        s.drop_first()
    } else {
        s
    }
}

/// Whether `t` is a whole number: an optional sign and at least one digit.
pub open spec fn is_integer(t: Seq<char>) -> bool {
    unsigned_part(t).len() > 0 && all_digits(unsigned_part(t))
}

/// The whole number that `t` denotes.
pub open spec fn integer_value(t: Seq<char>) -> int {
    if is_negative(t) {
        -(digits_value(unsigned_part(t)) as int)
    } else {
        digits_value(unsigned_part(t)) as int
    }
}

/// Whether `s` is an unsigned number: a decimal, and after an exponent mark
/// a whole number.
pub open spec fn is_number(s: Seq<char>) -> bool {
    &&& is_decimal(mantissa_part(s))
    &&& has_exponent(s) ==> is_integer(exponent_part(s))
}

/// The exponent of an unsigned number; 0 if it has none.
pub open spec fn exponent_of(s: Seq<char>) -> int {
    if has_exponent(s) {
        integer_value(exponent_part(s))
    } else {
        0
    }
}

/// The digits of an unsigned number without its point: those before the
/// point, then those after it.
pub open spec fn mantissa_digits(s: Seq<char>) -> Seq<char> {
    whole_part(mantissa_part(s)) + frac_part(mantissa_part(s))
}

/// How many of the digits of an unsigned number count for its nanoseconds:
/// those before the point, after the exponent has moved it, and nine more.
pub open spec fn digits_kept(s: Seq<char>) -> int {
    whole_part(mantissa_part(s)).len() + exponent_of(s) + 9
}

/// Nanoseconds that the unsigned number `s` denotes, what lies past the
/// ninth place after the point dropped.
pub open spec fn magnitude(s: Seq<char>) -> nat {
    digits_value(padded(mantissa_digits(s), digits_kept(s)))
}

/// Nanoseconds that the signed number `s` denotes.
pub open spec fn signed_value(s: Seq<char>) -> int {
    if is_negative(s) {
        -(magnitude(unsigned_part(s)) as int)
    } else {
        magnitude(unsigned_part(s)) as int
    }
}

/// The position in nanoseconds that the text `s` denotes: `None` if `s` is
/// no number or if its value does not fit in an `i64`.
pub open spec fn parse_nanos(s: Seq<char>) -> Option<i64> {
    if is_number(unsigned_part(s)) && i64::MIN <= signed_value(s) <= i64::MAX {
        Some(signed_value(s) as i64)
    } else {
        None
    }
}

/// Some powers of ten.
pub proof fn lemma_pow10_values()
    ensures
        pow10(0) == 1,
        pow10(1) == 10,
        pow10(2) == 100,
        pow10(3) == 1_000,
        pow10(4) == 10_000,
        pow10(5) == 100_000,
        pow10(6) == 1_000_000,
        pow10(7) == 10_000_000,
        pow10(8) == 100_000_000,
        pow10(9) == 1_000_000_000,
        pow10(20) == 100_000_000_000_000_000_000,
{
    reveal_with_fuel(pow10, 10);
    assert(pow10(9) == 1_000_000_000);
    assert(pow10(10) == 10 * pow10(9));
    assert(pow10(11) == 10 * pow10(10));
    assert(pow10(12) == 10 * pow10(11));
    assert(pow10(13) == 10 * pow10(12));
    assert(pow10(14) == 10 * pow10(13));
    assert(pow10(15) == 10 * pow10(14));
    assert(pow10(16) == 10 * pow10(15));
    assert(pow10(17) == 10 * pow10(16));
    assert(pow10(18) == 10 * pow10(17));
    assert(pow10(19) == 10 * pow10(18));
    assert(pow10(20) == 10 * pow10(19));
}

/// Powers of ten grow with the exponent, and none is zero.
pub proof fn lemma_pow10_grows(a: nat, b: nat)
    requires
        a <= b,
    ensures
        1 <= pow10(a) <= pow10(b),
    decreases b,
{
    if b > 0 {
        if a < b {
            lemma_pow10_grows(a, (b - 1) as nat);
        } else {
            lemma_pow10_grows((a - 1) as nat, (b - 1) as nat);
        }
    }
}

/// A string of zeros denotes zero.
pub proof fn lemma_zeros_value(s: Seq<char>)
    requires
        forall|j: int| 0 <= j < s.len() ==> s[j] == '0',
    ensures
        digits_value(s) == 0,
    decreases s.len(),
{
    if s.len() > 0 {
        lemma_zeros_value(s.drop_last());
    }
}

/// Digits written after other digits: the number of the first moves up by
/// as many places as the second has digits.
pub proof fn lemma_digits_concat(a: Seq<char>, b: Seq<char>)
    ensures
        digits_value(a + b) == digits_value(a) * pow10(b.len()) + digits_value(b),
    decreases b.len(),
{
    if b.len() == 0 {
        assert(a + b == a);
        assert(pow10(0) == 1);
        assert(digits_value(a) * 1 == digits_value(a));
    } else {
        let front = b.drop_last();
        lemma_digits_concat(a, front);
        assert((a + b).drop_last() == a + front);
        assert((a + b).last() == b.last());
        let x = digits_value(a);
        let small = pow10(front.len());
        let big = pow10(b.len());
        assert(big == 10 * small);
        assert(x * big == (x * small) * 10) by (nonlinear_arith)
            requires
                big == 10 * small,
        ;
        assert(digits_value(a + b) == digits_value(a + front) * 10 + digit_of(b.last()));
        assert(digits_value(b) == digits_value(front) * 10 + digit_of(b.last()));
    }
}

/// A digit string denotes no smaller number than any of its prefixes.
pub proof fn lemma_digits_prefix(s: Seq<char>, k: int)
    requires
        0 <= k <= s.len(),
    ensures
        digits_value(s.take(k)) <= digits_value(s),
    decreases s.len(),
{
    if k == s.len() {
        assert(s.take(k) == s);
    } else {
        lemma_digits_prefix(s.drop_last(), k);
        assert(s.drop_last().take(k) == s.take(k));
    }
}

/// If `k` characters that are no exponent mark start `s`, and `s` ends there
/// or goes on with an exponent mark, then the mantissa has `k` characters.
pub proof fn lemma_mantissa_len(s: Seq<char>, k: int)
    requires
        0 <= k <= s.len(),
        forall|j: int| 0 <= j < k ==> !is_exponent_mark(s[j]),
        k == s.len() || is_exponent_mark(s[k]),
    ensures
        mantissa_len(s) == k,
    decreases k,
{
    if k > 0 {
        let rest = s.drop_first();
        assert(forall|j: int| 0 <= j < k - 1 ==> rest[j] == s[j + 1]);
        lemma_mantissa_len(rest, k - 1);
    }
}

/// Zeros written after a digit string multiply its number by ten for each
/// zero.
pub proof fn lemma_padded_value(d: Seq<char>, n: int)
    requires
        n >= d.len(),
    ensures
        digits_value(padded(d, n)) == digits_value(d) * pow10((n - d.len()) as nat),
{
    let zeros = padded(d, n).skip(d.len() as int);
    assert(padded(d, n) =~= d + zeros);
    lemma_digits_concat(d, zeros);
    lemma_zeros_value(zeros);
}

/// With twenty or more zeros written after it, a digit string denotes zero
/// or more than any time that is representable.
pub proof fn lemma_far_padding(d: Seq<char>, n: int)
    requires
        n >= d.len() + 20,
    ensures
        digits_value(d) == 0 ==> digits_value(padded(d, n)) == 0,
        digits_value(d) > 0 ==> digits_value(padded(d, n)) >= 100_000_000_000_000_000_000,
{
    lemma_padded_value(d, n);
    lemma_pow10_values();
    lemma_pow10_grows(20, (n - d.len()) as nat);
    let v = digits_value(d);
    let p = pow10((n - d.len()) as nat);
    if v > 0 {
        assert(v * p >= 100_000_000_000_000_000_000) by (nonlinear_arith)
            requires
                v >= 1,
                p >= 100_000_000_000_000_000_000,
        ;
    } else {
        assert(v * p == 0) by (nonlinear_arith)
            requires
                v == 0,
        ;
    }
}

/// Executable test for [`is_digit`].
pub fn char_is_digit(c: char) -> (r: bool)
    ensures
        r == is_digit(c),
{
    let u: u32 = c as u32;
    0x30 <= u && u <= 0x39
}

/// Whether the window `from..to` of `v` holds digits only.
fn digits_only(v: &Vec<char>, from: usize, to: usize) -> (r: bool)
    requires
        from <= to <= v@.len(),
    ensures
        r == all_digits(v@.subrange(from as int, to as int)),
{
    let ghost all = v@.subrange(from as int, to as int);
    let mut i: usize = from;
    while i < to
        invariant
            from <= i <= to <= v@.len(),
            all == v@.subrange(from as int, to as int),
            forall|j: int| 0 <= j < i - from ==> is_digit(#[trigger] all[j]),
        decreases to - i,
    {
        if !char_is_digit(v[i]) {
            proof {
                assert(all[i - from] == v@[i as int]);
            }
            return false;
        }
        proof {
            assert(all[i - from] == v@[i as int]);
        }
        i = i + 1;
    }
    true
}

/// Beyond this size an exponent moves the point past every digit that a
/// text can hold.
const EXPONENT_CEILING: u128 = 1_000_000_000_000_000_000_000_000_000_000;

/// Beyond this size a value is known not to fit, and is not followed up.
const VALUE_CEILING: u128 = 100_000_000_000_000_000_000;

/// The smaller of a number and a ceiling.
spec fn capped(value: nat, ceiling: nat) -> nat {
    if value <= ceiling {
        value
    } else {
        ceiling
    }
}

/// The number that the digit window `from..to` of `v` denotes, capped at
/// `EXPONENT_CEILING`.
fn scan_capped(v: &Vec<char>, from: usize, to: usize) -> (r: u128)
    requires
        from <= to <= v@.len(),
        all_digits(v@.subrange(from as int, to as int)),
    ensures
        r == capped(digits_value(v@.subrange(from as int, to as int)), EXPONENT_CEILING as nat),
{
    let ghost all = v@.subrange(from as int, to as int);
    let mut acc: u128 = 0;
    let mut i: usize = from;
    proof {
        assert(all.take(0).len() == 0);
    }
    while i < to
        invariant
            from <= i <= to <= v@.len(),
            all == v@.subrange(from as int, to as int),
            all_digits(all),
            acc == capped(digits_value(all.take(i - from)), EXPONENT_CEILING as nat),
        decreases to - i,
    {
        proof {
            assert(all.take(i - from + 1).drop_last() == all.take(i - from));
            assert(all.take(i - from + 1).last() == v@[i as int]);
            assert(is_digit(all[i - from]));
        }
        let d: u128 = (v[i] as u32 - 0x30) as u128;
        let grown: u128 = acc * 10 + d;
        acc = if grown > EXPONENT_CEILING {
            EXPONENT_CEILING
        } else {
            grown
        };
        i = i + 1;
    }
    proof {
        assert(all.take(to - from) == all);
    }
    acc
}

/// Finds the exponent mark of the unsigned number in the window `start..to`
/// of `v`: the index of its first `e` or `E`, or `to` if it has none.
fn find_mark(v: &Vec<char>, start: usize, to: usize) -> (mark: usize)
    requires
        start <= to <= v@.len(),
    ensures
        start <= mark <= to,
        has_exponent(v@.subrange(start as int, to as int)) == (mark < to),
        mantissa_part(v@.subrange(start as int, to as int)) == v@.subrange(
            start as int,
            mark as int,
        ),
        mark < to ==> exponent_part(v@.subrange(start as int, to as int)) == v@.subrange(
            mark + 1,
            to as int,
        ),
{
    let ghost body = v@.subrange(start as int, to as int);
    let mut mark: usize = start;
    while mark < to && v[mark] != 'e' && v[mark] != 'E'
        invariant
            start <= mark <= to <= v@.len(),
            forall|j: int| start <= j < mark ==> !is_exponent_mark(v@[j]),
        decreases to - mark,
    {
        mark = mark + 1;
    }
    proof {
        assert(forall|j: int| 0 <= j < mark - start ==> body[j] == v@[start + j]);
        if mark < to {
            assert(body[mark - start] == v@[mark as int]);
        }
        lemma_mantissa_len(body, mark - start);
        assert(body.take(mark - start) == v@.subrange(start as int, mark as int));
        if mark < to {
            assert(body.skip(mark - start + 1) == v@.subrange(mark + 1, to as int));
        }
    }
    mark
}

/// Finds the point of the unsigned decimal in the window `start..to` of `v`:
/// the index of its first `.`, or `to` if it has none.
fn find_point(v: &Vec<char>, start: usize, to: usize) -> (dot: usize)
    requires
        start <= to <= v@.len(),
    ensures
        start <= dot <= to,
        whole_part(v@.subrange(start as int, to as int)) == v@.subrange(start as int, dot as int),
        dot < to ==> frac_part(v@.subrange(start as int, to as int)) == v@.subrange(
            dot + 1,
            to as int,
        ),
        dot == to ==> frac_part(v@.subrange(start as int, to as int)) == Seq::<char>::empty(),
{
    let ghost body = v@.subrange(start as int, to as int);
    let mut dot: usize = start;
    while dot < to && v[dot] != '.'
        invariant
            start <= dot <= to <= v@.len(),
            forall|j: int| start <= j < dot ==> v@[j] != '.',
        decreases to - dot,
    {
        dot = dot + 1;
    }
    proof {
        assert(forall|j: int| 0 <= j < dot - start ==> body[j] == v@[start + j]);
        if dot < to {
            assert(body[dot - start] == v@[dot as int]);
        }
        lemma_len_before(body, '.', dot - start);
        assert(body.take(dot - start) == v@.subrange(start as int, dot as int));
        if dot < to {
            assert(body.skip(dot - start + 1) == v@.subrange(dot + 1, to as int));
        }
    }
    dot
}

/// Reads the window `from..to` of `v` as a whole number, capped in size at
/// `EXPONENT_CEILING`; `None` if it is no whole number.
fn read_exponent(v: &Vec<char>, from: usize, to: usize) -> (r: Option<i128>)
    requires
        from <= to <= v@.len(),
    ensures
        r is Some <==> is_integer(v@.subrange(from as int, to as int)),
        r matches Some(e) ==> {
            let exact = integer_value(v@.subrange(from as int, to as int));
            if exact > EXPONENT_CEILING {
                e == EXPONENT_CEILING
            } else if exact < -EXPONENT_CEILING {
                e == -EXPONENT_CEILING
            } else {
                e == exact
            }
        },
{
    let ghost text = v@.subrange(from as int, to as int);
    let mut start: usize = from;
    let mut negative = false;
    if from < to {
        proof {
            assert(text[0] == v@[from as int]);
        }
        if v[from] == '-' || v[from] == '+' {
            negative = v[from] == '-';
            start = from + 1;
        }
    }
    proof {
        let body = v@.subrange(start as int, to as int);
        if start > from {
            assert(text.drop_first() == body);
        } else {
            assert(text == body);
        }
        assert(unsigned_part(text) == body);
        assert(is_negative(text) == negative);
    }
    if start == to || !digits_only(v, start, to) {
        return None;
    }
    let size = scan_capped(v, start, to);
    if negative {
        Some(-(size as i128))
    } else {
        Some(size as i128)
    }
}

/// The number that the first `n` digits of a mantissa denote, zeros taken
/// for the digits it lacks, where the mantissa's digits stand in the windows
/// `start..dot` and `frac_from..end` of `v`; `None` if that number is more
/// than [`MAX_MAGNITUDE`].
fn scaled(v: &Vec<char>, start: usize, dot: usize, frac_from: usize, end: usize, n: i128) -> (r:
    Option<u64>)
    requires
        start <= dot <= frac_from <= end <= v@.len(),
        all_digits(v@.subrange(start as int, dot as int)),
        all_digits(v@.subrange(frac_from as int, end as int)),
        n <= 2 * EXPONENT_CEILING,
    ensures
        match r {
            Some(x) => x <= MAX_MAGNITUDE && x == digits_value(
                padded(
                    v@.subrange(start as int, dot as int) + v@.subrange(
                        frac_from as int,
                        end as int,
                    ),
                    n as int,
                ),
            ),
            None => digits_value(
                padded(
                    v@.subrange(start as int, dot as int) + v@.subrange(
                        frac_from as int,
                        end as int,
                    ),
                    n as int,
                ),
            ) > MAX_MAGNITUDE,
        },
{
    let ghost whole = v@.subrange(start as int, dot as int);
    let ghost frac = v@.subrange(frac_from as int, end as int);
    let ghost d = whole + frac;
    let ghost p = padded(d, n as int);
    if n <= 0 {
        return Some(0);
    }
    let whole_len: u128 = (dot - start) as u128;
    let frac_len: u128 = (end - frac_from) as u128;
    let d_len: u128 = whole_len + frac_len;
    let mut acc: u128 = 0;
    let mut k: u128 = 0;
    proof {
        lemma_pow10_values();
        assert(p.take(0).len() == 0);
    }
    while (k as i128) < n
        invariant
            start <= dot <= frac_from <= end <= v@.len(),
            whole == v@.subrange(start as int, dot as int),
            frac == v@.subrange(frac_from as int, end as int),
            all_digits(whole),
            all_digits(frac),
            d == whole + frac,
            p == padded(d, n as int),
            whole_len == dot - start,
            frac_len == end - frac_from,
            d_len == whole_len + frac_len,
            0 < n <= 2 * EXPONENT_CEILING,
            k <= n,
            k <= d_len + 20,
            acc == capped(digits_value(p.take(k as int)), VALUE_CEILING as nat),
            k > d_len && 0 < acc < VALUE_CEILING ==> acc >= pow10((k - d_len) as nat),
        decreases d_len + 21 - k,
    {
        if acc >= VALUE_CEILING {
            proof {
                lemma_digits_prefix(p, k as int);
            }
            return None;
        }
        if k >= d_len && acc == 0 {
            proof {
                let tail = p.skip(k as int);
                assert(p =~= p.take(k as int) + tail);
                lemma_digits_concat(p.take(k as int), tail);
                lemma_zeros_value(tail);
                assert(digits_value(p.take(k as int)) * pow10(tail.len()) == 0) by (nonlinear_arith)
                    requires
                        digits_value(p.take(k as int)) == 0,
                ;
            }
            return Some(0);
        }
        proof {
            lemma_pow10_values();
            assert(k < d_len + 20) by {
                if k >= d_len + 20 {
                    lemma_pow10_grows(20, (k - d_len) as nat);
                }
            }
            assert(p.take(k + 1).drop_last() == p.take(k as int));
            assert(p.take(k + 1).last() == p[k as int]);
            if k < d_len {
                assert(is_digit(d[k as int])) by {
                    if k < whole_len {
                        assert(d[k as int] == whole[k as int]);
                    } else {
                        assert(d[k as int] == frac[k - whole_len]);
                    }
                }
            }
        }
        let digit: u128 = if k < whole_len {
            (v[start + k as usize] as u32 - 0x30) as u128
        } else if k < d_len {
            (v[frac_from + (k - whole_len) as usize] as u32 - 0x30) as u128
        } else {
            0
        };
        let grown: u128 = acc * 10 + digit;
        proof {
            if k >= d_len {
                assert(pow10((k + 1 - d_len) as nat) == 10 * pow10((k - d_len) as nat));
            }
        }
        acc = if grown > VALUE_CEILING {
            VALUE_CEILING
        } else {
            grown
        };
        k = k + 1;
    }
    proof {
        assert(p.take(k as int) == p);
    }
    if acc > MAX_MAGNITUDE as u128 {
        None
    } else {
        Some(acc as u64)
    }
}

/// Reads the window `start..to` of `v` as an unsigned number of seconds, in
/// nanoseconds; `None` if it is no number or denotes more than
/// [`MAX_MAGNITUDE`].
fn parse_unsigned(v: &Vec<char>, start: usize, to: usize) -> (r: Option<u64>)
    requires
        start <= to <= v@.len(),
    ensures
        r is Some <==> is_number(v@.subrange(start as int, to as int)) && magnitude(
            v@.subrange(start as int, to as int),
        ) <= MAX_MAGNITUDE,
        r is Some ==> r->0 == magnitude(v@.subrange(start as int, to as int)),
{
    let ghost body = v@.subrange(start as int, to as int);
    let mark = find_mark(v, start, to);
    let dot = find_point(v, start, mark);
    let frac_from: usize = if dot < mark {
        dot + 1
    } else {
        mark
    };
    proof {
        assert(v@.subrange(mark as int, mark as int) == Seq::<char>::empty());
    }
    if !digits_only(v, start, dot) || !digits_only(v, frac_from, mark) {
        return None;
    }
    if dot - start == 0 && mark - frac_from == 0 {
        return None;
    }
    let exponent: i128 = if mark < to {
        match read_exponent(v, mark + 1, to) {
            Some(e) => e,
            None => {
                return None;
            },
        }
    } else {
        0
    };
    let n: i128 = (dot - start) as i128 + exponent + 9;
    let ghost d = mantissa_digits(body);
    proof {
        let kept = digits_kept(body);
        assert(d.len() == (dot - start) + (mark - frac_from));
        lemma_pow10_values();
        if exponent_of(body) > EXPONENT_CEILING {
            lemma_far_padding(d, n as int);
            lemma_far_padding(d, kept);
        } else if exponent_of(body) < -EXPONENT_CEILING {
            assert(padded(d, n as int) =~= padded(d, kept));
        } else {
            assert(n == kept);
        }
    }
    scaled(v, start, dot, frac_from, mark, n)
}

/// Reads the window `from..to` of `v` as a signed number of seconds.
fn parse_window(v: &Vec<char>, from: usize, to: usize) -> (r: Option<i64>)
    requires
        from <= to <= v@.len(),
    ensures
        r == parse_nanos(v@.subrange(from as int, to as int)),
{
    let ghost text = v@.subrange(from as int, to as int);
    let mut start: usize = from;
    let mut negative = false;
    if from < to {
        proof {
            assert(text[0] == v@[from as int]);
        }
        if v[from] == '-' || v[from] == '+' {
            negative = v[from] == '-';
            start = from + 1;
        }
    }
    proof {
        let body = v@.subrange(start as int, to as int);
        if start > from {
            assert(text.drop_first() == body);
        } else {
            assert(text == body);
        }
        assert(unsigned_part(text) == body);
        assert(is_negative(text) == negative);
    }
    match parse_unsigned(v, start, to) {
        Some(size) => {
            if negative {
                if size == MAX_MAGNITUDE {
                    Some(i64::MIN)
                } else {
                    Some(-(size as i64))
                }
            } else if size == MAX_MAGNITUDE {
                None
            } else {
                Some(size as i64)
            }
        },
        None => None,
    }
}

/// Reads `text` as a signed number of seconds, in nanoseconds.
///
/// White space around the number is not accepted: trim first.
pub fn parse_seconds(text: &str) -> (r: Option<i64>)
    ensures
        r == parse_nanos(text@),
{
    let v = to_chars(text);
    proof {
        assert(v@.subrange(0, v@.len() as int) == v@);
    }
    parse_window(&v, 0, v.len())
}

/// The character of the decimal digit `d`.
pub open spec fn digit_char(d: nat) -> char {
    (0x30 + d) as char
}

/// The decimal digits of `n`, without leading zeros; `0` for zero.
pub open spec fn render_nat(n: nat) -> Seq<char>
    decreases n,
{
    if n < 10 {
        seq![digit_char(n)]
    } else {
        render_nat(n / 10).push(digit_char(n % 10))
    }
}

/// The last `width` decimal digits of `n`, with leading zeros.
pub open spec fn render_fixed(n: nat, width: nat) -> Seq<char>
    decreases width,
{
    if width == 0 {
        Seq::empty()
    } else {
        render_fixed(n / 10, (width - 1) as nat).push(digit_char(n % 10))
    }
}

/// `s` without its trailing zeros.
pub open spec fn strip_zeros(s: Seq<char>) -> Seq<char>
    decreases s.len(),
{
    if s.len() > 0 && s.last() == '0' {
        strip_zeros(s.drop_last())
    } else {
        s
    }
}

/// The fractional digits of `frac` nanoseconds, without trailing zeros.
pub open spec fn render_fraction(frac: nat) -> Seq<char> {
    strip_zeros(render_fixed(frac, 9))
}

/// The decimal text of `m` nanoseconds in seconds: the whole seconds, and,
/// unless the rest is zero, a point and the fractional digits.
pub open spec fn render_magnitude(m: nat) -> Seq<char> {
    if m % 1_000_000_000 == 0 {
        render_nat(m / 1_000_000_000)
    } else {
        render_nat(m / 1_000_000_000) + seq!['.'] + render_fraction(m % 1_000_000_000)
    }
}

/// The decimal text of `n` nanoseconds in seconds, with a minus sign for a
/// negative time.
pub open spec fn render_nanos(n: int) -> Seq<char> {
    if n < 0 {
        seq!['-'] + render_magnitude((-n) as nat)
    } else {
        render_magnitude(n as nat)
    }
}

/// The digits of a number are digits, at least one, and denote the number.
pub proof fn lemma_render_nat(n: nat)
    ensures
        all_digits(render_nat(n)),
        render_nat(n).len() >= 1,
        digits_value(render_nat(n)) == n,
    decreases n,
{
    let r = render_nat(n);
    if n < 10 {
        assert(r.drop_last().len() == 0);
        assert(digits_value(r.drop_last()) == 0);
        assert(r.last() == digit_char(n));
        assert(digit_of(digit_char(n)) == n);
    } else {
        lemma_render_nat(n / 10);
        let front = render_nat(n / 10);
        assert(r.drop_last() == front);
        assert(r.last() == digit_char(n % 10));
        assert forall|j: int| 0 <= j < r.len() implies is_digit(#[trigger] r[j]) by {
            if j < front.len() {
                assert(r[j] == front[j]);
            }
        }
    }
}

/// `width` fixed digits are digits, `width` of them, and denote the number
/// if it has no more digits than that.
pub proof fn lemma_render_fixed(n: nat, width: nat)
    ensures
        all_digits(render_fixed(n, width)),
        render_fixed(n, width).len() == width,
        n < pow10(width) ==> digits_value(render_fixed(n, width)) == n,
    decreases width,
{
    let r = render_fixed(n, width);
    if width > 0 {
        lemma_render_fixed(n / 10, (width - 1) as nat);
        let front = render_fixed(n / 10, (width - 1) as nat);
        assert(r.drop_last() == front);
        assert(r.last() == digit_char(n % 10));
        assert forall|j: int| 0 <= j < r.len() implies is_digit(#[trigger] r[j]) by {
            if j < front.len() {
                assert(r[j] == front[j]);
            }
        }
    }
}

/// Stripping trailing zeros leaves a prefix that does not end in a zero, and
/// everything it took away was a zero.
pub proof fn lemma_strip_zeros(s: Seq<char>)
    ensures
        strip_zeros(s).len() <= s.len(),
        strip_zeros(s) == s.take(strip_zeros(s).len() as int),
        forall|j: int| strip_zeros(s).len() <= j < s.len() ==> s[j] == '0',
        strip_zeros(s).len() > 0 ==> strip_zeros(s).last() != '0',
    decreases s.len(),
{
    if s.len() > 0 && s.last() == '0' {
        let front = s.drop_last();
        lemma_strip_zeros(front);
        let t = strip_zeros(front);
        assert(front.take(t.len() as int) == s.take(t.len() as int));
        assert forall|j: int| t.len() <= j < s.len() implies s[j] == '0' by {
            if j < front.len() {
                assert(front[j] == s[j]);
            }
        }
    } else {
        assert(s.take(s.len() as int) == s);
    }
}

/// The text of a digit.
fn digit_str(d: u64) -> (r: &'static str)
    requires
        d < 10,
    ensures
        r@ == seq![digit_char(d as nat)],
{
    proof {
        reveal_strlit("0");
        reveal_strlit("1");
        reveal_strlit("2");
        reveal_strlit("3");
        reveal_strlit("4");
        reveal_strlit("5");
        reveal_strlit("6");
        reveal_strlit("7");
        reveal_strlit("8");
        reveal_strlit("9");
    }
    let r = if d == 0 {
        "0"
    } else if d == 1 {
        "1"
    } else if d == 2 {
        "2"
    } else if d == 3 {
        "3"
    } else if d == 4 {
        "4"
    } else if d == 5 {
        "5"
    } else if d == 6 {
        "6"
    } else if d == 7 {
        "7"
    } else if d == 8 {
        "8"
    } else {
        "9"
    };
    proof {
        assert(r@ =~= seq![digit_char(d as nat)]);
    }
    r
}

/// Appends the decimal digits of `n` to `out`.
fn push_nat(out: &mut String, n: u64)
    ensures
        final(out)@ == old(out)@ + render_nat(n as nat),
    decreases n,
{
    if n >= 10 {
        push_nat(out, n / 10);
    }
    out.append(digit_str(n % 10));
    proof {
        if n >= 10 {
            assert(out@ == old(out)@ + render_nat(n as nat));
        } else {
            assert(out@ == old(out)@ + render_nat(n as nat));
        }
    }
}

/// Appends the last `width` decimal digits of `n` to `out`, with leading
/// zeros.
fn push_fixed(out: &mut String, n: u64, width: u8)
    ensures
        final(out)@ == old(out)@ + render_fixed(n as nat, width as nat),
    decreases width,
{
    if width > 0 {
        push_fixed(out, n / 10, width - 1);
        out.append(digit_str(n % 10));
        proof {
            assert(out@ == old(out)@ + render_fixed(n as nat, width as nat));
        }
    } else {
        proof {
            assert(out@ == old(out)@ + render_fixed(n as nat, width as nat));
        }
    }
}

/// The decimal text of `nanos` nanoseconds in seconds.
pub fn format_seconds(nanos: i64) -> (r: String)
    ensures
        r@ == render_nanos(nanos as int),
{
    let mut out = String::new();
    let size: u64 = if nanos == i64::MIN {
        9_223_372_036_854_775_808
    } else if nanos < 0 {
        (-nanos) as u64
    } else {
        nanos as u64
    };
    if nanos < 0 {
        proof {
            reveal_strlit("-");
        }
        out.append("-");
        proof {
            assert(out@ == seq!['-']);
        }
    }
    let ghost sign = out@;
    push_nat(&mut out, size / NANOS_PER_SECOND);
    let frac: u64 = size % NANOS_PER_SECOND;
    if frac != 0 {
        proof {
            reveal_strlit(".");
        }
        out.append(".");
        let ghost head = out@;
        let mut rest: u64 = frac;
        let mut width: u8 = 9;
        while width > 0 && rest % 10 == 0
            invariant
                width <= 9,
                render_fraction(frac as nat) == strip_zeros(
                    render_fixed(rest as nat, width as nat),
                ),
            decreases width,
        {
            proof {
                let full = render_fixed(rest as nat, width as nat);
                assert(full.last() == '0');
                assert(full.drop_last() == render_fixed((rest / 10) as nat, (width - 1) as nat));
            }
            rest = rest / 10;
            width = width - 1;
        }
        proof {
            let full = render_fixed(rest as nat, width as nat);
            if width > 0 {
                assert(full.last() == digit_char((rest % 10) as nat));
            }
            assert(strip_zeros(full) == full);
        }
        push_fixed(&mut out, rest, width);
        proof {
            assert(out@ == sign + render_magnitude(size as nat));
        }
    } else {
        proof {
            assert(out@ == sign + render_magnitude(size as nat));
        }
    }
    proof {
        if nanos >= 0 {
            assert(sign + render_magnitude(size as nat) == render_magnitude(size as nat));
        }
    }
    out
}

/// The text of an unsigned time is an unsigned number that denotes it.
pub proof fn lemma_magnitude_round_trip(m: nat)
    ensures
        is_number(render_magnitude(m)),
        magnitude(render_magnitude(m)) == m,
        render_magnitude(m).len() > 0,
        is_digit(render_magnitude(m)[0]),
{
    let body = render_magnitude(m);
    let whole = render_nat(m / 1_000_000_000);
    let rest: nat = m % 1_000_000_000;
    let full = render_fixed(rest, 9);
    let shown = render_fraction(rest);
    lemma_render_nat(m / 1_000_000_000);
    lemma_render_fixed(rest, 9);
    lemma_strip_zeros(full);
    lemma_pow10_values();
    assert(is_digit(whole[0]));
    assert forall|j: int| 0 <= j < body.len() implies !is_exponent_mark(body[j]) && (j
        < whole.len() ==> body[j] != '.') by {
        if j < whole.len() {
            assert(body[j] == whole[j]);
            assert(is_digit(whole[j]));
        } else if j == whole.len() {
            assert(body[j] == '.');
        } else {
            let k = j - whole.len() - 1;
            assert(body[j] == shown[k]);
            assert(shown[k] == full[k]);
            assert(is_digit(full[k]));
        }
    }
    lemma_mantissa_len(body, body.len() as int);
    assert(mantissa_part(body) == body);
    if rest != 0 {
        assert(body[whole.len() as int] == '.');
    }
    lemma_len_before(body, '.', whole.len() as int);
    assert(whole_part(body) == whole);
    let frac = frac_part(body);
    if rest == 0 {
        assert(frac == Seq::<char>::empty());
        lemma_zeros_value(pad9(frac));
    } else {
        assert(frac == shown);
        assert forall|j: int| 0 <= j < shown.len() implies is_digit(#[trigger] shown[j]) by {
            assert(shown[j] == full[j]);
        }
        assert(pad9(shown) =~= full);
    }
    assert(padded(whole + frac, whole.len() as int + 9) =~= whole + pad9(frac));
    lemma_digits_concat(whole, pad9(frac));
}

/// A time written out and read back is the same time, to the nanosecond.
pub proof fn law_text_round_trip(nanos: i64)
    ensures
        parse_nanos(render_nanos(nanos as int)) == Some(nanos),
{
    let m: nat = if nanos < 0 {
        (-nanos) as nat
    } else {
        nanos as nat
    };
    let text = render_nanos(nanos as int);
    let body = render_magnitude(m);
    lemma_magnitude_round_trip(m);
    if nanos < 0 {
        assert(text[0] == '-');
        assert(text.drop_first() == body);
    } else {
        assert(text == body);
    }
}

/// The text of a time is one word: it is not empty and holds no white
/// space.
pub proof fn lemma_render_is_word(nanos: int)
    ensures
        is_word(render_nanos(nanos)),
{
    let m: nat = if nanos < 0 {
        (-nanos) as nat
    } else {
        nanos as nat
    };
    let text = render_nanos(nanos);
    let body = render_magnitude(m);
    let whole = render_nat(m / 1_000_000_000);
    let rest: nat = m % 1_000_000_000;
    let full = render_fixed(rest, 9);
    let shown = render_fraction(rest);
    lemma_render_nat(m / 1_000_000_000);
    lemma_render_fixed(rest, 9);
    lemma_strip_zeros(full);
    assert forall|j: int| 0 <= j < body.len() implies !is_space(#[trigger] body[j]) by {
        if j < whole.len() {
            assert(body[j] == whole[j]);
            assert(is_digit(whole[j]));
        } else if j == whole.len() {
            assert(body[j] == '.');
        } else {
            let k = j - whole.len() - 1;
            assert(body[j] == shown[k]);
            assert(shown[k] == full[k]);
            assert(is_digit(full[k]));
        }
    }
    assert forall|j: int| 0 <= j < text.len() implies !is_space(#[trigger] text[j]) by {
        if nanos < 0 {
            if j == 0 {
                assert(text[0] == '-');
            } else {
                assert(text[j] == body[j - 1]);
            }
        }
    }
}

} // verus!
