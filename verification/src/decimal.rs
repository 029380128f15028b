//! Decimal numbers as fixed-point values.
//!
//! A number is written as in JSON: an optional `-`, digits, an optional
//! fraction (`.` and digits) and an optional exponent (`e` or `E`, an optional
//! sign, digits). Its value is taken in thousandths, rounded to the nearest; a
//! half rounds away from zero.

use crate::text::decimal_of;
use crate::text::digit_char;
use crate::text::push_decimal;
use vstd::prelude::*;

verus! {

/// The most digits that the whole part and the fraction may have together.
pub const MAX_DIGITS: usize = 18;

/// The most digits that the exponent may have.
pub const MAX_EXPONENT_DIGITS: usize = 3;

/// Whether `c` is a decimal digit.
pub open spec fn is_digit(c: char) -> bool {
    '0' <= c <= '9'
}

/// The number of digits that `text` begins with.
pub open spec fn digit_run(text: Seq<char>) -> nat
    decreases text.len(),
{
    if text.len() > 0 && is_digit(text[0]) {
        1 + digit_run(text.skip(1))
    } else {
        0
    }
}

/// The number that the digit `c` stands for.
pub open spec fn digit_of(c: char) -> nat {
    if is_digit(c) {
        (c as int - 48) as nat
    } else {
        0
    }
}

/// The number that the digits of `digits` write.
pub open spec fn digits_value(digits: Seq<char>) -> nat
    decreases digits.len(),
{
    if digits.len() == 0 {
        0
    } else {
        digits_value(digits.drop_last()) * 10 + digit_of(digits.last())
    }
}

/// Ten to the power of `n`.
pub open spec fn pow10(n: nat) -> nat
    decreases n,
{
    if n == 0 {
        1
    } else {
        10 * pow10((n - 1) as nat)
    }
}

/// The places of the parts of a number in its text.
pub struct NumberShape {
    pub negative: bool,
    /// Where the whole part begins and ends.
    pub whole_start: int,
    pub whole_end: int,
    /// Where the digits of the fraction begin and end; equal when there is none.
    pub fraction_start: int,
    pub fraction_end: int,
    pub exponent_negative: bool,
    /// Where the digits of the exponent begin and end; equal when there is none.
    pub exponent_start: int,
    pub exponent_end: int,
}

/// Whether `text` holds `c` at position `at`.
pub open spec fn has_char_at(text: Seq<char>, at: int, c: char) -> bool {
    0 <= at < text.len() && text[at] == c
}

/// The shape of `text`, if it is a number.
pub open spec fn number_shape(text: Seq<char>) -> Option<NumberShape> {
    let negative = has_char_at(text, 0, '-');
    let whole_start: int = if negative {
        1
    } else {
        0
    };
    let whole_end = whole_start + digit_run(text.skip(whole_start));
    let has_fraction = has_char_at(text, whole_end, '.');
    let fraction_start = if has_fraction {
        whole_end + 1
    } else {
        whole_end
    };
    let fraction_end = fraction_start + if has_fraction {
        digit_run(text.skip(fraction_start))
    } else {
        0
    };
    let has_exponent = has_char_at(text, fraction_end, 'e') || has_char_at(text, fraction_end, 'E');
    let exponent_negative = has_exponent && has_char_at(text, fraction_end + 1, '-');
    let exponent_signed = has_exponent && (exponent_negative || has_char_at(
        text,
        fraction_end + 1,
        '+',
    ));
    let exponent_start = fraction_end + if exponent_signed {
        2int
    } else if has_exponent {
        1int
    } else {
        0int
    };
    let exponent_end = exponent_start + if has_exponent {
        digit_run(text.skip(exponent_start))
    } else {
        0
    };
    if whole_end == whole_start || (has_fraction && fraction_end == fraction_start) || (has_exponent
        && exponent_end == exponent_start) || exponent_end != text.len() {
        None
    } else {
        Some(
            NumberShape {
                negative,
                whole_start,
                whole_end,
                fraction_start,
                fraction_end,
                exponent_negative,
                exponent_start,
                exponent_end,
            },
        )
    }
}

/// `mantissa` times ten to the power of `shift`, rounded to the nearest whole
/// number; a half rounds up.
pub open spec fn scaled(mantissa: nat, shift: int) -> nat {
    if shift >= 0 {
        mantissa * pow10(shift as nat)
    } else {
        ((mantissa + pow10((-shift) as nat) / 2) / pow10((-shift) as nat)) as nat
    }
}

/// The digits of the whole part and of the fraction of a number, together.
pub open spec fn mantissa_digits(text: Seq<char>, shape: NumberShape) -> Seq<char> {
    text.subrange(shape.whole_start, shape.whole_end) + text.subrange(
        shape.fraction_start,
        shape.fraction_end,
    )
}

/// The digits of the exponent of a number.
pub open spec fn exponent_digits(text: Seq<char>, shape: NumberShape) -> Seq<char> {
    text.subrange(shape.exponent_start, shape.exponent_end)
}

/// The power of ten by which the mantissa is multiplied to give thousandths.
pub open spec fn thousandths_shift(text: Seq<char>, shape: NumberShape) -> int {
    let exponent = digits_value(exponent_digits(text, shape)) as int;
    (if shape.exponent_negative {
        -exponent
    } else {
        exponent
    }) - (shape.fraction_end - shape.fraction_start) + 3
}

/// The value of the number `text` in thousandths. There is none when `text` is
/// no number, when it has more than `MAX_DIGITS` digits before its exponent or
/// more than `MAX_EXPONENT_DIGITS` in it, or when the value is beyond the
/// range of `i64`.
pub open spec fn decimal_thousandths(text: Seq<char>) -> Option<int> {
    match number_shape(text) {
        None => None,
        Some(shape) => {
            let digits = mantissa_digits(text, shape);
            let magnitude = scaled(digits_value(digits), thousandths_shift(text, shape));
            if digits.len() > MAX_DIGITS || exponent_digits(text, shape).len()
                > MAX_EXPONENT_DIGITS || magnitude > i64::MAX {
                None
            } else if shape.negative {
                Some(-(magnitude as int))
            } else {
                Some(magnitude as int)
            }
        },
    }
}

/// Digits write a number below the power of ten of their count.
pub proof fn lemma_digits_value_bound(digits: Seq<char>)
    requires
        forall|i: int| 0 <= i < digits.len() ==> is_digit(#[trigger] digits[i]),
    ensures
        digits_value(digits) < pow10(digits.len()),
    decreases digits.len(),
{
    if digits.len() > 0 {
        lemma_digits_value_bound(digits.drop_last());
        assert(digit_of(digits.last()) <= 9);
        assert(pow10(digits.len()) == 10 * pow10((digits.len() - 1) as nat));
    }
}

/// The value of digits followed by more digits.
pub proof fn lemma_digits_value_concat(front: Seq<char>, back: Seq<char>)
    ensures
        digits_value(front + back) == digits_value(front) * pow10(back.len()) + digits_value(back),
    decreases back.len(),
{
    if back.len() == 0 {
        assert(front + back =~= front);
        assert(digits_value(front) * 1 == digits_value(front)) by (nonlinear_arith);
    } else {
        lemma_digits_value_concat(front, back.drop_last());
        assert((front + back).drop_last() =~= front + back.drop_last());
        assert((front + back).last() == back.last());
        let a = digits_value(front);
        let p = pow10((back.len() - 1) as nat);
        let b = digits_value(back.drop_last());
        let d = digit_of(back.last());
        assert(pow10(back.len()) == 10 * p);
        assert((a * p + b) * 10 + d == a * (10 * p) + (b * 10 + d)) by (nonlinear_arith);
    }
}

/// Powers of ten grow with the exponent.
pub proof fn lemma_pow10_monotonic(a: nat, b: nat)
    requires
        a <= b,
    ensures
        1 <= pow10(a) <= pow10(b),
    decreases b,
{
    if b == 0 {
    } else if a == b {
        lemma_pow10_monotonic(0, (b - 1) as nat);
    } else {
        lemma_pow10_monotonic(a, (b - 1) as nat);
    }
}

/// The powers of ten that the executable code reaches.
pub proof fn lemma_pow10_values()
    ensures
        pow10(18) == 1_000_000_000_000_000_000,
        pow10(19) == 10_000_000_000_000_000_000,
        pow10(3) == 1000,
{
    reveal_with_fuel(pow10, 20);
}

/// Ten to the power of `n`.
pub fn power_of_ten(n: u32) -> (p: u128)
    requires
        n <= 19,
    ensures
        p == pow10(n as nat),
        1 <= p <= 10_000_000_000_000_000_000,
{
    let mut p: u128 = 1;
    let mut i: u32 = 0;
    while i < n
        invariant
            i <= n <= 19,
            p == pow10(i as nat),
            p <= 10_000_000_000_000_000_000,
        decreases n - i,
    {
        proof {
            lemma_pow10_monotonic((i + 1) as nat, 19);
            lemma_pow10_values();
        }
        p = p * 10;
        i = i + 1;
    }
    proof {
        lemma_pow10_monotonic(0, n as nat);
    }
    p
}

/// The place where the digits that begin at `from` end.
pub fn scan_digits(text: &Vec<char>, from: usize) -> (to: usize)
    requires
        from <= text@.len(),
    ensures
        from <= to <= text@.len(),
        to == from + digit_run(text@.skip(from as int)),
        forall|i: int| from <= i < to ==> is_digit(#[trigger] text@[i]),
{
    let mut to: usize = from;
    while to < text.len() && '0' <= text[to] && text[to] <= '9'
        invariant
            from <= to <= text@.len(),
            to + digit_run(text@.skip(to as int)) == from + digit_run(text@.skip(from as int)),
            forall|i: int| from <= i < to ==> is_digit(#[trigger] text@[i]),
        decreases text@.len() - to,
    {
        assert(text@.skip(to as int).skip(1) =~= text@.skip(to + 1));
        to = to + 1;
    }
    to
}

/// The number that the digits from `from` up to `to` write.
pub fn read_digits(text: &Vec<char>, from: usize, to: usize) -> (value: u64)
    requires
        from <= to <= text@.len(),
        to - from <= MAX_DIGITS,
        forall|i: int| from <= i < to ==> is_digit(#[trigger] text@[i]),
    ensures
        value == digits_value(text@.subrange(from as int, to as int)),
        value < pow10((to - from) as nat),
{
    let mut value: u64 = 0;
    let mut i: usize = from;
    while i < to
        invariant
            from <= i <= to <= text@.len(),
            to - from <= MAX_DIGITS,
            forall|j: int| from <= j < to ==> is_digit(#[trigger] text@[j]),
            value == digits_value(text@.subrange(from as int, i as int)),
            value < pow10((i - from) as nat),
        decreases to - i,
    {
        let c = text[i];
        let d: u64 = (c as u32 - 48) as u64;
        proof {
            let next = text@.subrange(from as int, i + 1);
            assert(next.drop_last() =~= text@.subrange(from as int, i as int));
            assert(next.last() == c);
            assert forall|j: int| 0 <= j < next.len() implies is_digit(#[trigger] next[j]) by {
                assert(next[j] == text@[from + j]);
            }
            lemma_digits_value_bound(next);
            lemma_pow10_monotonic((i + 1 - from) as nat, 18);
            lemma_pow10_values();
        }
        value = value * 10 + d;
        i = i + 1;
    }
    value
}

/// The places of the parts of a number in its text, as found by scanning.
#[derive(Clone, Copy, Debug)]
pub struct ScannedNumber {
    pub negative: bool,
    pub whole_start: usize,
    pub whole_end: usize,
    pub fraction_start: usize,
    pub fraction_end: usize,
    pub exponent_negative: bool,
    pub exponent_start: usize,
    pub exponent_end: usize,
}

impl View for ScannedNumber {
    type V = NumberShape;

    open spec fn view(&self) -> NumberShape {
        NumberShape {
            negative: self.negative,
            whole_start: self.whole_start as int,
            whole_end: self.whole_end as int,
            fraction_start: self.fraction_start as int,
            fraction_end: self.fraction_end as int,
            exponent_negative: self.exponent_negative,
            exponent_start: self.exponent_start as int,
            exponent_end: self.exponent_end as int,
        }
    }
}

/// Whether the parts of `shape` lie in `text`, in order, and hold digits only.
pub open spec fn shape_fits(text: Seq<char>, shape: NumberShape) -> bool {
    &&& 0 <= shape.whole_start <= shape.whole_end <= shape.fraction_start <= shape.fraction_end
        <= shape.exponent_start <= shape.exponent_end <= text.len()
    &&& forall|i: int| shape.whole_start <= i < shape.whole_end ==> is_digit(#[trigger] text[i])
    &&& forall|i: int|
        shape.fraction_start <= i < shape.fraction_end ==> is_digit(#[trigger] text[i])
    &&& forall|i: int|
        shape.exponent_start <= i < shape.exponent_end ==> is_digit(#[trigger] text[i])
}

/// The shape of `text`, if it is a number.
pub fn scan_number(text: &Vec<char>) -> (r: Option<ScannedNumber>)
    ensures
        match r {
            Some(found) => number_shape(text@) == Some(found@) && shape_fits(text@, found@),
            None => number_shape(text@) is None,
        },
{
    let len = text.len();
    let negative = len > 0 && text[0] == '-';
    let whole_start: usize = if negative {
        1
    } else {
        0
    };
    let whole_end = scan_digits(text, whole_start);
    let has_fraction = whole_end < len && text[whole_end] == '.';
    let fraction_start: usize = if has_fraction {
        whole_end + 1
    } else {
        whole_end
    };
    let fraction_end: usize = if has_fraction {
        scan_digits(text, fraction_start)
    } else {
        fraction_start
    };
    let has_exponent = fraction_end < len && (text[fraction_end] == 'e' || text[fraction_end]
        == 'E');
    let exponent_negative = has_exponent && fraction_end + 1 < len && text[fraction_end + 1] == '-';
    let exponent_signed = has_exponent && (exponent_negative || (fraction_end + 1 < len
        && text[fraction_end + 1] == '+'));
    let exponent_start: usize = if exponent_signed {
        fraction_end + 2
    } else if has_exponent {
        fraction_end + 1
    } else {
        fraction_end
    };
    let exponent_end: usize = if has_exponent {
        scan_digits(text, exponent_start)
    } else {
        exponent_start
    };
    if whole_end == whole_start || (has_fraction && fraction_end == fraction_start) || (has_exponent
        && exponent_end == exponent_start) || exponent_end != len {
        return None;
    }
    Some(
        ScannedNumber {
            negative,
            whole_start,
            whole_end,
            fraction_start,
            fraction_end,
            exponent_negative,
            exponent_start,
            exponent_end,
        },
    )
}

/// `mantissa` times ten to the power of `shift`, rounded to the nearest whole
/// number, if that is within the range of `i64`.
pub fn scale(mantissa: u64, shift: i64) -> (r: Option<i64>)
    ensures
        match r {
            Some(v) => v == scaled(mantissa as nat, shift as int),
            None => scaled(mantissa as nat, shift as int) > i64::MAX,
        },
{
    let m: u128 = mantissa as u128;
    if mantissa == 0 {
        proof {
            if shift >= 0 {
                assert(0 * pow10(shift as nat) == 0) by (nonlinear_arith);
            } else {
                let p = pow10((-shift) as nat) as int;
                lemma_pow10_monotonic(0, (-shift) as nat);
                assert((0 + p / 2) / p == 0) by (nonlinear_arith)
                    requires
                        p >= 1,
                ;
            }
        }
        return Some(0);
    }
    if shift >= 0 {
        if shift > 18 {
            proof {
                lemma_pow10_monotonic(19, shift as nat);
                lemma_pow10_values();
                let p = pow10(shift as nat) as int;
                let mi = mantissa as int;
                assert(mi * p >= p) by (nonlinear_arith)
                    requires
                        mi >= 1,
                        p >= 0,
                ;
            }
            return None;
        }
        let p: u128 = power_of_ten(shift as u32);
        proof {
            lemma_pow10_monotonic(shift as nat, 18);
            lemma_pow10_values();
            assert(m * p <= 0x1_0000_0000_0000_0000 * 1_000_000_000_000_000_000)
                by (nonlinear_arith)
                requires
                    m <= 0x1_0000_0000_0000_0000,
                    p <= 1_000_000_000_000_000_000,
            ;
        }
        let product: u128 = m * p;
        if product > i64::MAX as u128 {
            None
        } else {
            Some(product as i64)
        }
    } else if shift < -19 {
        proof {
            let k = (-shift) as nat;
            let p = pow10(k) as int;
            let mi = mantissa as int;
            lemma_pow10_monotonic(20, k);
            lemma_pow10_values();
            assert(pow10(20) == 10 * pow10(19));
            assert((mi + p / 2) / p == 0) by (nonlinear_arith)
                requires
                    0 <= mi < 0x1_0000_0000_0000_0000,
                    p >= 100_000_000_000_000_000_000,
            ;
        }
        Some(0)
    } else {
        let p: u128 = power_of_ten((-shift) as u32);
        let quotient: u128 = (m + p / 2) / p;
        proof {
            let pi = p as int;
            let mi = m as int;
            assert((mi + pi / 2) / pi <= mi + pi / 2) by (nonlinear_arith)
                requires
                    pi >= 1,
                    mi >= 0,
            ;
        }
        if quotient > i64::MAX as u128 {
            None
        } else {
            Some(quotient as i64)
        }
    }
}

/// The value of the number `text` in thousandths.
pub fn parse_thousandths(text: &Vec<char>) -> (r: Option<i64>)
    ensures
        match r {
            Some(v) => decimal_thousandths(text@) == Some(v as int),
            None => decimal_thousandths(text@) is None,
        },
{
    let found = match scan_number(text) {
        Some(found) => found,
        None => {
            return None;
        },
    };
    let whole_len: usize = found.whole_end - found.whole_start;
    let fraction_len: usize = found.fraction_end - found.fraction_start;
    let exponent_len: usize = found.exponent_end - found.exponent_start;
    if whole_len > MAX_DIGITS || fraction_len > MAX_DIGITS || whole_len + fraction_len > MAX_DIGITS
        || exponent_len > MAX_EXPONENT_DIGITS {
        return None;
    }
    let whole: u64 = read_digits(text, found.whole_start, found.whole_end);
    let fraction: u64 = read_digits(text, found.fraction_start, found.fraction_end);
    let exponent: u64 = read_digits(text, found.exponent_start, found.exponent_end);
    let fraction_power: u128 = power_of_ten(fraction_len as u32);
    let ghost digits = mantissa_digits(text@, found@);
    proof {
        lemma_digits_value_concat(
            text@.subrange(found.whole_start as int, found.whole_end as int),
            text@.subrange(found.fraction_start as int, found.fraction_end as int),
        );
        assert forall|i: int| 0 <= i < digits.len() implies is_digit(#[trigger] digits[i]) by {
            if i < whole_len {
                assert(digits[i] == text@[found.whole_start + i]);
            } else {
                assert(digits[i] == text@[found.fraction_start + (i - whole_len)]);
            }
        }
        lemma_digits_value_bound(digits);
        lemma_pow10_monotonic((whole_len + fraction_len) as nat, 18);
        lemma_pow10_monotonic(exponent_len as nat, 3);
        lemma_pow10_values();
    }
    let mantissa: u128 = whole as u128 * fraction_power + fraction as u128;
    let signed_exponent: i64 = if found.exponent_negative {
        -(exponent as i64)
    } else {
        exponent as i64
    };
    let shift: i64 = signed_exponent - (fraction_len as i64) + 3;
    match scale(mantissa as u64, shift) {
        None => None,
        Some(magnitude) => if found.negative {
            Some(-magnitude)
        } else {
            Some(magnitude)
        },
    }
}

/// `n` written with three digits.
pub open spec fn three_digits(n: nat) -> Seq<char>
    recommends
        n < 1000,
{
    seq![digit_char(n / 100), digit_char((n / 10) % 10), digit_char(n % 10)]
}

/// The magnitude of `value`.
pub open spec fn magnitude_of(value: int) -> nat {
    if value < 0 {
        (-value) as nat
    } else {
        value as nat
    }
}

/// A count of thousandths written out: a `-` where it is negative, the whole
/// part, a `.`, and three digits.
pub open spec fn thousandths_text(value: int) -> Seq<char> {
    (if value < 0 {
        seq!['-']
    } else {
        Seq::empty()
    }) + decimal_of(magnitude_of(value) / 1000) + seq!['.'] + three_digits(
        magnitude_of(value) % 1000,
    )
}

/// A count of thousandths written out with two digits after the point, rounded
/// to the nearest hundredth; a half rounds away from zero.
pub open spec fn hundredths_text(value: int) -> Seq<char> {
    let hundredths = (magnitude_of(value) + 5) / 10;
    (if value < 0 {
        seq!['-']
    } else {
        Seq::empty()
    }) + decimal_of(hundredths / 100) + seq!['.'] + seq![
        digit_char((hundredths / 10) % 10),
        digit_char(hundredths % 10),
    ]
}

/// The character of the decimal digit `d`.
pub fn digit(d: u64) -> (c: char)
    requires
        d < 10,
    ensures
        c == digit_char(d as nat),
{
    let b: u8 = 48 + d as u8;
    b as char
}

/// The magnitude of `value`.
pub fn magnitude(value: i64) -> (m: u64)
    ensures
        m == magnitude_of(value as int),
{
    if value >= 0 {
        value as u64
    } else if value == i64::MIN {
        0x8000_0000_0000_0000
    } else {
        (-value) as u64
    }
}

/// Appends a count of thousandths, written out, to `buffer`.
pub fn push_thousandths(buffer: &mut Vec<char>, value: i64)
    ensures
        final(buffer)@ == old(buffer)@ + thousandths_text(value as int),
{
    let m = magnitude(value);
    let ghost start = buffer@;
    if value < 0 {
        buffer.push('-');
    }
    push_decimal(buffer, m / 1000);
    buffer.push('.');
    let rest: u64 = m % 1000;
    buffer.push(digit(rest / 100));
    buffer.push(digit((rest / 10) % 10));
    buffer.push(digit(rest % 10));
    assert(buffer@ =~= start + thousandths_text(value as int));
}

/// Appends a count of thousandths, written out with two digits after the
/// point, to `buffer`.
pub fn push_hundredths(buffer: &mut Vec<char>, value: i64)
    ensures
        final(buffer)@ == old(buffer)@ + hundredths_text(value as int),
{
    let m = magnitude(value);
    let hundredths: u64 = (m + 5) / 10;
    let ghost start = buffer@;
    if value < 0 {
        buffer.push('-');
    }
    push_decimal(buffer, hundredths / 100);
    buffer.push('.');
    buffer.push(digit((hundredths / 10) % 10));
    buffer.push(digit(hundredths % 10));
    assert(buffer@ =~= start + hundredths_text(value as int));
}

} // verus!
