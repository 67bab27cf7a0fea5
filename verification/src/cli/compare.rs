//! Comparisons of what an adapter read with what the provider's own surface showed.
//!
//! A comparison is immutable: one recorded in error is corrected by another, never
//! overwritten. So the number typed for it is read exactly, and refused where it is not a
//! percentage.

use crate::calendar::moment_written;
use crate::cli::hooks::{first_is, first_of, quote_first};
use crate::cli::options::{unknown, unknown_argument};
use crate::cli::quoting::{quote, quoted, quoted_option};
use crate::domain::{QuotaFractionPpm, QuotaUsed, UtcTimestamp, FULL_WINDOW_PPM};
use crate::error::{Error, ErrorView};
use crate::ids::WindowSemanticKey;
use crate::sets::texts;
use crate::text::{
    all_digits, decimal, decimal_text, digits_value, law_signed_numbers_read_back,
    law_text_is_split_at_the_first, lemma_decimal_digits, optional, parse_i64, same_text,
    signed_decimal, signed_decimal_text, signed_value, split_around, split_once,
};
use vstd::prelude::*;
use vstd::string::*;

verus! {

/// The granularity of a surface that shows whole percentage points.
pub const DEFAULT_GRANULARITY_PPM: i32 = 10_000;

/// Text without the percent signs at its end.
pub open spec fn without_percent(s: Seq<char>) -> Seq<char>
    decreases s.len(),
{
    if s.len() > 0 && s.last() == '%' {
        without_percent(s.drop_last())
    } else {
        s
    }
}

/// A power of ten.
pub open spec fn power_of_ten(n: nat) -> nat
    decreases n,
{
    if n == 0 {
        1
    } else {
        10 * power_of_ten((n - 1) as nat)
    }
}

/// Whether two characters are the same letter, the second in lower case.
pub open spec fn same_letter(c: char, lower: char) -> bool {
    c == lower || (65 <= c as int <= 90 && c as int + 32 == lower as int)
}

/// Whether text is a word, whatever the case of its letters.
pub open spec fn is_word(s: Seq<char>, word: Seq<char>) -> bool {
    s.len() == word.len() && forall|i: int|
        0 <= i < s.len() ==> same_letter(#[trigger] s[i], word[i])
}

/// What a number is, as it was typed: its sign, its digits, and how many places to the
/// left of their end the point stands; to the right of it, where that is negative.
pub struct Figure {
    pub negative: bool,
    pub digits: Seq<char>,
    pub places: int,
}

/// Text behind its sign.
pub open spec fn unsigned(s: Seq<char>) -> Seq<char> {
    if s.len() > 0 && (s[0] == '-' || s[0] == '+') {
        s.skip(1)
    } else {
        s
    }
}

/// A number without its sign, parted before and behind the letter of its exponent.
pub open spec fn around_exponent(body: Seq<char>) -> Option<(Seq<char>, Seq<char>)> {
    match split_around(body, 'e') {
        Some(pieces) => Some(pieces),
        None => split_around(body, 'E'),
    }
}

/// The exponent that text denotes: digits after an optional sign.
pub open spec fn exponent(s: Seq<char>) -> Option<int> {
    let body = unsigned(s);
    if all_digits(body) && body.len() > 0 {
        Some(
            if s[0] == '-' {
                -(digits_value(body) as int)
            } else {
                digits_value(body) as int
            },
        )
    } else {
        None
    }
}

/// The number that text denotes: digits, perhaps with a point among them, after an
/// optional sign and before an optional exponent.
pub open spec fn figure(s: Seq<char>) -> Option<Figure> {
    let body = unsigned(s);
    let (mantissa, scale) = match around_exponent(body) {
        Some((mantissa, written)) => (mantissa, exponent(written)),
        None => (body, Some(0int)),
    };
    let (whole, part) = match split_around(mantissa, '.') {
        Some(pieces) => pieces,
        None => (mantissa, Seq::empty()),
    };
    match scale {
        Some(scale) => if all_digits(whole + part) && (whole + part).len() > 0 {
            Some(
                Figure {
                    negative: s[0] == '-',
                    digits: whole + part,
                    places: part.len() - scale,
                },
            )
        } else {
            None
        },
        None => None,
    }
}

/// Whether text names a value beyond all numbers, or none.
pub open spec fn no_finite_number(s: Seq<char>) -> bool {
    let body = unsigned(s);
    is_word(body, "inf"@) || is_word(body, "infinity"@) || is_word(body, "nan"@)
}

/// What a figure's digits are worth, in units of its last place, or of one where that
/// stands before the point.
pub open spec fn amount(figure: Figure) -> nat {
    digits_value(figure.digits) * power_of_ten(above(-figure.places))
}

/// How many of a figure's units make one.
pub open spec fn unit(figure: Figure) -> nat {
    power_of_ten(above(figure.places))
}

/// A number, or zero where it is less.
pub open spec fn above(n: int) -> nat {
    if n > 0 {
        n as nat
    } else {
        0
    }
}

/// Whether a figure is from 0 up to 100.
pub open spec fn is_percentage(figure: Figure) -> bool {
    amount(figure) <= 100 * unit(figure) && (figure.negative ==> amount(figure) == 0)
}

/// The parts per million of a percentage, rounded to the nearest, halves upwards.
pub open spec fn percent_ppm(figure: Figure) -> int {
    (20_000 * amount(figure) + unit(figure)) as int / (2 * unit(figure)) as int
}

/// The parts per million that a typed percentage denotes.
pub open spec fn percent_asked(flag: Seq<char>, raw: Seq<char>) -> Result<int, ErrorView> {
    let typed = without_percent(raw);
    let outside = ErrorView::Usage(
        flag + " must be a percentage between 0 and 100, got "@ + quoted(raw),
    );
    match figure(typed) {
        Some(f) => if is_percentage(f) {
            Ok(percent_ppm(f))
        } else {
            Err(outside)
        },
        None => if no_finite_number(typed) {
            Err(outside)
        } else {
            Err(ErrorView::Usage(flag + " must be a percentage, got "@ + quoted(raw)))
        },
    }
}

fn strip_percent(s: &str) -> (typed: String)
    ensures
        typed@ == without_percent(s@),
{
    let mut len: usize = s.unicode_len();
    assert(s@.take(len as int) =~= s@);
    while len > 0 && s.get_char(len - 1) == '%'
        invariant
            len <= s@.len(),
            without_percent(s@) == without_percent(s@.take(len as int)),
        decreases len,
    {
        assert(s@.take(len as int).drop_last() =~= s@.take(len - 1));
        len = len - 1;
    }
    assert(s@.subrange(0, len as int) =~= s@.take(len as int));
    s.substring_char(0, len).to_owned()
}

fn same_word(s: &str, word: &str) -> (same: bool)
    ensures
        same == is_word(s@, word@),
{
    let len: usize = s.unicode_len();
    if len != word.unicode_len() {
        return false;
    }
    let mut i: usize = 0;
    while i < len
        invariant
            i <= len,
            len == s@.len(),
            len == word@.len(),
            forall|k: int| 0 <= k < i ==> same_letter(#[trigger] s@[k], word@[k]),
        decreases len - i,
    {
        let c: char = s.get_char(i);
        let lower: char = word.get_char(i);
        let code: u32 = c as u32;
        if c != lower && !(65 <= code && code <= 90 && code + 32 == lower as u32) {
            assert(!same_letter(s@[i as int], word@[i as int]));
            return false;
        }
        i = i + 1;
    }
    true
}

proof fn lemma_power_grows(m: nat, n: nat)
    requires
        m <= n,
    ensures
        0 < power_of_ten(m) <= power_of_ten(n),
    decreases n,
{
    if m < n {
        lemma_power_grows(m, (n - 1) as nat);
    } else if n > 0 {
        lemma_power_grows((m - 1) as nat, (n - 1) as nat);
    }
}

proof fn lemma_digits_below_power(s: Seq<char>)
    requires
        all_digits(s),
    ensures
        digits_value(s) < power_of_ten(s.len()),
    decreases s.len(),
{
    if s.len() > 0 {
        assert(48 <= s[s.len() - 1] as int <= 57);
        assert forall|k: int| 0 <= k < s.drop_last().len() implies 48 <= (#[trigger] s.drop_last()[k]) as int
            <= 57 by {
            assert(s[k] == s.drop_last()[k]);
        }
        lemma_digits_below_power(s.drop_last());
    }
}

proof fn lemma_powers_multiply(m: nat, n: nat)
    ensures
        power_of_ten(m + n) == power_of_ten(m) * power_of_ten(n),
    decreases n,
{
    if n == 0 {
        assert(power_of_ten(m) * 1 == power_of_ten(m));
    } else {
        lemma_powers_multiply(m, (n - 1) as nat);
        let a = power_of_ten(m) as int;
        let b = power_of_ten((n - 1) as nat) as int;
        assert(10 * (a * b) == a * (10 * b)) by (nonlinear_arith);
    }
}

/// Digits are worth what those before a place are, that many places up, and those behind
/// it.
proof fn lemma_digits_part(s: Seq<char>, at: int)
    requires
        all_digits(s),
        0 <= at <= s.len(),
    ensures
        digits_value(s) == digits_value(s.take(at)) * power_of_ten((s.len() - at) as nat)
            + digits_value(s.skip(at)),
    decreases s.len() - at,
{
    if at == s.len() {
        assert(s.take(at) =~= s);
        assert(digits_value(s) * 1 == digits_value(s));
    } else {
        let shorter = s.drop_last();
        assert forall|k: int| 0 <= k < shorter.len() implies 48 <= (#[trigger] shorter[k]) as int
            <= 57 by {
            assert(s[k] == shorter[k]);
        }
        assert(48 <= s[s.len() - 1] as int <= 57);
        lemma_digits_part(shorter, at);
        assert(shorter.take(at) =~= s.take(at));
        assert(s.skip(at).drop_last() =~= shorter.skip(at));
        assert(s.skip(at).last() == s.last());
        let a = digits_value(s.take(at)) as int;
        let b = power_of_ten((shorter.len() - at) as nat) as int;
        assert((a * b) * 10 == a * (10 * b)) by (nonlinear_arith);
    }
}

/// Whether text holds only digits from a place on.
fn only_digits(s: &str, from: usize) -> (only: bool)
    requires
        from <= s@.len(),
    ensures
        only == all_digits(s@.skip(from as int)),
{
    let len: usize = s.unicode_len();
    let mut i: usize = from;
    while i < len
        invariant
            from <= i <= len,
            len == s@.len(),
            forall|k: int| from <= k < i ==> 48 <= (#[trigger] s@[k]) as int <= 57,
        decreases len - i,
    {
        let code: u32 = s.get_char(i) as u32;
        if code < 48 || code > 57 {
            assert(s@.skip(from as int)[i - from] == s@[i as int]);
            return false;
        }
        i = i + 1;
    }
    true
}

/// The lesser of two numbers.
pub open spec fn at_most(n: nat, limit: nat) -> nat {
    if n < limit {
        n
    } else {
        limit
    }
}

/// The value of the digits between two places, or a limit where it is less.
fn value_within(s: &str, from: usize, to: usize, limit: u128) -> (value: u128)
    requires
        from <= to <= s@.len(),
        all_digits(s@.subrange(from as int, to as int)),
        0 < limit <= 1_000_000_000_000_000_000_000_000_000_000,
    ensures
        value == at_most(digits_value(s@.subrange(from as int, to as int)), limit as nat),
{
    let ghost all = s@.subrange(from as int, to as int);
    let mut value: u128 = 0;
    let mut i: usize = from;
    assert(all.take(0) =~= Seq::<char>::empty());
    while i < to
        invariant
            from <= i <= to <= s@.len(),
            all == s@.subrange(from as int, to as int),
            all_digits(all),
            0 < limit <= 1_000_000_000_000_000_000_000_000_000_000,
            value <= limit,
            value == at_most(digits_value(all.take(i - from)), limit as nat),
        decreases to - i,
    {
        let code: u32 = s.get_char(i) as u32;
        proof {
            let next = all.take(i - from + 1);
            assert(next.drop_last() =~= all.take(i - from));
            assert(next.last() == s@[i as int]);
            assert(48 <= all[i - from] as int <= 57);
        }
        value = value * 10 + (code - 48) as u128;
        if value > limit {
            value = limit;
        }
        i = i + 1;
    }
    assert(all.take(to - from) =~= all);
    value
}

/// More than any text has digits.
pub const EXPONENT_LIMIT: i128 = 1_000_000_000_000_000_000_000_000_000_000;

/// An exponent; the limit of its sign where it is beyond that.
fn read_exponent(s: &str) -> (scale: Option<i128>)
    ensures
        match scale {
            Some(n) => exponent(s@) matches Some(e) && -EXPONENT_LIMIT <= n <= EXPONENT_LIMIT && (e
                == n || (e > EXPONENT_LIMIT && n == EXPONENT_LIMIT) || (e < -EXPONENT_LIMIT && n
                == -EXPONENT_LIMIT)),
            None => exponent(s@) is None,
        },
{
    let len: usize = s.unicode_len();
    let signed: bool = len > 0 && (s.get_char(0) == '-' || s.get_char(0) == '+');
    let negative: bool = len > 0 && s.get_char(0) == '-';
    let from: usize = if signed {
        1
    } else {
        0
    };
    assert(unsigned(s@) =~= s@.skip(from as int));
    if from == len || !only_digits(s, from) {
        return None;
    }
    assert(s@.subrange(from as int, len as int) =~= s@.skip(from as int));
    let value: i128 = value_within(s, from, len, EXPONENT_LIMIT as u128) as i128;
    if negative {
        Some(-value)
    } else {
        Some(value)
    }
}

proof fn lemma_mean_percentage(value: int, unit: int)
    requires
        0 <= value <= 100 * unit,
        unit > 0,
    ensures
        0 <= (20_000 * value + unit) / (2 * unit) <= 1_000_000,
{
    assert(0 <= (20_000 * value + unit) / (2 * unit)) by (nonlinear_arith)
        requires
            value >= 0,
            unit > 0,
    ;
    assert((20_000 * value + unit) / (2 * unit) <= 1_000_000) by (nonlinear_arith)
        requires
            value <= 100 * unit,
            unit > 0,
    ;
}

proof fn lemma_least_percentage(value: int, unit: int)
    requires
        0 <= value,
        20_000 * value < unit,
    ensures
        (20_000 * value + unit) / (2 * unit) == 0,
{
    assert((20_000 * value + unit) / (2 * unit) == 0) by (nonlinear_arith)
        requires
            0 <= value,
            20_000 * value < unit,
    ;
}

/// A whole number of parts per million is what a percentage comes to.
proof fn lemma_whole_ppm(amount: int, unit: int, ppm: int)
    requires
        unit > 0,
        ppm * unit == 10_000 * amount,
    ensures
        amount <= 100 * unit <==> ppm <= 1_000_000,
        (20_000 * amount + unit) / (2 * unit) == ppm,
{
    assert(amount <= 100 * unit <==> ppm <= 1_000_000) by (nonlinear_arith)
        requires
            unit > 0,
            ppm * unit == 10_000 * amount,
    ;
    assert(20_000 * amount + unit == ppm * (2 * unit) + unit) by (nonlinear_arith)
        requires
            ppm * unit == 10_000 * amount,
    ;
    vstd::arithmetic::div_mod::lemma_fundamental_div_mod_converse(
        20_000 * amount + unit,
        2 * unit,
        ppm,
        unit,
    );
}

/// What a percentage comes to with a rest behind its whole parts per million.
proof fn lemma_parted_ppm(amount: int, unit: int, head: int, tail: int, places: int)
    requires
        places > 0,
        unit == 10_000 * places,
        amount == head * places + tail,
        0 <= tail < places,
        0 <= head,
    ensures
        amount <= 100 * unit <==> head < 1_000_000 || (head == 1_000_000 && tail == 0),
        (20_000 * amount + unit) / (2 * unit) == if 2 * tail >= places {
            head + 1
        } else {
            head
        },
{
    if head < 1_000_000 {
        assert(head * places + tail <= 1_000_000 * places) by (nonlinear_arith)
            requires
                head < 1_000_000,
                0 <= tail < places,
        ;
    } else if head > 1_000_000 {
        assert(head * places + tail > 1_000_000 * places) by (nonlinear_arith)
            requires
                head > 1_000_000,
                0 <= tail < places,
        ;
    }
    let whole = if 2 * tail >= places {
        head + 1
    } else {
        head
    };
    let rest = if 2 * tail >= places {
        20_000 * tail - unit
    } else {
        20_000 * tail + unit
    };
    assert(20_000 * amount + unit == whole * (2 * unit) + rest) by (nonlinear_arith)
        requires
            unit == 10_000 * places,
            amount == head * places + tail,
            whole == head + 1 && rest == 20_000 * tail - unit || whole == head && rest == 20_000
                * tail + unit,
    ;
    vstd::arithmetic::div_mod::lemma_fundamental_div_mod_converse(
        20_000 * amount + unit,
        2 * unit,
        whole,
        rest,
    );
}

/// Digits that are not more than some places come to half a unit of those places exactly
/// where they are that many and the first is five or more.
proof fn lemma_half(tail: Seq<char>)
    requires
        all_digits(tail),
        tail.len() > 0,
    ensures
        2 * digits_value(tail) >= power_of_ten(tail.len()) <==> tail[0] as int >= 53,
{
    lemma_digits_part(tail, 1);
    let rest = tail.skip(1);
    assert forall|k: int| 0 <= k < rest.len() implies 48 <= (#[trigger] rest[k]) as int <= 57 by {
        assert(rest[k] == tail[k + 1]);
    }
    lemma_digits_below_power(rest);
    let first = tail.take(1);
    assert(first.drop_last() =~= Seq::<char>::empty());
    assert(digits_value(Seq::<char>::empty()) == 0);
    assert(48 <= tail[0] as int <= 57);
    assert(digits_value(first) == tail[0] as int - 48);
    let d = tail[0] as int - 48;
    let unit = power_of_ten((tail.len() - 1) as nat) as int;
    let behind = digits_value(rest) as int;
    assert(power_of_ten(tail.len()) == 10 * unit);
    assert(2 * (d * unit + behind) >= 10 * unit <==> d >= 5) by (nonlinear_arith)
        requires
            0 <= behind < unit,
    ;
}

/// A few digits worth more than none, with places added to their end.
fn shifted(value: u128, places: i128) -> (shifted: u128)
    requires
        value <= 1_000_001,
        0 <= places,
    ensures
        shifted == at_most(value as nat * power_of_ten(places as nat), 1_000_001),
{
    if value == 0 {
        proof {
            assert(value as nat * power_of_ten(places as nat) == 0) by (nonlinear_arith)
                requires
                    value == 0,
            ;
        }
        return 0;
    }
    let mut shifted: u128 = value;
    let mut i: i128 = 0;
    assert(value as nat * power_of_ten(0) == value) by (nonlinear_arith)
        requires
            power_of_ten(0) == 1,
    ;
    while i < places && shifted < 1_000_001
        invariant
            0 <= i <= places,
            0 < value,
            0 < shifted <= 1_000_001,
            shifted == at_most(value as nat * power_of_ten(i as nat), 1_000_001),
        decreases places - i,
    {
        proof {
            let unit = power_of_ten(i as nat) as int;
            assert(value * (10 * unit) == 10 * (value * unit)) by (nonlinear_arith);
        }
        shifted = 10 * shifted;
        if shifted > 1_000_001 {
            shifted = 1_000_001;
        }
        i = i + 1;
    }
    proof {
        lemma_power_grows(i as nat, places as nat);
        let less = power_of_ten(i as nat) as int;
        let more = power_of_ten(places as nat) as int;
        assert(value * less <= value * more) by (nonlinear_arith)
            requires
                less <= more,
                0 < value,
        ;
    }
    shifted
}

/// The parts per million of a percentage given by its digits and the places behind its
/// point; nothing where it is no percentage.
fn percentage(negative: bool, digits: &str, places: i128) -> (ppm: Option<i32>)
    requires
        all_digits(digits@),
        -2 * EXPONENT_LIMIT <= places <= 2 * EXPONENT_LIMIT,
    ensures
        ({
            let figure = Figure { negative, digits: digits@, places: places as int };
            match ppm {
                Some(ppm) => is_percentage(figure) && ppm == percent_ppm(figure) && 0 <= ppm
                    <= 1_000_000,
                None => !is_percentage(figure),
            }
        }),
{
    let ghost figure = Figure { negative, digits: digits@, places: places as int };
    let ghost value = digits_value(digits@) as int;
    let len: usize = digits.unicode_len();
    assert(digits@.subrange(0, len as int) =~= digits@);
    let held: u128 = value_within(digits, 0, len, 1_000_001);
    proof {
        lemma_power_grows(0, above(-places));
        lemma_power_grows(0, above(places as int));
        let up = power_of_ten(above(-places)) as int;
        assert(value * up == 0 <==> value == 0) by (nonlinear_arith)
            requires
                up > 0,
        ;
        assert(up == 1 ==> value * up == value) by (nonlinear_arith);
    }
    if negative && held > 0 {
        return None;
    }
    if places <= 4 {
        let ppm: u128 = shifted(held, 4 - places);
        proof {
            lemma_small_shift(value, places as int);
            let scale = power_of_ten((4 - places) as nat) as int;
            lemma_power_grows(0, (4 - places) as nat);
            if value > 1_000_001 {
                assert(value * scale >= 1_000_001 && 1_000_001 * scale >= 1_000_001)
                    by (nonlinear_arith)
                    requires
                        value > 1_000_001,
                        scale > 0,
                ;
            }
            lemma_whole_ppm(amount(figure) as int, unit(figure) as int, value * scale);
        }
        if ppm > 1_000_000 {
            None
        } else {
            Some(ppm as i32)
        }
    } else {
        let behind: i128 = places - 4;
        let ghost unit_behind = power_of_ten(behind as nat) as int;
        proof {
            reveal_with_fuel(power_of_ten, 5);
            lemma_powers_multiply(4, behind as nat);
            lemma_power_grows(0, behind as nat);
            lemma_digits_below_power(digits@);
        }
        if behind > len as i128 {
            proof {
                lemma_power_grows((len + 1) as nat, behind as nat);
                lemma_parted_ppm(value, unit(figure) as int, 0, value, unit_behind);
            }
            return Some(0);
        }
        let at: usize = (len as i128 - behind) as usize;
        let ghost front = digits@.take(at as int);
        let ghost tail = digits@.skip(at as int);
        proof {
            lemma_digits_part(digits@, at as int);
            assert forall|k: int| 0 <= k < tail.len() implies 48 <= (#[trigger] tail[k]) as int
                <= 57 by {
                assert(tail[k] == digits@[at + k]);
            }
            assert forall|k: int| 0 <= k < front.len() implies 48 <= (#[trigger] front[k]) as int
                <= 57 by {
                assert(front[k] == digits@[k]);
            }
            lemma_digits_below_power(tail);
            lemma_half(tail);
            assert(digits@.subrange(0, at as int) =~= front);
            assert(digits@.subrange(at as int, len as int) =~= tail);
            assert(tail[0] == digits@[at as int]);
            lemma_parted_ppm(
                value,
                unit(figure) as int,
                digits_value(front) as int,
                digits_value(tail) as int,
                unit_behind,
            );
        }
        let head: u128 = value_within(digits, 0, at, 1_000_001);
        let rest: u128 = value_within(digits, at, len, 1);
        if head > 1_000_000 || (head == 1_000_000 && rest > 0) {
            return None;
        }
        if digits.get_char(at) as u32 >= 53 {
            Some(head as i32 + 1)
        } else {
            Some(head as i32)
        }
    }
}

/// Moved by four places, digits are whole parts per million where at most four of them
/// stand behind the point.
proof fn lemma_small_shift(value: int, places: int)
    requires
        places <= 4,
    ensures
        (value * power_of_ten((4 - places) as nat)) * power_of_ten(above(places)) == 10_000 * (value
            * power_of_ten(above(-places))),
{
    reveal_with_fuel(power_of_ten, 5);
    let scale = power_of_ten((4 - places) as nat) as int;
    let unit = power_of_ten(above(places)) as int;
    let up = power_of_ten(above(-places)) as int;
    if places <= 0 {
        lemma_powers_multiply(4, (-places) as nat);
        assert(scale == 10_000 * up);
    } else {
        lemma_powers_multiply((4 - places) as nat, places as nat);
        assert(scale * unit == 10_000);
    }
    assert((value * scale) * unit == 10_000 * (value * up)) by (nonlinear_arith)
        requires
            (scale == 10_000 * up && unit == 1) || (scale * unit == 10_000 && up == 1),
    ;
}

fn part_exponent(body: &str) -> (pieces: Option<(String, String)>)
    ensures
        match pieces {
            Some((mantissa, written)) => around_exponent(body@) == Some((mantissa@, written@)),
            None => around_exponent(body@) is None,
        },
{
    match split_once(body, 'e') {
        Some(pieces) => Some(pieces),
        None => split_once(body, 'E'),
    }
}

/// Reads a percentage as a surface shows it, with or without a percent sign.
pub fn parse_percent(flag: &str, raw: &str) -> (fraction: Result<QuotaFractionPpm, Error>)
    ensures
        match fraction {
            Ok(f) => percent_asked(flag@, raw@) == Ok::<int, ErrorView>(f@),
            Err(e) => percent_asked(flag@, raw@) == Err::<int, ErrorView>(e@),
        },
{
    let typed: String = strip_percent(raw);
    let len: usize = typed.as_str().unicode_len();
    let signed: bool = len > 0 && (typed.as_str().get_char(0) == '-' || typed.as_str().get_char(0)
        == '+');
    let negative: bool = len > 0 && typed.as_str().get_char(0) == '-';
    let body: String = if signed {
        assert(typed@.subrange(1, len as int) =~= typed@.skip(1));
        typed.as_str().substring_char(1, len).to_owned()
    } else {
        typed.clone()
    };
    let (mantissa, scale): (String, Option<i128>) = match part_exponent(body.as_str()) {
        Some((mantissa, written)) => (mantissa, read_exponent(written.as_str())),
        None => (body.clone(), Some(0)),
    };
    let mut digits: String = String::new();
    let mut behind: usize = 0;
    match split_once(mantissa.as_str(), '.') {
        Some((whole, part)) => {
            digits.append(whole.as_str());
            digits.append(part.as_str());
            behind = part.as_str().unicode_len();
            assert(digits@ =~= whole@ + part@);
        },
        None => {
            digits.append(mantissa.as_str());
            assert(digits@ =~= mantissa@ + Seq::<char>::empty());
        },
    }
    let mut message: String = flag.to_owned();
    assert(digits@.skip(0) =~= digits@);
    match (only_digits(digits.as_str(), 0), scale) {
        (true, Some(scale)) => {
            if digits.as_str().unicode_len() > 0 {
                let ghost asked = figure(typed@)->0;
                let places: i128 = behind as i128 - scale;
                proof {
                    lemma_scale_held(asked, places as int);
                }
                match percentage(negative, digits.as_str(), places) {
                    Some(ppm) => match QuotaFractionPpm::new(ppm) {
                        Some(fraction) => {
                            return Ok(fraction);
                        },
                        None => {},
                    },
                    None => {},
                }
                message.append(" must be a percentage between 0 and 100, got ");
                message.append(quote(raw).as_str());
                return Err(Error::Usage(message));
            }
        },
        _ => {},
    }
    if same_word(body.as_str(), "inf") || same_word(body.as_str(), "infinity") || same_word(
        body.as_str(),
        "nan",
    ) {
        message.append(" must be a percentage between 0 and 100, got ");
    } else {
        message.append(" must be a percentage, got ");
    }
    message.append(quote(raw).as_str());
    Err(Error::Usage(message))
}

/// Beyond some places it does not matter how many there are: digits that are not all
/// zero are beyond every percentage, or less than any part per million.
proof fn lemma_scale_held(asked: Figure, held: int)
    requires
        all_digits(asked.digits),
        asked.places == held || (asked.places < held <= -3) || (asked.places > held
            > asked.digits.len() + 4),
    ensures
        is_percentage(asked) == is_percentage(Figure { places: held, ..asked }),
        is_percentage(asked) ==> percent_ppm(asked) == percent_ppm(
            Figure { places: held, ..asked },
        ),
{
    let kept = Figure { places: held, ..asked };
    let value = digits_value(asked.digits) as int;
    let up = power_of_ten(above(-asked.places)) as int;
    let up_held = power_of_ten(above(-held)) as int;
    lemma_power_grows(0, above(-asked.places));
    lemma_power_grows(0, above(-held));
    lemma_power_grows(0, above(asked.places));
    lemma_power_grows(0, above(held));
    if value == 0 {
        assert(value * up == 0 && value * up_held == 0) by (nonlinear_arith)
            requires
                value == 0,
        ;
        lemma_least_percentage(0, unit(asked) as int);
        lemma_least_percentage(0, unit(kept) as int);
    } else {
        assert(value * up >= up && value * up_held >= up_held) by (nonlinear_arith)
            requires
                value > 0,
                up > 0,
                up_held > 0,
        ;
        if asked.places < held {
            reveal_with_fuel(power_of_ten, 4);
            lemma_power_grows(3, above(-asked.places));
            lemma_power_grows(3, above(-held));
        } else if asked.places > held {
            let n = asked.digits.len();
            assert(value * up == value * 1 && value * up_held == value * 1);
            lemma_digits_below_power(asked.digits);
            reveal_with_fuel(power_of_ten, 6);
            lemma_powers_multiply(5, n);
            lemma_power_grows(n + 5, above(asked.places));
            lemma_power_grows(n + 5, above(held));
            lemma_least_percentage(value, unit(asked) as int);
            lemma_least_percentage(value, unit(kept) as int);
        }
    }
}

/// A percentage that is read is a fraction of the window.
pub proof fn law_percentages_are_fractions(flag: Seq<char>, raw: Seq<char>)
    ensures
        percent_asked(flag, raw) matches Ok(ppm) ==> 0 <= ppm <= FULL_WINDOW_PPM,
{
    match figure(without_percent(raw)) {
        Some(f) => {
            lemma_power_grows(0, above(f.places));
            if is_percentage(f) {
                lemma_mean_percentage(amount(f) as int, unit(f) as int);
            }
        },
        None => {},
    }
}

/// What comparing was asked for.
#[derive(Debug, Clone, Copy, PartialEq, Eq, Structural)]
pub enum CompareSubcommand {
    Record,
    Uncompared,
}

/// Reads what comparing was asked for.
pub fn compare_subcommand(rest: &Vec<String>) -> (subcommand: Result<CompareSubcommand, Error>)
    ensures
        ({
            let first = first_of(texts(rest@));
            match subcommand {
                Ok(s) => first == Some(
                    match s {
                        CompareSubcommand::Record => "record"@,
                        CompareSubcommand::Uncompared => "uncompared"@,
                    },
                ),
                Err(e) => first != Some("record"@) && first != Some("uncompared"@) && e@
                    == ErrorView::Usage(
                    "compare requires a subcommand (record | uncompared), got "@ + quoted_option(
                        first,
                    ),
                ),
            }
        }),
{
    if first_is(rest, "record") {
        return Ok(CompareSubcommand::Record);
    }
    if first_is(rest, "uncompared") {
        return Ok(CompareSubcommand::Uncompared);
    }
    let mut message: String = "compare requires a subcommand (record | uncompared), got ".to_owned();
    message.append(quote_first(rest).as_str());
    Err(Error::Usage(message))
}

/// A comparison to be recorded: the observation and the window it compares, what the
/// surface showed, and how finely the surface is documented to show it.
#[derive(Debug, PartialEq, Eq)]
pub struct AdapterSemanticsComparisonRequest {
    pub observation_id: i64,
    pub semantic_key: WindowSemanticKey,
    pub authoritative_surface: String,
    pub surface_quota_used: QuotaUsed,
    pub documented_granularity: QuotaFractionPpm,
    pub read_at: UtcTimestamp,
    pub detail: Option<String>,
}

/// What is known of a comparison while its options are being read.
pub struct CompareView {
    pub surface: Option<Seq<char>>,
    pub surface_ppm: Option<int>,
    pub granularity_ppm: Option<int>,
    pub read_at: Option<int>,
    pub detail: Option<Seq<char>>,
}

/// What an option with its value makes of what was read before.
pub open spec fn compare_option(flag: Seq<char>, value: Seq<char>, sofar: CompareView) -> Result<
    CompareView,
    ErrorView,
> {
    if flag == "--surface"@ {
        Ok(CompareView { surface: Some(value), ..sofar })
    } else if flag == "--surface-percent"@ {
        match percent_asked(flag, value) {
            Ok(ppm) => Ok(CompareView { surface_ppm: Some(ppm), ..sofar }),
            Err(error) => Err(error),
        }
    } else if flag == "--granularity-percent"@ {
        match percent_asked(flag, value) {
            Ok(ppm) => Ok(CompareView { granularity_ppm: Some(ppm), ..sofar }),
            Err(error) => Err(error),
        }
    } else if flag == "--read-at"@ {
        match moment_written(value) {
            Some(at) => Ok(CompareView { read_at: Some(at), ..sofar }),
            None => Err(ErrorView::Usage("--read-at must be RFC3339, got "@ + quoted(value))),
        }
    } else {
        Ok(CompareView { detail: Some(value), ..sofar })
    }
}

/// Whether an argument is an option of recording a comparison.
pub open spec fn is_compare_option(arg: Seq<char>) -> bool {
    arg == "--surface"@ || arg == "--surface-percent"@ || arg == "--granularity-percent"@ || arg
        == "--read-at"@ || arg == "--detail"@
}

/// What the arguments from a position on make of what was read before.
pub open spec fn compare_from(args: Seq<Seq<char>>, i: int, sofar: CompareView) -> Result<
    CompareView,
    ErrorView,
>
    decreases args.len() - i,
{
    if i >= args.len() {
        Ok(sofar)
    } else if !is_compare_option(args[i]) {
        Err(ErrorView::Usage("compare record: unknown argument "@ + args[i]))
    } else if i + 1 >= args.len() {
        Err(ErrorView::Usage(args[i] + " requires a value"@))
    } else {
        match compare_option(args[i], args[i + 1], sofar) {
            Ok(read) => compare_from(args, i + 2, read),
            Err(error) => Err(error),
        }
    }
}

/// How recording a comparison is asked for.
pub open spec fn record_usage() -> ErrorView {
    ErrorView::Usage(
        "compare record requires OBSERVATION_ID WINDOW --surface NAME --surface-percent N [--granularity-percent N] [--read-at RFC3339] [--detail TEXT]"@,
    )
}

/// Nothing read yet.
pub open spec fn no_comparison() -> CompareView {
    CompareView {
        surface: None,
        surface_ppm: None,
        granularity_ppm: None,
        read_at: None,
        detail: None,
    }
}

/// Why a comparison cannot be recorded as it was asked for; nothing where it can.
pub open spec fn comparison_refused(args: Seq<Seq<char>>) -> Option<ErrorView> {
    if args.len() < 3 {
        Some(record_usage())
    } else if !(signed_value(args[1]) matches Some(id) && i64::MIN <= id <= i64::MAX) {
        Some(
            ErrorView::Usage(
                "compare record: OBSERVATION_ID must be an integer, got "@ + quoted(args[1]),
            ),
        )
    } else {
        match compare_from(args, 3, no_comparison()) {
            Err(error) => Some(error),
            Ok(read) => if read.surface is None {
                Some(ErrorView::Usage("compare record requires --surface NAME"@))
            } else if read.surface_ppm is None {
                Some(ErrorView::Usage("compare record requires --surface-percent N"@))
            } else {
                None
            },
        }
    }
}

/// Whether a request is what the arguments ask for. The granularity is one percentage
/// point where none is named, and the surface was read now where no moment is.
pub open spec fn comparison_asked(
    args: Seq<Seq<char>>,
    now: UtcTimestamp,
    request: AdapterSemanticsComparisonRequest,
) -> bool {
    match compare_from(args, 3, no_comparison()) {
        Ok(read) => {
            &&& signed_value(args[1]) == Some(request.observation_id as int)
            &&& request.semantic_key@ == args[2]
            &&& Some(request.authoritative_surface@) == read.surface
            &&& Some(request.surface_quota_used@) == read.surface_ppm
            &&& request.documented_granularity@ == match read.granularity_ppm {
                Some(ppm) => ppm,
                None => DEFAULT_GRANULARITY_PPM as int,
            }
            &&& request.read_at.nanos == match read.read_at {
                Some(at) => at,
                None => now.nanos as int,
            }
            &&& optional(request.detail) == read.detail
        },
        Err(_) => false,
    }
}

/// A comparison whose options are being read.
struct CompareSoFar {
    surface: Option<String>,
    surface_ppm: Option<QuotaFractionPpm>,
    granularity_ppm: Option<QuotaFractionPpm>,
    read_at: Option<UtcTimestamp>,
    detail: Option<String>,
}

/// The parts per million of an optional fraction.
pub open spec fn ppm_of(fraction: Option<QuotaFractionPpm>) -> Option<int> {
    match fraction {
        Some(f) => Some(f@),
        None => None,
    }
}

impl View for CompareSoFar {
    type V = CompareView;

    closed spec fn view(&self) -> CompareView {
        CompareView {
            surface: optional(self.surface),
            surface_ppm: ppm_of(self.surface_ppm),
            granularity_ppm: ppm_of(self.granularity_ppm),
            read_at: match self.read_at {
                Some(at) => Some(at.nanos as int),
                None => None,
            },
            detail: optional(self.detail),
        }
    }
}

fn knows_option(arg: &str) -> (known: bool)
    ensures
        known == is_compare_option(arg@),
{
    same_text(arg, "--surface") || same_text(arg, "--surface-percent") || same_text(
        arg,
        "--granularity-percent",
    ) || same_text(arg, "--read-at") || same_text(arg, "--detail")
}

fn read_option(flag: &str, value: &String, sofar: &mut CompareSoFar) -> (read: Result<(), Error>)
    ensures
        match read {
            Ok(()) => compare_option(flag@, value@, old(sofar)@) == Ok::<CompareView, ErrorView>(
                final(sofar)@,
            ),
            Err(e) => compare_option(flag@, value@, old(sofar)@) == Err::<CompareView, ErrorView>(
                e@,
            ),
        },
{
    if same_text(flag, "--surface") {
        sofar.surface = Some(value.clone());
        return Ok(());
    }
    if same_text(flag, "--surface-percent") {
        return match parse_percent(flag, value.as_str()) {
            Ok(ppm) => {
                sofar.surface_ppm = Some(ppm);
                Ok(())
            },
            Err(error) => Err(error),
        };
    }
    if same_text(flag, "--granularity-percent") {
        return match parse_percent(flag, value.as_str()) {
            Ok(ppm) => {
                sofar.granularity_ppm = Some(ppm);
                Ok(())
            },
            Err(error) => Err(error),
        };
    }
    if same_text(flag, "--read-at") {
        return match UtcTimestamp::parse_rfc3339(value.as_str()) {
            Some(at) => {
                sofar.read_at = Some(at);
                Ok(())
            },
            None => {
                let mut message: String = "--read-at must be RFC3339, got ".to_owned();
                message.append(quote(value.as_str()).as_str());
                Err(Error::Usage(message))
            },
        };
    }
    sofar.detail = Some(value.clone());
    Ok(())
}

/// Reads a comparison to be recorded.
pub fn compare_record_options(rest: &Vec<String>, now: UtcTimestamp) -> (request: Result<
    AdapterSemanticsComparisonRequest,
    Error,
>)
    ensures
        match request {
            Ok(r) => comparison_refused(texts(rest@)) is None && comparison_asked(
                texts(rest@),
                now,
                r,
            ),
            Err(e) => comparison_refused(texts(rest@)) == Some(e@),
        },
{
    let total: usize = rest.len();
    let ghost args = texts(rest@);
    if total < 3 {
        return Err(
            Error::Usage(
                "compare record requires OBSERVATION_ID WINDOW --surface NAME --surface-percent N [--granularity-percent N] [--read-at RFC3339] [--detail TEXT]".to_owned(),
            ),
        );
    }
    assert(args[1] == rest@[1]@ && args[2] == rest@[2]@);
    let observation_id: i64 = match parse_i64(rest[1].as_str()) {
        Some(id) => id,
        None => {
            let mut message: String =
                "compare record: OBSERVATION_ID must be an integer, got ".to_owned();
            message.append(quote(rest[1].as_str()).as_str());
            return Err(Error::Usage(message));
        },
    };
    let mut sofar: CompareSoFar = CompareSoFar {
        surface: None,
        surface_ppm: None,
        granularity_ppm: None,
        read_at: None,
        detail: None,
    };
    let mut i: usize = 3;
    while i < total
        invariant
            3 <= total,
            total == rest@.len(),
            args == texts(rest@),
            signed_value(args[1]) == Some(observation_id as int),
            compare_from(args, 3, no_comparison()) == compare_from(args, i as int, sofar@),
        decreases total - i,
    {
        let arg: &str = rest[i].as_str();
        assert(args[i as int] == arg@);
        if !knows_option(arg) {
            let mut message: String = "compare record: unknown argument ".to_owned();
            message.append(arg);
            return Err(Error::Usage(message));
        }
        if total - i < 2 {
            let mut message: String = arg.to_owned();
            message.append(" requires a value");
            return Err(Error::Usage(message));
        }
        assert(args[i + 1] == rest@[i + 1]@);
        match read_option(arg, &rest[i + 1], &mut sofar) {
            Ok(()) => {},
            Err(error) => {
                return Err(error);
            },
        }
        i = i + 2;
    }
    let authoritative_surface: String = match sofar.surface {
        Some(surface) => surface,
        None => {
            return Err(Error::Usage("compare record requires --surface NAME".to_owned()));
        },
    };
    let surface_ppm: QuotaFractionPpm = match sofar.surface_ppm {
        Some(ppm) => ppm,
        None => {
            return Err(Error::Usage("compare record requires --surface-percent N".to_owned()));
        },
    };
    let documented_granularity: QuotaFractionPpm = match sofar.granularity_ppm {
        Some(ppm) => ppm,
        None => match QuotaFractionPpm::new(DEFAULT_GRANULARITY_PPM) {
            Some(ppm) => ppm,
            None => surface_ppm,
        },
    };
    let read_at: UtcTimestamp = match sofar.read_at {
        Some(at) => at,
        None => now,
    };
    Ok(
        AdapterSemanticsComparisonRequest {
            observation_id,
            semantic_key: WindowSemanticKey::new(rest[2].as_str()),
            authoritative_surface,
            surface_quota_used: QuotaUsed::new(surface_ppm),
            documented_granularity,
            read_at,
            detail: sofar.detail,
        },
    )
}

/// How a reading agrees with the surface.
#[derive(Debug, Clone, PartialEq, Eq)]
pub struct ComparisonVerdict {
    pub label: String,
    pub unresolved_mismatch: bool,
}

/// A window of an observation: what the adapter read, and how that agrees with what the
/// surface showed.
#[derive(Debug, PartialEq, Eq)]
pub struct ObservedWindow {
    pub row_id: i64,
    pub semantic_key: WindowSemanticKey,
    pub quota_used: QuotaUsed,
    pub verdict: ComparisonVerdict,
}

/// A comparison recorded before.
#[derive(Debug, PartialEq, Eq)]
pub struct RecordedComparison {
    pub row_id: i64,
    pub window_id: i64,
    pub verdict: String,
}

/// A comparison as it goes into the ledger, with the text of the mismatch it opens.
#[derive(Debug, PartialEq, Eq)]
pub struct AdapterSemanticsComparisonOutcome {
    pub window_id: i64,
    pub verdict: String,
    pub adapter_quota_used: QuotaUsed,
    pub mismatch_detail: Option<String>,
}

/// The first window, from a position on, of a name; the number of windows where none is.
pub open spec fn window_named(windows: Seq<ObservedWindow>, name: Seq<char>, from: int) -> int
    decreases windows.len() - from,
{
    if from >= windows.len() || windows[from].semantic_key@ == name {
        from
    } else {
        window_named(windows, name, from + 1)
    }
}

/// The first comparison, from a position on, of a window; the number of comparisons
/// where none is.
pub open spec fn comparison_of(recorded: Seq<RecordedComparison>, window: i64, from: int) -> int
    decreases recorded.len() - from,
{
    if from >= recorded.len() || recorded[from].window_id == window {
        from
    } else {
        comparison_of(recorded, window, from + 1)
    }
}

/// What is recorded of a mismatch where nothing was said of it.
pub open spec fn mismatch_text(
    request: AdapterSemanticsComparisonRequest,
    adapter_ppm: int,
) -> Seq<char> {
    "recorded through `aub compare`: adapter read "@ + decimal(adapter_ppm as nat) + " ppm, "@
        + request.authoritative_surface@ + " read "@ + decimal(
        request.surface_quota_used@ as nat,
    ) + " ppm for window "@ + quoted(request.semantic_key@) + " of observation "@
        + signed_decimal(request.observation_id as int)
}

/// Why a comparison is not recorded: the observation has no such window, or the window
/// has a comparison already.
pub open spec fn recording_refused(
    request: AdapterSemanticsComparisonRequest,
    windows: Seq<ObservedWindow>,
    recorded: Seq<RecordedComparison>,
) -> Option<ErrorView> {
    let id = signed_decimal(request.observation_id as int);
    let at = window_named(windows, request.semantic_key@, 0);
    if at >= windows.len() {
        Some(
            ErrorView::Usage(
                "observation "@ + id + " has no window named "@ + quoted(request.semantic_key@)
                    + "; see `aub compare uncompared "@ + id + "`"@,
            ),
        )
    } else {
        let prior = comparison_of(recorded, windows[at].row_id, 0);
        if prior < recorded.len() {
            Some(
                ErrorView::Usage(
                    "observation "@ + id + " window "@ + quoted(request.semantic_key@)
                        + " already carries comparison #"@ + signed_decimal(
                        recorded[prior].row_id as int,
                    ) + " (verdict "@ + recorded[prior].verdict@
                        + "); a wrong comparison is corrected by recording another one, never by overwriting it"@,
                ),
            )
        } else {
            None
        }
    }
}

/// Records a comparison: the window and what the adapter read come from the ledger, the
/// verdict from them and the surface. A window that carries a comparison is refused; an
/// unresolved mismatch is annotated.
pub fn record_adapter_semantics_comparison(
    request: &AdapterSemanticsComparisonRequest,
    windows: &Vec<ObservedWindow>,
    recorded: &Vec<RecordedComparison>,
) -> (outcome: Result<AdapterSemanticsComparisonOutcome, Error>)
    ensures
        match outcome {
            Ok(o) => {
                let window = windows@[window_named(windows@, request.semantic_key@, 0)];
                &&& recording_refused(*request, windows@, recorded@) is None
                &&& o.window_id == window.row_id
                &&& o.verdict@ == window.verdict.label@
                &&& o.adapter_quota_used == window.quota_used
                &&& optional(o.mismatch_detail) == if !window.verdict.unresolved_mismatch {
                    None
                } else if request.detail is Some {
                    optional(request.detail)
                } else {
                    Some(mismatch_text(*request, window.quota_used@))
                }
            },
            Err(e) => recording_refused(*request, windows@, recorded@) == Some(e@),
        },
{
    let key: &str = request.semantic_key.as_str();
    let mut at: usize = 0;
    while at < windows.len() && !same_text(windows[at].semantic_key.as_str(), key)
        invariant
            at <= windows@.len(),
            key@ == request.semantic_key@,
            window_named(windows@, key@, 0) == window_named(windows@, key@, at as int),
        ensures
            at <= windows@.len(),
            window_named(windows@, key@, 0) == at,
        decreases windows@.len() - at,
    {
        at = at + 1;
    }
    let id: String = signed_decimal_text(request.observation_id);
    let mut message: String = "observation ".to_owned();
    message.append(id.as_str());
    if at == windows.len() {
        message.append(" has no window named ");
        message.append(quote(key).as_str());
        message.append("; see `aub compare uncompared ");
        message.append(id.as_str());
        message.append("`");
        return Err(Error::Usage(message));
    }
    let window: &ObservedWindow = &windows[at];
    let mut prior: usize = 0;
    while prior < recorded.len() && recorded[prior].window_id != window.row_id
        invariant
            prior <= recorded@.len(),
            comparison_of(recorded@, window.row_id, 0) == comparison_of(
                recorded@,
                window.row_id,
                prior as int,
            ),
        ensures
            prior <= recorded@.len(),
            comparison_of(recorded@, window.row_id, 0) == prior,
        decreases recorded@.len() - prior,
    {
        prior = prior + 1;
    }
    if prior < recorded.len() {
        message.append(" window ");
        message.append(quote(key).as_str());
        message.append(" already carries comparison #");
        message.append(signed_decimal_text(recorded[prior].row_id).as_str());
        message.append(" (verdict ");
        message.append(recorded[prior].verdict.as_str());
        message.append(
            "); a wrong comparison is corrected by recording another one, never by overwriting it",
        );
        return Err(Error::Usage(message));
    }
    let mismatch_detail: Option<String> = if !window.verdict.unresolved_mismatch {
        None
    } else {
        match &request.detail {
            Some(detail) => Some(detail.clone()),
            None => {
                let mut text: String = "recorded through `aub compare`: adapter read ".to_owned();
                text.append(decimal_text(window.quota_used.as_ppm().get() as u128).as_str());
                text.append(" ppm, ");
                text.append(request.authoritative_surface.as_str());
                text.append(" read ");
                text.append(
                    decimal_text(request.surface_quota_used.as_ppm().get() as u128).as_str(),
                );
                text.append(" ppm for window ");
                text.append(quote(key).as_str());
                text.append(" of observation ");
                text.append(id.as_str());
                Some(text)
            },
        }
    };
    Ok(
        AdapterSemanticsComparisonOutcome {
            window_id: window.row_id,
            verdict: window.verdict.label.clone(),
            adapter_quota_used: window.quota_used,
            mismatch_detail,
        },
    )
}

/// The line that reports a recorded comparison.
pub fn comparison_line(
    request: &AdapterSemanticsComparisonRequest,
    outcome: &AdapterSemanticsComparisonOutcome,
    comparison_id: i64,
) -> (line: String)
    ensures
        line@ == "compare: recorded observation="@ + signed_decimal(request.observation_id as int)
            + " window="@ + request.semantic_key@ + " comparison=#"@ + signed_decimal(
            comparison_id as int,
        ) + " adapter_used_ppm="@ + decimal(outcome.adapter_quota_used@ as nat)
            + " surface_used_ppm="@ + decimal(request.surface_quota_used@ as nat) + " verdict="@
            + outcome.verdict@,
{
    let mut line: String = "compare: recorded observation=".to_owned();
    line.append(signed_decimal_text(request.observation_id).as_str());
    line.append(" window=");
    line.append(request.semantic_key.as_str());
    line.append(" comparison=#");
    line.append(signed_decimal_text(comparison_id).as_str());
    line.append(" adapter_used_ppm=");
    line.append(decimal_text(outcome.adapter_quota_used.as_ppm().get() as u128).as_str());
    line.append(" surface_used_ppm=");
    line.append(decimal_text(request.surface_quota_used.as_ppm().get() as u128).as_str());
    line.append(" verdict=");
    line.append(outcome.verdict.as_str());
    line
}

/// The line that reports the annotation of a mismatch.
pub fn mismatch_line(annotation_id: i64) -> (line: String)
    ensures
        line@ == "compare: unresolved mismatch opened as finding annotation=#"@ + signed_decimal(
            annotation_id as int,
        ),
{
    let mut line: String = "compare: unresolved mismatch opened as finding annotation=#".to_owned();
    line.append(signed_decimal_text(annotation_id).as_str());
    line
}

/// Reads the observation whose windows without a comparison are listed.
pub fn compare_uncompared_options(rest: &Vec<String>) -> (observation: Result<i64, Error>)
    ensures
        ({
            let args = texts(rest@);
            match observation {
                Ok(id) => args.len() == 2 && signed_value(args[1]) == Some(id as int),
                Err(e) => if args.len() < 2 {
                    e@ == ErrorView::Usage("compare uncompared requires OBSERVATION_ID"@)
                } else if args.len() > 2 {
                    e@ == unknown(args[2])
                } else {
                    &&& signed_value(args[1]) matches Some(id) ==> !(i64::MIN <= id <= i64::MAX)
                    &&& e@ == ErrorView::Usage(
                        "compare uncompared: OBSERVATION_ID must be an integer, got "@ + quoted(
                            args[1],
                        ),
                    )
                },
            }
        }),
{
    if rest.len() < 2 {
        return Err(Error::Usage("compare uncompared requires OBSERVATION_ID".to_owned()));
    }
    if rest.len() > 2 {
        return Err(unknown_argument(rest[2].as_str()));
    }
    match parse_i64(rest[1].as_str()) {
        Some(id) => Ok(id),
        None => {
            let mut message: String =
                "compare uncompared: OBSERVATION_ID must be an integer, got ".to_owned();
            message.append(quote(rest[1].as_str()).as_str());
            Err(Error::Usage(message))
        },
    }
}

/// The lines for the first `n` windows that have no comparison.
pub open spec fn uncompared_lines(
    observation: i64,
    windows: Seq<ObservedWindow>,
    uncompared: Seq<i64>,
    n: int,
) -> Seq<Seq<char>>
    decreases n,
{
    if n <= 0 {
        Seq::empty()
    } else {
        let before = uncompared_lines(observation, windows, uncompared, n - 1);
        if uncompared.contains(windows[n - 1].row_id) {
            before.push(
                "compare: observation="@ + signed_decimal(observation as int)
                    + " uncompared window="@ + windows[n - 1].semantic_key@,
            )
        } else {
            before
        }
    }
}

fn holds_id(ids: &Vec<i64>, id: i64) -> (held: bool)
    ensures
        held == ids@.contains(id),
{
    let mut i: usize = 0;
    while i < ids.len()
        invariant
            i <= ids@.len(),
            forall|k: int| 0 <= k < i ==> ids@[k] != id,
        decreases ids@.len() - i,
    {
        if ids[i] == id {
            assert(ids@[i as int] == id);
            return true;
        }
        i = i + 1;
    }
    false
}

/// The lines that list the windows of an observation without a comparison, by name.
pub fn render_uncompared(
    observation: i64,
    windows: &Vec<ObservedWindow>,
    uncompared: &Vec<i64>,
) -> (lines: Vec<String>)
    ensures
        ({
            let found = uncompared_lines(observation, windows@, uncompared@, windows@.len() as int);
            texts(lines@) == if found.len() == 0 {
                seq![
                    "compare: observation "@ + signed_decimal(observation as int)
                        + " has no uncompared windows"@,
                ]
            } else {
                found
            }
        }),
{
    let mut lines: Vec<String> = Vec::new();
    let mut i: usize = 0;
    assert(texts(lines@) =~= Seq::<Seq<char>>::empty());
    while i < windows.len()
        invariant
            i <= windows@.len(),
            texts(lines@) == uncompared_lines(observation, windows@, uncompared@, i as int),
        decreases windows@.len() - i,
    {
        if holds_id(uncompared, windows[i].row_id) {
            let mut line: String = "compare: observation=".to_owned();
            line.append(signed_decimal_text(observation).as_str());
            line.append(" uncompared window=");
            line.append(windows[i].semantic_key.as_str());
            let ghost before = lines@;
            lines.push(line);
            assert(texts(lines@) =~= texts(before).push(line@));
        }
        i = i + 1;
    }
    assert(texts(lines@).len() == lines@.len());
    if lines.len() == 0 {
        let mut line: String = "compare: observation ".to_owned();
        line.append(signed_decimal_text(observation).as_str());
        line.append(" has no uncompared windows");
        lines.push(line);
        assert(texts(lines@) =~= seq![line@]);
    }
    lines
}

/// A window with a comparison is never compared again.
pub proof fn law_comparisons_are_not_overwritten(
    request: AdapterSemanticsComparisonRequest,
    windows: Seq<ObservedWindow>,
    recorded: Seq<RecordedComparison>,
    prior: int,
)
    requires
        0 <= prior < recorded.len(),
        window_named(windows, request.semantic_key@, 0) < windows.len(),
        recorded[prior].window_id == windows[window_named(
            windows,
            request.semantic_key@,
            0,
        )].row_id,
    ensures
        recording_refused(request, windows, recorded) is Some,
{
    lemma_comparison_found(
        recorded,
        windows[window_named(windows, request.semantic_key@, 0)].row_id,
        0,
        prior,
    );
}

proof fn lemma_comparison_found(recorded: Seq<RecordedComparison>, window: i64, from: int, at: int)
    requires
        0 <= from <= at < recorded.len(),
        recorded[at].window_id == window,
    ensures
        comparison_of(recorded, window, from) <= at,
    decreases at - from,
{
    if recorded[from].window_id != window {
        lemma_comparison_found(recorded, window, from + 1, at);
    }
}

proof fn lemma_not_split(s: Seq<char>, c: char)
    requires
        !s.contains(c),
    ensures
        split_around(s, c) is None,
{
    law_text_is_split_at_the_first(s, c);
}

proof fn lemma_digits_hold_no_other(s: Seq<char>, c: char)
    requires
        all_digits(s),
        !(48 <= c as int <= 57),
    ensures
        !s.contains(c),
{
    if s.contains(c) {
        let i = choose|i: int| 0 <= i < s.len() && s[i] == c;
        assert(48 <= s[i] as int <= 57);
    }
}

/// Digits, alone or with a point among them, are read as that figure.
proof fn lemma_plain_figure(whole: Seq<char>, part: Seq<char>)
    requires
        all_digits(whole),
        all_digits(part),
        whole.len() > 0,
    ensures
        figure(whole) == Some(Figure { negative: false, digits: whole, places: 0 }),
        figure(whole + seq!['.'] + part) == Some(
            Figure { negative: false, digits: whole + part, places: part.len() as int },
        ),
        without_percent(whole) == whole,
        without_percent(whole + seq!['.'] + part) == whole + seq!['.'] + part,
{
    lemma_digits_hold_no_other(whole, 'e');
    lemma_digits_hold_no_other(whole, 'E');
    lemma_digits_hold_no_other(whole, '.');
    lemma_digits_hold_no_other(part, 'e');
    lemma_digits_hold_no_other(part, 'E');
    lemma_not_split(whole, 'e');
    lemma_not_split(whole, 'E');
    lemma_not_split(whole, '.');
    let s = whole + seq!['.'] + part;
    assert(48 <= whole[0] as int <= 57);
    assert(s[0] == whole[0]);
    assert forall|c: char| c == 'e' || c == 'E' implies !#[trigger] s.contains(c) by {
        if s.contains(c) {
            let i = choose|i: int| 0 <= i < s.len() && s[i] == c;
            if i < whole.len() {
                assert(whole[i] == c);
            } else if i > whole.len() {
                assert(part[i - whole.len() - 1] == c);
            }
        }
    }
    lemma_not_split(s, 'e');
    lemma_not_split(s, 'E');
    law_text_is_split_at_the_first(s, '.');
    assert(s[whole.len() as int] == '.');
    let (left, right) = split_around(s, '.')->0;
    assert(left.len() == whole.len()) by {
        if left.len() < whole.len() {
            assert((left + seq!['.'] + right)[left.len() as int] == '.');
            assert(whole[left.len() as int] == '.');
        }
        if left.len() > whole.len() {
            assert(left[whole.len() as int] == (left + seq!['.'] + right)[whole.len() as int]);
            assert(left.contains('.'));
        }
    }
    assert(left =~= s.take(whole.len() as int));
    assert(left =~= whole);
    assert(right =~= s.skip(whole.len() as int + 1));
    assert(right =~= part);
    assert(whole + Seq::<char>::empty() =~= whole);
    assert forall|i: int| 0 <= i < (whole + part).len() implies 48 <= (
    #[trigger] (whole + part)[i]) as int <= 57 by {
        if i < whole.len() {
            assert((whole + part)[i] == whole[i]);
        } else {
            assert((whole + part)[i] == part[i - whole.len()]);
        }
    }
    assert(48 <= whole[whole.len() - 1] as int <= 57);
    if part.len() > 0 {
        assert(s.last() == part[part.len() - 1]);
        assert(48 <= part[part.len() - 1] as int <= 57);
    } else {
        assert(s.last() == '.');
    }
}

/// Digits without a scale, or with places behind the point, count as they stand.
proof fn lemma_whole_amount(figure: Figure)
    requires
        figure.places >= 0,
    ensures
        amount(figure) == digits_value(figure.digits),
{
    let scale = power_of_ten(above(-figure.places));
    assert(scale == 1);
    assert(digits_value(figure.digits) * scale == digits_value(figure.digits))
        by (nonlinear_arith)
        requires
            scale == 1,
    ;
}

/// Whole percentages are read as ten thousand parts per million each, with or without a
/// percent sign, up to a hundred and no further.
pub proof fn law_whole_percentages_read_back(flag: Seq<char>, n: nat)
    ensures
        n <= 100 ==> percent_asked(flag, decimal(n)) == Ok::<int, ErrorView>(10_000 * n as int),
        n <= 100 ==> percent_asked(flag, decimal(n).push('%')) == Ok::<int, ErrorView>(
            10_000 * n as int,
        ),
        n > 100 ==> percent_asked(flag, decimal(n)) is Err,
{
    lemma_decimal_digits(n);
    lemma_plain_figure(decimal(n), Seq::empty());
    let typed = decimal(n);
    let signed = typed.push('%');
    assert(signed.drop_last() =~= typed);
    assert(without_percent(signed) == without_percent(typed));
    let f = Figure { negative: false, digits: typed, places: 0 };
    lemma_whole_amount(f);
    assert(power_of_ten(0) == 1);
    assert(unit(f) == 1);
    assert(percent_ppm(f) == 10_000 * n);
}

/// Two digits behind the point are read as hundredths of a percent, a hundred parts per
/// million each.
pub proof fn law_hundredths_of_a_percent_read_back(flag: Seq<char>, n: nat, hundredths: nat)
    requires
        hundredths < 100,
        100 * n + hundredths <= 10_000,
    ensures
        percent_asked(
            flag,
            decimal(n) + seq!['.'] + seq![
                (48 + hundredths / 10) as char,
                (48 + hundredths % 10) as char,
            ],
        ) == Ok::<int, ErrorView>((10_000 * n + 100 * hundredths) as int),
{
    let part = seq![(48 + hundredths / 10) as char, (48 + hundredths % 10) as char];
    lemma_decimal_digits(n);
    assert(all_digits(part));
    lemma_plain_figure(decimal(n), part);
    let f = Figure { negative: false, digits: decimal(n) + part, places: 2 };
    let whole = decimal(n) + part;
    assert(whole.drop_last() =~= decimal(n).push(part[0]));
    assert(whole.drop_last().drop_last() =~= decimal(n));
    assert(digits_value(whole) == digits_value(whole.drop_last()) * 10 + hundredths % 10);
    assert(digits_value(whole.drop_last()) == digits_value(decimal(n)) * 10 + hundredths / 10);
    assert(digits_value(whole) == 100 * n + hundredths);
    reveal_with_fuel(power_of_ten, 3);
    assert(power_of_ten(0) == 1 && power_of_ten(2) == 100);
    lemma_whole_amount(f);
    assert(unit(f) == 100);
    let count = (100 * n + hundredths) as int;
    assert(amount(f) == count);
    assert(is_percentage(f));
    assert((20_000 * count + 100) / 200 == 100 * count);
    assert(percent_ppm(f) == 100 * count);
    let typed = decimal(n) + seq!['.'] + part;
    assert(without_percent(typed) == typed);
    assert(figure(typed) == Some(f));
}

/// What a figure is worth in parts per million is the nearest whole number to it.
pub proof fn law_percentages_are_rounded_to_the_nearest(figure: Figure)
    requires
        unit(figure) > 0,
    ensures
        2 * (unit(figure) * percent_ppm(figure)) <= 20_000 * amount(figure) + unit(figure),
        20_000 * amount(figure) < 2 * (unit(figure) * percent_ppm(figure)) + unit(figure),
{
    let all = (20_000 * amount(figure) + unit(figure)) as int;
    let two = (2 * unit(figure)) as int;
    vstd::arithmetic::div_mod::lemma_fundamental_div_mod(all, two);
    let ppm = all / two;
    assert(two * ppm == 2 * (unit(figure) * ppm)) by (nonlinear_arith)
        requires
            two == 2 * unit(figure),
    ;
}

/// Each option of a comparison sets what it names, and nothing else.
pub proof fn law_comparison_options_set_what_they_name(value: Seq<char>, sofar: CompareView)
    ensures
        compare_option("--surface"@, value, sofar) == Ok::<CompareView, ErrorView>(
            CompareView { surface: Some(value), ..sofar },
        ),
        compare_option("--detail"@, value, sofar) == Ok::<CompareView, ErrorView>(
            CompareView { detail: Some(value), ..sofar },
        ),
        percent_asked("--surface-percent"@, value) matches Ok(ppm) ==> compare_option(
            "--surface-percent"@,
            value,
            sofar,
        ) == Ok::<CompareView, ErrorView>(CompareView { surface_ppm: Some(ppm), ..sofar }),
        percent_asked("--granularity-percent"@, value) matches Ok(ppm) ==> compare_option(
            "--granularity-percent"@,
            value,
            sofar,
        ) == Ok::<CompareView, ErrorView>(CompareView { granularity_ppm: Some(ppm), ..sofar }),
        moment_written(value) matches Some(at) ==> compare_option("--read-at"@, value, sofar)
            == Ok::<CompareView, ErrorView>(CompareView { read_at: Some(at), ..sofar }),
{
    reveal_strlit("--surface");
    reveal_strlit("--surface-percent");
    reveal_strlit("--granularity-percent");
    reveal_strlit("--read-at");
    reveal_strlit("--detail");
    assert("--surface"@.len() == 9 && "--surface"@[2] == 's');
    assert("--surface-percent"@.len() == 17);
    assert("--granularity-percent"@.len() == 21);
    assert("--read-at"@.len() == 9 && "--read-at"@[2] == 'r');
    assert("--detail"@.len() == 8);
}

/// Without options that say otherwise, a comparison is read now and documented to one
/// percent; the window and the observation are those that are named.
pub proof fn law_comparisons_default_to_now_and_one_percent(
    id: i64,
    window: Seq<char>,
    surface: Seq<char>,
    n: nat,
    now: UtcTimestamp,
    request: AdapterSemanticsComparisonRequest,
)
    requires
        n <= 100,
        comparison_asked(
            seq![
                "record"@,
                signed_decimal(id as int),
                window,
                "--surface"@,
                surface,
                "--surface-percent"@,
                decimal(n),
            ],
            now,
            request,
        ),
    ensures
        request.observation_id == id,
        request.semantic_key@ == window,
        request.authoritative_surface@ == surface,
        request.surface_quota_used@ == 10_000 * n,
        request.documented_granularity@ == 10_000,
        request.read_at.nanos == now.nanos,
        request.detail is None,
{
    law_signed_numbers_read_back(id as int);
    law_whole_percentages_read_back("--surface-percent"@, n);
    law_comparison_options_set_what_they_name(surface, no_comparison());
    law_comparison_options_set_what_they_name(
        decimal(n),
        CompareView { surface: Some(surface), ..no_comparison() },
    );
    reveal_with_fuel(compare_from, 4);
}

/// The window that is meant is the first of that name, and the comparison that stands in
/// the way the first recorded for it.
pub proof fn law_the_first_window_of_a_name_is_meant(
    windows: Seq<ObservedWindow>,
    name: Seq<char>,
    recorded: Seq<RecordedComparison>,
    id: i64,
    from: int,
)
    requires
        0 <= from <= windows.len(),
        from <= recorded.len(),
    ensures
        from <= window_named(windows, name, from) <= windows.len(),
        window_named(windows, name, from) < windows.len() ==> windows[window_named(
            windows,
            name,
            from,
        )].semantic_key@ == name,
        forall|i: int|
            from <= i < window_named(windows, name, from) ==> (
            #[trigger] windows[i]).semantic_key@ != name,
        from <= comparison_of(recorded, id, from) <= recorded.len(),
        comparison_of(recorded, id, from) < recorded.len() ==> recorded[comparison_of(
            recorded,
            id,
            from,
        )].window_id == id,
        forall|i: int|
            from <= i < comparison_of(recorded, id, from) ==> (#[trigger] recorded[i]).window_id
                != id,
{
    lemma_window_named(windows, name, from);
    lemma_comparison_of(recorded, id, from);
}

proof fn lemma_window_named(windows: Seq<ObservedWindow>, name: Seq<char>, from: int)
    requires
        0 <= from <= windows.len(),
    ensures
        from <= window_named(windows, name, from) <= windows.len(),
        window_named(windows, name, from) < windows.len() ==> windows[window_named(
            windows,
            name,
            from,
        )].semantic_key@ == name,
        forall|i: int|
            from <= i < window_named(windows, name, from) ==> (
            #[trigger] windows[i]).semantic_key@ != name,
    decreases windows.len() - from,
{
    if from < windows.len() && windows[from].semantic_key@ != name {
        lemma_window_named(windows, name, from + 1);
    }
}

proof fn lemma_comparison_of(recorded: Seq<RecordedComparison>, id: i64, from: int)
    requires
        0 <= from <= recorded.len(),
    ensures
        from <= comparison_of(recorded, id, from) <= recorded.len(),
        comparison_of(recorded, id, from) < recorded.len() ==> recorded[comparison_of(
            recorded,
            id,
            from,
        )].window_id == id,
        forall|i: int|
            from <= i < comparison_of(recorded, id, from) ==> (#[trigger] recorded[i]).window_id
                != id,
    decreases recorded.len() - from,
{
    if from < recorded.len() && recorded[from].window_id != id {
        lemma_comparison_of(recorded, id, from + 1);
    }
}

/// Windows are listed as uncompared exactly where they are among those, in their order.
pub proof fn law_uncompared_windows_are_listed(
    observation: i64,
    windows: Seq<ObservedWindow>,
    uncompared: Seq<i64>,
    n: int,
)
    requires
        0 <= n < windows.len(),
    ensures
        uncompared_lines(observation, windows, uncompared, 0).len() == 0,
        uncompared_lines(observation, windows, uncompared, n + 1) == if uncompared.contains(
            windows[n].row_id,
        ) {
            uncompared_lines(observation, windows, uncompared, n).push(
                "compare: observation="@ + signed_decimal(observation as int)
                    + " uncompared window="@ + windows[n].semantic_key@,
            )
        } else {
            uncompared_lines(observation, windows, uncompared, n)
        },
{
}

/// A comparison is recorded where its observation, its window, its surface and what the
/// surface shows are named, in either order of the two options; it is refused where one
/// of these is missing, or the observation is no number.
pub proof fn law_comparisons_need_what_they_compare(
    id: i64,
    window: Seq<char>,
    surface: Seq<char>,
    n: nat,
)
    requires
        n <= 100,
    ensures
        ({
            let first = seq!["record"@, signed_decimal(id as int), window];
            let named = seq!["--surface"@, surface];
            let shown = seq!["--surface-percent"@, decimal(n)];
            &&& comparison_refused(first + named + shown) is None
            &&& comparison_refused(first + shown + named) is None
            &&& comparison_refused(first) is Some
            &&& comparison_refused(first + named) is Some
            &&& comparison_refused(first + shown) is Some
            &&& comparison_refused(seq!["record"@, signed_decimal(id as int)]) is Some
        }),
        forall|args: Seq<Seq<char>>|
            args.len() >= 3 && signed_value(args[1]) is None ==> (
            #[trigger] comparison_refused(args)) is Some,
{
    let first = seq!["record"@, signed_decimal(id as int), window];
    let named = seq!["--surface"@, surface];
    let shown = seq!["--surface-percent"@, decimal(n)];
    let (both, turned) = (first + named + shown, first + shown + named);
    assert(both[1] == first[1] && turned[1] == first[1]);
    assert((first + named)[1] == first[1] && (first + shown)[1] == first[1]);
    assert(both[3] == named[0] && both[4] == named[1] && both[5] == shown[0] && both[6]
        == shown[1]);
    assert(turned[3] == shown[0] && turned[4] == shown[1] && turned[5] == named[0] && turned[6]
        == named[1]);
    assert((first + named)[3] == named[0] && (first + named)[4] == named[1]);
    assert((first + shown)[3] == shown[0] && (first + shown)[4] == shown[1]);
    law_signed_numbers_read_back(id as int);
    law_whole_percentages_read_back("--surface-percent"@, n);
    law_comparison_options_set_what_they_name(surface, no_comparison());
    law_comparison_options_set_what_they_name(decimal(n), no_comparison());
    law_comparison_options_set_what_they_name(
        decimal(n),
        CompareView { surface: Some(surface), ..no_comparison() },
    );
    law_comparison_options_set_what_they_name(
        surface,
        CompareView { surface_ppm: Some(10_000 * n as int), ..no_comparison() },
    );
    reveal_with_fuel(compare_from, 4);
}

proof fn lemma_split_here(left: Seq<char>, c: char, right: Seq<char>)
    requires
        !left.contains(c),
    ensures
        split_around(left + seq![c] + right, c) == Some((left, right)),
{
    let s = left + seq![c] + right;
    law_text_is_split_at_the_first(s, c);
    assert(s[left.len() as int] == c);
    let (l, r) = split_around(s, c)->0;
    let again = l + seq![c] + r;
    assert(again == s);
    if l.len() < left.len() {
        assert(again[l.len() as int] == c);
        assert(left[l.len() as int] == c);
    }
    if l.len() > left.len() {
        assert(l[left.len() as int] == again[left.len() as int]);
    }
    assert(l =~= s.take(left.len() as int));
    assert(left =~= s.take(left.len() as int));
    assert(r =~= s.skip(left.len() as int + 1));
    assert(right =~= s.skip(left.len() as int + 1));
}

/// A sign before a number says whether it is negative and changes nothing else; an
/// exponent behind it moves the point by as many places, to the right where it is
/// positive.
pub proof fn law_signs_and_exponents_are_read(typed: Seq<char>, letter: char, k: int)
    requires
        figure(typed) is Some,
        !typed.contains('e'),
        !typed.contains('E'),
        letter == 'e' || letter == 'E',
    ensures
        typed[0] != '-' && typed[0] != '+' ==> {
            &&& figure(seq!['-'] + typed) == Some(Figure { negative: true, ..figure(typed)->0 })
            &&& figure(seq!['+'] + typed) == Some(Figure { negative: false, ..figure(typed)->0 })
            &&& !figure(typed)->0.negative
        },
        figure(typed + seq![letter] + signed_decimal(k)) == Some(
            Figure { places: figure(typed)->0.places - k, ..figure(typed)->0 },
        ),
{
    let body = unsigned(typed);
    assert(typed.len() > 0) by {
        if typed.len() == 0 {
            law_text_is_split_at_the_first(typed, 'e');
            law_text_is_split_at_the_first(typed, 'E');
            law_text_is_split_at_the_first(typed, '.');
            assert(typed + Seq::<char>::empty() =~= typed);
        }
    }
    assert((seq!['-'] + typed).skip(1) =~= typed);
    assert((seq!['+'] + typed).skip(1) =~= typed);
    assert forall|c: char| c == 'e' || c == 'E' implies !#[trigger] body.contains(c) by {
        if body.contains(c) {
            let i = choose|i: int| 0 <= i < body.len() && body[i] == c;
            assert(typed[i + (typed.len() - body.len())] == c);
        }
    }
    lemma_not_split(body, 'e');
    lemma_not_split(body, 'E');
    let number = signed_decimal(k);
    reveal_strlit("-");
    lemma_decimal_digits(if k < 0 {
        (-k) as nat
    } else {
        k as nat
    });
    if k < 0 {
        assert(number.skip(1) =~= decimal((-k) as nat));
        assert(number[0] == '-');
    }
    assert(exponent(number) == Some(k));
    let longer = typed + seq![letter] + number;
    assert(longer[0] == typed[0]);
    assert(unsigned(longer) =~= body + seq![letter] + number);
    lemma_split_here(body, letter, number);
    if letter == 'E' {
        let all = body + seq![letter] + number;
        assert(!all.contains('e')) by {
            if all.contains('e') {
                let i = choose|i: int| 0 <= i < all.len() && all[i] == 'e';
                if i < body.len() {
                    assert(body[i] == 'e');
                } else if i > body.len() {
                    assert(number[i - body.len() - 1] == 'e');
                    let digits = if k < 0 {
                        decimal((-k) as nat)
                    } else {
                        decimal(k as nat)
                    };
                    let d = i - body.len() - 1 - (number.len() - digits.len());
                    assert(d >= 0 ==> digits[d] == 'e');
                }
            }
        }
        lemma_not_split(all, 'e');
    }
}

/// Percent signs at the end of a percentage change nothing.
pub proof fn law_percent_signs_change_nothing(flag: Seq<char>, raw: Seq<char>)
    ensures
        percent_asked(flag, raw.push('%')) is Ok <==> percent_asked(flag, raw) is Ok,
        percent_asked(flag, raw) matches Ok(ppm) ==> percent_asked(flag, raw.push('%')) == Ok::<
            int,
            ErrorView,
        >(ppm),
{
    assert(raw.push('%').drop_last() =~= raw);
}

} // verus!
