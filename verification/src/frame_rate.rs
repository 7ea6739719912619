//! The frame rate that the user asks for, and what it means in intervals.

use crate::clock::Duration;
use crate::text;
use vstd::prelude::*;

verus! {

/// The highest frame rate that is asked for.
pub const MAX_FRAME_RATE: u64 = 240;

/// The number of frames per second that a text names, at most the highest one;
/// 0 for a text that is no number up to `max`.
pub open spec fn rate_of(value: Seq<char>, max: nat) -> nat {
    match text::parsed_unsigned(text::trimmed(value), max) {
        Some(rate) => if rate > MAX_FRAME_RATE {
            MAX_FRAME_RATE as nat
        } else {
            rate
        },
        None => 0,
    }
}

fn parse_rate(value: &str, max: u64) -> (rate: u64)
    ensures
        rate == rate_of(value@, max as nat),
        rate <= MAX_FRAME_RATE,
{
    let value = text::trim(value);
    match text::parse_unsigned(value.as_str(), max) {
        Some(rate) => if rate > MAX_FRAME_RATE {
            MAX_FRAME_RATE
        } else {
            rate
        },
        None => 0,
    }
}

/// The whole milliseconds between two frames, at least one; 0 for no rate.
pub open spec fn interval_of(rate: nat) -> nat {
    if rate == 0 {
        0
    } else if 1000nat / rate < 1 {
        1
    } else {
        1000nat / rate
    }
}

/// The milliseconds between two frames at a rate.
pub fn frame_interval_from_rate(value: &str) -> (interval: u64)
    ensures
        interval == interval_of(rate_of(value@, u64::MAX as nat)),
{
    let rate: u64 = parse_rate(value, u64::MAX);
    if rate == 0 {
        return 0;
    }
    let interval: u64 = 1000 / rate;
    if interval < 1 {
        1
    } else {
        interval
    }
}

/// The nanoseconds between two frames, rounded to the nearest one; 0 for no rate.
pub open spec fn frame_nanos(rate: nat) -> nat {
    if rate == 0 {
        0
    } else {
        (2_000_000_000 + rate) / (2 * rate)
    }
}

/// The time between two frames at a rate.
pub fn frame_duration_from_rate(value: &str) -> (duration: Duration)
    ensures
        duration@ == frame_nanos(rate_of(value@, u16::MAX as nat)),
{
    let rate: u64 = parse_rate(value, 65535);
    if rate == 0 {
        return Duration::zero();
    }
    Duration::from_nanos((2_000_000_000 + rate) / (2 * rate))
}

/// The rate that an interval in milliseconds stands for, rounded to the nearest
/// whole one between 1 and the highest; nothing for no interval.
pub open spec fn rate_text(interval: nat) -> Seq<char> {
    if interval == 0 {
        Seq::empty()
    } else {
        let rate = (2000 + interval) / (2 * interval);
        text::decimal(
            if rate < 1 {
                1
            } else if rate > MAX_FRAME_RATE {
                MAX_FRAME_RATE as nat
            } else {
                rate
            },
        )
    }
}

/// The rate that an interval in milliseconds stands for.
pub fn frame_rate_from_interval(value: &str) -> (rate: String)
    ensures
        rate@ == rate_text(
            match text::parsed_unsigned(text::trimmed(value@), u64::MAX as nat) {
                Some(interval) => interval,
                None => 0,
            },
        ),
{
    let value = text::trim(value);
    let interval: u64 = match text::parse_unsigned(value.as_str(), u64::MAX) {
        Some(interval) => interval,
        None => 0,
    };
    if interval == 0 {
        return String::new();
    }
    let wide: u128 = interval as u128;
    let rate: u128 = (2000 + wide) / (2 * wide);
    assert(rate <= 1001) by (nonlinear_arith)
        requires
            wide >= 1,
            rate == (2000 + wide) / (2 * wide),
    ;
    if rate < 1 {
        text::decimal_of(1)
    } else if rate > 240 {
        text::decimal_of(240)
    } else {
        text::decimal_of(rate as u64)
    }
}

/// The rate that is kept of what was typed: its first three digits as a number,
/// at most the highest rate; nothing for 0.
pub open spec fn typed_rate(value: Seq<char>) -> Seq<char> {
    let digits = text::at_most(text::only_digits(value), 3);
    match text::parsed_unsigned(digits, u16::MAX as nat) {
        Some(rate) => if rate == 0 {
            Seq::empty()
        } else if rate > MAX_FRAME_RATE {
            text::decimal(MAX_FRAME_RATE as nat)
        } else {
            text::decimal(rate)
        },
        None => digits,
    }
}

/// The rate that is kept of what was typed.
pub fn rate_from_input(value: &str) -> (rate: String)
    ensures
        rate@ == typed_rate(value@),
{
    let digits = text::leading_digits(value, 3);
    match text::parse_unsigned(digits.as_str(), 65535) {
        Some(rate) => if rate == 0 {
            String::new()
        } else if rate > MAX_FRAME_RATE {
            text::decimal_of(MAX_FRAME_RATE)
        } else {
            text::decimal_of(rate)
        },
        None => digits,
    }
}

/// Every rate in question has an interval of at least four milliseconds, and
/// frames never come faster than the highest rate allows.
pub proof fn law_intervals_are_bounded(rate: nat)
    requires
        1 <= rate <= MAX_FRAME_RATE,
    ensures
        4 <= interval_of(rate) <= 1000,
        4_166_667 <= frame_nanos(rate) <= 1_000_000_000,
        interval_of(rate) * 1_000_000 <= frame_nanos(rate) + 1,
{
    assert(1000nat / rate >= 4 && 1000nat / rate <= 1000) by (nonlinear_arith)
        requires
            1 <= rate <= 240,
    ;
    let nanos = (2_000_000_000 + rate) / (2 * rate);
    assert(4_166_667 <= nanos <= 1_000_000_000) by (nonlinear_arith)
        requires
            1 <= rate <= 240,
            nanos == (2_000_000_000 + rate) / (2 * rate),
    ;
    let interval = 1000nat / rate;
    assert(interval * 1_000_000 <= nanos + 1) by (nonlinear_arith)
        requires
            1 <= rate <= 240,
            interval == 1000nat / rate,
            nanos == (2_000_000_000 + rate) / (2 * rate),
    ;
}

/// A text without a rate survives the interval that is kept of it: it stands for no
/// interval, and no interval stands for it.
pub proof fn lemma_no_rate_is_kept()
    ensures
        interval_of(rate_of(Seq::empty(), u64::MAX as nat)) == 0,
        text::parsed_unsigned(text::trimmed(text::decimal(0)), u64::MAX as nat) == Some(0nat),
        rate_text(0) == Seq::<char>::empty(),
{
    text::lemma_decimal_digits(0);
    text::lemma_decimal_parses(0, u64::MAX as nat);
    assert(text::trimmed(text::decimal(0)) == text::decimal(0));
}

/// What was kept of a typed rate is kept when it is typed again.
pub proof fn law_kept_rate_is_stable(rate: nat)
    requires
        1 <= rate <= MAX_FRAME_RATE,
    ensures
        typed_rate(text::decimal(rate)) == text::decimal(rate),
        rate_of(text::decimal(rate), u64::MAX as nat) == rate,
{
    text::lemma_decimal_digits(rate);
    text::lemma_decimal_parses(rate, u16::MAX as nat);
    text::lemma_decimal_parses(rate, u64::MAX as nat);
    let s = text::decimal(rate);
    assert(s.len() <= 3) by {
        reveal_with_fuel(text::decimal, 4);
    }
    lemma_all_digits(s);
    assert(text::trimmed(s) == s);
}

proof fn lemma_all_digits(s: Seq<char>)
    requires
        forall|i: int| 0 <= i < s.len() ==> text::is_digit(#[trigger] s[i]),
    ensures
        text::only_digits(s) == s,
    decreases s.len(),
{
    reveal(Seq::filter);
    if s.len() > 0 {
        lemma_all_digits(s.drop_last());
        assert(text::is_digit(s.last()));
        assert(s =~= s.drop_last().push(s.last()));
    }
}

/// A text names the number that it writes, at most 240 frames per second, whatever
/// white space stands around it; a number beyond what is asked for names no rate.
pub proof fn law_rates_name_numbers(number: nat, max: nat)
    ensures
        rate_of(text::decimal(number), max) == if number > max {
            0
        } else if number > 240 {
            240
        } else {
            number
        },
        rate_of(Seq::empty(), max) == 0,
{
    text::law_decimal_has_no_leading_zero(number);
    text::lemma_decimal_digits(number);
    let s = text::decimal(number);
    assert(text::trimmed(s) == s);
    if number <= max {
        text::lemma_decimal_parses(number, max);
    } else {
        text::law_numbers_are_read_in_decimal(s, '0', max);
    }
    assert(text::trimmed(Seq::<char>::empty()) =~= Seq::<char>::empty());
}

/// The frames of a rate share the second: their distance times the rate is a second,
/// to the nearest nanosecond for each, and in whole milliseconds no more than it.
pub proof fn law_frames_share_the_second(rate: nat)
    requires
        1 <= rate <= 240,
    ensures
        -(rate as int) <= 2 * (frame_nanos(rate) * rate - 1_000_000_000) <= rate,
        interval_of(rate) * rate <= 1000,
        (interval_of(rate) + 1) * rate > 1000,
        frame_nanos(0) == 0,
        interval_of(0) == 0,
{
    law_intervals_are_bounded(rate);
    let r = rate as int;
    let nanos = (2_000_000_000 + r) / (2 * r);
    vstd::arithmetic::div_mod::lemma_fundamental_div_mod(2_000_000_000 + r, 2 * r);
    vstd::arithmetic::div_mod::lemma_mod_bound(2_000_000_000 + r, 2 * r);
    assert(2 * r * nanos == 2 * (nanos * r)) by (nonlinear_arith);
    let interval = 1000int / r;
    vstd::arithmetic::div_mod::lemma_fundamental_div_mod(1000, r);
    vstd::arithmetic::div_mod::lemma_mod_bound(1000, r);
    assert(r * interval == interval * r) by (nonlinear_arith);
    assert((interval + 1) * r == interval * r + r) by (nonlinear_arith);
}

/// The rate that an interval of up to a second stands for is the one whose frames
/// come closest to it, but never more than 240 per second; no interval, no rate.
pub proof fn law_intervals_stand_for_rates(interval: nat, rate: nat)
    requires
        1 <= interval <= 1000,
        rate_text(interval) == text::decimal(rate),
    ensures
        1 <= rate <= 240,
        rate < 240 ==> -(interval as int) <= 2 * (rate * interval - 1000) <= interval,
        rate == 240 ==> 2 * (240 * interval - 1000) <= interval,
        rate_text(0) == Seq::<char>::empty(),
{
    let i = interval as int;
    let exact = (2000 + i) / (2 * i);
    vstd::arithmetic::div_mod::lemma_fundamental_div_mod(2000 + i, 2 * i);
    vstd::arithmetic::div_mod::lemma_mod_bound(2000 + i, 2 * i);
    assert(2 * i * exact == 2 * (exact * i)) by (nonlinear_arith);
    assert(exact >= 1) by (nonlinear_arith)
        requires
            2 * (exact * i) > 2000 + i - 2 * i,
            i <= 1000,
            i >= 1,
    ;
    let kept = if exact > 240 {
        240nat
    } else {
        exact as nat
    };
    text::lemma_decimal_digits(kept);
    text::lemma_decimal_digits(rate);
    assert(kept == rate);
    assert(exact > 240 ==> 240 * i <= exact * i) by (nonlinear_arith)
        requires
            i >= 1,
    ;
}

/// Of a typed rate its first three digits count: they stand for a rate between 1 and
/// 240, which is kept as a plain number; nothing is kept of a zero or of no digits.
pub proof fn law_typed_rates_are_plain_numbers(value: Seq<char>)
    ensures
        ({
            let digits = value.filter(|c: char| '0' <= c <= '9');
            let first = if digits.len() > 3 {
                digits.take(3)
            } else {
                digits
            };
            let number = text::digits_value(first);
            typed_rate(value) == if number == 0 {
                Seq::empty()
            } else if number > 240 {
                text::decimal(240)
            } else {
                text::decimal(number)
            }
        }),
{
    text::law_digits_are_filtered(value);
    let digits = text::only_digits(value);
    let first = text::at_most(digits, 3);
    let is_digit = |c: char| text::is_digit(c);
    assert forall|i: int| 0 <= i < first.len() implies '0' <= #[trigger] first[i] <= '9' by {
        assert(first[i] == digits[i]);
        value.lemma_filter_pred(is_digit, i);
    }
    assert(first.len() <= 3);
    assert(text::digits_value(first) <= 999) by {
        reveal_with_fuel(text::digits_value, 4);
    }
    text::law_numbers_are_read_in_decimal(first, '0', u16::MAX as nat);
    if first.len() == 0 {
        assert(text::parsed_unsigned(first, u16::MAX as nat) is None);
        assert(first =~= Seq::<char>::empty());
    }
}

} // verus!
