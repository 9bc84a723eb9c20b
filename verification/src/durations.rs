//! Written lengths of time.

use crate::text;
use crate::text::{chars_of, matches_at};
use vstd::prelude::*;

verus! {

/// The nanoseconds in a second.
pub const SECOND_NANOS: u64 = 1_000_000_000;

/// One more than the nanoseconds that a length of time can have: its seconds fill 64 bits.
pub const NANOS_LIMIT: u128 = 18_446_744_073_709_551_616_000_000_000;

/// The length in nanoseconds that `humantime` reads from a text, `None` where it refuses it.
pub uninterp spec fn duration_nanos(text: Seq<char>) -> Option<u128>;

/// `humantime::parse_duration`, in nanoseconds: the result is the one that `duration_nanos`
/// names. A text whose spans add up to more seconds than 64 bits hold is left out.
#[verifier::external_body]
fn nanos_of(text: &str) -> (r: Option<u128>)
    requires
        is_countable(text@),
    ensures
        r == duration_nanos(text@),
{
    humantime::parse_duration(text).ok().map(|duration| duration.as_nanos())
}

/// Whether a character belongs to the name of a unit.
pub open spec fn is_unit_char(c: char) -> bool {
    ('a' <= c && c <= 'z') || ('A' <= c && c <= 'Z') || c == '\u{b5}'
}

/// The nanoseconds in a unit, by its name.
pub open spec fn unit_nanos(unit: Seq<char>) -> Option<u64> {
    if unit == "nanos"@ || unit == "nsec"@ || unit == "ns"@ {
        Some(1)
    } else if unit == "usec"@ || unit == "us"@ || unit == "\u{b5}s"@ {
        Some(1_000)
    } else if unit == "millis"@ || unit == "msec"@ || unit == "ms"@ {
        Some(1_000_000)
    } else if unit == "seconds"@ || unit == "second"@ || unit == "secs"@ || unit == "sec"@ || unit
        == "s"@ {
        Some(SECOND_NANOS)
    } else if unit == "minutes"@ || unit == "minute"@ || unit == "min"@ || unit == "mins"@ || unit
        == "m"@ {
        Some(60_000_000_000)
    } else if unit == "hours"@ || unit == "hour"@ || unit == "hr"@ || unit == "hrs"@ || unit
        == "h"@ {
        Some(3_600_000_000_000)
    } else if unit == "days"@ || unit == "day"@ || unit == "d"@ {
        Some(86_400_000_000_000)
    } else if unit == "weeks"@ || unit == "week"@ || unit == "wk"@ || unit == "wks"@ || unit
        == "w"@ {
        Some(604_800_000_000_000)
    } else if unit == "months"@ || unit == "month"@ || unit == "M"@ {
        Some(2_630_016_000_000_000)
    } else if unit == "years"@ || unit == "year"@ || unit == "yr"@ || unit == "yrs"@ || unit
        == "y"@ {
        Some(31_557_600_000_000_000)
    } else {
        None
    }
}

fn is_word(unit: &Vec<char>, word: &str) -> (r: bool)
    ensures
        r == (unit@ == word@),
{
    let chars = chars_of(word);
    if chars.len() != unit.len() {
        return false;
    }
    proof {
        assert(unit@.subrange(0, unit.len() as int) =~= unit@);
    }
    matches_at(unit, &chars, 0)
}

fn read_unit(unit: &Vec<char>) -> (r: Option<u64>)
    ensures
        r == unit_nanos(unit@),
        r matches Some(nanos) ==> nanos <= 31_557_600_000_000_000,
{
    if is_word(unit, "nanos") || is_word(unit, "nsec") || is_word(unit, "ns") {
        Some(1)
    } else if is_word(unit, "usec") || is_word(unit, "us") || is_word(unit, "\u{b5}s") {
        Some(1_000)
    } else if is_word(unit, "millis") || is_word(unit, "msec") || is_word(unit, "ms") {
        Some(1_000_000)
    } else if is_word(unit, "seconds") || is_word(unit, "second") || is_word(unit, "secs")
        || is_word(unit, "sec") || is_word(unit, "s") {
        Some(SECOND_NANOS)
    } else if is_word(unit, "minutes") || is_word(unit, "minute") || is_word(unit, "min")
        || is_word(unit, "mins") || is_word(unit, "m") {
        Some(60_000_000_000)
    } else if is_word(unit, "hours") || is_word(unit, "hour") || is_word(unit, "hr") || is_word(
        unit,
        "hrs",
    ) || is_word(unit, "h") {
        Some(3_600_000_000_000)
    } else if is_word(unit, "days") || is_word(unit, "day") || is_word(unit, "d") {
        Some(86_400_000_000_000)
    } else if is_word(unit, "weeks") || is_word(unit, "week") || is_word(unit, "wk") || is_word(
        unit,
        "wks",
    ) || is_word(unit, "w") {
        Some(604_800_000_000_000)
    } else if is_word(unit, "months") || is_word(unit, "month") || is_word(unit, "M") {
        Some(2_630_016_000_000_000)
    } else if is_word(unit, "years") || is_word(unit, "year") || is_word(unit, "yr") || is_word(
        unit,
        "yrs",
    ) || is_word(unit, "y") {
        Some(31_557_600_000_000_000)
    } else {
        None
    }
}

/// A number as far as it was read: its whole part, and its fraction over a power of ten.
#[derive(Debug, Clone, Copy, PartialEq, Eq, Structural)]
pub struct WrittenNumber {
    pub whole: u64,
    pub in_fraction: bool,
    pub numerator: u64,
    pub denominator: u64,
}

/// A number that has not begun.
pub open spec fn no_number() -> WrittenNumber {
    WrittenNumber { whole: 0, in_fraction: false, numerator: 0, denominator: 1 }
}

impl WrittenNumber {
    /// The fraction is one.
    pub open spec fn wf(self) -> bool {
        self.numerator < self.denominator
    }

    /// The number with one more digit, where its parts fit in 64 bits.
    pub open spec fn with_digit(self, digit: u64) -> Option<WrittenNumber> {
        if self.in_fraction {
            if self.denominator * 10 > u64::MAX {
                None
            } else {
                Some(
                    WrittenNumber {
                        numerator: (self.numerator * 10 + digit) as u64,
                        denominator: (self.denominator * 10) as u64,
                        ..self
                    },
                )
            }
        } else if self.whole * 10 + digit > u64::MAX {
            None
        } else {
            Some(WrittenNumber { whole: (self.whole * 10 + digit) as u64, ..self })
        }
    }

    /// The nanoseconds in so many of a unit, none where the unit is unknown.
    pub open spec fn nanos(self, unit: Seq<char>) -> int {
        match unit_nanos(unit) {
            Some(nanos) => self.whole * nanos + self.numerator * nanos / self.denominator as int,
            None => 0,
        }
    }

    fn push_digit(self, digit: u64) -> (r: Option<Self>)
        requires
            self.wf(),
            digit <= 9,
        ensures
            r == self.with_digit(digit),
            r matches Some(number) ==> number.wf(),
    {
        if self.in_fraction {
            if self.denominator > u64::MAX / 10 {
                return None;
            }
            Some(
                WrittenNumber {
                    numerator: self.numerator * 10 + digit,
                    denominator: self.denominator * 10,
                    ..self
                },
            )
        } else {
            let whole: u128 = self.whole as u128 * 10 + digit as u128;
            if whole > u64::MAX as u128 {
                return None;
            }
            Some(WrittenNumber { whole: whole as u64, ..self })
        }
    }

    fn nanos_in(self, unit: &Vec<char>) -> (r: u128)
        requires
            self.wf(),
        ensures
            r == self.nanos(unit@),
            r <= 0x100_0000_0000_0000_0000_0000_0000_0000,
    {
        match read_unit(unit) {
            Some(nanos) => {
                proof {
                    assert(0 <= self.whole * nanos <= 0xffff_ffff_ffff_ffff
                        * 31_557_600_000_000_000) by (nonlinear_arith)
                        requires
                            0 <= self.whole <= 0xffff_ffff_ffff_ffff,
                            0 <= nanos <= 31_557_600_000_000_000,
                    ;
                    assert(0 <= self.numerator * nanos <= 0xffff_ffff_ffff_ffff
                        * 31_557_600_000_000_000) by (nonlinear_arith)
                        requires
                            0 <= self.numerator <= 0xffff_ffff_ffff_ffff,
                            0 <= nanos <= 31_557_600_000_000_000,
                    ;
                    vstd::arithmetic::div_mod::lemma_div_is_ordered_by_denominator(
                        self.numerator * nanos,
                        1,
                        self.denominator as int,
                    );
                }
                let whole: u128 = self.whole as u128 * nanos as u128;
                let part: u128 = self.numerator as u128 * nanos as u128 / self.denominator as u128;
                whole + part
            },
            None => 0,
        }
    }
}

/// Whether spans add up to no more seconds than 64 bits hold, from a place in a text on where a
/// number and the name of its unit are read so far, and the spans before come to a total.
///
/// A unit ends at a digit or at anything else that does not belong to a name. What is neither a
/// digit, a point nor part of a name does not end a number.
pub open spec fn counts_from(
    text: Seq<char>,
    at: nat,
    number: WrittenNumber,
    unit: Seq<char>,
    total: int,
) -> bool
    decreases text.len() - at,
{
    let ended = total + number.nanos(unit);
    if at >= text.len() {
        ended < NANOS_LIMIT
    } else {
        let c = text[at as int];
        if is_unit_char(c) {
            counts_from(text, at + 1, number, unit.push(c), total)
        } else if unit.len() > 0 && ended >= NANOS_LIMIT {
            false
        } else {
            let (rest, sum) = if unit.len() > 0 {
                (no_number(), ended)
            } else {
                (number, total)
            };
            if text::is_digit(c) {
                match rest.with_digit((c as u64 - '0' as u64) as u64) {
                    None => false,
                    Some(longer) => counts_from(text, at + 1, longer, Seq::empty(), sum),
                }
            } else if c == '.' {
                counts_from(
                    text,
                    at + 1,
                    WrittenNumber { in_fraction: true, ..rest },
                    Seq::empty(),
                    sum,
                )
            } else {
                counts_from(text, at + 1, rest, Seq::empty(), sum)
            }
        }
    }
}

/// Whether the numbers of a text fit in 64 bits, and its spans add up to no more seconds than
/// 64 bits hold.
pub open spec fn is_countable(text: Seq<char>) -> bool {
    counts_from(text, 0, no_number(), Seq::empty(), 0)
}

fn can_be_counted(text: &str) -> (r: bool)
    ensures
        r == is_countable(text@),
{
    let chars = chars_of(text);
    let mut number = WrittenNumber { whole: 0, in_fraction: false, numerator: 0, denominator: 1 };
    let mut unit: Vec<char> = Vec::new();
    let mut total: u128 = 0;
    let mut at: usize = 0;
    assert(unit@ =~= Seq::<char>::empty());
    while at < chars.len()
        invariant
            chars@ == text@,
            at <= chars.len(),
            number.wf(),
            total < NANOS_LIMIT,
            is_countable(text@) == counts_from(text@, at as nat, number, unit@, total as int),
        decreases chars.len() - at,
    {
        let c: char = chars[at];
        at += 1;
        if ('a' <= c && c <= 'z') || ('A' <= c && c <= 'Z') || c == '\u{b5}' {
            unit.push(c);
        } else {
            if unit.len() > 0 {
                total = total + number.nanos_in(&unit);
                if total >= NANOS_LIMIT {
                    return false;
                }
                number = WrittenNumber {
                    whole: 0,
                    in_fraction: false,
                    numerator: 0,
                    denominator: 1,
                };
                unit = Vec::new();
            }
            assert(unit@ =~= Seq::<char>::empty());
            if '0' <= c && c <= '9' {
                match number.push_digit(c as u64 - '0' as u64) {
                    Some(longer) => {
                        number = longer;
                    },
                    None => {
                        return false;
                    },
                }
            } else if c == '.' {
                number = WrittenNumber { in_fraction: true, ..number };
            }
        }
    }
    total + number.nanos_in(&unit) < NANOS_LIMIT
}

/// The length of time that a text stands for, in nanoseconds, where its seconds can be counted.
pub open spec fn written_nanos(text: Seq<char>) -> Option<u128> {
    if is_countable(text) {
        duration_nanos(text)
    } else {
        None
    }
}

/// Reads a written length of time in nanoseconds.
pub fn read_nanos(text: &str) -> (r: Option<u128>)
    ensures
        r == written_nanos(text@),
{
    if can_be_counted(text) {
        nanos_of(text)
    } else {
        None
    }
}

} // verus!
