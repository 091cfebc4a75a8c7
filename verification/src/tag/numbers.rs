use super::content::Timestamp;
use vstd::prelude::*;
use vstd::string::*;

verus! {

/// The value of a decimal digit, nothing for any other character.
pub open spec fn digit_of(c: char) -> Option<u32> {
    if '0' <= c <= '9' {
        Some((c as u32 - '0' as u32) as u32)
    } else {
        None
    }
}

/// The value of a character as a digit, 0 where it is none.
pub open spec fn value_of(c: char) -> nat {
    match digit_of(c) {
        Some(v) => v as nat,
        None => 0,
    }
}

pub open spec fn all_digits(text: Seq<char>) -> bool {
    forall|i: int| 0 <= i < text.len() ==> (#[trigger] digit_of(text[i])) is Some
}

/// The number that a run of digits spells, most significant digit first.
pub open spec fn decimal(text: Seq<char>) -> nat
    decreases text.len(),
{
    if text.len() == 0 {
        0
    } else {
        decimal(text.drop_last()) * 10 + value_of(text.last())
    }
}

/// The number that `text` spells: it is made of decimal digits, of one at
/// least, and the number fits in 32 bits.
pub open spec fn number_of(text: Seq<char>) -> Option<u32> {
    if text.len() > 0 && all_digits(text) && decimal(text) <= u32::MAX {
        Some(decimal(text) as u32)
    } else {
        None
    }
}

/// A number read to the end is no smaller than what a part of it spelled.
proof fn lemma_decimal_grows(text: Seq<char>, k: int)
    requires
        0 <= k <= text.len(),
    ensures
        decimal(text.take(k)) <= decimal(text),
    decreases text.len(),
{
    if k == text.len() {
        assert(text.take(k) =~= text);
    } else {
        lemma_decimal_grows(text.drop_last(), k);
        assert(text.drop_last().take(k) =~= text.take(k));
    }
}

fn digit_at(text: &str, i: usize) -> (d: Option<u32>)
    requires
        i < text@.len(),
    ensures
        d == digit_of(text@[i as int]),
        d matches Some(v) ==> v <= 9,
{
    let c = text.get_char(i);
    if '0' <= c && c <= '9' {
        Some(c as u32 - '0' as u32)
    } else {
        None
    }
}

/// Reads a decimal number.
pub fn parse_number(text: &str) -> (r: Option<u32>)
    ensures
        r == number_of(text@),
{
    let n = text.unicode_len();
    if n == 0 {
        return None;
    }
    let mut value: u64 = 0;
    let mut i: usize = 0;
    while i < n
        invariant
            i <= n,
            n == text@.len(),
            all_digits(text@.take(i as int)),
            value == decimal(text@.take(i as int)),
            value <= u32::MAX,
        decreases n - i,
    {
        let ghost part = text@.take(i + 1);
        assert(part.drop_last() =~= text@.take(i as int));
        assert(part.last() == text@[i as int]);
        match digit_at(text, i) {
            Some(d) => {
                value = value * 10 + d as u64;
                assert(all_digits(part)) by {
                    assert forall|j: int| 0 <= j < part.len() implies (#[trigger] digit_of(
                        part[j],
                    )) is Some by {
                        if j < i {
                            assert(text@.take(i as int)[j] == part[j]);
                        }
                    }
                }
                if value > u32::MAX as u64 {
                    proof {
                        lemma_decimal_grows(text@, i + 1);
                    }
                    return None;
                }
            },
            None => {
                return None;
            },
        }
        i = i + 1;
    }
    assert(text@.take(n as int) =~= text@);
    Some(value as u32)
}

pub open spec fn digits_at(text: Seq<char>, from: int, count: int) -> bool {
    forall|i: int| from <= i < from + count ==> (#[trigger] digit_of(text[i])) is Some
}

pub open spec fn two_digits(text: Seq<char>, at: int) -> nat {
    value_of(text[at]) * 10 + value_of(text[at + 1])
}

pub open spec fn four_digits(text: Seq<char>, at: int) -> nat {
    two_digits(text, at) * 100 + two_digits(text, at + 2)
}

/// The date that `text` spells: `YYYY`, `YYYY-MM` or `YYYY-MM-DD`, with a
/// month from 1 to 12 and a day from 1 to 31.
pub open spec fn date_of(text: Seq<char>) -> Option<Timestamp> {
    let n = text.len();
    if !(n == 4 || n == 7 || n == 10) || !digits_at(text, 0, 4) {
        None
    } else if n == 4 {
        Some(Timestamp { year: four_digits(text, 0) as u16, month: None, day: None })
    } else if text[4] != '-' || !digits_at(text, 5, 2) || !(1 <= two_digits(text, 5) <= 12) {
        None
    } else if n == 7 {
        Some(
            Timestamp {
                year: four_digits(text, 0) as u16,
                month: Some(two_digits(text, 5) as u8),
                day: None,
            },
        )
    } else if text[7] != '-' || !digits_at(text, 8, 2) || !(1 <= two_digits(text, 8) <= 31) {
        None
    } else {
        Some(
            Timestamp {
                year: four_digits(text, 0) as u16,
                month: Some(two_digits(text, 5) as u8),
                day: Some(two_digits(text, 8) as u8),
            },
        )
    }
}

fn pair_at(text: &str, at: usize) -> (r: Option<u32>)
    requires
        at + 1 < text@.len() <= usize::MAX,
    ensures
        r is Some <==> digits_at(text@, at as int, 2),
        r matches Some(v) ==> v == two_digits(text@, at as int) && v <= 99,
{
    match digit_at(text, at) {
        Some(high) => match digit_at(text, at + 1) {
            Some(low) => Some(high * 10 + low),
            None => None,
        },
        None => None,
    }
}

fn dash_at(text: &str, at: usize) -> (r: bool)
    requires
        at < text@.len(),
    ensures
        r == (text@[at as int] == '-'),
{
    text.get_char(at) == '-'
}

/// Reads a date.
pub fn parse_date(text: &str) -> (r: Option<Timestamp>)
    ensures
        r == date_of(text@),
{
    let n = text.unicode_len();
    if !(n == 4 || n == 7 || n == 10) {
        return None;
    }
    let year = match (pair_at(text, 0), pair_at(text, 2)) {
        (Some(high), Some(low)) => (high * 100 + low) as u16,
        _ => {
            return None;
        },
    };
    if n == 4 {
        return Some(Timestamp { year, month: None, day: None });
    }
    if !dash_at(text, 4) {
        return None;
    }
    let month = match pair_at(text, 5) {
        Some(m) if 1 <= m && m <= 12 => m as u8,
        _ => {
            return None;
        },
    };
    if n == 7 {
        return Some(Timestamp { year, month: Some(month), day: None });
    }
    if !dash_at(text, 7) {
        return None;
    }
    let day = match pair_at(text, 8) {
        Some(d) if 1 <= d && d <= 31 => d as u8,
        _ => {
            return None;
        },
    };
    Some(Timestamp { year, month: Some(month), day: Some(day) })
}

} // verus!
