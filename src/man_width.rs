//! The column width that the formatter is told to format to, shared by every pager in
//! a chain of followed links through one environment variable.
use vstd::prelude::*;

use crate::text::{chars_of, is_ascii_digit};

verus! {

/// The column count assumed when the terminal's size cannot be read.
pub const DEFAULT_COLUMNS: u16 = 80;

/// The columns taken by the left and right borders of the content frame.
pub const FRAME_MARGIN: u16 = 2;

/// The value of a digit character.
pub open spec fn digit_value(c: char) -> int {
    (c as u32) as int - ('0' as u32) as int
}

/// The value of the decimal digits `d`, most significant first.
pub open spec fn decimal_value(d: Seq<char>) -> int
    decreases d.len(),
{
    if d.len() == 0 {
        0
    } else {
        decimal_value(d.drop_last()) * 10 + digit_value(d.last())
    }
}

/// The digits of `s` once one leading `+` is taken off.
pub open spec fn unsigned_digits(s: Seq<char>) -> Seq<char> {
    if s.len() > 0 && s[0] == '+' {
        s.drop_first()
    } else {
        s
    }
}

/// The `u16` that `s` denotes, read as `str::parse::<u16>` reads it: an optional `+`,
/// then one or more ASCII digits and nothing else, of a value that fits.
pub open spec fn parse_u16(s: Seq<char>) -> Option<u16> {
    let d = unsigned_digits(s);
    if d.len() > 0 && (forall|i: int| 0 <= i < d.len() ==> is_ascii_digit(#[trigger] d[i]))
        && decimal_value(d) <= u16::MAX {
        Some(decimal_value(d) as u16)
    } else {
        None
    }
}

/// `a - b`, or 0 where `b` is the larger.
pub open spec fn saturating_diff(a: int, b: int) -> int {
    if a > b {
        a - b
    } else {
        0
    }
}

proof fn lemma_decimal_value_nonneg(d: Seq<char>)
    requires
        forall|i: int| 0 <= i < d.len() ==> is_ascii_digit(#[trigger] d[i]),
    ensures
        decimal_value(d) >= 0,
    decreases d.len(),
{
    if d.len() > 0 {
        lemma_decimal_value_nonneg(d.drop_last());
    }
}

/// Reads `s` as a `u16`; see [`parse_u16`].
pub fn parse_width(s: &str) -> (r: Option<u16>)
    ensures
        r == parse_u16(s@),
{
    let cs = chars_of(s);
    let mut i: usize = 0;
    if cs.len() > 0 && cs[0] == '+' {
        i = 1;
    }
    let ghost d = unsigned_digits(s@);
    assert(d =~= s@.skip(i as int));
    if i == cs.len() {
        return None;
    }
    let start = i;
    let mut v: u32 = 0;
    while i < cs.len()
        invariant
            cs@ == s@,
            d == s@.skip(start as int),
            d == unsigned_digits(s@),
            start <= i <= cs@.len(),
            forall|k: int| 0 <= k < i - start ==> is_ascii_digit(#[trigger] d[k]),
            v as int == if decimal_value(d.take(i - start)) <= u16::MAX {
                decimal_value(d.take(i - start))
            } else {
                u16::MAX + 1
            },
        decreases cs@.len() - i,
    {
        let c = cs[i];
        if !('0' <= c && c <= '9') {
            assert(!is_ascii_digit(d[i - start]));
            assert(!(forall|j: int| 0 <= j < d.len() ==> is_ascii_digit(#[trigger] d[j])));
            return None;
        }
        let ghost k = i - start;
        proof {
            assert(d.take(k + 1).drop_last() =~= d.take(k));
            assert(d.take(k + 1).last() == c);
            assert(forall|j: int| 0 <= j < k ==> is_ascii_digit(#[trigger] d.take(k)[j]));
            lemma_decimal_value_nonneg(d.take(k));
        }
        let digit = (c as u32) - ('0' as u32);
        if v <= 65535 {
            v = v * 10 + digit;
            if v > 65535 {
                v = 65536;
            }
        }
        i = i + 1;
    }
    assert(d.take(d.len() as int) =~= d);
    if v <= 65535 {
        Some(v as u16)
    } else {
        None
    }
}

/// The width to set when a pager starts, or `None` where `existing`, the variable's
/// current value, already reads as a `u16`: an earlier pager in the chain set it. Else
/// the terminal's column count, or [`DEFAULT_COLUMNS`] where it cannot be read, less the
/// frame's borders.
pub fn startup_man_width(existing: Option<&str>, terminal_columns: Option<u16>) -> (r: Option<
    u16,
>)
    ensures
        r == (if existing is Some && parse_u16(existing->0@) is Some {
            None::<u16>
        } else {
            Some(
                saturating_diff(
                    (if terminal_columns is Some {
                        terminal_columns->0
                    } else {
                        DEFAULT_COLUMNS
                    }) as int,
                    FRAME_MARGIN as int,
                ) as u16,
            )
        }),
{
    if let Some(v) = existing {
        if parse_width(v).is_some() {
            return None;
        }
    }
    let columns = match terminal_columns {
        Some(c) => c,
        None => DEFAULT_COLUMNS,
    };
    Some(columns.saturating_sub(FRAME_MARGIN))
}

/// The width to set once the terminal has `columns` columns: those less the frame's
/// borders. A resize always sets it, whatever the variable held.
pub fn resized_man_width(columns: u16) -> (r: u16)
    ensures
        r as int == saturating_diff(columns as int, FRAME_MARGIN as int),
{
    columns.saturating_sub(FRAME_MARGIN)
}

} // verus!
