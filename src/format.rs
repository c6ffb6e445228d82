//! Pure numeric helpers: magnitude abbreviation, fixed-point ratios and
//! `mm:ss` rendering.

use vstd::prelude::*;

verus! {

/// The unit shown when a magnitude is below one thousand.
pub const NO_SUFFIX: char = '\0';

/// Ratios are stored in millionths of the whole: `RATIO_SCALE` stands for 1.0.
pub const RATIO_SCALE: i64 = 1_000_000;

/// A magnitude split into a human-scaled pair: the shown value is
/// `magnitude / scale`, followed by `unit`.
#[derive(Clone, Copy, Debug, PartialEq, Eq)]
pub struct Abbreviation {
    pub magnitude: i64,
    pub scale: i64,
    pub unit: char,
}

/// The bracket chosen for a magnitude: its divisor and its suffix.
pub open spec fn bracket_of(num: int) -> (int, char) {
    if num >= 1_000_000_000_000 {
        (1_000_000_000_000, 't')
    } else if num >= 1_000_000_000 {
        (1_000_000_000, 'b')
    } else if num >= 1_000_000 {
        (1_000_000, 'm')
    } else if num >= 1_000 {
        (1_000, 'k')
    } else {
        (1, NO_SUFFIX)
    }
}

/// Splits a non-negative magnitude into a scaled value and a unit suffix
/// (`t`, `b`, `m`, `k`, or none).
pub fn abbreviate_number(num: i64) -> (r: Abbreviation)
    requires
        num >= 0,
    ensures
        r.magnitude == num,
        r.scale == bracket_of(num as int).0,
        r.unit == bracket_of(num as int).1,
{
    if num >= 1_000_000_000_000 {
        Abbreviation { magnitude: num, scale: 1_000_000_000_000, unit: 't' }
    } else if num >= 1_000_000_000 {
        Abbreviation { magnitude: num, scale: 1_000_000_000, unit: 'b' }
    } else if num >= 1_000_000 {
        Abbreviation { magnitude: num, scale: 1_000_000, unit: 'm' }
    } else if num >= 1_000 {
        Abbreviation { magnitude: num, scale: 1_000, unit: 'k' }
    } else {
        Abbreviation { magnitude: num, scale: 1, unit: NO_SUFFIX }
    }
}

/// `part / whole` in millionths, rounded down; zero when `whole` is zero.
pub open spec fn ratio_of(part: int, whole: int) -> int {
    if whole == 0 {
        0
    } else {
        part * RATIO_SCALE / whole
    }
}

/// A part of a whole is between none and all of it.
pub proof fn lemma_ratio_bounds(part: int, whole: int)
    requires
        0 <= part <= whole,
    ensures
        0 <= ratio_of(part, whole) <= RATIO_SCALE,
{
    if whole > 0 {
        assert(0 <= part * RATIO_SCALE / whole <= RATIO_SCALE) by (nonlinear_arith)
            requires
                0 <= part <= whole,
                whole > 0,
        ;
    }
}

/// Computes `ratio_of(part, whole)` for a part that does not exceed the whole.
pub fn ratio(part: i64, whole: i64) -> (r: i64)
    requires
        0 <= part <= whole,
    ensures
        r == ratio_of(part as int, whole as int),
        0 <= r <= RATIO_SCALE,
{
    if whole == 0 {
        0
    } else {
        assert(0 <= part * RATIO_SCALE <= 0x7fff_ffff_ffff_ffff * RATIO_SCALE) by (nonlinear_arith)
            requires
                0 <= part <= 0x7fff_ffff_ffff_ffff,
        ;
        let p: i128 = part as i128 * RATIO_SCALE as i128;
        let q: i128 = p / whole as i128;
        assert(0 <= q <= RATIO_SCALE) by (nonlinear_arith)
            requires
                q == p / whole as i128,
                p == part * RATIO_SCALE,
                0 <= part <= whole,
                whole > 0,
        ;
        q as i64
    }
}

/// `a + b`, held at `i64::MAX` when the sum does not fit.
pub open spec fn capped_sum(a: int, b: int) -> int {
    if a + b > i64::MAX {
        i64::MAX as int
    } else {
        a + b
    }
}

/// Adds two non-negative amounts, saturating at `i64::MAX`.
pub fn add_capped(a: i64, b: i64) -> (r: i64)
    requires
        a >= 0,
        b >= 0,
    ensures
        r == capped_sum(a as int, b as int),
{
    if a > i64::MAX - b {
        i64::MAX
    } else {
        a + b
    }
}

/// Shown in place of `mm:ss` once the minutes exceed an hour.
pub const INFINITY_SIGN: char = '\u{221e}';

/// The decimal digit character for `d` in `0..10`.
pub open spec fn digit_char(d: int) -> char {
    ((48 + d) as u8) as char
}

/// `seconds` as `mm:ss` with two digits each, or the infinity sign when the
/// minutes exceed sixty.
pub open spec fn mm_ss_text(seconds: int) -> Seq<char> {
    let minutes = seconds / 60;
    let rest = seconds % 60;
    if minutes > 60 {
        seq![INFINITY_SIGN]
    } else {
        seq![
            digit_char(minutes / 10),
            digit_char(minutes % 10),
            ':',
            digit_char(rest / 10),
            digit_char(rest % 10),
        ]
    }
}

fn digit(d: i64) -> (c: char)
    requires
        0 <= d < 10,
    ensures
        c == digit_char(d as int),
{
    (48 + d as u8) as char
}

/// Relies on `String`'s `FromIterator<&char>`: the string holds the
/// characters in order.
#[verifier::external_body]
pub(crate) fn string_from_chars(cs: &Vec<char>) -> (r: String)
    ensures
        r@ == cs@,
{
    cs.iter().collect()
}

/// Renders a non-negative number of seconds as `mm:ss`.
pub fn seconds_to_mm_ss(seconds: i64) -> (r: String)
    requires
        seconds >= 0,
    ensures
        r@ == mm_ss_text(seconds as int),
{
    let minutes: i64 = seconds / 60;
    let mut cs: Vec<char> = Vec::new();
    if minutes > 60 {
        cs.push(INFINITY_SIGN);
    } else {
        let rest: i64 = seconds % 60;
        cs.push(digit(minutes / 10));
        cs.push(digit(minutes % 10));
        cs.push(':');
        cs.push(digit(rest / 10));
        cs.push(digit(rest % 10));
    }
    assert(cs@ =~= mm_ss_text(seconds as int));
    string_from_chars(&cs)
}

} // verus!
