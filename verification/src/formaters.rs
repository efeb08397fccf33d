//! Text for durations.
use vstd::prelude::*;
use crate::text::{decimal, digit_char, digit_value, digits_value, push_decimal, string_from_chars};

verus! {

/// Nanoseconds in a tenth of a second.
pub const NANOS_PER_TENTH: u128 = 100_000_000;

/// A duration of `nanos` nanoseconds in tenths of a second, rounded to the
/// nearest tenth, ties to the even tenth.
pub open spec fn tenths_of_second(nanos: nat) -> nat {
    let q = nanos / 100_000_000;
    let r = nanos % 100_000_000;
    if r > 50_000_000 || (r == 50_000_000 && q % 2 == 1) {
        q + 1
    } else {
        q
    }
}

/// A duration as seconds with one decimal and an `s`, such as `31.7s`.
pub open spec fn duration_text(nanos: nat) -> Seq<char> {
    let t = tenths_of_second(nanos);
    decimal(t / 10) + seq!['.', digit_char(t % 10), 's']
}

/// Rounding to tenths keeps order: a longer duration never rounds to fewer tenths.
pub proof fn lemma_tenths_monotone(a: nat, b: nat)
    requires
        a <= b,
    ensures
        tenths_of_second(a) <= tenths_of_second(b),
{
    let qa = a / 100_000_000;
    let qb = b / 100_000_000;
    let ra = a % 100_000_000;
    let rb = b % 100_000_000;
    vstd::arithmetic::div_mod::lemma_fundamental_div_mod(a as int, 100_000_000);
    vstd::arithmetic::div_mod::lemma_fundamental_div_mod(b as int, 100_000_000);
    vstd::arithmetic::div_mod::lemma_div_is_ordered(a as int, b as int, 100_000_000);
    if qa == qb {
        assert(ra <= rb);
    }
}

/// The number of tenths that a duration text such as `31.7s` reads back as: its
/// digits before the point, times ten, plus the digit after it.
pub open spec fn text_tenths(s: Seq<char>) -> nat {
    digits_value(s.take(s.len() - 3)) * 10 + digit_value(s[s.len() - 2])
}

/// A formatted duration reads back as the tenths it was rounded to.
pub proof fn lemma_duration_text_reads_back(n: nat)
    ensures
        text_tenths(duration_text(n)) == tenths_of_second(n),
{
    let t = tenths_of_second(n);
    let d = duration_text(n);
    crate::text::lemma_decimal_digits(t / 10);
    crate::text::lemma_digit_char(t % 10);
    assert(d.take(d.len() - 3) =~= decimal(t / 10));
    assert(d[d.len() - 2] == digit_char(t % 10));
}

/// Formatting keeps the order of durations: read back as numbers, the text of a
/// longer duration is never the smaller.
pub proof fn lemma_duration_text_monotone(a: nat, b: nat)
    requires
        a <= b,
    ensures
        text_tenths(duration_text(a)) <= text_tenths(duration_text(b)),
{
    lemma_tenths_monotone(a, b);
    lemma_duration_text_reads_back(a);
    lemma_duration_text_reads_back(b);
}

/// Formats a duration given in nanoseconds as seconds with one decimal, such as `31.7s`.
pub fn fmt_dur(dur: u128) -> (r: String)
    ensures
        r@ == duration_text(dur as nat),
{
    let q = dur / NANOS_PER_TENTH;
    let rem = dur % NANOS_PER_TENTH;
    let t: u128 = if rem > 50_000_000 || (rem == 50_000_000 && q % 2 == 1) {
        q + 1
    } else {
        q
    };
    let mut v: Vec<char> = Vec::new();
    push_decimal(&mut v, t / 10);
    v.push('.');
    let d = t % 10;
    let c: char = ((d as u8) + 48u8) as char;
    v.push(c);
    v.push('s');
    assert(v@ =~= duration_text(dur as nat));
    string_from_chars(v.as_slice())
}

} // verus!
