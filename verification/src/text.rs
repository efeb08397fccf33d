//! Character-level text operations with their mathematical meaning.
//!
//! Strings are modelled by their view, a `Seq<char>`.  Most operations work
//! on `Vec<char>` buffers and convert at the edges.
use vstd::prelude::*;
use vstd::string::*;

verus! {

/// Appends one character to a `String` (std's `String::push`).
///
/// Trusted: the contract claims that the new text is the old text followed by `c`.
#[verifier::external_body]
pub(crate) fn push_char(s: &mut String, c: char)
    ensures
        final(s)@ == old(s)@.push(c),
{
    s.push(c);
}

/// The characters of a string slice, in order.
pub fn chars_of(s: &str) -> (r: Vec<char>)
    ensures
        r@ == s@,
{
    let n = s.unicode_len();
    let mut r: Vec<char> = Vec::new();
    let mut i: usize = 0;
    while i < n
        invariant
            n == s@.len(),
            i <= n,
            r@ == s@.subrange(0, i as int),
        decreases n - i,
    {
        let c = s.get_char(i);
        r.push(c);
        i = i + 1;
    }
    r
}

/// A `String` holding exactly the given characters.
pub fn string_from_chars(v: &[char]) -> (r: String)
    ensures
        r@ == v@,
{
    let mut r = String::new();
    let mut i: usize = 0;
    while i < v.len()
        invariant
            i <= v@.len(),
            r@ == v@.subrange(0, i as int),
        decreases v@.len() - i,
    {
        push_char(&mut r, v[i]);
        i = i + 1;
    }
    r
}

/// The decimal digit character for `d` (`d < 10`).
pub open spec fn digit_char(d: nat) -> char {
    ((d + 48) as u32) as char
}

/// The decimal notation of `n`, without sign or leading zeros.
pub open spec fn decimal(n: nat) -> Seq<char>
    decreases n,
{
    if n < 10 {
        seq![digit_char(n)]
    } else {
        decimal(n / 10).push(digit_char(n % 10))
    }
}

fn digit_of(d: u128) -> (c: char)
    requires
        d < 10,
    ensures
        c == digit_char(d as nat),
{
    let b: u8 = (d as u8) + 48u8;
    b as char
}

/// Appends the decimal notation of `n` to `out`.
pub fn push_decimal(out: &mut Vec<char>, n: u128)
    ensures
        final(out)@ == old(out)@ + decimal(n as nat),
    decreases n,
{
    if n < 10 {
        out.push(digit_of(n));
    } else {
        push_decimal(out, n / 10);
        out.push(digit_of(n % 10));
    }
}

/// The decimal notation of `n` as a `String`.
pub fn decimal_string(n: u64) -> (r: String)
    ensures
        r@ == decimal(n as nat),
{
    let mut v: Vec<char> = Vec::new();
    push_decimal(&mut v, n as u128);
    string_from_chars(v.as_slice())
}


/// Whether `c` is an ASCII decimal digit.
pub open spec fn is_digit(c: char) -> bool {
    '0' <= c && c <= '9'
}

/// The value of a decimal digit character.
pub open spec fn digit_value(c: char) -> nat {
    (c as int - 48) as nat
}

/// Whether every character of `s` is a decimal digit.
pub open spec fn all_digits(s: Seq<char>) -> bool {
    forall|i: int| 0 <= i < s.len() ==> is_digit(#[trigger] s[i])
}

/// The number written by the decimal digits `s` (leading zeros allowed).
pub open spec fn digits_value(s: Seq<char>) -> nat
    decreases s.len(),
{
    if s.len() == 0 {
        0
    } else {
        digits_value(s.drop_last()) * 10 + digit_value(s.last())
    }
}

/// The number that std's `FromStr` for an unsigned integer type reads from `s`,
/// before the range check: an optional `+`, then one or more decimal digits.
pub open spec fn unsigned_value(s: Seq<char>) -> Option<nat> {
    let d = if s.len() > 0 && s[0] == '+' {
        s.drop_first()
    } else {
        s
    };
    if d.len() > 0 && all_digits(d) {
        Some(digits_value(d))
    } else {
        None
    }
}

/// What std's `FromStr` for an unsigned integer type whose largest value is `max` gives:
/// the number, or `None` for malformed text and for numbers above `max`.
pub open spec fn parse_unsigned(s: Seq<char>, max: nat) -> Option<nat> {
    match unsigned_value(s) {
        Some(v) => if v <= max {
            Some(v)
        } else {
            None
        },
        None => None,
    }
}

proof fn lemma_digits_value_prefix(s: Seq<char>, j: int, k: int)
    requires
        0 <= j <= k <= s.len(),
    ensures
        digits_value(s.take(j)) <= digits_value(s.take(k)),
    decreases k - j,
{
    if j < k {
        lemma_digits_value_prefix(s, j, k - 1);
        assert(s.take(k).drop_last() =~= s.take(k - 1));
    }
}

/// The decimal notation of `n` is a nonempty run of digits whose value is `n`.
pub proof fn lemma_decimal_digits(n: nat)
    ensures
        all_digits(decimal(n)),
        decimal(n).len() > 0,
        digits_value(decimal(n)) == n,
    decreases n,
{
    lemma_digit_char(n % 10);
    let d = decimal(n);
    if n < 10 {
        assert(d.drop_last() =~= Seq::<char>::empty());
        assert(digits_value(d) == digits_value(d.drop_last()) * 10 + digit_value(d.last()));
    } else {
        lemma_decimal_digits(n / 10);
        assert(d.drop_last() =~= decimal(n / 10));
        assert(digits_value(d) == digits_value(d.drop_last()) * 10 + digit_value(d.last()));
        assert(n == (n / 10) * 10 + n % 10);
    }
}

/// The digit character for `d` is a digit of value `d`.
pub proof fn lemma_digit_char(d: nat)
    requires
        d < 10,
    ensures
        is_digit(digit_char(d)),
        digit_value(digit_char(d)) == d,
{
    assert(digit_char(d) as int == d + 48);
}

/// Reading back the decimal notation of a number gives the number.
pub proof fn lemma_parse_decimal(n: nat, max: nat)
    requires
        n <= max,
    ensures
        parse_unsigned(decimal(n), max) == Some(n),
{
    lemma_decimal_digits(n);
}

/// Parses `s` as std's `FromStr` parses an unsigned integer type whose largest value is `max`.
pub fn parse_unsigned_chars(s: &[char], max: u64) -> (r: Option<u64>)
    ensures
        match r {
            Some(v) => parse_unsigned(s@, max as nat) == Some(v as nat),
            None => parse_unsigned(s@, max as nat) is None,
        },
{
    let n = s.len();
    let start: usize = if n > 0 && s[0] == '+' {
        1
    } else {
        0
    };
    let ghost d = if n > 0 && s@[0] == '+' {
        s@.drop_first()
    } else {
        s@
    };
    assert(d =~= s@.subrange(start as int, n as int));
    if start == n {
        return None;
    }
    let mut v: u128 = 0;
    let mut i: usize = start;
    while i < n
        invariant
            start <= i <= n,
            n == s@.len(),
            d == s@.subrange(start as int, n as int),
            d == (if s@.len() > 0 && s@[0] == '+' {
                s@.drop_first()
            } else {
                s@
            }),
            v <= max,
            all_digits(d.take(i - start)),
            v == digits_value(d.take(i - start)),
        decreases n - i,
    {
        let c = s[i];
        if !('0' <= c && c <= '9') {
            assert(!is_digit(d[i - start]));
            assert(!all_digits(d));
            assert(unsigned_value(s@) is None);
            return None;
        }
        let dv: u128 = ((c as u32) - 48u32) as u128;
        assert(d.take(i - start + 1).drop_last() =~= d.take(i - start));
        v = v * 10 + dv;
        if v > max as u128 {
            proof {
                lemma_digits_value_prefix(d, i - start + 1, d.len() as int);
                assert(d.take(d.len() as int) =~= d);
            }
            return None;
        }
        i = i + 1;
    }
    assert(d.take(n - start) =~= d);
    Some(v as u64)
}

/// Whether `c` has the Unicode `White_Space` property (std's `char::is_whitespace`).
pub open spec fn is_whitespace(c: char) -> bool {
    ||| ('\t' <= c && c <= '\r')
    ||| c == ' '
    ||| c == '\u{85}'
    ||| c == '\u{a0}'
    ||| c == '\u{1680}'
    ||| ('\u{2000}' <= c && c <= '\u{200a}')
    ||| c == '\u{2028}'
    ||| c == '\u{2029}'
    ||| c == '\u{202f}'
    ||| c == '\u{205f}'
    ||| c == '\u{3000}'
}

fn whitespace(c: char) -> (r: bool)
    ensures
        r == is_whitespace(c),
{
    ('\t' <= c && c <= '\r') || c == ' ' || c == '\u{85}' || c == '\u{a0}' || c == '\u{1680}'
        || ('\u{2000}' <= c && c <= '\u{200a}') || c == '\u{2028}' || c == '\u{2029}' || c
        == '\u{202f}' || c == '\u{205f}' || c == '\u{3000}'
}

/// `s` without its leading whitespace.
pub open spec fn trim_start(s: Seq<char>) -> Seq<char>
    decreases s.len(),
{
    if s.len() > 0 && is_whitespace(s[0]) {
        trim_start(s.drop_first())
    } else {
        s
    }
}

/// `s` without its trailing whitespace.
pub open spec fn trim_end(s: Seq<char>) -> Seq<char>
    decreases s.len(),
{
    if s.len() > 0 && is_whitespace(s.last()) {
        trim_end(s.drop_last())
    } else {
        s
    }
}

/// `s` without leading and trailing whitespace (std's `str::trim`).
pub open spec fn trim(s: Seq<char>) -> Seq<char> {
    trim_end(trim_start(s))
}

/// The characters of `s` without leading and trailing whitespace.
pub fn trim_chars(s: &[char]) -> (r: Vec<char>)
    ensures
        r@ == trim(s@),
{
    let n = s.len();
    let mut i: usize = 0;
    assert(s@.subrange(0, n as int) =~= s@);
    while i < n && whitespace(s[i])
        invariant
            i <= n,
            n == s@.len(),
            trim_start(s@) == trim_start(s@.subrange(i as int, n as int)),
        decreases n - i,
    {
        assert(s@.subrange(i as int, n as int).drop_first() =~= s@.subrange(i + 1, n as int));
        i = i + 1;
    }
    let ghost t = s@.subrange(i as int, n as int);
    assert(trim_start(t) == t);
    let mut j: usize = n;
    while j > i && whitespace(s[j - 1])
        invariant
            i <= j <= n,
            n == s@.len(),
            trim_end(t) == trim_end(s@.subrange(i as int, j as int)),
        decreases j,
    {
        assert(s@.subrange(i as int, j as int).drop_last() =~= s@.subrange(i as int, j - 1));
        j = j - 1;
    }
    let mut r: Vec<char> = Vec::new();
    let mut k: usize = i;
    while k < j
        invariant
            i <= k <= j,
            j <= n,
            n == s@.len(),
            r@ == s@.subrange(i as int, k as int),
        decreases j - k,
    {
        r.push(s[k]);
        k = k + 1;
    }
    r
}

/// The characters `s[from..to]`.
pub fn slice_chars(s: &[char], from: usize, to: usize) -> (r: Vec<char>)
    requires
        from <= to <= s@.len(),
    ensures
        r@ == s@.subrange(from as int, to as int),
{
    let mut r: Vec<char> = Vec::new();
    let mut k: usize = from;
    while k < to
        invariant
            from <= k <= to,
            to <= s@.len(),
            r@ == s@.subrange(from as int, k as int),
        decreases to - k,
    {
        r.push(s[k]);
        k = k + 1;
    }
    r
}

/// The position of the first `c` in `s`, if any.
pub open spec fn find_char(s: Seq<char>, c: char) -> Option<int>
    decreases s.len(),
{
    if s.len() == 0 {
        None
    } else if s[0] == c {
        Some(0)
    } else {
        match find_char(s.drop_first(), c) {
            Some(k) => Some(k + 1),
            None => None,
        }
    }
}

/// Where `c` does not occur before `i`, its first occurrence is at `i` if it is
/// there, and there is none if `i` is the end.
pub proof fn lemma_find_char(s: Seq<char>, c: char, i: int)
    requires
        0 <= i <= s.len(),
        forall|k: int| 0 <= k < i ==> s[k] != c,
    ensures
        i < s.len() && s[i] == c ==> find_char(s, c) == Some(i),
        i == s.len() ==> find_char(s, c) is None,
    decreases i,
{
    if i > 0 {
        lemma_find_char(s.drop_first(), c, i - 1);
    }
}

/// A found position of `c` is in range and holds `c`.
pub proof fn lemma_find_char_found(s: Seq<char>, c: char)
    ensures
        find_char(s, c) matches Some(k) ==> 0 <= k < s.len() && s[k] == c && forall|j: int|
            0 <= j < k ==> s[j] != c,
        find_char(s, c) is None ==> forall|j: int| 0 <= j < s.len() ==> s[j] != c,
    decreases s.len(),
{
    if s.len() > 0 {
        lemma_find_char_found(s.drop_first(), c);
        if s[0] != c {
            assert forall|j: int| 0 < j < s.len() implies s[j] == s.drop_first()[j - 1] by {}
        }
    }
}

/// The position of the first `c` in `s[from..]`, counted from the start of `s`.
pub fn find_char_from(s: &[char], from: usize, c: char) -> (r: Option<usize>)
    requires
        from <= s@.len(),
    ensures
        match r {
            Some(k) => find_char(s@.subrange(from as int, s@.len() as int), c) == Some(k - from),
            None => find_char(s@.subrange(from as int, s@.len() as int), c) is None,
        },
        r matches Some(k) ==> from <= k < s@.len(),
{
    let ghost t = s@.subrange(from as int, s@.len() as int);
    let mut i: usize = from;
    while i < s.len()
        invariant
            from <= i <= s@.len(),
            t == s@.subrange(from as int, s@.len() as int),
            forall|k: int| 0 <= k < i - from ==> t[k] != c,
        decreases s@.len() - i,
    {
        if s[i] == c {
            proof {
                lemma_find_char(t, c, i - from);
            }
            return Some(i);
        }
        i = i + 1;
    }
    proof {
        lemma_find_char(t, c, i - from);
    }
    None
}


/// Whether two character sequences are equal.
pub fn chars_equal(a: &[char], b: &[char]) -> (r: bool)
    ensures
        r == (a@ == b@),
{
    if a.len() != b.len() {
        return false;
    }
    let mut i: usize = 0;
    while i < a.len()
        invariant
            a@.len() == b@.len(),
            i <= a@.len(),
            forall|k: int| 0 <= k < i ==> a@[k] == b@[k],
        decreases a@.len() - i,
    {
        if a[i] != b[i] {
            return false;
        }
        i = i + 1;
    }
    assert(a@ =~= b@);
    true
}

/// Whether `s` equals the string `t`.
pub fn chars_equal_str(s: &[char], t: &str) -> (r: bool)
    ensures
        r == (s@ == t@),
{
    let tc = chars_of(t);
    chars_equal(s, tc.as_slice())
}

/// Appends one character sequence to a vector of them.
pub fn push_piece(r: &mut Vec<Vec<char>>, piece: Vec<char>)
    ensures
        final(r).deep_view() == old(r).deep_view().push(piece@),
{
    let ghost before = r.deep_view();
    let ghost p = piece@;
    r.push(piece);
    assert(r@.last().deep_view() =~= p);
    assert(r.deep_view() =~= before.push(p));
}

/// The pieces of `s` between occurrences of `c` (std's `str::split` with a `char`).
pub open spec fn split(s: Seq<char>, c: char) -> Seq<Seq<char>>
    decreases s.len(),
{
    match find_char(s, c) {
        Some(k) => if 0 <= k < s.len() {
            seq![s.subrange(0, k)] + split(s.subrange(k + 1, s.len() as int), c)
        } else {
            seq![s]
        },
        None => seq![s],
    }
}

/// The pieces of `s` between occurrences of `c`.
pub fn split_chars(s: &[char], c: char) -> (r: Vec<Vec<char>>)
    ensures
        r.deep_view() == split(s@, c),
{
    let n = s.len();
    let mut r: Vec<Vec<char>> = Vec::new();
    let mut start: usize = 0;
    assert(s@.subrange(0, s@.len() as int) =~= s@);
    assert(r.deep_view() =~= Seq::<Seq<char>>::empty());
    loop
        invariant
            n == s@.len(),
            start <= s@.len(),
            split(s@, c) == r.deep_view() + split(s@.subrange(start as int, s@.len() as int), c),
        decreases s@.len() - start,
    {
        let ghost t = s@.subrange(start as int, s@.len() as int);
        match find_char_from(s, start, c) {
            Some(k) => {
                let piece = slice_chars(s, start, k);
                assert(t.subrange(0, k - start) =~= piece@);
                assert(t.subrange(k - start + 1, t.len() as int) =~= s@.subrange(
                    k + 1,
                    s@.len() as int,
                ));
                let ghost pv = piece@;
                push_piece(&mut r, piece);
                assert(split(t, c) == seq![pv] + split(s@.subrange(k + 1, s@.len() as int), c));
                assert(split(s@, c) =~= r.deep_view() + split(
                    s@.subrange(k + 1, s@.len() as int),
                    c,
                ));
                start = k + 1;
            },
            None => {
                let piece = slice_chars(s, start, s.len());
                push_piece(&mut r, piece);
                assert(split(s@, c) =~= r.deep_view());
                return r;
            },
        }
    }
}

/// `s` without one trailing carriage return.
pub open spec fn strip_cr(s: Seq<char>) -> Seq<char> {
    if s.len() > 0 && s.last() == '\r' {
        s.drop_last()
    } else {
        s
    }
}

/// The lines of `s` (std's `str::lines`): pieces ended by `\n`, each without
/// a `\r` just before its `\n`; a final line ending adds no empty line.
pub open spec fn lines(s: Seq<char>) -> Seq<Seq<char>>
    decreases s.len(),
{
    if s.len() == 0 {
        Seq::empty()
    } else {
        match find_char(s, '\n') {
            Some(k) => if 0 <= k < s.len() {
                seq![strip_cr(s.subrange(0, k))] + lines(s.subrange(k + 1, s.len() as int))
            } else {
                seq![s]
            },
            None => seq![s],
        }
    }
}

/// The lines of `s`.
pub fn lines_chars(s: &[char]) -> (r: Vec<Vec<char>>)
    ensures
        r.deep_view() == lines(s@),
{
    let mut r: Vec<Vec<char>> = Vec::new();
    let mut start: usize = 0;
    assert(s@.subrange(0, s@.len() as int) =~= s@);
    assert(r.deep_view() =~= Seq::<Seq<char>>::empty());
    loop
        invariant
            start <= s@.len(),
            lines(s@) == r.deep_view() + lines(s@.subrange(start as int, s@.len() as int)),
        decreases s@.len() - start,
    {
        let ghost t = s@.subrange(start as int, s@.len() as int);
        if start == s.len() {
            assert(lines(s@) =~= r.deep_view());
            return r;
        }
        match find_char_from(s, start, '\n') {
            Some(k) => {
                let mut piece = slice_chars(s, start, k);
                assert(t.subrange(0, k - start) =~= piece@);
                if piece.len() > 0 && piece[piece.len() - 1] == '\r' {
                    piece.pop();
                }
                assert(t.subrange(k - start + 1, t.len() as int) =~= s@.subrange(
                    k + 1,
                    s@.len() as int,
                ));
                push_piece(&mut r, piece);
                assert(lines(s@) =~= r.deep_view() + lines(s@.subrange(k + 1, s@.len() as int)));
                start = k + 1;
            },
            None => {
                let piece = slice_chars(s, start, s.len());
                push_piece(&mut r, piece);
                assert(lines(s@) =~= r.deep_view());
                return r;
            },
        }
    }
}

/// Whether `p` occurs in `s` at position `i`.
pub open spec fn occurs_at(s: Seq<char>, p: Seq<char>, i: int) -> bool {
    0 <= i && i + p.len() <= s.len() && s.subrange(i, i + p.len()) == p
}

/// Whether `p` occurs in `s` (std's `str::contains` with a string pattern).
pub open spec fn contains(s: Seq<char>, p: Seq<char>) -> bool {
    exists|i: int| occurs_at(s, p, i)
}

fn occurs_at_exec(s: &[char], p: &[char], i: usize) -> (r: bool)
    requires
        i + p@.len() <= s@.len(),
    ensures
        r == occurs_at(s@, p@, i as int),
{
    let n = s.len();
    let mut k: usize = 0;
    while k < p.len()
        invariant
            n == s@.len(),
            i + p@.len() <= s@.len(),
            k <= p@.len(),
            forall|j: int| 0 <= j < k ==> s@[i + j] == p@[j],
        decreases p@.len() - k,
    {
        if s[i + k] != p[k] {
            assert(s@.subrange(i as int, i + p@.len())[k as int] != p@[k as int]);
            return false;
        }
        k = k + 1;
    }
    assert(s@.subrange(i as int, i + p@.len()) =~= p@);
    true
}

/// Whether `p` occurs in `s`.
pub fn contains_chars(s: &[char], p: &[char]) -> (r: bool)
    ensures
        r == contains(s@, p@),
{
    if p.len() > s.len() {
        return false;
    }
    let last = s.len() - p.len();
    let mut i: usize = 0;
    while i <= last
        invariant_except_break
            i <= last,
        invariant
            last == s@.len() - p@.len(),
            forall|j: int| 0 <= j < i ==> !occurs_at(s@, p@, j),
        ensures
            forall|j: int| 0 <= j <= last ==> !occurs_at(s@, p@, j),
        decreases last - i,
    {
        if occurs_at_exec(s, p, i) {
            return true;
        }
        if i == last {
            break;
        }
        i = i + 1;
    }
    assert forall|j: int| !occurs_at(s@, p@, j) by {
        if 0 <= j <= last {
        }
    }
    false
}

/// Whether `s` starts with `p`.
pub open spec fn starts_with(s: Seq<char>, p: Seq<char>) -> bool {
    occurs_at(s, p, 0)
}

/// Whether `s` ends with `p`.
pub open spec fn ends_with(s: Seq<char>, p: Seq<char>) -> bool {
    p.len() <= s.len() && occurs_at(s, p, s.len() - p.len())
}

/// Whether `s` starts with `p`.
pub fn starts_with_chars(s: &[char], p: &[char]) -> (r: bool)
    ensures
        r == starts_with(s@, p@),
{
    if p.len() > s.len() {
        false
    } else {
        occurs_at_exec(s, p, 0)
    }
}

/// Whether `s` ends with `p`.
pub fn ends_with_chars(s: &[char], p: &[char]) -> (r: bool)
    ensures
        r == ends_with(s@, p@),
{
    if p.len() > s.len() {
        false
    } else {
        occurs_at_exec(s, p, s.len() - p.len())
    }
}

/// `s` without every trailing `c` (std's `str::trim_end_matches` with a `char`).
pub open spec fn trim_end_matches(s: Seq<char>, c: char) -> Seq<char>
    decreases s.len(),
{
    if s.len() > 0 && s.last() == c {
        trim_end_matches(s.drop_last(), c)
    } else {
        s
    }
}

/// `s` without every trailing `c`.
pub fn trim_end_matches_chars(s: &[char], c: char) -> (r: Vec<char>)
    ensures
        r@ == trim_end_matches(s@, c),
{
    let mut j: usize = s.len();
    assert(s@.subrange(0, j as int) =~= s@);
    while j > 0 && s[j - 1] == c
        invariant
            j <= s@.len(),
            trim_end_matches(s@, c) == trim_end_matches(s@.subrange(0, j as int), c),
        decreases j,
    {
        assert(s@.subrange(0, j as int).drop_last() =~= s@.subrange(0, j - 1));
        j = j - 1;
    }
    slice_chars(s, 0, j)
}

/// `s` followed by copies of `fill` up to `width` characters (std's `{:<width$}`
/// alignment with a fill character); longer text is left as it is.
pub open spec fn pad_right(s: Seq<char>, width: nat, fill: char) -> Seq<char> {
    if s.len() >= width {
        s
    } else {
        s + Seq::new((width - s.len()) as nat, |i: int| fill)
    }
}

/// Appends `s` padded to `width` with `fill` to `out`.
pub fn push_padded(out: &mut Vec<char>, s: &[char], width: usize, fill: char)
    ensures
        final(out)@ == old(out)@ + pad_right(s@, width as nat, fill),
{
    let ghost start = out@;
    let mut i: usize = 0;
    while i < s.len()
        invariant
            i <= s@.len(),
            out@ == start + s@.subrange(0, i as int),
        decreases s@.len() - i,
    {
        out.push(s[i]);
        i = i + 1;
    }
    assert(s@.subrange(0, s@.len() as int) =~= s@);
    let mut k: usize = s.len();
    while k < width
        invariant
            s@.len() <= k,
            k <= width || k == s@.len(),
            out@ == start + s@ + Seq::new((k - s@.len()) as nat, |i: int| fill),
        decreases width - k,
    {
        out.push(fill);
        k = k + 1;
        assert(out@ =~= start + s@ + Seq::new((k - s@.len()) as nat, |i: int| fill));
    }
    assert(out@ =~= start + pad_right(s@, width as nat, fill));
}

/// Appends the characters of `s` to `out`.
pub fn push_all(out: &mut Vec<char>, s: &[char])
    ensures
        final(out)@ == old(out)@ + s@,
{
    let ghost start = out@;
    let mut i: usize = 0;
    while i < s.len()
        invariant
            i <= s@.len(),
            out@ == start + s@.subrange(0, i as int),
        decreases s@.len() - i,
    {
        out.push(s[i]);
        i = i + 1;
    }
    assert(s@.subrange(0, s@.len() as int) =~= s@);
}

/// Appends the characters of the string `s` to `out`.
pub fn push_str(out: &mut Vec<char>, s: &str)
    ensures
        final(out)@ == old(out)@ + s@,
{
    let c = chars_of(s);
    push_all(out, c.as_slice());
}

/// The pieces joined with `sep` between neighbours (std's `join`).
pub open spec fn join(pieces: Seq<Seq<char>>, sep: Seq<char>) -> Seq<char>
    decreases pieces.len(),
{
    if pieces.len() == 0 {
        Seq::empty()
    } else if pieces.len() == 1 {
        pieces[0]
    } else {
        join(pieces.drop_last(), sep) + sep + pieces.last()
    }
}

/// `String`s holding the given character sequences.
pub fn strings_from(v: &Vec<Vec<char>>) -> (r: Vec<String>)
    ensures
        r.deep_view() == v.deep_view(),
{
    let mut r: Vec<String> = Vec::new();
    let mut i: usize = 0;
    while i < v.len()
        invariant
            i <= v@.len(),
            r.deep_view() == v.deep_view().take(i as int),
        decreases v@.len() - i,
    {
        let s = string_from_chars(v[i].as_slice());
        let ghost before = r.deep_view();
        let ghost sv = s@;
        r.push(s);
        assert(r@.last().deep_view() == sv);
        assert(v@[i as int].deep_view() =~= sv);
        assert(v.deep_view()[i as int] == v@[i as int].deep_view());
        assert(r.deep_view() =~= before.push(sv));
        assert(r.deep_view() =~= v.deep_view().take(i + 1));
        i = i + 1;
    }
    assert(v.deep_view().take(v@.len() as int) =~= v.deep_view());
    r
}


/// A copy of a list of strings.
pub fn clone_strings(v: &Vec<String>) -> (r: Vec<String>)
    ensures
        r.deep_view() == v.deep_view(),
{
    let mut r: Vec<String> = Vec::new();
    let mut i: usize = 0;
    while i < v.len()
        invariant
            i <= v@.len(),
            r.deep_view() == v.deep_view().take(i as int),
        decreases v@.len() - i,
    {
        let s = v[i].clone();
        let ghost before = r.deep_view();
        r.push(s);
        assert(r.deep_view() =~= before.push(v@[i as int]@));
        assert(r.deep_view() =~= v.deep_view().take(i + 1));
        i = i + 1;
    }
    assert(v.deep_view().take(v@.len() as int) =~= v.deep_view());
    r
}


/// The text that std's `Debug` formatting gives for a list of strings, such as
/// `["a", "b"]`.
pub uninterp spec fn debug_list_text(items: Seq<Seq<char>>) -> Seq<char>;

/// std's `Debug` formatting of a list of strings (`format!("{:?}", items)`).
///
/// Trusted: the contract claims only that the text depends on the strings alone;
/// what the text is (quoting and escaping) is left to std and not stated.
#[verifier::external_body]
pub(crate) fn debug_list(items: &Vec<String>) -> (r: String)
    ensures
        r@ == debug_list_text(items.deep_view()),
{
    format!("{:?}", items)
}

/// The length in bytes of the UTF-8 encoding of `s`, as std's `str::len` gives it.
pub open spec fn byte_len(s: Seq<char>) -> usize {
    vstd::utf8::encode_utf8(s).len() as usize
}

/// A text takes at least one byte per character.
pub proof fn lemma_chars_within_bytes(s: Seq<char>)
    ensures
        s.len() <= vstd::utf8::encode_utf8(s).len(),
    decreases s.len(),
{
    if s.len() > 0 {
        lemma_chars_within_bytes(s.drop_first());
    }
}

/// A padded text is as long as the width, or the text where it is longer.
pub proof fn lemma_pad_right_len(s: Seq<char>, width: nat, fill: char)
    ensures
        pad_right(s, width, fill).len() == if s.len() >= width {
            s.len()
        } else {
            width
        },
{
}

/// The length in bytes of the UTF-8 encoding of `s`.
pub fn byte_len_of(s: &String) -> (r: usize)
    ensures
        r == byte_len(s@),
{
    s.as_str().len()
}



/// The concatenation of the pieces.
pub fn concat_strings(pieces: &Vec<String>) -> (r: Vec<char>)
    ensures
        r@ == pieces.deep_view().flatten(),
{
    let ghost ps = pieces.deep_view();
    let mut r: Vec<char> = Vec::new();
    let mut i: usize = 0;
    while i < pieces.len()
        invariant
            i <= pieces@.len(),
            ps == pieces.deep_view(),
            r@ == ps.take(i as int).flatten(),
        decreases pieces@.len() - i,
    {
        assert(ps.take(i + 1) =~= ps.take(i as int).push(ps[i as int]));
        proof {
            ps.take(i as int).lemma_flatten_push(ps[i as int]);
        }
        push_str(&mut r, pieces[i].as_str());
        i = i + 1;
    }
    assert(ps.take(pieces@.len() as int) =~= ps);
    r
}

/// The pieces joined with `sep` between neighbours.
pub fn join_strings(pieces: &Vec<String>, sep: &str) -> (r: Vec<char>)
    ensures
        r@ == join(pieces.deep_view(), sep@),
{
    let ghost ps = pieces.deep_view();
    let sep_chars = chars_of(sep);
    let mut r: Vec<char> = Vec::new();
    let mut i: usize = 0;
    while i < pieces.len()
        invariant
            i <= pieces@.len(),
            ps == pieces.deep_view(),
            sep_chars@ == sep@,
            r@ == join(ps.take(i as int), sep@),
        decreases pieces@.len() - i,
    {
        assert(ps.take(i + 1).drop_last() =~= ps.take(i as int));
        if i > 0 {
            push_all(&mut r, sep_chars.as_slice());
        } else {
            assert(r@ =~= Seq::<char>::empty());
        }
        push_str(&mut r, pieces[i].as_str());
        i = i + 1;
    }
    assert(ps.take(pieces@.len() as int) =~= ps);
    r
}

} // verus!
