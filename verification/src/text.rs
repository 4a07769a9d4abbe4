//! Character-level text helpers: decimal numbers as std parses and prints
//! them, and whitespace trimming.

use vstd::prelude::*;
use crate::config::{ascii_lower, is_ascii_text};

verus! {

/// Appends one character to a string (std's `String::push`).
#[verifier::external_body]
pub(crate) fn string_push(s: &mut String, c: char)
    ensures
        final(s)@ == old(s)@.push(c),
{
    s.push(c)
}

/// The characters of a string slice, in order.
pub fn chars_of(s: &str) -> (r: Vec<char>)
    ensures
        r@ == s@,
{
    let n = s.unicode_len();
    let mut r: Vec<char> = Vec::new();
    let mut i: usize = 0;
    while i < n
        invariant
            n == s@.len(),
            i <= n,
            r@ == s@.subrange(0, i as int),
        decreases n - i,
    {
        let c = s.get_char(i);
        r.push(c);
        i = i + 1;
    }
    r
}


/// Whether a character is an ASCII decimal digit.
pub open spec fn is_digit(c: char) -> bool {
    '0' <= c && c <= '9'
}

/// The value of a digit character.
pub open spec fn digit_value(c: char) -> nat {
    ((c as int) - ('0' as int)) as nat
}

/// Why std's `FromStr` for an integer type refuses a string.
#[derive(Debug, Clone, Copy, PartialEq, Eq, Structural)]
pub enum IntErrorKind {
    /// The string is empty.
    Empty,
    /// A character is not a digit.
    InvalidDigit,
    /// The number is larger than the type holds.
    PosOverflow,
}

/// The value of the digits `d`, read from the left, or the first reason to
/// stop: a character that is not a digit, or a value past `max`.
pub open spec fn scan_digits(d: Seq<char>, max: nat) -> Result<nat, IntErrorKind>
    decreases d.len(),
{
    if d.len() == 0 {
        Ok(0)
    } else {
        match scan_digits(d.drop_last(), max) {
            Err(k) => Err(k),
            Ok(v) => if !is_digit(d.last()) {
                Err(IntErrorKind::InvalidDigit)
            } else if v * 10 + digit_value(d.last()) > max {
                Err(IntErrorKind::PosOverflow)
            } else {
                Ok(v * 10 + digit_value(d.last()))
            },
        }
    }
}

/// What std's `FromStr` for an unsigned integer type whose largest value is
/// `max` gives for `s`: an optional `+` followed by digits.
pub open spec fn spec_parse_int(s: Seq<char>, max: nat) -> Result<nat, IntErrorKind> {
    if s.len() == 0 {
        Err(IntErrorKind::Empty)
    } else if s[0] == '+' {
        if s.len() == 1 {
            Err(IntErrorKind::InvalidDigit)
        } else {
            scan_digits(s.drop_first(), max)
        }
    } else {
        scan_digits(s, max)
    }
}

/// The number that std's `FromStr` for an unsigned integer type whose
/// largest value is `max` reads from `s`, if any.
pub open spec fn spec_parse_unsigned(s: Seq<char>, max: nat) -> Option<nat> {
    match spec_parse_int(s, max) {
        Ok(v) => Some(v),
        Err(_) => None,
    }
}

/// Once the scan of a prefix has stopped, the scan of the whole stops the same way.
proof fn lemma_scan_error_persists(d: Seq<char>, k: int, max: nat)
    requires
        0 <= k <= d.len(),
        scan_digits(d.take(k), max) is Err,
    ensures
        scan_digits(d, max) == scan_digits(d.take(k), max),
    decreases d.len() - k,
{
    if k < d.len() {
        assert(d.take(k + 1).drop_last() =~= d.take(k));
        lemma_scan_error_persists(d, k + 1, max);
    } else {
        assert(d.take(k) =~= d);
    }
}

/// A scanned value is at most `max`.
proof fn lemma_scan_bounded(d: Seq<char>, max: nat)
    ensures
        scan_digits(d, max) matches Ok(v) ==> v <= max,
    decreases d.len(),
{
    if d.len() > 0 {
        lemma_scan_bounded(d.drop_last(), max);
    }
}

/// Scans the digits of `d` from position `start` as std does for a type whose
/// largest value is `max`.
fn scan_digits_from(d: &Vec<char>, start: usize, max: u64) -> (r: Result<u64, IntErrorKind>)
    requires
        start <= d@.len(),
    ensures
        r == (match scan_digits(d@.skip(start as int), max as nat) {
            Ok(v) => Ok(v as u64),
            Err(k) => Err::<u64, IntErrorKind>(k),
        }),
{
    let ghost t = d@.skip(start as int);
    let mut acc: u64 = 0;
    let mut i: usize = start;
    assert(t.take(0) =~= Seq::<char>::empty());
    while i < d.len()
        invariant
            start <= i <= d@.len(),
            t == d@.skip(start as int),
            scan_digits(t.take(i - start), max as nat) == Ok::<nat, IntErrorKind>(acc as nat),
            acc <= max,
        decreases d@.len() - i,
    {
        let c = d[i];
        let ghost k = i - start;
        proof {
            assert(t.take(k + 1).drop_last() =~= t.take(k));
            assert(t.take(k + 1).last() == c);
        }
        if !('0' <= c && c <= '9') {
            proof {
                lemma_scan_error_persists(t, k + 1, max as nat);
            }
            return Err(IntErrorKind::InvalidDigit);
        }
        let dv: u64 = (c as u64) - ('0' as u64);
        let next: u128 = (acc as u128) * 10 + (dv as u128);
        if next > max as u128 {
            proof {
                lemma_scan_error_persists(t, k + 1, max as nat);
            }
            return Err(IntErrorKind::PosOverflow);
        }
        acc = next as u64;
        i = i + 1;
    }
    proof {
        assert(t.take(i - start) =~= t);
    }
    Ok(acc)
}

/// Parses `s` as std's `FromStr` does for an unsigned integer type whose
/// largest value is `max`.
pub fn parse_unsigned(s: &str, max: u64) -> (r: Result<u64, IntErrorKind>)
    ensures
        r == (match spec_parse_int(s@, max as nat) {
            Ok(v) => Ok(v as u64),
            Err(k) => Err::<u64, IntErrorKind>(k),
        }),
{
    let d = chars_of(s);
    if d.len() == 0 {
        return Err(IntErrorKind::Empty);
    }
    if d[0] == '+' {
        if d.len() == 1 {
            return Err(IntErrorKind::InvalidDigit);
        }
        proof {
            assert(d@.skip(1) =~= s@.drop_first());
        }
        scan_digits_from(&d, 1, max)
    } else {
        proof {
            assert(d@.skip(0) =~= s@);
        }
        scan_digits_from(&d, 0, max)
    }
}

/// The message std's `ParseIntError` shows for each reason.
pub open spec fn spec_int_error_message(k: IntErrorKind) -> Seq<char> {
    match k {
        IntErrorKind::Empty => "cannot parse integer from empty string"@,
        IntErrorKind::InvalidDigit => "invalid digit found in string"@,
        IntErrorKind::PosOverflow => "number too large to fit in target type"@,
    }
}

/// The message std's `ParseIntError` shows for a reason.
pub fn int_error_message(k: IntErrorKind) -> (r: &'static str)
    ensures
        r@ == spec_int_error_message(k),
{
    match k {
        IntErrorKind::Empty => "cannot parse integer from empty string",
        IntErrorKind::InvalidDigit => "invalid digit found in string",
        IntErrorKind::PosOverflow => "number too large to fit in target type",
    }
}

/// Parses `s` as std's `str::parse::<u64>` does.
pub fn parse_u64(s: &str) -> (r: Option<u64>)
    ensures
        r == (match spec_parse_unsigned(s@, u64::MAX as nat) {
            Some(v) => Some(v as u64),
            None => None::<u64>,
        }),
{
    match parse_unsigned(s, u64::MAX) {
        Ok(v) => Some(v),
        Err(_) => None,
    }
}

/// Parses `s` as std's `str::parse::<u32>` does.
pub fn parse_u32(s: &str) -> (r: Option<u32>)
    ensures
        r == (match spec_parse_unsigned(s@, u32::MAX as nat) {
            Some(v) => Some(v as u32),
            None => None::<u32>,
        }),
{
    match parse_unsigned(s, u32::MAX as u64) {
        Ok(v) => {
            proof {
                lemma_scan_bounded(s@, u32::MAX as nat);
                lemma_scan_bounded(s@.drop_first(), u32::MAX as nat);
            }
            Some(v as u32)
        },
        Err(_) => None,
    }
}

/// Parses `s` as std's `str::parse::<usize>` does.
pub fn parse_usize(s: &str) -> (r: Result<usize, IntErrorKind>)
    ensures
        r == (match spec_parse_int(s@, usize::MAX as nat) {
            Ok(v) => Ok(v as usize),
            Err(k) => Err::<usize, IntErrorKind>(k),
        }),
{
    match parse_unsigned(s, usize::MAX as u64) {
        Ok(v) => {
            proof {
                lemma_scan_bounded(s@, usize::MAX as nat);
                lemma_scan_bounded(s@.drop_first(), usize::MAX as nat);
            }
            Ok(v as usize)
        },
        Err(k) => Err(k),
    }
}

/// The digit character of a value below ten.
pub open spec fn digit_char(d: nat) -> char {
    ((d + ('0' as nat)) as u32) as char
}

/// The decimal digits of `n`, as std's `Display` prints an unsigned integer.
pub open spec fn decimal(n: nat) -> Seq<char>
    decreases n,
{
    if n < 10 {
        seq![digit_char(n)]
    } else {
        decimal(n / 10).push(digit_char(n % 10))
    }
}

/// Appends the decimal digits of `n` to `s`.
pub fn push_decimal(s: &mut String, n: u64)
    ensures
        final(s)@ == old(s)@ + decimal(n as nat),
    decreases n,
{
    if n < 10 {
        let c = char_of_digit(n);
        string_push(s, c);
        assert(decimal(n as nat) =~= seq![c]);
    } else {
        push_decimal(s, n / 10);
        let c = char_of_digit(n % 10);
        string_push(s, c);
        assert(old(s)@ + decimal(n as nat) =~= old(s)@ + decimal((n / 10) as nat) + seq![c]);
    }
}

/// The digit character of a value below ten.
fn char_of_digit(d: u64) -> (c: char)
    requires
        d < 10,
    ensures
        c == digit_char(d as nat),
{
    let digits: [char; 10] = ['0', '1', '2', '3', '4', '5', '6', '7', '8', '9'];
    let c = digits[d as usize];
    assert(c == digit_char(d as nat)) by {
        assert(digits@[d as int] == c);
    }
    c
}

/// The decimal digits of `n` as a new string.
pub fn decimal_string(n: u64) -> (s: String)
    ensures
        s@ == decimal(n as nat),
{
    let mut s = String::new();
    push_decimal(&mut s, n);
    assert(Seq::<char>::empty() + decimal(n as nat) =~= decimal(n as nat));
    s
}

/// Whether a character is white space in the sense of `char::is_whitespace`
/// (the Unicode `White_Space` property).
pub open spec fn is_white_space(c: char) -> bool {
    ||| ('\u{9}' <= c && c <= '\u{d}')
    ||| c == ' '
    ||| c == '\u{85}'
    ||| c == '\u{a0}'
    ||| c == '\u{1680}'
    ||| ('\u{2000}' <= c && c <= '\u{200a}')
    ||| c == '\u{2028}'
    ||| c == '\u{2029}'
    ||| c == '\u{202f}'
    ||| c == '\u{205f}'
    ||| c == '\u{3000}'
}


/// `s` without its leading white space.
pub open spec fn trim_start_ws(s: Seq<char>) -> Seq<char>
    decreases s.len(),
{
    if s.len() > 0 && is_white_space(s[0]) {
        trim_start_ws(s.drop_first())
    } else {
        s
    }
}

/// `s` without its trailing white space.
pub open spec fn trim_end_ws(s: Seq<char>) -> Seq<char>
    decreases s.len(),
{
    if s.len() > 0 && is_white_space(s.last()) {
        trim_end_ws(s.drop_last())
    } else {
        s
    }
}

/// `s` without leading and trailing white space, as `str::trim` gives it.
pub open spec fn trim_ws(s: Seq<char>) -> Seq<char> {
    trim_end_ws(trim_start_ws(s))
}

/// Whether `c` is white space (the Unicode `White_Space` property).
pub fn is_white_space_char(c: char) -> (r: bool)
    ensures
        r == is_white_space(c),
{
    ('\u{9}' <= c && c <= '\u{d}') || c == ' ' || c == '\u{85}' || c == '\u{a0}' || c == '\u{1680}'
        || ('\u{2000}' <= c && c <= '\u{200a}') || c == '\u{2028}' || c == '\u{2029}' || c
        == '\u{202f}' || c == '\u{205f}' || c == '\u{3000}'
}

/// The characters of `v` from position `a` up to `b`, as a string.
pub fn string_of_chars(v: &Vec<char>, a: usize, b: usize) -> (r: String)
    requires
        a <= b <= v@.len(),
    ensures
        r@ == v@.subrange(a as int, b as int),
{
    let mut r = String::new();
    let mut i: usize = a;
    while i < b
        invariant
            a <= i <= b,
            b <= v@.len(),
            r@ == v@.subrange(a as int, i as int),
        decreases b - i,
    {
        string_push(&mut r, v[i]);
        i = i + 1;
        assert(r@ =~= v@.subrange(a as int, i as int));
    }
    r
}

/// `s` without leading and trailing white space (std's `str::trim`).
pub fn trim(s: &str) -> (r: String)
    ensures
        r@ == trim_ws(s@),
{
    let v = chars_of(s);
    let mut a: usize = 0;
    assert(v@.skip(0) =~= v@);
    while a < v.len() && is_white_space_char(v[a])
        invariant
            a <= v@.len(),
            v@ == s@,
            trim_start_ws(s@) == trim_start_ws(v@.skip(a as int)),
        decreases v@.len() - a,
    {
        assert(v@.skip(a as int).drop_first() =~= v@.skip(a + 1));
        a = a + 1;
    }
    assert(trim_start_ws(v@.skip(a as int)) == v@.skip(a as int));
    let mut b: usize = v.len();
    while b > a && is_white_space_char(v[b - 1])
        invariant
            a <= b <= v@.len(),
            v@ == s@,
            trim_ws(s@) == trim_end_ws(v@.subrange(a as int, b as int)),
        decreases b,
    {
        assert(v@.subrange(a as int, b as int).drop_last() =~= v@.subrange(a as int, b - 1));
        b = b - 1;
    }
    assert(v@.skip(a as int) =~= v@.subrange(a as int, v@.len() as int));
    string_of_chars(&v, a, b)
}

/// The pieces of `s` between the occurrences of `sep`, as `str::split` with a
/// character gives them: one more piece than there are separators.
pub open spec fn split_on(s: Seq<char>, sep: char) -> Seq<Seq<char>>
    decreases s.len(),
{
    if s.len() == 0 {
        seq![Seq::empty()]
    } else {
        let prev = split_on(s.drop_last(), sep);
        if s.last() == sep {
            prev.push(Seq::empty())
        } else {
            prev.update(prev.len() - 1, prev.last().push(s.last()))
        }
    }
}

/// Splitting never gives an empty list of pieces.
proof fn lemma_split_nonempty(s: Seq<char>, sep: char)
    ensures
        split_on(s, sep).len() >= 1,
    decreases s.len(),
{
    if s.len() > 0 {
        lemma_split_nonempty(s.drop_last(), sep);
    }
}

/// The pieces of `s` between the occurrences of `sep` (std's `str::split`).
pub fn split(s: &str, sep: char) -> (r: Vec<String>)
    ensures
        r@.map_values(|x: String| x@) == split_on(s@, sep),
{
    let v = chars_of(s);
    let mut fields: Vec<String> = Vec::new();
    let mut cur = String::new();
    let mut i: usize = 0;
    assert(v@.take(0) =~= Seq::<char>::empty());
    assert(fields@.map_values(|x: String| x@).push(cur@) =~= split_on(v@.take(0), sep));
    while i < v.len()
        invariant
            i <= v@.len(),
            v@ == s@,
            fields@.map_values(|x: String| x@).push(cur@) == split_on(v@.take(i as int), sep),
        decreases v@.len() - i,
    {
        let c = v[i];
        let ghost pre_fields = fields@.map_values(|x: String| x@);
        let ghost pre_cur = cur@;
        proof {
            assert(v@.take(i + 1).drop_last() =~= v@.take(i as int));
            assert(v@.take(i + 1).last() == c);
        }
        if c == sep {
            let mut fresh = String::new();
            std::mem::swap(&mut fresh, &mut cur);
            fields.push(fresh);
            assert(fields@.map_values(|x: String| x@) =~= pre_fields.push(pre_cur));
            assert(fields@.map_values(|x: String| x@).push(cur@) =~= pre_fields.push(pre_cur).push(
                Seq::empty(),
            ));
        } else {
            string_push(&mut cur, c);
            assert(fields@.map_values(|x: String| x@).push(cur@) =~= pre_fields.push(pre_cur).update(
                pre_fields.len() as int,
                pre_cur.push(c),
            ));
        }
        i = i + 1;
    }
    assert(v@.take(v@.len() as int) =~= v@);
    fields.push(cur);
    fields
}

/// Whether `p` occurs in `s` at position `i`.
pub open spec fn occurs_at(s: Seq<char>, p: Seq<char>, i: int) -> bool {
    0 <= i && i + p.len() <= s.len() && s.subrange(i, i + p.len()) == p
}

/// Whether `p` occurs in `s` (std's `str::contains` with a string pattern).
pub open spec fn contains_seq(s: Seq<char>, p: Seq<char>) -> bool {
    exists|i: int| #[trigger] occurs_at(s, p, i)
}

/// Whether `p` occurs in `v` at position `i`.
fn matches_at(v: &Vec<char>, p: &Vec<char>, i: usize) -> (r: bool)
    ensures
        r == occurs_at(v@, p@, i as int),
{
    if i > v.len() || p.len() > v.len() - i {
        return false;
    }
    let mut j: usize = 0;
    while j < p.len()
        invariant
            i + p.len() <= v.len(),
            j <= p@.len(),
            forall|k: int| 0 <= k < j ==> v@[i + k] == p@[k],
        decreases p@.len() - j,
    {
        if v[i + j] != p[j] {
            assert(v@.subrange(i as int, i + p@.len())[j as int] != p@[j as int]);
            return false;
        }
        j = j + 1;
    }
    assert(v@.subrange(i as int, i + p@.len()) =~= p@);
    true
}

/// Whether `p` occurs in `s`.
pub fn contains_str(s: &str, p: &str) -> (r: bool)
    ensures
        r == contains_seq(s@, p@),
{
    let v = chars_of(s);
    let w = chars_of(p);
    let mut i: usize = 0;
    while i <= v.len()
        invariant
            v@ == s@,
            w@ == p@,
            i <= v@.len() + 1,
            forall|k: int| 0 <= k < i ==> !occurs_at(v@, w@, k),
        decreases v@.len() + 1 - i,
    {
        if matches_at(&v, &w, i) {
            return true;
        }
        if i == v.len() {
            assert forall|k: int| !#[trigger] occurs_at(v@, w@, k) by {
                if 0 <= k && k <= i {
                } else if k > i {
                }
            }
            return false;
        }
        i = i + 1;
    }
    false
}

/// `s` with every occurrence of `p` removed, scanning from the left, as
/// `str::replace(p, "")` gives it.
pub open spec fn remove_all(s: Seq<char>, p: Seq<char>) -> Seq<char>
    decreases s.len(),
{
    if s.len() == 0 || p.len() == 0 {
        s
    } else if p.len() <= s.len() && s.take(p.len() as int) == p {
        remove_all(s.skip(p.len() as int), p)
    } else {
        seq![s[0]] + remove_all(s.drop_first(), p)
    }
}

/// `s` with every occurrence of the non-empty `p` removed (std's
/// `str::replace` with an empty replacement).
pub fn remove_str(s: &str, p: &str) -> (r: String)
    requires
        p@.len() > 0,
    ensures
        r@ == remove_all(s@, p@),
{
    let v = chars_of(s);
    let w = chars_of(p);
    let mut r = String::new();
    let mut i: usize = 0;
    assert(v@.skip(0) =~= v@);
    assert(r@ + remove_all(v@, w@) =~= remove_all(v@, w@));
    while i < v.len()
        invariant
            v@ == s@,
            w@ == p@,
            w@.len() > 0,
            i <= v@.len(),
            r@ + remove_all(v@.skip(i as int), w@) == remove_all(s@, p@),
        decreases v@.len() - i,
    {
        let ghost rest = v@.skip(i as int);
        if matches_at(&v, &w, i) {
            proof {
                assert(rest.take(w@.len() as int) =~= v@.subrange(i as int, i + w@.len()));
                assert(rest.skip(w@.len() as int) =~= v@.skip(i + w@.len()));
            }
            i = i + w.len();
        } else {
            proof {
                if w@.len() <= rest.len() {
                    assert(rest.take(w@.len() as int) =~= v@.subrange(i as int, i + w@.len()));
                }
                assert(rest.drop_first() =~= v@.skip(i + 1));
                assert(rest[0] == v@[i as int]);
            }
            let c = v[i];
            string_push(&mut r, c);
            assert(r@ + remove_all(v@.skip(i + 1), w@) =~= (r@.drop_last() + (seq![c] + remove_all(
                v@.skip(i + 1),
                w@,
            ))));
            i = i + 1;
        }
    }
    assert(v@.skip(i as int) =~= Seq::<char>::empty());
    assert(r@ + Seq::<char>::empty() =~= r@);
    r
}


/// Appends the characters of `t` to `s` (std's `String::push_str`).
pub fn push_chars(s: &mut String, t: &str)
    ensures
        final(s)@ == old(s)@ + t@,
{
    let v = chars_of(t);
    let mut i: usize = 0;
    while i < v.len()
        invariant
            i <= v@.len(),
            v@ == t@,
            s@ == old(s)@ + v@.take(i as int),
        decreases v@.len() - i,
    {
        string_push(s, v[i]);
        i = i + 1;
        assert(s@ =~= old(s)@ + v@.take(i as int));
    }
    assert(v@.take(v@.len() as int) =~= v@);
}

/// The pieces joined with a comma between each two, as `join(",")` gives them.
pub open spec fn joined_with_commas(fields: Seq<Seq<char>>) -> Seq<char>
    decreases fields.len(),
{
    if fields.len() == 0 {
        Seq::empty()
    } else if fields.len() == 1 {
        fields[0]
    } else {
        joined_with_commas(fields.drop_last()) + seq![','] + fields.last()
    }
}

/// Joins the pieces with a comma between each two.
pub fn join_with_commas(fields: &Vec<String>) -> (r: String)
    ensures
        r@ == joined_with_commas(fields@.map_values(|x: String| x@)),
{
    let ghost views = fields@.map_values(|x: String| x@);
    let mut r = String::new();
    let mut i: usize = 0;
    while i < fields.len()
        invariant
            i <= fields@.len(),
            views == fields@.map_values(|x: String| x@),
            r@ == joined_with_commas(views.take(i as int)),
        decreases fields@.len() - i,
    {
        proof {
            assert(views.take(i + 1).drop_last() =~= views.take(i as int));
        }
        if i > 0 {
            string_push(&mut r, ',');
        }
        push_chars(&mut r, fields[i].as_str());
        i = i + 1;
        proof {
            if i == 1 {
                assert(r@ =~= views.take(1)[0]);
            } else {
                assert(r@ =~= joined_with_commas(views.take(i - 1)) + seq![','] + views.take(
                    i as int,
                ).last());
            }
        }
    }
    assert(views.take(fields@.len() as int) =~= views);
    r
}

/// What `str::to_lowercase` returns for a string.
pub uninterp spec fn spec_to_lowercase(s: Seq<char>) -> Seq<char>;

/// Calls `str::to_lowercase`. The contract ties the result, by the name
/// `spec_to_lowercase`, to the characters of the argument, and states it for
/// ASCII text, where std's documented per-character lower-case mapping turns
/// `A` to `Z` into `a` to `z` and leaves every other character as it is; the
/// Unicode case tables that define it beyond ASCII are not restated.
#[verifier::external_body]
pub(crate) fn str_to_lowercase(s: &str) -> (r: String)
    ensures
        r@ == spec_to_lowercase(s@),
        is_ascii_text(s@) ==> r@ == ascii_lower(s@),
{
    s.to_lowercase()
}

} // verus!
