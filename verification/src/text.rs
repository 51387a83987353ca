//! Character-sequence helpers shared by the naming, path and lyric modules.

use vstd::prelude::*;

verus! {

/// The characters of a string slice, in order.
pub fn str_chars(s: &str) -> (v: Vec<char>)
    ensures
        v@ == s@,
{
    let n = s.unicode_len();
    let mut v: Vec<char> = Vec::new();
    let mut i: usize = 0;
    while i < n
        invariant
            n == s@.len(),
            i <= n,
            v@ == s@.subrange(0, i as int),
        decreases n - i,
    {
        v.push(s.get_char(i));
        i = i + 1;
    }
    v
}

/// Appends the characters of a string slice.
pub fn push_str_chars(out: &mut Vec<char>, s: &str)
    ensures
        final(out)@ == old(out)@ + s@,
{
    let mut cs = str_chars(s);
    out.append(&mut cs);
}

/// Appends one character to a string (`String::push`).
#[verifier::external_body]
pub(crate) fn push_char(s: &mut String, c: char)
    ensures
        final(s)@ == old(s)@.push(c),
{
    s.push(c);
}

/// A string holding exactly the given characters.
pub fn string_from_chars(v: &[char]) -> (s: String)
    ensures
        s@ == v@,
{
    let mut s = String::new();
    let mut i: usize = 0;
    while i < v.len()
        invariant
            i <= v.len(),
            s@ == v@.subrange(0, i as int),
        decreases v.len() - i,
    {
        push_char(&mut s, v[i]);
        i = i + 1;
    }
    s
}

/// Whether two character slices are equal.
pub fn chars_eq(a: &[char], b: &[char]) -> (r: bool)
    ensures
        r == (a@ == b@),
{
    if a.len() != b.len() {
        return false;
    }
    let mut i: usize = 0;
    while i < a.len()
        invariant
            a.len() == b.len(),
            i <= a.len(),
            forall|j: int| 0 <= j < i ==> a@[j] == b@[j],
        decreases a.len() - i,
    {
        if a[i] != b[i] {
            return false;
        }
        i = i + 1;
    }
    assert(a@ =~= b@);
    true
}

/// Whether two string slices hold the same characters.
pub fn str_eq(a: &str, b: &str) -> (r: bool)
    ensures
        r == (a@ == b@),
{
    let x = str_chars(a);
    let y = str_chars(b);
    chars_eq(x.as_slice(), y.as_slice())
}

/// Whether a character has the Unicode `White_Space` property (`char::is_whitespace`).
pub open spec fn spec_is_whitespace(c: char) -> bool {
    let v = c as u32;
    (0x9 <= v && v <= 0xD) || v == 0x20 || v == 0x85 || v == 0xA0 || v == 0x1680
        || (0x2000 <= v && v <= 0x200A) || v == 0x2028 || v == 0x2029 || v == 0x202F
        || v == 0x205F || v == 0x3000
}

/// Whether a character has the Unicode `White_Space` property.
pub fn is_whitespace(c: char) -> (r: bool)
    ensures
        r == spec_is_whitespace(c),
{
    let v = c as u32;
    (0x9 <= v && v <= 0xD) || v == 0x20 || v == 0x85 || v == 0xA0 || v == 0x1680
        || (0x2000 <= v && v <= 0x200A) || v == 0x2028 || v == 0x2029 || v == 0x202F
        || v == 0x205F || v == 0x3000
}

/// Whether a character is a Unicode decimal digit (general category `Nd`),
/// the class that `\d` denotes in a regular expression.
pub open spec fn spec_is_decimal_digit(c: char) -> bool {
    let v = c as u32;
    (0x30 <= v && v <= 0x39)
        || (0x660 <= v && v <= 0x669)
        || (0x6F0 <= v && v <= 0x6F9)
        || (0x7C0 <= v && v <= 0x7C9)
        || (0x966 <= v && v <= 0x96F)
        || (0x9E6 <= v && v <= 0x9EF)
        || (0xA66 <= v && v <= 0xA6F)
        || (0xAE6 <= v && v <= 0xAEF)
        || (0xB66 <= v && v <= 0xB6F)
        || (0xBE6 <= v && v <= 0xBEF)
        || (0xC66 <= v && v <= 0xC6F)
        || (0xCE6 <= v && v <= 0xCEF)
        || (0xD66 <= v && v <= 0xD6F)
        || (0xDE6 <= v && v <= 0xDEF)
        || (0xE50 <= v && v <= 0xE59)
        || (0xED0 <= v && v <= 0xED9)
        || (0xF20 <= v && v <= 0xF29)
        || (0x1040 <= v && v <= 0x1049)
        || (0x1090 <= v && v <= 0x1099)
        || (0x17E0 <= v && v <= 0x17E9)
        || (0x1810 <= v && v <= 0x1819)
        || (0x1946 <= v && v <= 0x194F)
        || (0x19D0 <= v && v <= 0x19D9)
        || (0x1A80 <= v && v <= 0x1A89)
        || (0x1A90 <= v && v <= 0x1A99)
        || (0x1B50 <= v && v <= 0x1B59)
        || (0x1BB0 <= v && v <= 0x1BB9)
        || (0x1C40 <= v && v <= 0x1C49)
        || (0x1C50 <= v && v <= 0x1C59)
        || (0xA620 <= v && v <= 0xA629)
        || (0xA8D0 <= v && v <= 0xA8D9)
        || (0xA900 <= v && v <= 0xA909)
        || (0xA9D0 <= v && v <= 0xA9D9)
        || (0xA9F0 <= v && v <= 0xA9F9)
        || (0xAA50 <= v && v <= 0xAA59)
        || (0xABF0 <= v && v <= 0xABF9)
        || (0xFF10 <= v && v <= 0xFF19)
        || (0x104A0 <= v && v <= 0x104A9)
        || (0x10D30 <= v && v <= 0x10D39)
        || (0x10D40 <= v && v <= 0x10D49)
        || (0x11066 <= v && v <= 0x1106F)
        || (0x110F0 <= v && v <= 0x110F9)
        || (0x11136 <= v && v <= 0x1113F)
        || (0x111D0 <= v && v <= 0x111D9)
        || (0x112F0 <= v && v <= 0x112F9)
        || (0x11450 <= v && v <= 0x11459)
        || (0x114D0 <= v && v <= 0x114D9)
        || (0x11650 <= v && v <= 0x11659)
        || (0x116C0 <= v && v <= 0x116C9)
        || (0x116D0 <= v && v <= 0x116E3)
        || (0x11730 <= v && v <= 0x11739)
        || (0x118E0 <= v && v <= 0x118E9)
        || (0x11950 <= v && v <= 0x11959)
        || (0x11BF0 <= v && v <= 0x11BF9)
        || (0x11C50 <= v && v <= 0x11C59)
        || (0x11D50 <= v && v <= 0x11D59)
        || (0x11DA0 <= v && v <= 0x11DA9)
        || (0x11F50 <= v && v <= 0x11F59)
        || (0x16130 <= v && v <= 0x16139)
        || (0x16A60 <= v && v <= 0x16A69)
        || (0x16AC0 <= v && v <= 0x16AC9)
        || (0x16B50 <= v && v <= 0x16B59)
        || (0x16D70 <= v && v <= 0x16D79)
        || (0x1CCF0 <= v && v <= 0x1CCF9)
        || (0x1D7CE <= v && v <= 0x1D7FF)
        || (0x1E140 <= v && v <= 0x1E149)
        || (0x1E2F0 <= v && v <= 0x1E2F9)
        || (0x1E4F0 <= v && v <= 0x1E4F9)
        || (0x1E5F1 <= v && v <= 0x1E5FA)
        || (0x1E950 <= v && v <= 0x1E959)
        || (0x1FBF0 <= v && v <= 0x1FBF9)
}

/// Whether a character is a Unicode decimal digit.
pub fn is_decimal_digit(c: char) -> (r: bool)
    ensures
        r == spec_is_decimal_digit(c),
{
    let v = c as u32;
    (0x30 <= v && v <= 0x39)
        || (0x660 <= v && v <= 0x669)
        || (0x6F0 <= v && v <= 0x6F9)
        || (0x7C0 <= v && v <= 0x7C9)
        || (0x966 <= v && v <= 0x96F)
        || (0x9E6 <= v && v <= 0x9EF)
        || (0xA66 <= v && v <= 0xA6F)
        || (0xAE6 <= v && v <= 0xAEF)
        || (0xB66 <= v && v <= 0xB6F)
        || (0xBE6 <= v && v <= 0xBEF)
        || (0xC66 <= v && v <= 0xC6F)
        || (0xCE6 <= v && v <= 0xCEF)
        || (0xD66 <= v && v <= 0xD6F)
        || (0xDE6 <= v && v <= 0xDEF)
        || (0xE50 <= v && v <= 0xE59)
        || (0xED0 <= v && v <= 0xED9)
        || (0xF20 <= v && v <= 0xF29)
        || (0x1040 <= v && v <= 0x1049)
        || (0x1090 <= v && v <= 0x1099)
        || (0x17E0 <= v && v <= 0x17E9)
        || (0x1810 <= v && v <= 0x1819)
        || (0x1946 <= v && v <= 0x194F)
        || (0x19D0 <= v && v <= 0x19D9)
        || (0x1A80 <= v && v <= 0x1A89)
        || (0x1A90 <= v && v <= 0x1A99)
        || (0x1B50 <= v && v <= 0x1B59)
        || (0x1BB0 <= v && v <= 0x1BB9)
        || (0x1C40 <= v && v <= 0x1C49)
        || (0x1C50 <= v && v <= 0x1C59)
        || (0xA620 <= v && v <= 0xA629)
        || (0xA8D0 <= v && v <= 0xA8D9)
        || (0xA900 <= v && v <= 0xA909)
        || (0xA9D0 <= v && v <= 0xA9D9)
        || (0xA9F0 <= v && v <= 0xA9F9)
        || (0xAA50 <= v && v <= 0xAA59)
        || (0xABF0 <= v && v <= 0xABF9)
        || (0xFF10 <= v && v <= 0xFF19)
        || (0x104A0 <= v && v <= 0x104A9)
        || (0x10D30 <= v && v <= 0x10D39)
        || (0x10D40 <= v && v <= 0x10D49)
        || (0x11066 <= v && v <= 0x1106F)
        || (0x110F0 <= v && v <= 0x110F9)
        || (0x11136 <= v && v <= 0x1113F)
        || (0x111D0 <= v && v <= 0x111D9)
        || (0x112F0 <= v && v <= 0x112F9)
        || (0x11450 <= v && v <= 0x11459)
        || (0x114D0 <= v && v <= 0x114D9)
        || (0x11650 <= v && v <= 0x11659)
        || (0x116C0 <= v && v <= 0x116C9)
        || (0x116D0 <= v && v <= 0x116E3)
        || (0x11730 <= v && v <= 0x11739)
        || (0x118E0 <= v && v <= 0x118E9)
        || (0x11950 <= v && v <= 0x11959)
        || (0x11BF0 <= v && v <= 0x11BF9)
        || (0x11C50 <= v && v <= 0x11C59)
        || (0x11D50 <= v && v <= 0x11D59)
        || (0x11DA0 <= v && v <= 0x11DA9)
        || (0x11F50 <= v && v <= 0x11F59)
        || (0x16130 <= v && v <= 0x16139)
        || (0x16A60 <= v && v <= 0x16A69)
        || (0x16AC0 <= v && v <= 0x16AC9)
        || (0x16B50 <= v && v <= 0x16B59)
        || (0x16D70 <= v && v <= 0x16D79)
        || (0x1CCF0 <= v && v <= 0x1CCF9)
        || (0x1D7CE <= v && v <= 0x1D7FF)
        || (0x1E140 <= v && v <= 0x1E149)
        || (0x1E2F0 <= v && v <= 0x1E2F9)
        || (0x1E4F0 <= v && v <= 0x1E4F9)
        || (0x1E5F1 <= v && v <= 0x1E5FA)
        || (0x1E950 <= v && v <= 0x1E959)
        || (0x1FBF0 <= v && v <= 0x1FBF9)
}

/// Whether a character is one of `0`..`9`.
pub open spec fn spec_is_ascii_digit(c: char) -> bool {
    '0' <= c && c <= '9'
}

/// The value of an ASCII digit.
pub open spec fn digit_value(c: char) -> nat {
    ((c as u32) - 48) as nat
}

/// The character of a decimal digit value below ten.
pub open spec fn digit_char(d: nat) -> char {
    if d == 0 { '0' } else if d == 1 { '1' } else if d == 2 { '2' } else if d == 3 { '3' }
    else if d == 4 { '4' } else if d == 5 { '5' } else if d == 6 { '6' } else if d == 7 { '7' }
    else if d == 8 { '8' } else { '9' }
}

/// The character of a decimal digit value below ten.
pub fn digit_char_of(d: u64) -> (c: char)
    requires
        d < 10,
    ensures
        c == digit_char(d as nat),
{
    if d == 0 { '0' } else if d == 1 { '1' } else if d == 2 { '2' } else if d == 3 { '3' }
    else if d == 4 { '4' } else if d == 5 { '5' } else if d == 6 { '6' } else if d == 7 { '7' }
    else if d == 8 { '8' } else { '9' }
}

/// The decimal representation of `n`, without leading zeros.
pub open spec fn spec_decimal(n: nat) -> Seq<char>
    decreases n,
{
    if n < 10 {
        seq![digit_char(n)]
    } else {
        spec_decimal(n / 10).push(digit_char(n % 10))
    }
}

/// Appends the decimal representation of `n`.
pub fn push_decimal(n: u64, out: &mut Vec<char>)
    ensures
        final(out)@ == old(out)@ + spec_decimal(n as nat),
    decreases n,
{
    if n >= 10 {
        push_decimal(n / 10, out);
    }
    out.push(digit_char_of(n % 10));
    assert(final(out)@ =~= old(out)@ + spec_decimal(n as nat));
}

/// The value of a run of ASCII digits.
pub open spec fn spec_digits_value(s: Seq<char>) -> nat
    decreases s.len(),
{
    if s.len() == 0 {
        0
    } else {
        spec_digits_value(s.drop_last()) * 10 + digit_value(s.last())
    }
}

/// Whether every character is an ASCII digit.
pub open spec fn spec_all_ascii_digits(d: Seq<char>) -> bool {
    forall|i: int| 0 <= i < d.len() ==> spec_is_ascii_digit(#[trigger] d[i])
}

/// The characters after an optional leading `+`.
pub open spec fn spec_unsigned_digits(s: Seq<char>) -> Seq<char> {
    if s.len() > 0 && s[0] == '+' {
        s.drop_first()
    } else {
        s
    }
}

/// What `str::parse::<u64>` yields: an optional `+`, then one or more ASCII
/// digits whose value fits in a `u64`.
pub open spec fn spec_parse_u64(s: Seq<char>) -> Option<u64> {
    let digits = spec_unsigned_digits(s);
    if digits.len() > 0 && spec_all_ascii_digits(digits) && spec_digits_value(digits) <= u64::MAX {
        Some(spec_digits_value(digits) as u64)
    } else {
        None
    }
}

/// Extending a run of digits never lowers its value.
pub proof fn lemma_digits_value_prefix(s: Seq<char>, i: int)
    requires
        0 <= i <= s.len(),
    ensures
        spec_digits_value(s.take(i)) <= spec_digits_value(s),
    decreases s.len() - i,
{
    if i < s.len() {
        lemma_digits_value_prefix(s, i + 1);
        assert(s.take(i + 1).drop_last() =~= s.take(i));
    } else {
        assert(s.take(i) =~= s);
    }
}

/// Parses a `u64` as `str::parse` does.
pub fn parse_u64(s: &[char]) -> (r: Option<u64>)
    ensures
        r == spec_parse_u64(s@),
{
    let start: usize = if s.len() > 0 && s[0] == '+' { 1 } else { 0 };
    let ghost digits = spec_unsigned_digits(s@);
    assert(digits =~= s@.subrange(start as int, s@.len() as int));
    if start >= s.len() {
        return None;
    }
    let mut value: u64 = 0;
    let mut i: usize = start;
    while i < s.len()
        invariant
            start <= i <= s.len(),
            digits =~= s@.subrange(start as int, s@.len() as int),
            digits == spec_unsigned_digits(s@),
            value == spec_digits_value(digits.take(i - start)),
            forall|k: int| 0 <= k < i - start ==> spec_is_ascii_digit(#[trigger] digits[k]),
        decreases s.len() - i,
    {
        let c = s[i];
        if !('0' <= c && c <= '9') {
            assert(digits[i - start] == c);
            assert(!spec_is_ascii_digit(digits[i - start]));
            assert(!(forall|k: int| 0 <= k < digits.len() ==> spec_is_ascii_digit(#[trigger] digits[k])));
            return None;
        }
        assert(digits.take(i + 1 - start).drop_last() =~= digits.take(i - start));
        let d = (c as u32 - 48) as u64;
        if value > (u64::MAX - d) / 10 {
            proof {
                lemma_digits_value_prefix(digits, i + 1 - start);
                assert(spec_digits_value(digits.take(i + 1 - start)) == value * 10 + d);
            }
            return None;
        }
        value = value * 10 + d;
        i = i + 1;
    }
    assert(digits.take(i - start) =~= digits);
    Some(value)
}

/// The string with leading whitespace removed.
pub open spec fn spec_trim_start(s: Seq<char>) -> Seq<char>
    decreases s.len(),
{
    if s.len() > 0 && spec_is_whitespace(s[0]) {
        spec_trim_start(s.drop_first())
    } else {
        s
    }
}

/// The string with trailing whitespace removed.
pub open spec fn spec_trim_end(s: Seq<char>) -> Seq<char>
    decreases s.len(),
{
    if s.len() > 0 && spec_is_whitespace(s.last()) {
        spec_trim_end(s.drop_last())
    } else {
        s
    }
}

/// The string with leading and trailing whitespace removed (`str::trim`).
pub open spec fn spec_trim(s: Seq<char>) -> Seq<char> {
    spec_trim_end(spec_trim_start(s))
}

/// Trimming keeps a string whose first character is not whitespace non-empty.
pub proof fn lemma_trim_keeps_non_space(s: Seq<char>)
    requires
        s.len() > 0,
        !spec_is_whitespace(s[0]),
    ensures
        spec_trim(s).len() > 0,
{
    lemma_trim_end_keeps_first(s);
}

/// Trimming the end keeps a first character that is not whitespace.
pub proof fn lemma_trim_end_keeps_first(s: Seq<char>)
    requires
        s.len() > 0,
        !spec_is_whitespace(s[0]),
    ensures
        spec_trim_end(s).len() > 0,
    decreases s.len(),
{
    if spec_is_whitespace(s.last()) {
        lemma_trim_end_keeps_first(s.drop_last());
    }
}

/// The bounds of the trimmed part of `s`.
pub fn trim_bounds(s: &[char]) -> (r: (usize, usize))
    ensures
        r.0 <= r.1 <= s.len(),
        s@.subrange(r.0 as int, r.1 as int) == spec_trim(s@),
{
    let mut i: usize = 0;
    assert(s@.subrange(0, s@.len() as int) =~= s@);
    while i < s.len() && is_whitespace(s[i])
        invariant
            i <= s.len(),
            spec_trim_start(s@) == spec_trim_start(s@.subrange(i as int, s@.len() as int)),
        decreases s.len() - i,
    {
        assert(s@.subrange(i as int, s@.len() as int).drop_first() =~= s@.subrange(i + 1, s@.len() as int));
        i = i + 1;
    }
    let mut j: usize = s.len();
    while j > i && is_whitespace(s[j - 1])
        invariant
            i <= j <= s.len(),
            spec_trim_start(s@) == s@.subrange(i as int, s@.len() as int),
            spec_trim_end(spec_trim_start(s@)) == spec_trim_end(s@.subrange(i as int, j as int)),
        decreases j - i,
    {
        assert(s@.subrange(i as int, j as int).drop_last() =~= s@.subrange(i as int, j - 1));
        j = j - 1;
    }
    (i, j)
}

/// Whether every character is whitespace, that is, the trimmed string is empty.
pub fn is_blank(s: &[char]) -> (r: bool)
    ensures
        r == (spec_trim(s@).len() == 0),
{
    let (a, b) = trim_bounds(s);
    a == b
}

/// A hexadecimal digit in lower case.
pub open spec fn hex_digit(d: nat) -> char {
    if d < 10 {
        ((d + 48) as u8) as char
    } else {
        ((d + 87) as u8) as char
    }
}

/// The lower-case hexadecimal representation of `n` (`{:x}`).
pub open spec fn spec_hex(n: nat) -> Seq<char>
    decreases n,
{
    if n < 16 {
        seq![hex_digit(n)]
    } else {
        spec_hex(n / 16).push(hex_digit(n % 16))
    }
}

/// Appends the lower-case hexadecimal representation of `n`.
pub fn push_hex(n: u64, out: &mut Vec<char>)
    ensures
        final(out)@ == old(out)@ + spec_hex(n as nat),
    decreases n,
{
    if n >= 16 {
        push_hex(n / 16, out);
    }
    let d = (n % 16) as u8;
    let c = if d < 10 {
        (d + 48) as char
    } else {
        (d + 87) as char
    };
    out.push(c);
    assert(final(out)@ =~= old(out)@ + spec_hex(n as nat));
}

} // verus!
