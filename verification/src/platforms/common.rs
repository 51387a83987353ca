//! Text helpers shared by the platform parsers: splitting, joining, number ids.

use vstd::prelude::*;

use crate::json::{
    json_view, opt_as_str, opt_as_u64, opt_deref, opt_view, spec_as_str, spec_as_u64, JsonValue, JsonView,
};
use crate::text::{is_blank, parse_u64, push_decimal, spec_decimal, spec_parse_u64, spec_trim, str_chars, string_from_chars, trim_bounds};

verus! {

/// The index of the first `c` at or after `i`, or none.
pub open spec fn spec_index_of(s: Seq<char>, c: char, i: int) -> Option<int>
    decreases s.len() - i,
{
    if i < 0 || i >= s.len() {
        None
    } else if s[i] == c {
        Some(i)
    } else {
        spec_index_of(s, c, i + 1)
    }
}

/// The pieces of `s` between the separators `c` (`str::split` with a character).
pub open spec fn spec_split(s: Seq<char>, c: char) -> Seq<Seq<char>>
    decreases s.len(),
{
    match spec_index_of(s, c, 0) {
        None => seq![s],
        Some(k) => if 0 <= k < s.len() {
            seq![s.take(k)] + spec_split(s.skip(k + 1), c)
        } else {
            seq![s]
        },
    }
}

/// The pieces joined with a separator (`join`).
pub open spec fn spec_join(parts: Seq<Seq<char>>, sep: Seq<char>) -> Seq<char>
    decreases parts.len(),
{
    if parts.len() == 0 {
        Seq::empty()
    } else if parts.len() == 1 {
        parts[0]
    } else {
        spec_join(parts.drop_last(), sep) + sep + parts.last()
    }
}

/// A number id as a string: the number, or a number written as a string (trimmed
/// first when `trim` is set); only a positive id counts, else empty.
pub open spec fn spec_entity_id(v: JsonView, trim: bool) -> Seq<char> {
    let n = match spec_as_u64(v) {
        Some(n) => Some(n),
        None => match spec_as_str(v) {
            Some(s) => spec_parse_u64(if trim {
                spec_trim(s)
            } else {
                s
            }),
            None => None,
        },
    };
    match n {
        Some(x) => if x > 0 {
            spec_decimal(x as nat)
        } else {
            Seq::empty()
        },
        None => Seq::empty(),
    }
}

/// The text of an optional value when it is a non-empty string.
pub open spec fn spec_non_empty_str(v: JsonView) -> Option<Seq<char>> {
    match spec_as_str(v) {
        Some(s) => if s.len() > 0 {
            Some(s)
        } else {
            None
        },
        None => None,
    }
}

/// The text of a value when it is a string, else empty.
pub open spec fn spec_str_or_empty(v: JsonView) -> Seq<char> {
    match spec_as_str(v) {
        Some(s) => s,
        None => Seq::empty(),
    }
}

/// The index of the first `c` at or after `i`.
pub fn index_of(s: &[char], c: char, i: usize) -> (r: Option<usize>)
    requires
        i <= s.len(),
    ensures
        match spec_index_of(s@, c, i as int) {
            Some(k) => r is Some && r->0 == k && i <= k < s.len() && s@[k] == c,
            None => r is None,
        },
{
    proof {
        lemma_index_of(s@, c, i as int);
    }
    let mut j = i;
    while j < s.len()
        invariant
            i <= j <= s.len(),
            spec_index_of(s@, c, i as int) == spec_index_of(s@, c, j as int),
        decreases s.len() - j,
    {
        if s[j] == c {
            return Some(j);
        }
        j = j + 1;
    }
    None
}

/// The index found lies in the text and holds the character.
pub proof fn lemma_index_of(s: Seq<char>, c: char, i: int)
    requires
        0 <= i,
    ensures
        match spec_index_of(s, c, i) {
            Some(k) => i <= k < s.len() && s[k] == c,
            None => true,
        },
    decreases s.len() - i,
{
    if i < s.len() && s[i] != c {
        lemma_index_of(s, c, i + 1);
    }
}

/// Searching from `i` finds what searching the part from `i` finds, shifted.
pub proof fn lemma_index_of_shift(s: Seq<char>, c: char, i: int, j: int)
    requires
        0 <= i <= j,
        i <= s.len(),
    ensures
        spec_index_of(s, c, j) == match spec_index_of(s.skip(i), c, j - i) {
            Some(k) => Some(k + i),
            None => None::<int>,
        },
    decreases s.len() - j,
{
    if j < s.len() {
        assert(s.skip(i)[j - i] == s[j]);
        if s[j] != c {
            lemma_index_of_shift(s, c, i, j + 1);
        }
    }
}

/// The characters from `a` to `b`.
pub fn chars_between(s: &[char], a: usize, b: usize) -> (r: Vec<char>)
    requires
        a <= b <= s.len(),
    ensures
        r@ == s@.subrange(a as int, b as int),
{
    let mut out: Vec<char> = Vec::new();
    let mut k = a;
    while k < b
        invariant
            a <= k <= b,
            b <= s.len(),
            out@ == s@.subrange(a as int, k as int),
        decreases b - k,
    {
        out.push(s[k]);
        k = k + 1;
    }
    out
}

/// Splits at every `c`.
pub fn split_chars(s: &[char], c: char) -> (r: Vec<Vec<char>>)
    ensures
        r@.map_values(|p: Vec<char>| p@) == spec_split(s@, c),
{
    let mut out: Vec<Vec<char>> = Vec::new();
    let mut start: usize = 0;
    assert(s@.skip(0) =~= s@);
    loop
        invariant
            start <= s.len(),
            out@.map_values(|p: Vec<char>| p@) + spec_split(s@.skip(start as int), c) == spec_split(s@, c),
        decreases s.len() - start,
    {
        let ghost rest = s@.skip(start as int);
        proof {
            lemma_index_of_shift(s@, c, start as int, start as int);
        }
        match index_of(s, c, start) {
            None => {
                let piece = chars_between(s, start, s.len());
                assert(piece@ =~= rest);
                assert(spec_index_of(rest, c, 0) is None);
                let ghost before = out@.map_values(|p: Vec<char>| p@);
                out.push(piece);
                assert(out@.map_values(|p: Vec<char>| p@) =~= before.push(rest));
                assert(before.push(rest) =~= before + seq![rest]);
                return out;
            },
            Some(k) => {
                let piece = chars_between(s, start, k);
                assert(piece@ =~= rest.take(k - start));
                assert(rest.skip(k - start + 1) =~= s@.skip(k + 1));
                let ghost before = out@.map_values(|p: Vec<char>| p@);
                out.push(piece);
                assert(out@.map_values(|p: Vec<char>| p@) =~= before.push(rest.take(k - start)));
                assert(spec_split(rest, c) == seq![rest.take(k - start)] + spec_split(rest.skip(k - start + 1), c));
                assert(before.push(rest.take(k - start)) + spec_split(s@.skip(k + 1), c) =~= before + spec_split(rest, c));
                start = k + 1;
            },
        }
    }
}

/// Joins the pieces with a separator.
pub fn join_chars(parts: &Vec<Vec<char>>, sep: &str) -> (r: Vec<char>)
    ensures
        r@ == spec_join(parts@.map_values(|p: Vec<char>| p@), sep@),
{
    let ghost views = parts@.map_values(|p: Vec<char>| p@);
    let sep_chars = str_chars(sep);
    let mut out: Vec<char> = Vec::new();
    let mut i: usize = 0;
    while i < parts.len()
        invariant
            i <= parts.len(),
            views == parts@.map_values(|p: Vec<char>| p@),
            sep_chars@ == sep@,
            out@ == spec_join(views.take(i as int), sep@),
        decreases parts.len() - i,
    {
        let ghost before = out@;
        if i > 0 {
            let mut k: usize = 0;
            while k < sep_chars.len()
                invariant
                    k <= sep_chars.len(),
                    out@ == before + sep_chars@.take(k as int),
                decreases sep_chars.len() - k,
            {
                out.push(sep_chars[k]);
                assert(sep_chars@.take(k + 1) =~= sep_chars@.take(k as int).push(sep_chars@[k as int]));
                k = k + 1;
            }
            assert(sep_chars@.take(k as int) =~= sep_chars@);
        }
        let ghost mid = out@;
        let mut k: usize = 0;
        while k < parts[i].len()
            invariant
                i < parts.len(),
                k <= parts[i as int].len(),
                out@ == mid + parts[i as int]@.take(k as int),
            decreases parts[i as int].len() - k,
        {
            out.push(parts[i][k]);
            assert(parts[i as int]@.take(k + 1) =~= parts[i as int]@.take(k as int).push(parts[i as int]@[k as int]));
            k = k + 1;
        }
        assert(parts[i as int]@.take(k as int) =~= parts[i as int]@);
        assert(views.take(i + 1).drop_last() =~= views.take(i as int));
        assert(views[i as int] == parts[i as int]@);
        proof {
            if i == 0 {
                assert(views.take(1) =~= seq![views[0]]);
                assert(out@ =~= views[0]);
            } else {
                assert(out@ =~= spec_join(views.take(i as int), sep@) + sep@ + views[i as int]);
            }
        }
        i = i + 1;
    }
    assert(views.take(i as int) =~= views);
    out
}

/// A number id as a string; a string id is trimmed first when `trim` is set.
pub fn entity_id(v: Option<&JsonValue>, trim: bool) -> (r: String)
    ensures
        r@ == spec_entity_id(opt_view(opt_deref(v)), trim),
{
    let n: Option<u64> = match opt_as_u64(v) {
        Some(n) => Some(n),
        None => match opt_as_str(v) {
            Some(s) => {
                let chars = str_chars(s);
                if trim {
                    let (a, b) = trim_bounds(chars.as_slice());
                    let t = &chars.as_slice()[a..b];
                    assert(t@ =~= spec_trim(s@));
                    parse_u64(t)
                } else {
                    parse_u64(chars.as_slice())
                }
            },
            None => None,
        },
    };
    match n {
        Some(x) => if x > 0 {
            let mut out: Vec<char> = Vec::new();
            push_decimal(x, &mut out);
            string_from_chars(out.as_slice())
        } else {
            String::new()
        },
        None => String::new(),
    }
}

/// The text of an optional value when it is a non-empty string.
pub fn non_empty_str<'a>(v: Option<&'a JsonValue>) -> (r: Option<&'a str>)
    ensures
        match spec_non_empty_str(opt_view(opt_deref(v))) {
            Some(s) => r is Some && r->0@ == s,
            None => r is None,
        },
{
    match opt_as_str(v) {
        Some(s) => if s.unicode_len() > 0 {
            Some(s)
        } else {
            None
        },
        None => None,
    }
}

/// The text of a value when it is a string, else empty.
pub fn str_or_empty<'a>(v: Option<&'a JsonValue>) -> (r: &'a str)
    ensures
        r@ == spec_str_or_empty(opt_view(opt_deref(v))),
{
    proof {
        reveal_strlit("");
    }
    match opt_as_str(v) {
        Some(s) => s,
        None => "",
    }
}

} // verus!
