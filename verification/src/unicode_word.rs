//! The characters that `\w` matches in a regular expression, as the regex
//! crate decides them.

use vstd::prelude::*;

verus! {

/// Whether the regex crate's `\w` matches the character.
pub uninterp spec fn regex_word_char(c: char) -> bool;

/// Whether a character is a word character (`\w`).
pub open spec fn spec_is_word_char(c: char) -> bool {
    regex_word_char(c)
}

/// Whether `\w` matches the character: the character, as a one-character text,
/// is matched against `\A\w\z` with `regex::Regex::is_match`. The contract
/// claims that the answer is the named result for the character.
#[verifier::external_body]
pub(crate) fn is_word_char(c: char) -> (r: bool)
    ensures
        r == regex_word_char(c),
{
    let mut buffer = [0u8; 4];
    let text: &str = c.encode_utf8(&mut buffer);
    regex::Regex::new(r"\A\w\z").map(|re| re.is_match(text)).unwrap_or(false)
}

} // verus!
