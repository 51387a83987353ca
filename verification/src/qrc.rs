//! QQ Music QRC lyrics: a Triple-DES encrypted, zlib compressed XML payload.
//!
//! Once decrypted, the XML carries a `LyricContent` string whose timed lines
//! look like `[lineStart,lineDuration]word(wordStart,wordDuration)word(...)...`,
//! every timestamp in absolute milliseconds, each timing tuple after the word it
//! belongs to.

use vstd::prelude::*;
use vstd::utf8::*;

use crate::des::{
    lemma_crypt_len, lemma_triple_des_round_trip, spec_crypt, spec_triple_des_crypt,
    spec_triple_des_key_setup, triple_view, DECRYPT, ENCRYPT,
};
use crate::text::{
    is_decimal_digit, parse_u64, push_decimal, push_str_chars, spec_decimal, spec_is_decimal_digit, spec_parse_u64,
    spec_trim, str_chars, string_from_chars, trim_bounds, chars_eq, is_blank, is_whitespace,
    spec_is_whitespace,
};

pub use crate::des::{
    bitnum, bitnum_intl, bitnum_intr, crypt, feistel, initial_permutation, inverse_permutation,
    key_schedule, sbox_bit, triple_des_crypt, triple_des_key_setup,
};

verus! {

/// The 24-byte QRC key, split into three 8-byte DES keys.
pub const QRC_KEY: [u8; 24] = [
    33, 64, 35, 41, 40, 42, 36, 37, 49, 50, 51, 90, 88, 67, 33, 64, 33, 64, 35, 41, 40, 78, 72, 76,
];

/// The value of an ASCII hexadecimal digit byte.
pub open spec fn spec_hex_value(b: u8) -> Option<u8> {
    if 48 <= b && b <= 57 {
        Some((b - 48) as u8)
    } else if 97 <= b && b <= 102 {
        Some((b - 87) as u8)
    } else if 65 <= b && b <= 70 {
        Some((b - 55) as u8)
    } else {
        None
    }
}

/// Whether every byte is a hexadecimal digit.
pub open spec fn spec_all_hex(b: Seq<u8>) -> bool {
    forall|i: int| 0 <= i < b.len() ==> (#[trigger] spec_hex_value(b[i])) is Some
}

/// The bytes that a string of hexadecimal digit pairs denotes.
pub open spec fn spec_hex_bytes(b: Seq<u8>) -> Seq<u8> {
    Seq::new(
        b.len() / 2,
        |i: int| (spec_hex_value(b[2 * i])->0 * 16 + spec_hex_value(b[2 * i + 1])->0) as u8,
    )
}

/// Hex decoding of the trimmed payload (taken as UTF-8 bytes): an odd byte count
/// and a non-hex byte are refused with their own messages.
pub open spec fn spec_hex_decode(hex: Seq<char>) -> Result<Seq<u8>, Seq<char>> {
    let b = encode_utf8(spec_trim(hex));
    if b.len() % 2 != 0 {
        Err("qrc payload is not valid hex (odd length)"@)
    } else if !spec_all_hex(b) {
        Err("qrc payload is not valid hex"@)
    } else {
        Ok(spec_hex_bytes(b))
    }
}

/// The value of a hexadecimal digit byte.
fn hex_value(b: u8) -> (r: Option<u8>)
    ensures
        r == spec_hex_value(b),
{
    if 48 <= b && b <= 57 {
        Some(b - 48)
    } else if 97 <= b && b <= 102 {
        Some(b - 87)
    } else if 65 <= b && b <= 70 {
        Some(b - 55)
    } else {
        None
    }
}

/// Decodes the hexadecimal QRC payload after trimming surrounding whitespace.
pub fn hex_decode(hex: &str) -> (r: Result<Vec<u8>, String>)
    ensures
        match spec_hex_decode(hex@) {
            Ok(b) => r is Ok && r->Ok_0@ == b,
            Err(e) => r is Err && r->Err_0@ == e,
        },
{
    let chars = str_chars(hex);
    let (a, b) = trim_bounds(&chars);
    let trimmed = hex.substring_char(a, b);
    let bytes = trimmed.as_bytes();
    let ghost eb = encode_utf8(spec_trim(hex@));
    assert(bytes@ == eb);
    if bytes.len() % 2 != 0 {
        return Err(String::from_str("qrc payload is not valid hex (odd length)"));
    }
    let mut out: Vec<u8> = Vec::new();
    let mut i: usize = 0;
    while i < bytes.len() / 2
        invariant
            bytes@ == eb,
            eb == encode_utf8(spec_trim(hex@)),
            eb.len() % 2 == 0,
            i <= eb.len() / 2,
            forall|k: int| 0 <= k < 2 * i ==> (#[trigger] spec_hex_value(eb[k])) is Some,
            out@ =~= spec_hex_bytes(eb).take(i as int),
        decreases bytes.len() / 2 - i,
    {
        let hi = hex_value(bytes[2 * i]);
        let lo = hex_value(bytes[2 * i + 1]);
        match (hi, lo) {
            (Some(h), Some(l)) => {
                out.push(h * 16 + l);
            },
            _ => {
                assert(!spec_all_hex(eb));
                return Err(String::from_str("qrc payload is not valid hex"));
            },
        }
        i = i + 1;
    }
    assert(spec_all_hex(eb));
    assert(spec_hex_bytes(eb).take(i as int) =~= spec_hex_bytes(eb));
    Ok(out)
}

/// Triple DES applied to every eight-byte block, in order.
pub open spec fn spec_des_blocks(data: Seq<u8>, schedule: Seq<Seq<Seq<u8>>>) -> Seq<u8>
    decreases data.len(),
{
    if data.len() < 8 {
        Seq::empty()
    } else {
        spec_des_blocks(data.take(data.len() - 8), schedule) + spec_triple_des_crypt(
            data.skip(data.len() - 8),
            schedule,
        )
    }
}

/// Block-wise Triple DES keeps the length of data made of whole blocks.
pub proof fn lemma_des_blocks_len(data: Seq<u8>, schedule: Seq<Seq<Seq<u8>>>)
    requires
        data.len() % 8 == 0,
    ensures
        spec_des_blocks(data, schedule).len() == data.len(),
    decreases data.len(),
{
    if data.len() >= 8 {
        lemma_des_blocks_len(data.take(data.len() - 8), schedule);
        lemma_crypt_len(spec_crypt(spec_crypt(data.skip(data.len() - 8), schedule[0]), schedule[1]), schedule[2]);
    }
}

/// Decrypting with the QRC key's decrypting schedules undoes encrypting with its
/// encrypting schedules, block by block, for any data made of whole blocks.
pub proof fn lemma_qrc_blocks_round_trip(key: Seq<u8>, data: Seq<u8>)
    requires
        key.len() == 24,
        data.len() % 8 == 0,
    ensures
        spec_des_blocks(
            spec_des_blocks(data, spec_triple_des_key_setup(key, ENCRYPT)),
            spec_triple_des_key_setup(key, DECRYPT),
        ) == data,
    decreases data.len(),
{
    let e = spec_triple_des_key_setup(key, ENCRYPT);
    let d = spec_triple_des_key_setup(key, DECRYPT);
    if data.len() >= 8 {
        let head = data.take(data.len() - 8);
        let last = data.skip(data.len() - 8);
        let enc_head = spec_des_blocks(head, e);
        let enc_last = spec_triple_des_crypt(last, e);
        lemma_des_blocks_len(head, e);
        lemma_crypt_len(spec_crypt(spec_crypt(last, e[0]), e[1]), e[2]);
        let enc = enc_head + enc_last;
        assert(enc.take(enc.len() - 8) =~= enc_head);
        assert(enc.skip(enc.len() - 8) =~= enc_last);
        lemma_qrc_blocks_round_trip(key, head);
        lemma_triple_des_round_trip(key, last);
        assert(head + last =~= data);
    } else {
        assert(data =~= Seq::<u8>::empty());
    }
}

/// The hex payload decoded and decrypted with the QRC key, before inflation.
pub open spec fn spec_decrypt_payload(hex: Seq<char>) -> Result<Seq<u8>, Seq<char>> {
    match spec_hex_decode(hex) {
        Err(e) => Err(e),
        Ok(bytes) => if bytes.len() == 0 || bytes.len() % 8 != 0 {
            Err("qrc payload length is not a multiple of 8"@)
        } else {
            Ok(spec_des_blocks(bytes, spec_triple_des_key_setup(QRC_KEY@, DECRYPT)))
        },
    }
}

/// Decodes the hex payload and decrypts it block by block with the QRC key.
pub fn decrypt_payload(hex: &str) -> (r: Result<Vec<u8>, String>)
    ensures
        match spec_decrypt_payload(hex@) {
            Ok(b) => r is Ok && r->Ok_0@ == b,
            Err(e) => r is Err && r->Err_0@ == e,
        },
{
    let bytes = match hex_decode(hex) {
        Ok(bytes) => bytes,
        Err(e) => return Err(e),
    };
    if bytes.len() == 0 || bytes.len() % 8 != 0 {
        return Err(String::from_str("qrc payload length is not a multiple of 8"));
    }
    let key = QRC_KEY;
    let schedule = triple_des_key_setup(&key, DECRYPT);
    let ghost s = triple_view(schedule);
    let mut data: Vec<u8> = Vec::new();
    let mut k: usize = 0;
    while k < bytes.len() / 8
        invariant
            bytes@.len() % 8 == 0,
            k <= bytes@.len() / 8,
            s == triple_view(schedule),
            data@ == spec_des_blocks(bytes@.take(8 * k), s),
        decreases bytes.len() / 8 - k,
    {
        let input: [u8; 8] = [
            bytes[8 * k], bytes[8 * k + 1], bytes[8 * k + 2], bytes[8 * k + 3],
            bytes[8 * k + 4], bytes[8 * k + 5], bytes[8 * k + 6], bytes[8 * k + 7],
        ];
        let block = triple_des_crypt(&input, &schedule);
        let ghost before = data@;
        let mut j: usize = 0;
        while j < 8
            invariant
                j <= 8,
                data@ == before + block@.take(j as int),
            decreases 8 - j,
        {
            data.push(block[j]);
            assert(data@ =~= before + block@.take(j + 1));
            j = j + 1;
        }
        let ghost prefix = bytes@.take(8 * (k + 1));
        assert(prefix.take(prefix.len() - 8) =~= bytes@.take(8 * k));
        assert(prefix.skip(prefix.len() - 8) =~= input@);
        assert(block@.take(8) =~= block@);
        k = k + 1;
    }
    assert(bytes@.take(8 * k) =~= bytes@);
    Ok(data)
}

/// What `flate2`'s zlib reader yields for a byte string: the inflated bytes, or
/// the text of the I/O error that stopped it.
pub uninterp spec fn zlib_inflate_result(data: Seq<u8>) -> Result<Seq<u8>, Seq<char>>;

/// Inflates zlib data with `flate2::read::ZlibDecoder` and `Read::read_to_end`.
/// The result is taken as a function of the input bytes, named
/// `zlib_inflate_result`; nothing more of it is stated.
#[verifier::external_body]
fn zlib_inflate(data: &[u8]) -> (r: Result<Vec<u8>, String>)
    ensures
        match r {
            Ok(v) => zlib_inflate_result(data@) == Ok::<Seq<u8>, Seq<char>>(v@),
            Err(e) => zlib_inflate_result(data@) == Err::<Seq<u8>, Seq<char>>(e@),
        },
{
    let mut decoder = flate2::read::ZlibDecoder::new(data);
    let mut out = Vec::new();
    match std::io::Read::read_to_end(&mut decoder, &mut out) {
        Ok(_) => Ok(out),
        Err(error) => Err(error.to_string()),
    }
}

/// The text of the error that `String::from_utf8` reports for invalid bytes.
pub uninterp spec fn utf8_error_text(bytes: Seq<u8>) -> Seq<char>;

/// `String::from_utf8`: succeeds exactly on valid UTF-8 and then holds the
/// decoded characters; on failure gives the error's text, named
/// `utf8_error_text`.
#[verifier::external_body]
fn string_from_utf8(bytes: Vec<u8>) -> (r: Result<String, String>)
    ensures
        match r {
            Ok(s) => valid_utf8(bytes@) && s@ == decode_utf8(bytes@),
            Err(e) => !valid_utf8(bytes@) && e@ == utf8_error_text(bytes@),
        },
{
    match String::from_utf8(bytes) {
        Ok(text) => Ok(text),
        Err(error) => Err(error.to_string()),
    }
}

/// The inflated payload as text, with the error messages of `decrypt`.
pub open spec fn spec_finish_payload(inflated: Result<Seq<u8>, Seq<char>>) -> Result<Seq<char>, Seq<char>> {
    match inflated {
        Err(e) => Err("qrc inflate failed: "@ + e),
        Ok(bytes) => if valid_utf8(bytes) {
            Ok(decode_utf8(bytes))
        } else {
            Err("qrc is not valid UTF-8: "@ + utf8_error_text(bytes))
        },
    }
}

/// Turns the outcome of inflating the payload into the lyric XML text.
pub fn finish_payload(inflated: Result<Vec<u8>, String>) -> (r: Result<String, String>)
    ensures
        match spec_finish_payload(
            match inflated {
                Ok(v) => Ok::<Seq<u8>, Seq<char>>(v@),
                Err(e) => Err::<Seq<u8>, Seq<char>>(e@),
            },
        ) {
            Ok(s) => r is Ok && r->Ok_0@ == s,
            Err(e) => r is Err && r->Err_0@ == e,
        },
{
    match inflated {
        Err(e) => {
            let mut message = String::from_str("qrc inflate failed: ");
            message.append(e.as_str());
            Err(message)
        },
        Ok(bytes) => match string_from_utf8(bytes) {
            Ok(text) => Ok(text),
            Err(e) => {
                let mut message = String::from_str("qrc is not valid UTF-8: ");
                message.append(e.as_str());
                Err(message)
            },
        },
    }
}

/// Decrypts a hex-encoded QRC payload and returns the inner XML string.
pub fn decrypt(hex: &str) -> (r: Result<String, String>)
    ensures
        match spec_decrypt_payload(hex@) {
            Err(e) => r is Err && r->Err_0@ == e,
            Ok(data) => match spec_finish_payload(zlib_inflate_result(data)) {
                Ok(s) => r is Ok && r->Ok_0@ == s,
                Err(e) => r is Err && r->Err_0@ == e,
            },
        },
{
    let data = match decrypt_payload(hex) {
        Ok(data) => data,
        Err(e) => return Err(e),
    };
    let inflated = zlib_inflate(&data);
    finish_payload(inflated)
}

/// Minutes, seconds or hundredths printed with `{:02}`: a minus sign before the
/// digits of a negative value, otherwise at least two digits.
pub open spec fn spec_pad2(neg: bool, mag: nat) -> Seq<char> {
    if neg && mag > 0 {
        seq!['-'] + spec_decimal(mag)
    } else if mag < 10 {
        seq!['0'] + spec_decimal(mag)
    } else {
        spec_decimal(mag)
    }
}

/// The magnitude of an integer.
pub open spec fn spec_abs(v: int) -> nat {
    if v < 0 {
        (-v) as nat
    } else {
        v as nat
    }
}

/// `mm:ss.xx` for a millisecond count: minutes, seconds and hundredths of the
/// count divided with truncation toward zero, as `format!("{:02}:{:02}.{:02}")`
/// prints them.
pub open spec fn spec_format_timestamp(ms: int) -> Seq<char> {
    let neg = ms < 0;
    let m = spec_abs(ms);
    spec_pad2(neg, m / 1000 / 60) + seq![':'] + spec_pad2(neg, (m / 1000) % 60) + seq!['.']
        + spec_pad2(neg, (m % 1000) / 10)
}

/// Appends a two-digit field.
fn push_pad2(neg: bool, mag: u64, out: &mut Vec<char>)
    ensures
        final(out)@ == old(out)@ + spec_pad2(neg, mag as nat),
{
    let ghost start = out@;
    if neg && mag > 0 {
        out.push('-');
    } else if mag < 10 {
        out.push('0');
    }
    let ghost mid = out@;
    push_decimal(mag, out);
    assert(final(out)@ =~= start + spec_pad2(neg, mag as nat));
}

/// Appends `mm:ss.xx` for a millisecond count.
fn push_timestamp(ms: i64, out: &mut Vec<char>)
    ensures
        final(out)@ == old(out)@ + spec_format_timestamp(ms as int),
{
    let ghost start = out@;
    let neg = ms < 0;
    let m: u64 = if ms < 0 {
        ((-(ms + 1)) as u64) + 1
    } else {
        ms as u64
    };
    assert(m == spec_abs(ms as int));
    push_pad2(neg, m / 1000 / 60, out);
    out.push(':');
    push_pad2(neg, (m / 1000) % 60, out);
    out.push('.');
    push_pad2(neg, (m % 1000) / 10, out);
    assert(final(out)@ =~= start + spec_format_timestamp(ms as int));
}

/// Formats milliseconds as `mm:ss.xx` (hundredths).
pub fn format_timestamp(ms: i64) -> (r: String)
    ensures
        r@ == spec_format_timestamp(ms as int),
{
    let mut out: Vec<char> = Vec::new();
    push_timestamp(ms, &mut out);
    assert(out@ =~= spec_format_timestamp(ms as int));
    string_from_chars(&out)
}

/// A word of a QRC line: its text, start and duration in milliseconds.
pub type WordView = (Seq<char>, u64, u64);

/// A QRC line: its start in milliseconds and its words.
pub type LineView = (u64, Seq<WordView>);

/// The end of the run of decimal digits that starts at `i`.
pub open spec fn spec_run_end(s: Seq<char>, i: int) -> int
    decreases s.len() - i,
{
    if 0 <= i < s.len() && spec_is_decimal_digit(s[i]) {
        spec_run_end(s, i + 1)
    } else {
        i
    }
}

/// A captured number: its value when it parses as a `u64`, else zero.
pub open spec fn spec_number_or_zero(s: Seq<char>) -> u64 {
    match spec_parse_u64(s) {
        Some(v) => v,
        None => 0,
    }
}

/// The timing tag `(digits,digits)` at `i`: the index after it and its two
/// numbers.
pub open spec fn spec_word_tag_at(b: Seq<char>, i: int) -> Option<(int, u64, u64)> {
    if 0 <= i < b.len() && b[i] == '(' {
        let a = spec_run_end(b, i + 1);
        if a > i + 1 && a < b.len() && b[a] == ',' {
            let c = spec_run_end(b, a + 1);
            if c > a + 1 && c < b.len() && b[c] == ')' {
                Some((c + 1, spec_number_or_zero(b.subrange(i + 1, a)), spec_number_or_zero(b.subrange(a + 1, c))))
            } else {
                None
            }
        } else {
            None
        }
    } else {
        None
    }
}

/// The leftmost timing tag at or after `pos`: its start, end and numbers.
pub open spec fn spec_find_word_tag(b: Seq<char>, pos: int) -> Option<(int, int, u64, u64)>
    decreases b.len() - pos,
{
    if pos < 0 || pos >= b.len() {
        None
    } else {
        match spec_word_tag_at(b, pos) {
            Some(t) => Some((pos, t.0, t.1, t.2)),
            None => spec_find_word_tag(b, pos + 1),
        }
    }
}

/// The words of a line body from `pos` on: each is the text before a timing tag,
/// with the tag's numbers; text after the last tag is dropped.
pub open spec fn spec_words(b: Seq<char>, pos: int) -> Seq<WordView>
    decreases b.len() - pos,
{
    match spec_find_word_tag(b, pos) {
        None => Seq::empty(),
        Some(t) => if pos < t.1 <= b.len() {
            seq![(b.subrange(pos, t.0), t.2, t.3)] + spec_words(b, t.1)
        } else {
            Seq::empty()
        },
    }
}

/// The line tag `[digits,digits]` at the start of a trimmed line: the line start
/// and the body after the tag.
pub open spec fn spec_line_tag(t: Seq<char>) -> Option<(u64, Seq<char>)> {
    if t.len() > 0 && t[0] == '[' {
        let a = spec_run_end(t, 1);
        if a > 1 && a < t.len() && t[a] == ',' {
            let c = spec_run_end(t, a + 1);
            if c > a + 1 && c < t.len() && t[c] == ']' {
                Some((spec_number_or_zero(t.subrange(1, a)), t.skip(c + 1)))
            } else {
                None
            }
        } else {
            None
        }
    } else {
        None
    }
}

/// A timed line of QRC content: a trimmed line with a line tag and at least one
/// word.
pub open spec fn spec_qrc_line(seg: Seq<char>) -> Option<LineView> {
    match spec_line_tag(spec_trim(seg)) {
        None => None,
        Some(tag) => {
            let w = spec_words(tag.1, 0);
            if w.len() > 0 {
                Some((tag.0, w))
            } else {
                None
            }
        },
    }
}

/// The index of the first newline at or after `p`, or the length.
pub open spec fn spec_next_newline(s: Seq<char>, p: int) -> int
    decreases s.len() - p,
{
    if p < 0 || p >= s.len() {
        s.len() as int
    } else if s[p] == '\n' {
        p
    } else {
        spec_next_newline(s, p + 1)
    }
}

/// The timed lines of the content from position `p` on.
pub open spec fn spec_lines_from(s: Seq<char>, p: int) -> Seq<LineView>
    decreases s.len() - p,
{
    if p < 0 || p > s.len() {
        Seq::empty()
    } else {
        let e = spec_next_newline(s, p);
        let rest = if p <= e < s.len() {
            spec_lines_from(s, e + 1)
        } else {
            Seq::empty()
        };
        match spec_qrc_line(s.subrange(p, e)) {
            Some(l) => seq![l] + rest,
            None => rest,
        }
    }
}

/// The timed lines of QRC content, in order.
pub open spec fn spec_parse_lines(content: Seq<char>) -> Seq<LineView> {
    spec_lines_from(content, 0)
}

/// The newline search stays within `[p, len]`.
pub proof fn lemma_next_newline_bounds(s: Seq<char>, p: int)
    requires
        0 <= p <= s.len(),
    ensures
        p <= spec_next_newline(s, p) <= s.len(),
        spec_next_newline(s, p) < s.len() ==> s[spec_next_newline(s, p)] == '\n',
        forall|k: int| p <= k < spec_next_newline(s, p) ==> s[k] != '\n',
    decreases s.len() - p,
{
    if p < s.len() && s[p] != '\n' {
        lemma_next_newline_bounds(s, p + 1);
    }
}

/// The digit run that starts at `i` ends within `[i, len]`.
pub proof fn lemma_run_end_bounds(s: Seq<char>, i: int)
    requires
        0 <= i <= s.len(),
    ensures
        i <= spec_run_end(s, i) <= s.len(),
    decreases s.len() - i,
{
    if i < s.len() && spec_is_decimal_digit(s[i]) {
        lemma_run_end_bounds(s, i + 1);
    }
}

/// A found timing tag starts at or after `pos` and ends after its start.
pub proof fn lemma_find_word_tag_bounds(b: Seq<char>, pos: int)
    requires
        0 <= pos,
    ensures
        match spec_find_word_tag(b, pos) {
            Some(t) => pos <= t.0 < t.1 <= b.len(),
            None => true,
        },
    decreases b.len() - pos,
{
    if pos < b.len() {
        match spec_word_tag_at(b, pos) {
            Some(t) => {
                lemma_run_end_bounds(b, pos + 1);
                let a = spec_run_end(b, pos + 1);
                lemma_run_end_bounds(b, a + 1);
            },
            None => lemma_find_word_tag_bounds(b, pos + 1),
        }
    }
}

/// A parsed word.
pub struct Word {
    pub text: String,
    pub start_ms: u64,
    pub duration_ms: u64,
}

/// A parsed timed line.
pub struct QrcLine {
    pub start_ms: u64,
    pub words: Vec<Word>,
}

/// A parsed word as a value.
pub open spec fn word_view(w: Word) -> WordView {
    (w.text@, w.start_ms, w.duration_ms)
}

/// A parsed line as a value.
pub open spec fn line_view(l: QrcLine) -> LineView {
    (l.start_ms, l.words@.map_values(|w: Word| word_view(w)))
}

/// The end of the decimal-digit run that starts at `i`.
fn run_end(s: &[char], i: usize) -> (r: usize)
    requires
        i <= s.len(),
    ensures
        r == spec_run_end(s@, i as int),
{
    let mut j = i;
    while j < s.len() && is_decimal_digit(s[j])
        invariant
            i <= j <= s.len(),
            spec_run_end(s@, i as int) == spec_run_end(s@, j as int),
        decreases s.len() - j,
    {
        j = j + 1;
    }
    j
}

/// A captured number, or zero when it does not parse as a `u64`.
fn number_or_zero(s: &[char]) -> (r: u64)
    ensures
        r == spec_number_or_zero(s@),
{
    match parse_u64(s) {
        Some(v) => v,
        None => 0,
    }
}

/// The timing tag at `i`, if there is one.
fn word_tag_at(b: &[char], i: usize) -> (r: Option<(usize, u64, u64)>)
    requires
        i < b.len(),
    ensures
        match spec_word_tag_at(b@, i as int) {
            Some(t) => r matches Some((e, st, du)) && e == t.0 && st == t.1 && du == t.2,
            None => r is None,
        },
{
    if b[i] != '(' {
        return None;
    }
    let a = run_end(b, i + 1);
    proof {
        lemma_run_end_bounds(b@, i + 1);
    }
    if !(a > i + 1 && a < b.len() && b[a] == ',') {
        return None;
    }
    let c = run_end(b, a + 1);
    proof {
        lemma_run_end_bounds(b@, a + 1);
    }
    if !(c > a + 1 && c < b.len() && b[c] == ')') {
        return None;
    }
    let start = number_or_zero(&b[i + 1..a]);
    let duration = number_or_zero(&b[a + 1..c]);
    Some((c + 1, start, duration))
}

/// The leftmost timing tag at or after `pos`.
fn find_word_tag(b: &[char], pos: usize) -> (r: Option<(usize, usize, u64, u64)>)
    requires
        pos <= b.len(),
    ensures
        match spec_find_word_tag(b@, pos as int) {
            Some(t) => r matches Some((b0, e, st, du)) && b0 == t.0 && e == t.1 && st == t.2 && du == t.3,
            None => r is None,
        },
{
    let mut i = pos;
    while i < b.len()
        invariant
            pos <= i <= b.len(),
            spec_find_word_tag(b@, pos as int) == spec_find_word_tag(b@, i as int),
        decreases b.len() - i,
    {
        match word_tag_at(b, i) {
            Some((end, start, duration)) => {
                return Some((i, end, start, duration));
            },
            None => {},
        }
        i = i + 1;
    }
    None
}

/// The words of a line body.
fn parse_words(b: &[char]) -> (r: Vec<Word>)
    ensures
        r@.map_values(|w: Word| word_view(w)) == spec_words(b@, 0),
{
    let mut out: Vec<Word> = Vec::new();
    let mut pos: usize = 0;
    while pos <= b.len()
        invariant
            pos <= b.len(),
            out@.map_values(|w: Word| word_view(w)) + spec_words(b@, pos as int) == spec_words(b@, 0),
        decreases b.len() - pos,
    {
        proof {
            lemma_find_word_tag_bounds(b@, pos as int);
        }
        match find_word_tag(b, pos) {
            None => {
                assert(out@.map_values(|w: Word| word_view(w)) =~= spec_words(b@, 0));
                return out;
            },
            Some((start, end, start_ms, duration_ms)) => {
                let text = string_from_chars(&b[pos..start]);
                let ghost before = out@.map_values(|w: Word| word_view(w));
                out.push(Word { text, start_ms, duration_ms });
                assert(out@.map_values(|w: Word| word_view(w)) =~= before.push(
                    (b@.subrange(pos as int, start as int), start_ms, duration_ms),
                ));
                assert(out@.map_values(|w: Word| word_view(w)) + spec_words(b@, end as int)
                    =~= before + spec_words(b@, pos as int));
                pos = end;
            },
        }
    }
    out
}

/// The line tag of a trimmed line: the line start and where the body begins.
fn line_tag(t: &[char]) -> (r: Option<(u64, usize)>)
    ensures
        match spec_line_tag(t@) {
            Some(tag) => r matches Some((st, bs)) && st == tag.0 && bs <= t.len() && t@.skip(bs as int)
                == tag.1,
            None => r is None,
        },
{
    if t.len() == 0 || t[0] != '[' {
        return None;
    }
    let a = run_end(t, 1);
    proof {
        lemma_run_end_bounds(t@, 1);
    }
    if !(a > 1 && a < t.len() && t[a] == ',') {
        return None;
    }
    let c = run_end(t, a + 1);
    proof {
        lemma_run_end_bounds(t@, a + 1);
    }
    if !(c > a + 1 && c < t.len() && t[c] == ']') {
        return None;
    }
    Some((number_or_zero(&t[1..a]), c + 1))
}

/// The timed line of one line of content, if it is one.
fn qrc_line(seg: &[char]) -> (r: Option<QrcLine>)
    ensures
        match spec_qrc_line(seg@) {
            Some(l) => r is Some && line_view(r->0) == l,
            None => r is None,
        },
{
    let (a, b) = trim_bounds(seg);
    let t = &seg[a..b];
    match line_tag(t) {
        None => None,
        Some((start_ms, body_start)) => {
            let body = &t[body_start..t.len()];
            assert(body@ =~= t@.skip(body_start as int));
            let words = parse_words(body);
            if words.len() > 0 {
                Some(QrcLine { start_ms, words })
            } else {
                None
            }
        },
    }
}

/// The timed lines of QRC content: lines with a `[start,duration]` tag and at
/// least one `(start,duration)` word tag.
fn parse_lines(content: &str) -> (r: Vec<QrcLine>)
    ensures
        r@.map_values(|l: QrcLine| line_view(l)) == spec_parse_lines(content@),
{
    let s = str_chars(content);
    let mut out: Vec<QrcLine> = Vec::new();
    let mut p: usize = 0;
    loop
        invariant
            p <= s.len(),
            s@ == content@,
            out@.map_values(|l: QrcLine| line_view(l)) + spec_lines_from(s@, p as int)
                == spec_lines_from(s@, 0),
        decreases s.len() - p,
    {
        let mut e = p;
        while e < s.len() && s[e] != '\n'
            invariant
                p <= e <= s.len(),
                spec_next_newline(s@, p as int) == spec_next_newline(s@, e as int),
            decreases s.len() - e,
        {
            e = e + 1;
        }
        let ghost before = out@.map_values(|l: QrcLine| line_view(l));
        let ghost rest = if e < s.len() { spec_lines_from(s@, e + 1) } else { Seq::<LineView>::empty() };
        assert(spec_lines_from(s@, p as int) == match spec_qrc_line(s@.subrange(p as int, e as int)) {
            Some(l) => seq![l] + rest,
            None => rest,
        });
        match qrc_line(&s[p..e]) {
            Some(line) => {
                out.push(line);
                assert(out@.map_values(|l: QrcLine| line_view(l)) + rest =~= before + spec_lines_from(s@, p as int));
            },
            None => {
                assert(out@.map_values(|l: QrcLine| line_view(l)) + rest =~= before + spec_lines_from(s@, p as int));
            },
        }
        if e >= s.len() {
            assert(out@.map_values(|l: QrcLine| line_view(l)) =~= spec_lines_from(s@, 0));
            return out;
        }
        p = e + 1;
    }
}

/// Text lines joined with `\n` (`join("\n")`).
pub open spec fn spec_join_lines(ls: Seq<Seq<char>>) -> Seq<char>
    decreases ls.len(),
{
    if ls.len() == 0 {
        Seq::empty()
    } else if ls.len() == 1 {
        ls[0]
    } else {
        spec_join_lines(ls.drop_last()) + seq!['\n'] + ls.last()
    }
}

/// The texts of the words, concatenated.
pub open spec fn spec_word_texts(ws: Seq<WordView>) -> Seq<char>
    decreases ws.len(),
{
    if ws.len() == 0 {
        Seq::empty()
    } else {
        spec_word_texts(ws.drop_last()) + ws.last().0
    }
}

/// `[mm:ss.xx]` for a millisecond count taken as `i64` (`as i64`).
pub open spec fn spec_line_stamp(ms: u64) -> Seq<char> {
    seq!['['] + spec_format_timestamp((ms as i64) as int) + seq![']']
}

/// `<mm:ss.xx>` for a millisecond count taken as `i64` (`as i64`).
pub open spec fn spec_word_stamp(ms: u64) -> Seq<char> {
    seq!['<'] + spec_format_timestamp((ms as i64) as int) + seq!['>']
}

/// A plain LRC line: the line's start stamp, then the words' texts.
pub open spec fn spec_lrc_line(l: LineView) -> Seq<char> {
    spec_line_stamp(l.0) + spec_word_texts(l.1)
}

/// The words of an enhanced LRC line: each word's start stamp, then its text.
pub open spec fn spec_enhanced_words(ws: Seq<WordView>) -> Seq<char>
    decreases ws.len(),
{
    if ws.len() == 0 {
        Seq::empty()
    } else {
        spec_enhanced_words(ws.drop_last()) + spec_word_stamp(ws.last().1) + ws.last().0
    }
}

/// Where the last word of a line ends: its start plus its duration.
pub open spec fn spec_last_word_end(ws: Seq<WordView>) -> int {
    ws.last().1 + ws.last().2
}

/// An enhanced LRC line: the line's start stamp, each word with its start stamp,
/// and after the last word a stamp where that word ends.
pub open spec fn spec_enhanced_line(l: LineView) -> Seq<char> {
    spec_line_stamp(l.0) + spec_enhanced_words(l.1) + if l.1.len() > 0 {
        spec_word_stamp(spec_last_word_end(l.1) as u64)
    } else {
        Seq::empty()
    }
}

/// Whether the end of every line's last word fits in a `u64`.
pub open spec fn spec_word_ends_fit(lines: Seq<LineView>) -> bool {
    forall|i: int|
        0 <= i < lines.len() && lines[i].1.len() > 0 ==> spec_last_word_end(#[trigger] lines[i].1)
            <= u64::MAX
}

/// The plain LRC text of QRC content.
pub open spec fn spec_to_lrc(content: Seq<char>) -> Seq<char> {
    spec_join_lines(spec_parse_lines(content).map_values(|l: LineView| spec_lrc_line(l)))
}

/// The enhanced LRC text of QRC content.
pub open spec fn spec_to_enhanced_lrc(content: Seq<char>) -> Seq<char> {
    spec_join_lines(spec_parse_lines(content).map_values(|l: LineView| spec_enhanced_line(l)))
}

/// Appends `[mm:ss.xx]`.
fn push_line_stamp(ms: u64, out: &mut Vec<char>)
    ensures
        final(out)@ == old(out)@ + spec_line_stamp(ms),
{
    let ghost start = out@;
    out.push('[');
    push_timestamp(ms as i64, out);
    out.push(']');
    assert(final(out)@ =~= start + spec_line_stamp(ms));
}

/// Appends `<mm:ss.xx>`.
fn push_word_stamp(ms: u64, out: &mut Vec<char>)
    ensures
        final(out)@ == old(out)@ + spec_word_stamp(ms),
{
    let ghost start = out@;
    out.push('<');
    push_timestamp(ms as i64, out);
    out.push('>');
    assert(final(out)@ =~= start + spec_word_stamp(ms));
}

/// Appends a plain LRC line.
fn push_lrc_line(line: &QrcLine, out: &mut Vec<char>)
    ensures
        final(out)@ == old(out)@ + spec_lrc_line(line_view(*line)),
{
    let ghost start = out@;
    let ghost ws = line_view(*line).1;
    push_line_stamp(line.start_ms, out);
    let ghost stamped = out@;
    let mut i: usize = 0;
    while i < line.words.len()
        invariant
            i <= line.words.len(),
            ws == line.words@.map_values(|w: Word| word_view(w)),
            out@ == stamped + spec_word_texts(ws.take(i as int)),
        decreases line.words.len() - i,
    {
        push_str_chars(out, line.words[i].text.as_str());
        assert(ws.take(i + 1).drop_last() =~= ws.take(i as int));
        assert(out@ =~= stamped + spec_word_texts(ws.take(i + 1)));
        i = i + 1;
    }
    assert(ws.take(i as int) =~= ws);
    assert(final(out)@ =~= start + spec_lrc_line(line_view(*line)));
}

/// Appends an enhanced LRC line.
fn push_enhanced_line(line: &QrcLine, out: &mut Vec<char>)
    requires
        line_view(*line).1.len() > 0 ==> spec_last_word_end(line_view(*line).1) <= u64::MAX,
    ensures
        final(out)@ == old(out)@ + spec_enhanced_line(line_view(*line)),
{
    let ghost start = out@;
    let ghost ws = line_view(*line).1;
    push_line_stamp(line.start_ms, out);
    let ghost stamped = out@;
    let mut i: usize = 0;
    while i < line.words.len()
        invariant
            i <= line.words.len(),
            ws == line.words@.map_values(|w: Word| word_view(w)),
            out@ == stamped + spec_enhanced_words(ws.take(i as int)),
        decreases line.words.len() - i,
    {
        let word = &line.words[i];
        push_word_stamp(word.start_ms, out);
        push_str_chars(out, word.text.as_str());
        assert(ws.take(i + 1).drop_last() =~= ws.take(i as int));
        assert(out@ =~= stamped + spec_enhanced_words(ws.take(i + 1)));
        i = i + 1;
    }
    assert(ws.take(i as int) =~= ws);
    let ghost body = out@;
    let n = line.words.len();
    if n > 0 {
        let last = &line.words[n - 1];
        push_word_stamp(last.start_ms + last.duration_ms, out);
    }
    assert(final(out)@ =~= start + spec_enhanced_line(line_view(*line)));
}

/// Converts QRC content to plain LRC: each timed line becomes
/// `[mm:ss.xx]` and its words' texts; lines are joined with `\n`.
pub fn to_lrc(content: &str) -> (r: String)
    ensures
        r@ == spec_to_lrc(content@),
{
    let lines = parse_lines(content);
    let ghost views = lines@.map_values(|l: QrcLine| line_view(l));
    let ghost rendered = views.map_values(|l: LineView| spec_lrc_line(l));
    let mut out: Vec<char> = Vec::new();
    let mut i: usize = 0;
    while i < lines.len()
        invariant
            i <= lines.len(),
            views == lines@.map_values(|l: QrcLine| line_view(l)),
            rendered == views.map_values(|l: LineView| spec_lrc_line(l)),
            out@ == spec_join_lines(rendered.take(i as int)),
        decreases lines.len() - i,
    {
        if i > 0 {
            out.push('\n');
        }
        push_lrc_line(&lines[i], &mut out);
        assert(rendered.take(i + 1).drop_last() =~= rendered.take(i as int));
        assert(out@ =~= spec_join_lines(rendered.take(i + 1)));
        i = i + 1;
    }
    assert(rendered.take(i as int) =~= rendered);
    string_from_chars(&out)
}

/// Converts QRC content to enhanced LRC as `to_enhanced_lrc` does, or gives
/// `None` when the end of some line's last word does not fit in a `u64`.
pub fn to_enhanced_lrc_checked(content: &str) -> (r: Option<String>)
    ensures
        spec_word_ends_fit(spec_parse_lines(content@)) ==> r is Some && r->0@ == spec_to_enhanced_lrc(content@),
        !spec_word_ends_fit(spec_parse_lines(content@)) ==> r is None,
{
    let lines = parse_lines(content);
    let ghost views = lines@.map_values(|l: QrcLine| line_view(l));
    let mut i: usize = 0;
    while i < lines.len()
        invariant
            i <= lines.len(),
            views == lines@.map_values(|l: QrcLine| line_view(l)),
            views == spec_parse_lines(content@),
            forall|k: int|
                0 <= k < i && views[k].1.len() > 0 ==> spec_last_word_end(#[trigger] views[k].1) <= u64::MAX,
        decreases lines.len() - i,
    {
        let n = lines[i].words.len();
        assert(views[i as int] == line_view(lines@[i as int]));
        if n > 0 {
            let last = &lines[i].words[n - 1];
            assert(views[i as int].1.last() == word_view(*last));
            if last.duration_ms > u64::MAX - last.start_ms {
                assert(views[i as int].1.len() == n);
                assert(spec_last_word_end(views[i as int].1) == last.start_ms + last.duration_ms);
                assert(!spec_word_ends_fit(views));
                return None;
            }
        }
        i = i + 1;
    }
    Some(to_enhanced_lrc(content))
}

/// Converts QRC content to enhanced LRC: each timed line becomes
/// `[mm:ss.xx]`, then `<mm:ss.xx>` and the text of each word, then a
/// `<mm:ss.xx>` where the last word ends; lines are joined with `\n`.
pub fn to_enhanced_lrc(content: &str) -> (r: String)
    requires
        spec_word_ends_fit(spec_parse_lines(content@)),
    ensures
        r@ == spec_to_enhanced_lrc(content@),
{
    let lines = parse_lines(content);
    let ghost views = lines@.map_values(|l: QrcLine| line_view(l));
    let ghost rendered = views.map_values(|l: LineView| spec_enhanced_line(l));
    let mut out: Vec<char> = Vec::new();
    let mut i: usize = 0;
    while i < lines.len()
        invariant
            i <= lines.len(),
            views == lines@.map_values(|l: QrcLine| line_view(l)),
            spec_word_ends_fit(views),
            rendered == views.map_values(|l: LineView| spec_enhanced_line(l)),
            out@ == spec_join_lines(rendered.take(i as int)),
        decreases lines.len() - i,
    {
        if i > 0 {
            out.push('\n');
        }
        assert(views[i as int] == line_view(lines@[i as int]));
        push_enhanced_line(&lines[i], &mut out);
        assert(rendered.take(i + 1).drop_last() =~= rendered.take(i as int));
        assert(out@ =~= spec_join_lines(rendered.take(i + 1)));
        i = i + 1;
    }
    assert(rendered.take(i as int) =~= rendered);
    string_from_chars(&out)
}

/// Whether a line of the content begins with a `[digits,digits]` tag at `p`:
/// `p` is the start of the content or follows a `\n`.
pub open spec fn spec_tag_line_at(s: Seq<char>, p: int) -> bool {
    &&& 0 <= p < s.len()
    &&& (p == 0 || s[p - 1] == '\n')
    &&& spec_line_tag(s.skip(p)) is Some
}

/// Whether the content is QRC: some line begins with `[digits,digits]`.
pub open spec fn spec_is_qrc(s: Seq<char>) -> bool {
    exists|p: int| spec_tag_line_at(s, p)
}

/// Check if the content is in QRC format (a line starts with `[number,number]`).
pub fn is_qrc(content: &str) -> (r: bool)
    ensures
        r == spec_is_qrc(content@),
{
    let s = str_chars(content);
    let mut p: usize = 0;
    while p < s.len()
        invariant
            p <= s.len(),
            s@ == content@,
            forall|q: int| 0 <= q < p ==> !spec_tag_line_at(s@, q),
        decreases s.len() - p,
    {
        if p == 0 || s[p - 1] == '\n' {
            let rest = &s[p..s.len()];
            assert(rest@ =~= s@.skip(p as int));
            if line_tag(rest).is_some() {
                assert(spec_tag_line_at(s@, p as int));
                return true;
            }
        }
        p = p + 1;
    }
    false
}

/// The characters `LyricContent="`.
pub open spec fn spec_lyric_attr() -> Seq<char> {
    seq!['L', 'y', 'r', 'i', 'c', 'C', 'o', 'n', 't', 'e', 'n', 't', '=', '"']
}

/// The end of the run of whitespace that starts at `i`.
pub open spec fn spec_space_end(s: Seq<char>, i: int) -> int
    decreases s.len() - i,
{
    if 0 <= i < s.len() && spec_is_whitespace(s[i]) {
        spec_space_end(s, i + 1)
    } else {
        i
    }
}

/// Whether the attribute closes at `q`: a `"`, then whitespace, then `/>`.
pub open spec fn spec_closes_at(s: Seq<char>, q: int) -> bool {
    let e = spec_space_end(s, q + 1);
    &&& 0 <= q < s.len()
    &&& s[q] == '"'
    &&& e + 1 < s.len()
    &&& s[e] == '/'
    &&& s[e + 1] == '>'
}

/// The first place at or after `q` where the attribute closes.
pub open spec fn spec_first_close(s: Seq<char>, q: int) -> Option<int>
    decreases s.len() - q,
{
    if q < 0 || q >= s.len() {
        None
    } else if spec_closes_at(s, q) {
        Some(q)
    } else {
        spec_first_close(s, q + 1)
    }
}

/// Whether a `LyricContent="..." />` attribute starts at `p`.
pub open spec fn spec_attr_at(s: Seq<char>, p: int) -> bool {
    &&& 0 <= p
    &&& p + 14 <= s.len()
    &&& s.subrange(p, p + 14) == spec_lyric_attr()
    &&& spec_first_close(s, p + 14) is Some
}

/// The leftmost attribute at or after `p`: where its value starts and ends.
pub open spec fn spec_first_attr(s: Seq<char>, p: int) -> Option<(int, int)>
    decreases s.len() - p,
{
    if p < 0 || p >= s.len() {
        None
    } else if spec_attr_at(s, p) {
        Some((p + 14, spec_first_close(s, p + 14)->0))
    } else {
        spec_first_attr(s, p + 1)
    }
}

/// The value of the leftmost `LyricContent="..." />` attribute, the shortest that
/// closes, unless it is blank.
pub open spec fn spec_extract_lyric_content(s: Seq<char>) -> Option<Seq<char>> {
    match spec_first_attr(s, 0) {
        None => None,
        Some(b) => {
            let v = s.subrange(b.0, b.1);
            if spec_trim(v).len() == 0 {
                None
            } else {
                Some(v)
            }
        },
    }
}

/// The end of the run of whitespace that starts at `i`.
fn space_end(s: &[char], i: usize) -> (r: usize)
    requires
        i <= s.len(),
    ensures
        r == spec_space_end(s@, i as int),
        i <= r <= s.len(),
{
    let mut j = i;
    while j < s.len() && is_whitespace(s[j])
        invariant
            i <= j <= s.len(),
            spec_space_end(s@, i as int) == spec_space_end(s@, j as int),
        decreases s.len() - j,
    {
        j = j + 1;
    }
    j
}

/// Whether the attribute closes at `q`.
fn closes_at(s: &[char], q: usize) -> (r: bool)
    requires
        q < s.len(),
    ensures
        r == spec_closes_at(s@, q as int),
{
    if s[q] != '"' {
        return false;
    }
    let e = space_end(s, q + 1);
    e < s.len() && s.len() - e > 1 && s[e] == '/' && s[e + 1] == '>'
}

/// The first place at or after `q` where the attribute closes.
fn first_close(s: &[char], q: usize) -> (r: Option<usize>)
    requires
        q <= s.len(),
    ensures
        match spec_first_close(s@, q as int) {
            Some(c) => r == Some(c as usize) && q <= c < s.len(),
            None => r is None,
        },
{
    let mut i = q;
    while i < s.len()
        invariant
            q <= i <= s.len(),
            spec_first_close(s@, q as int) == spec_first_close(s@, i as int),
        decreases s.len() - i,
    {
        if closes_at(s, i) {
            return Some(i);
        }
        i = i + 1;
    }
    None
}

/// Whether `LyricContent="` starts at `p`.
fn attr_name_at(s: &[char], p: usize) -> (r: bool)
    ensures
        r == (p + 14 <= s.len() && s@.subrange(p as int, p + 14) == spec_lyric_attr()),
{
    if p > s.len() || s.len() - p < 14 {
        return false;
    }
    let name = str_chars("LyricContent=\"");
    proof {
        reveal_strlit("LyricContent=\"");
    }
    assert(name@ =~= spec_lyric_attr());
    let window = &s[p..p + 14];
    assert(window@ =~= s@.subrange(p as int, p + 14));
    chars_eq(window, name.as_slice())
}

/// Extract the `LyricContent` attribute value from the decrypted XML.
pub fn extract_lyric_content(xml: &str) -> (r: Option<String>)
    ensures
        match spec_extract_lyric_content(xml@) {
            Some(v) => r is Some && r->0@ == v,
            None => r is None,
        },
{
    let s = str_chars(xml);
    let mut p: usize = 0;
    while p < s.len()
        invariant
            p <= s.len(),
            s@ == xml@,
            spec_first_attr(s@, 0) == spec_first_attr(s@, p as int),
        decreases s.len() - p,
    {
        if attr_name_at(&s, p) {
            match first_close(&s, p + 14) {
                Some(q) => {
                    let value = &s[p + 14..q];
                    if is_blank(value) {
                        return None;
                    }
                    return Some(string_from_chars(value));
                },
                None => {},
            }
        }
        p = p + 1;
    }
    None
}

/// The newline search in a text followed by `\n` and more finds what the
/// search in the text alone finds (its length when it has no newline).
proof fn lemma_next_newline_before_join(c1: Seq<char>, c2: Seq<char>, p: int)
    requires
        0 <= p <= c1.len(),
    ensures
        spec_next_newline(c1 + seq!['\n'] + c2, p) == spec_next_newline(c1, p),
    decreases c1.len() - p,
{
    let s = c1 + seq!['\n'] + c2;
    if p < c1.len() {
        assert(s[p] == c1[p]);
        if c1[p] != '\n' {
            lemma_next_newline_before_join(c1, c2, p + 1);
        }
    } else {
        assert(s[p] == '\n');
    }
}

/// The newline search in the second part of a text is the search in that part,
/// shifted.
proof fn lemma_next_newline_shift(a: Seq<char>, b: Seq<char>, q: int)
    requires
        0 <= q <= b.len(),
    ensures
        spec_next_newline(a + b, a.len() + q) == a.len() + spec_next_newline(b, q),
    decreases b.len() - q,
{
    if q < b.len() {
        assert((a + b)[a.len() + q] == b[q]);
        if b[q] != '\n' {
            lemma_next_newline_shift(a, b, q + 1);
        }
    }
}

/// The timed lines from a position in the second part of a text are those of
/// that part alone.
proof fn lemma_lines_shift(a: Seq<char>, b: Seq<char>, q: int)
    requires
        0 <= q <= b.len(),
    ensures
        spec_lines_from(a + b, a.len() + q) == spec_lines_from(b, q),
    decreases b.len() - q,
{
    let s = a + b;
    lemma_next_newline_shift(a, b, q);
    lemma_next_newline_bounds(b, q);
    let e = spec_next_newline(b, q);
    assert(s.subrange(a.len() + q, a.len() + e) =~= b.subrange(q, e));
    if e < b.len() {
        lemma_lines_shift(a, b, e + 1);
    }
}

/// The timed lines of a text followed by `\n` and more, from a position in the
/// first text, are its own timed lines from there followed by those of the
/// rest.
proof fn lemma_lines_split(c1: Seq<char>, c2: Seq<char>, p: int)
    requires
        0 <= p <= c1.len(),
    ensures
        spec_lines_from(c1 + seq!['\n'] + c2, p) == spec_lines_from(c1, p) + spec_lines_from(c2, 0),
    decreases c1.len() - p,
{
    let s = c1 + seq!['\n'] + c2;
    lemma_next_newline_before_join(c1, c2, p);
    lemma_next_newline_bounds(c1, p);
    let e = spec_next_newline(c1, p);
    assert(s.subrange(p, e) =~= c1.subrange(p, e));
    if e < c1.len() {
        lemma_lines_split(c1, c2, e + 1);
        match spec_qrc_line(c1.subrange(p, e)) {
            Some(l) => {
                assert(seq![l] + (spec_lines_from(c1, e + 1) + spec_lines_from(c2, 0)) =~= (seq![l]
                    + spec_lines_from(c1, e + 1)) + spec_lines_from(c2, 0));
            },
            None => {},
        }
    } else {
        let a = c1 + seq!['\n'];
        assert(s =~= a + c2);
        lemma_lines_shift(a, c2, 0);
        assert(spec_lines_from(s, e + 1) == spec_lines_from(c2, 0));
        assert(spec_lines_from(c1, p) == match spec_qrc_line(c1.subrange(p, e)) {
            Some(l) => seq![l] + Seq::<LineView>::empty(),
            None => Seq::<LineView>::empty(),
        });
        match spec_qrc_line(c1.subrange(p, e)) {
            Some(l) => {
                assert(seq![l] + Seq::<LineView>::empty() =~= seq![l]);
            },
            None => {
                assert(Seq::<LineView>::empty() + spec_lines_from(c2, 0) =~= spec_lines_from(c2, 0));
            },
        }
    }
}

/// Every line of QRC content is read, in order: the timed lines of two pieces
/// of content joined by a newline are those of the first followed by those of
/// the second.
pub proof fn lemma_parse_lines_concat(c1: Seq<char>, c2: Seq<char>)
    ensures
        spec_parse_lines(c1 + seq!['\n'] + c2) == spec_parse_lines(c1) + spec_parse_lines(c2),
{
    lemma_lines_split(c1, c2, 0);
}


proof fn lemma_join_concat(a: Seq<Seq<char>>, b: Seq<Seq<char>>)
    requires
        a.len() > 0,
        b.len() > 0,
    ensures
        spec_join_lines(a + b) == spec_join_lines(a) + seq!['\n'] + spec_join_lines(b),
    decreases b.len(),
{
    if b.len() == 1 {
        assert((a + b).drop_last() =~= a);
        assert((a + b).last() == b[0]);
    } else {
        assert((a + b).drop_last() =~= a + b.drop_last());
        lemma_join_concat(a, b.drop_last());
        assert(spec_join_lines(a + b) =~= spec_join_lines(a) + seq!['\n'] + (spec_join_lines(
            b.drop_last(),
        ) + seq!['\n'] + b.last()));
    }
}

/// Converting QRC content to LRC treats every timed line the same way: for two
/// pieces of content that both hold timed lines, the LRC text of the two joined
/// by a newline is the LRC text of the first, a newline, and that of the second.
pub proof fn lemma_to_lrc_concat(c1: Seq<char>, c2: Seq<char>)
    requires
        spec_parse_lines(c1).len() > 0,
        spec_parse_lines(c2).len() > 0,
    ensures
        spec_to_lrc(c1 + seq!['\n'] + c2) == spec_to_lrc(c1) + seq!['\n'] + spec_to_lrc(c2),
        spec_to_enhanced_lrc(c1 + seq!['\n'] + c2) == spec_to_enhanced_lrc(c1) + seq!['\n']
            + spec_to_enhanced_lrc(c2),
{
    lemma_parse_lines_concat(c1, c2);
    let l1 = spec_parse_lines(c1);
    let l2 = spec_parse_lines(c2);
    let f = |l: LineView| spec_lrc_line(l);
    let g = |l: LineView| spec_enhanced_line(l);
    assert((l1 + l2).map_values(f) =~= l1.map_values(f) + l2.map_values(f));
    assert((l1 + l2).map_values(g) =~= l1.map_values(g) + l2.map_values(g));
    lemma_join_concat(l1.map_values(f), l2.map_values(f));
    lemma_join_concat(l1.map_values(g), l2.map_values(g));
}

} // verus!
