//! QQ Music download links and decryption keys through the unified
//! `vkey.GetVkeyServer.CgiGetVkey` service: the request it takes and how its
//! answer becomes a full URL and, for encrypted formats only, a key.

use vstd::prelude::*;

use crate::download_path::{extension_of, spec_extension};
use crate::json::{
    entries_view, index_opt, insert_pair, json_string, json_text, json_view, opt_as_i64,
    opt_as_str, opt_deref, opt_json_to_text, opt_view, spec_as_i64, spec_as_str, spec_object_of,
    spec_value_get, spec_value_index, value_get, JsonNumber, JsonValue, JsonView, NumberView, parse_response_json,
    parsed_json, response_parse_message,
};
use crate::qq_credentials::{jnum, jstr, QqAuth};
use crate::text::{push_str_chars, spec_decimal, str_chars, string_from_chars};

verus! {

/// The request key of the link service.
pub open spec fn vkey_key() -> Seq<char> {
    "vkey.GetVkeyServer.CgiGetVkey"@
}

/// The CDN used when the answer lists none.
pub open spec fn default_cdn() -> Seq<char> {
    "https://wx.music.tc.qq.com/"@
}

/// The characters of a GUID.
pub open spec fn guid_charset() -> Seq<char> {
    "ABCDEF1234567890"@
}

/// What `format!("{:?}", s)` writes for a string slice: the text in double
/// quotes with `char::escape_debug` escapes. The result depends on the text
/// alone.
pub uninterp spec fn str_debug_text(s: Seq<char>) -> Seq<char>;

/// std's `Debug` for `str` (`format!("{:?}", s)`): the quoted, escaped text,
/// named by [`str_debug_text`].
#[verifier::external_body]
fn debug_text(s: &str) -> (r: String)
    ensures
        r@ == str_debug_text(s@),
{
    format!("{:?}", s)
}

/// A uniformly random index below `n` from the thread's generator
/// (`rand::rng().random_range(0..n)`); every outcome is below `n`.
#[verifier::external_body]
fn random_below(n: usize) -> (r: usize)
    requires
        n > 0,
    ensures
        r < n,
{
    rand::Rng::random_range(&mut rand::rng(), 0..n)
}

/// A random GUID in the client's format: 32 characters from `ABCDEF1234567890`,
/// so that tasks never share one fixed device id.
pub fn get_guid() -> (r: String)
    ensures
        r@.len() == 32,
        forall|i: int| 0 <= i < 32 ==> guid_charset().contains(#[trigger] r@[i]),
{
    let charset = str_chars("ABCDEF1234567890");
    proof {
        reveal_strlit("ABCDEF1234567890");
    }
    let mut out: Vec<char> = Vec::new();
    let mut i: usize = 0;
    while i < 32
        invariant
            i <= 32,
            out@.len() == i,
            charset@ == guid_charset(),
            charset.len() > 0,
            forall|k: int| 0 <= k < i ==> guid_charset().contains(#[trigger] out@[k]),
        decreases 32 - i,
    {
        let k = random_below(charset.len());
        let c = charset[k];
        assert(guid_charset()[k as int] == c);
        out.push(c);
        i = i + 1;
    }
    string_from_chars(out.as_slice())
}

/// The text of an `i64` in decimal.
pub open spec fn spec_i64_text(v: i64) -> Seq<char> {
    if v < 0 {
        seq!['-'] + spec_decimal((-v) as nat)
    } else {
        spec_decimal(v as nat)
    }
}

/// Whether a character equals a lower-case ASCII one, ignoring ASCII case.
pub open spec fn ascii_lower(c: char) -> char {
    if 'A' <= c && c <= 'Z' {
        ((c as u32) + 32) as char
    } else {
        c
    }
}

/// Whether a text equals a lower-case ASCII word, ignoring ASCII case
/// (`str::eq_ignore_ascii_case`).
pub open spec fn eq_ignore_ascii_case(s: Seq<char>, word: Seq<char>) -> bool {
    s.len() == word.len() && forall|i: int| 0 <= i < s.len() ==> ascii_lower(#[trigger] s[i]) == word[i]
}

/// Whether a platform file name is an encrypted format (`mgg` or `mflac`,
/// in any ASCII case).
pub open spec fn spec_is_encrypted_name(filename: Seq<char>) -> bool {
    match spec_extension(filename) {
        Some(e) => eq_ignore_ascii_case(e, "mgg"@) || eq_ignore_ascii_case(e, "mflac"@),
        None => false,
    }
}

/// The message for a refused file.
pub open spec fn refusal_message(code: i64, tips: Seq<char>) -> Seq<char> {
    if code == 104003 {
        "无法获取下载链接"@
    } else if code == 104004 {
        "该歌曲已下架或禁止下载"@
    } else {
        "获取下载链接失败，错误码: "@ + spec_i64_text(code) + "，详情: "@ + str_debug_text(tips)
    }
}

/// The CDN prefix: the first `sip` address when it is a non-empty string, else
/// the default CDN.
pub open spec fn spec_cdn_prefix(data: Option<JsonValue>) -> Seq<char> {
    match spec_value_index(data, "sip"@) {
        Some(JsonValue::Array(items)) => if items@.len() > 0 {
            match spec_as_str(json_view(items@[0])) {
                Some(s) => if s.len() > 0 {
                    s
                } else {
                    default_cdn()
                },
                None => default_cdn(),
            }
        } else {
            default_cdn()
        },
        _ => default_cdn(),
    }
}

/// The text under a key of an optional value, or empty.
pub open spec fn text_at(v: Option<JsonValue>, key: Seq<char>) -> Seq<char> {
    match spec_as_str(opt_view(spec_value_index(v, key))) {
        Some(s) => s,
        None => Seq::empty(),
    }
}

/// The link and key of a link service answer for a platform file name.
pub open spec fn spec_parse_vkey_response(data: JsonValue, filename: Seq<char>) -> Result<(Seq<char>, Seq<char>), Seq<char>> {
    let vk = spec_value_get(data, vkey_key());
    let code_v = spec_value_index(vk, "code"@);
    let code: i64 = match spec_as_i64(opt_view(code_v)) {
        Some(c) => c,
        None => -1i64,
    };
    if code != 0 {
        Err("CgiGetVkey 错误: code="@ + match code_v {
            Some(x) => json_text(x),
            None => "null"@,
        })
    } else {
        let d = spec_value_index(vk, "data"@);
        match spec_value_index(d, "midurlinfo"@) {
            Some(JsonValue::Array(items)) => if items@.len() == 0 {
                Err("未获取到文件信息"@)
            } else {
                let item = Some(items@[0]);
                let purl = text_at(item, "purl"@);
                let ekey = text_at(item, "ekey"@);
                let result: i64 = match spec_as_i64(opt_view(spec_value_index(item, "result"@))) {
                    Some(c) => c,
                    None => 0i64,
                };
                if purl.len() == 0 || result != 0 {
                    Err(refusal_message(result, text_at(item, "tips"@)))
                } else {
                    let url = spec_cdn_prefix(d) + purl;
                    if spec_is_encrypted_name(filename) {
                        Ok((url, ekey))
                    } else {
                        Ok((url, Seq::empty()))
                    }
                }
            },
            _ => Err("缺少 midurlinfo"@),
        }
    }
}

/// The text under a key of an optional value, or empty.
fn text_at_exec<'a>(v: Option<&'a JsonValue>, key: &str) -> (r: &'a str)
    ensures
        r@ == text_at(opt_deref(v), key@),
{
    proof {
        reveal_strlit("");
    }
    match opt_as_str(index_opt(v, key)) {
        Some(s) => s,
        None => "",
    }
}

/// Whether a text equals a lower-case ASCII word, ignoring ASCII case.
fn eq_ignore_case(s: &[char], word: &str) -> (r: bool)
    ensures
        r == eq_ignore_ascii_case(s@, word@),
{
    let w = str_chars(word);
    if s.len() != w.len() {
        return false;
    }
    let mut i: usize = 0;
    while i < s.len()
        invariant
            i <= s.len(),
            s.len() == w.len(),
            w@ == word@,
            forall|k: int| 0 <= k < i ==> ascii_lower(#[trigger] s@[k]) == w@[k],
        decreases s.len() - i,
    {
        let c = s[i];
        let lower = if 'A' <= c && c <= 'Z' {
            ((c as u32) + 32) as u8 as char
        } else {
            c
        };
        assert(lower == ascii_lower(c)) by {
            if 'A' <= c && c <= 'Z' {
                assert(((c as u32) + 32) as u8 as char == ((c as u32) + 32) as char);
            }
        }
        if lower != w[i] {
            return false;
        }
        i = i + 1;
    }
    true
}

/// Whether a platform file name is an encrypted format.
pub fn is_encrypted_name(filename: &str) -> (r: bool)
    ensures
        r == spec_is_encrypted_name(filename@),
{
    let chars = str_chars(filename);
    match extension_of(chars.as_slice()) {
        Some(e) => eq_ignore_case(e.as_slice(), "mgg") || eq_ignore_case(e.as_slice(), "mflac"),
        None => false,
    }
}

/// Reads a link service answer: the full URL on the chosen CDN, and the key for
/// encrypted formats only (a plain format must never enter the decryption path).
pub fn parse_vkey_response(data: &JsonValue, filename: &str) -> (r: Result<(String, String), String>)
    ensures
        match spec_parse_vkey_response(*data, filename@) {
            Ok(l) => r is Ok && r->Ok_0.0@ == l.0 && r->Ok_0.1@ == l.1,
            Err(m) => r is Err && r->Err_0@ == m,
        },
{
    let vk = value_get(data, "vkey.GetVkeyServer.CgiGetVkey");
    let code_v = index_opt(vk, "code");
    let code: i64 = match opt_as_i64(code_v) {
        Some(c) => c,
        None => -1,
    };
    if code != 0 {
        let mut m = String::from_str("CgiGetVkey 错误: code=");
        m.append(opt_json_to_text(code_v).as_str());
        return Err(m);
    }
    let d = index_opt(vk, "data");
    let items = match index_opt(d, "midurlinfo") {
        Some(JsonValue::Array(items)) => items,
        _ => return Err(String::from_str("缺少 midurlinfo")),
    };
    if items.len() == 0 {
        return Err(String::from_str("未获取到文件信息"));
    }
    let item = Some(&items[0]);
    let purl = text_at_exec(item, "purl");
    let ekey = text_at_exec(item, "ekey");
    let result: i64 = match opt_as_i64(index_opt(item, "result")) {
        Some(c) => c,
        None => 0,
    };
    if purl.unicode_len() == 0 || result != 0 {
        if result == 104003 {
            return Err(String::from_str("无法获取下载链接"));
        } else if result == 104004 {
            return Err(String::from_str("该歌曲已下架或禁止下载"));
        }
        let mut out: Vec<char> = Vec::new();
        push_str_chars(&mut out, "获取下载链接失败，错误码: ");
        let code_text = crate::platforms::qq_playlist::i64_text(result);
        push_str_chars(&mut out, code_text.as_str());
        push_str_chars(&mut out, "，详情: ");
        let tips = text_at_exec(item, "tips");
        push_str_chars(&mut out, debug_text(tips).as_str());
        return Err(string_from_chars(out.as_slice()));
    }
    let cdn: &str = match index_opt(d, "sip") {
        Some(JsonValue::Array(sips)) => if sips.len() > 0 {
            match sips[0].as_str() {
                Some(s) => if s.unicode_len() > 0 {
                    s
                } else {
                    "https://wx.music.tc.qq.com/"
                },
                None => "https://wx.music.tc.qq.com/",
            }
        } else {
            "https://wx.music.tc.qq.com/"
        },
        _ => "https://wx.music.tc.qq.com/",
    };
    let mut url = String::from_str(cdn);
    url.append(purl);
    if is_encrypted_name(filename) {
        Ok((url, String::from_str(ekey)))
    } else {
        Ok((url, String::new()))
    }
}

/// The body of a link request: the login (empty when anonymous) in `comm` and in
/// the parameters, a fresh GUID, the file name and the song.
pub open spec fn spec_vkey_request(song_mid: Seq<char>, filename: Seq<char>, uin: Seq<char>, authst: Seq<char>, guid: Seq<char>) -> JsonView {
    JsonView::Object(
        spec_object_of(
            seq![
                ("loginUin"@, jstr(uin)),
                (
                    "comm"@,
                    JsonView::Object(
                        spec_object_of(
                            seq![
                                ("format"@, jstr("json"@)),
                                ("ct"@, jnum(24)),
                                ("cv"@, jnum(0)),
                                ("tmeAppID"@, jstr("qqmusic"@)),
                                ("uin"@, jstr(uin)),
                                ("qq"@, jstr(uin)),
                                ("authst"@, jstr(authst)),
                            ],
                        ),
                    ),
                ),
                (
                    vkey_key(),
                    JsonView::Object(
                        spec_object_of(
                            seq![
                                ("module"@, jstr("vkey.GetVkeyServer"@)),
                                ("method"@, jstr("CgiGetVkey"@)),
                                (
                                    "param"@,
                                    JsonView::Object(
                                        spec_object_of(
                                            seq![
                                                ("guid"@, jstr(guid)),
                                                ("filename"@, JsonView::Array(seq![jstr(filename)])),
                                                ("songmid"@, JsonView::Array(seq![jstr(song_mid)])),
                                                ("songtype"@, JsonView::Array(seq![jnum(0)])),
                                                ("uin"@, jstr(uin)),
                                                ("loginflag"@, jnum(1)),
                                                ("platform"@, jstr("20"@)),
                                            ],
                                        ),
                                    ),
                                ),
                            ],
                        ),
                    ),
                ),
            ],
        ),
    )
}

/// A one-item array.
fn single(v: JsonValue) -> (r: JsonValue)
    ensures
        json_view(r) == JsonView::Array(seq![json_view(v)]),
{
    let mut items: Vec<JsonValue> = Vec::new();
    items.push(v);
    let r = JsonValue::Array(items);
    assert(crate::json::array_view(items@) =~= seq![json_view(items@[0])]);
    r
}

/// A number value.
fn num(n: u64) -> (r: JsonValue)
    ensures
        json_view(r) == jnum(n),
{
    JsonValue::Number(JsonNumber::PosInt(n))
}

/// Builds the body of a link request.
pub fn vkey_request_body(song_mid: &str, filename: &str, credentials: Option<&QqAuth>, guid: &str) -> (r: JsonValue)
    ensures
        json_view(r) == spec_vkey_request(
            song_mid@,
            filename@,
            match credentials {
                Some(c) => c.uin@,
                None => Seq::empty(),
            },
            match credentials {
                Some(c) => c.authst@,
                None => Seq::empty(),
            },
            guid@,
        ),
{
    proof {
        reveal_strlit("");
    }
    let uin: &str = match credentials {
        Some(c) => c.uin.as_str(),
        None => "",
    };
    let authst: &str = match credentials {
        Some(c) => c.authst.as_str(),
        None => "",
    };
    let mut comm: Vec<(String, JsonValue)> = Vec::new();
    let ghost mut cp: Seq<(Seq<char>, JsonView)> = Seq::empty();
    assert(entries_view(comm@) =~= spec_object_of(cp));
    insert_pair(&mut comm, Ghost(cp), "format", json_string("json"));
    proof { cp = cp.push(("format"@, jstr("json"@))); }
    insert_pair(&mut comm, Ghost(cp), "ct", num(24));
    proof { cp = cp.push(("ct"@, jnum(24))); }
    insert_pair(&mut comm, Ghost(cp), "cv", num(0));
    proof { cp = cp.push(("cv"@, jnum(0))); }
    insert_pair(&mut comm, Ghost(cp), "tmeAppID", json_string("qqmusic"));
    proof { cp = cp.push(("tmeAppID"@, jstr("qqmusic"@))); }
    insert_pair(&mut comm, Ghost(cp), "uin", json_string(uin));
    proof { cp = cp.push(("uin"@, jstr(uin@))); }
    insert_pair(&mut comm, Ghost(cp), "qq", json_string(uin));
    proof { cp = cp.push(("qq"@, jstr(uin@))); }
    insert_pair(&mut comm, Ghost(cp), "authst", json_string(authst));
    proof { cp = cp.push(("authst"@, jstr(authst@))); }

    let mut param: Vec<(String, JsonValue)> = Vec::new();
    let ghost mut pp: Seq<(Seq<char>, JsonView)> = Seq::empty();
    assert(entries_view(param@) =~= spec_object_of(pp));
    insert_pair(&mut param, Ghost(pp), "guid", json_string(guid));
    proof { pp = pp.push(("guid"@, jstr(guid@))); }
    insert_pair(&mut param, Ghost(pp), "filename", single(json_string(filename)));
    proof { pp = pp.push(("filename"@, JsonView::Array(seq![jstr(filename@)]))); }
    insert_pair(&mut param, Ghost(pp), "songmid", single(json_string(song_mid)));
    proof { pp = pp.push(("songmid"@, JsonView::Array(seq![jstr(song_mid@)]))); }
    insert_pair(&mut param, Ghost(pp), "songtype", single(num(0)));
    proof { pp = pp.push(("songtype"@, JsonView::Array(seq![jnum(0)]))); }
    insert_pair(&mut param, Ghost(pp), "uin", json_string(uin));
    proof { pp = pp.push(("uin"@, jstr(uin@))); }
    insert_pair(&mut param, Ghost(pp), "loginflag", num(1));
    proof { pp = pp.push(("loginflag"@, jnum(1))); }
    insert_pair(&mut param, Ghost(pp), "platform", json_string("20"));
    proof { pp = pp.push(("platform"@, jstr("20"@))); }

    let mut call: Vec<(String, JsonValue)> = Vec::new();
    let ghost mut kp: Seq<(Seq<char>, JsonView)> = Seq::empty();
    assert(entries_view(call@) =~= spec_object_of(kp));
    insert_pair(&mut call, Ghost(kp), "module", json_string("vkey.GetVkeyServer"));
    proof { kp = kp.push(("module"@, jstr("vkey.GetVkeyServer"@))); }
    insert_pair(&mut call, Ghost(kp), "method", json_string("CgiGetVkey"));
    proof { kp = kp.push(("method"@, jstr("CgiGetVkey"@))); }
    let ghost param_view = JsonView::Object(spec_object_of(pp));
    insert_pair(&mut call, Ghost(kp), "param", JsonValue::Object(param));
    proof { kp = kp.push(("param"@, param_view)); }

    let mut body: Vec<(String, JsonValue)> = Vec::new();
    let ghost mut bp: Seq<(Seq<char>, JsonView)> = Seq::empty();
    assert(entries_view(body@) =~= spec_object_of(bp));
    insert_pair(&mut body, Ghost(bp), "loginUin", json_string(uin));
    proof { bp = bp.push(("loginUin"@, jstr(uin@))); }
    let ghost comm_view = JsonView::Object(spec_object_of(cp));
    insert_pair(&mut body, Ghost(bp), "comm", JsonValue::Object(comm));
    proof { bp = bp.push(("comm"@, comm_view)); }
    let ghost call_view = JsonView::Object(spec_object_of(kp));
    insert_pair(&mut body, Ghost(bp), "vkey.GetVkeyServer.CgiGetVkey", JsonValue::Object(call));
    proof { bp = bp.push((vkey_key(), call_view)); }
    assert(cp =~= seq![
        ("format"@, jstr("json"@)),
        ("ct"@, jnum(24)),
        ("cv"@, jnum(0)),
        ("tmeAppID"@, jstr("qqmusic"@)),
        ("uin"@, jstr(uin@)),
        ("qq"@, jstr(uin@)),
        ("authst"@, jstr(authst@)),
    ]);
    assert(pp =~= seq![
        ("guid"@, jstr(guid@)),
        ("filename"@, JsonView::Array(seq![jstr(filename@)])),
        ("songmid"@, JsonView::Array(seq![jstr(song_mid@)])),
        ("songtype"@, JsonView::Array(seq![jnum(0)])),
        ("uin"@, jstr(uin@)),
        ("loginflag"@, jnum(1)),
        ("platform"@, jstr("20"@)),
    ]);
    assert(kp =~= seq![
        ("module"@, jstr("vkey.GetVkeyServer"@)),
        ("method"@, jstr("CgiGetVkey"@)),
        ("param"@, param_view),
    ]);
    assert(bp =~= seq![("loginUin"@, jstr(uin@)), ("comm"@, comm_view), (vkey_key(), call_view)]);
    let r = JsonValue::Object(body);
    assert(json_view(r) == JsonView::Object(spec_object_of(bp)));
    assert(comm_view == JsonView::Object(
        spec_object_of(
            seq![
                ("format"@, jstr("json"@)),
                ("ct"@, jnum(24)),
                ("cv"@, jnum(0)),
                ("tmeAppID"@, jstr("qqmusic"@)),
                ("uin"@, jstr(uin@)),
                ("qq"@, jstr(uin@)),
                ("authst"@, jstr(authst@)),
            ],
        ),
    ));
    assert(param_view == JsonView::Object(
        spec_object_of(
            seq![
                ("guid"@, jstr(guid@)),
                ("filename"@, JsonView::Array(seq![jstr(filename@)])),
                ("songmid"@, JsonView::Array(seq![jstr(song_mid@)])),
                ("songtype"@, JsonView::Array(seq![jnum(0)])),
                ("uin"@, jstr(uin@)),
                ("loginflag"@, jnum(1)),
                ("platform"@, jstr("20"@)),
            ],
        ),
    ));
    assert(uin@ == match credentials {
        Some(c) => c.uin@,
        None => Seq::<char>::empty(),
    });
    assert(authst@ == match credentials {
        Some(c) => c.authst@,
        None => Seq::<char>::empty(),
    });
    r
}

/// The link and key from the vkey response body as received: a body that is
/// not JSON gives the parse error.
pub fn parse_vkey_body(body: &str, filename: &str) -> (r: Result<(String, String), String>)
    ensures
        match parsed_json(body@) {
            Err(e) => r is Err && r->Err_0@ == response_parse_message(e),
            Ok(v) => exists|data: JsonValue| #[trigger] json_view(data) == v && match spec_parse_vkey_response(data, filename@) {
                Ok(l) => r is Ok && r->Ok_0.0@ == l.0 && r->Ok_0.1@ == l.1,
                Err(m) => r is Err && r->Err_0@ == m,
            },
        },
{
    let data = match parse_response_json(body) {
        Ok(d) => d,
        Err(e) => return Err(e),
    };
    let r = parse_vkey_response(&data, filename);
    assert(json_view(data) == parsed_json(body@)->Ok_0);
    r
}

} // verus!
