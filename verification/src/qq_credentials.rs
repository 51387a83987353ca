//! QQ Music login credentials: what a stored settings file holds, when a token
//! counts as expired, how a refresh is asked for and how its answer is stored.
//! The file fields keep the desktop settings' names (`loginUin`, `authst`,
//! `refreshToken`, ...), so that an existing login carries over.

use vstd::prelude::*;

use crate::json::{
    copy_json, entries_view, index_opt, insert_pair, json_string, json_text, json_view,
    obj_insert, opt_as_i64, opt_as_str, opt_as_u64, opt_deref, opt_json_to_text, opt_view,
    spec_as_i64, spec_as_str, spec_as_u64, spec_index, spec_obj_insert, spec_object_of,
    spec_value_get, spec_value_index, value_get, JsonNumber, JsonValue, JsonView, NumberView,
    parse_json_text, parsed_json,
};
use crate::text::{parse_u64, push_decimal, spec_decimal, spec_parse_u64, str_chars, string_from_chars};
use crate::download_link::spec_starts_with;

verus! {

/// The two credentials the link request needs. Tokens never enter task records
/// or progress events.
#[derive(Clone)]
pub struct QqAuth {
    pub uin: String,
    pub authst: String,
}

/// The text under a key of the settings, or empty (`settings[key].as_str()
/// .unwrap_or("")`).
pub open spec fn setting_text(settings: JsonView, key: Seq<char>) -> Seq<char> {
    match spec_as_str(spec_index(settings, key)) {
        Some(s) => s,
        None => Seq::empty(),
    }
}

/// The text under a key of the settings, or empty.
fn text_or_empty<'a>(settings: &'a JsonValue, key: &str) -> (r: &'a str)
    ensures
        r@ == setting_text(json_view(*settings), key@),
{
    proof {
        reveal_strlit("");
    }
    match opt_as_str(value_get(settings, key)) {
        Some(s) => s,
        None => "",
    }
}

/// The stored login, when both the uin and the token are non-empty strings.
pub fn stored_auth(settings: &JsonValue) -> (r: Option<QqAuth>)
    ensures
        ({
            let uin = spec_as_str(spec_index(json_view(*settings), "loginUin"@));
            let authst = spec_as_str(spec_index(json_view(*settings), "authst"@));
            if uin is Some && authst is Some && uin->0.len() > 0 && authst->0.len() > 0 {
                r is Some && r->0.uin@ == uin->0 && r->0.authst@ == authst->0
            } else {
                r is None
            }
        }),
{
    let uin = opt_as_str(value_get(settings, "loginUin"));
    let authst = opt_as_str(value_get(settings, "authst"));
    match (uin, authst) {
        (Some(u), Some(a)) => if u.unicode_len() > 0 && a.unicode_len() > 0 {
            Some(QqAuth { uin: String::from_str(u), authst: String::from_str(a) })
        } else {
            None
        },
        _ => None,
    }
}

/// Whether a stored login has expired, from the result of checking it: only an
/// explicit refusal by the service (`接口错误:`) means expired; a network failure
/// must not discard a token that may still be valid.
pub fn expiry_from_check(result: Result<(), String>) -> (r: Result<bool, String>)
    ensures
        match result {
            Ok(()) => r == Ok::<bool, String>(false),
            Err(e) => if spec_starts_with(e@, "接口错误:"@) {
                r == Ok::<bool, String>(true)
            } else {
                r is Err && r->Err_0@ == e@
            },
        },
{
    match result {
        Ok(()) => Ok(false),
        Err(e) => {
            let chars = str_chars(e.as_str());
            if crate::download_link::starts_with(chars.as_slice(), "接口错误:") {
                Ok(true)
            } else {
                Err(e)
            }
        },
    }
}

/// Whether the settings hold a refresh token or refresh key.
pub fn has_refresh_token(settings: &JsonValue) -> (r: bool)
    ensures
        r == (setting_text(json_view(*settings), "refreshToken"@).len() > 0 || setting_text(
            json_view(*settings),
            "refreshKey"@,
        ).len() > 0),
{
    text_or_empty(settings, "refreshToken").unicode_len() > 0 || text_or_empty(settings, "refreshKey").unicode_len() > 0
}

/// The login type recorded with the last login, 0 without one.
pub open spec fn spec_login_type(settings: JsonView) -> u64 {
    match spec_as_u64(spec_index(spec_index(settings, "loginResponseData"@), "loginType"@)) {
        Some(t) => t,
        None => 0,
    }
}

/// A JSON string.
pub open spec fn jstr(s: Seq<char>) -> JsonView {
    JsonView::String(s)
}

/// A JSON non-negative integer.
pub open spec fn jnum(n: u64) -> JsonView {
    JsonView::Number(NumberView::PosInt(n))
}

/// The parameters of a token refresh, in the three shapes the desktop login
/// uses for the three login types; the uin must be a number.
pub open spec fn spec_refresh_param(settings: JsonView, uin: Seq<char>, authst: Seq<char>) -> Result<
    Seq<(Seq<char>, JsonView)>,
    Seq<char>,
> {
    match spec_parse_u64(uin) {
        None => Err("uin 必须为数字"@),
        Some(music_id) => {
            let openid = setting_text(settings, "openid"@);
            let access_token = setting_text(settings, "accessToken"@);
            let refresh_token = setting_text(settings, "refreshToken"@);
            let refresh_key = setting_text(settings, "refreshKey"@);
            let login_type = spec_login_type(settings);
            if login_type == 1 {
                Ok(
                    spec_object_of(
                        seq![
                            ("openid"@, jstr(openid)),
                            ("refresh_token"@, jstr(refresh_token)),
                            ("str_musicid"@, jstr(uin)),
                            ("musickey"@, jstr(authst)),
                            ("refresh_key"@, jstr(refresh_key)),
                            ("loginMode"@, jnum(2)),
                        ],
                    ),
                )
            } else if login_type == 2 {
                Ok(
                    spec_object_of(
                        seq![
                            ("openid"@, jstr(openid)),
                            ("access_token"@, jstr(access_token)),
                            ("refresh_token"@, jstr(refresh_token)),
                            ("expired_in"@, jnum(0)),
                            ("musicid"@, jnum(music_id)),
                            ("musickey"@, jstr(authst)),
                            ("refresh_key"@, jstr(refresh_key)),
                            ("loginMode"@, jnum(2)),
                        ],
                    ),
                )
            } else {
                Ok(
                    spec_object_of(
                        seq![
                            ("openid"@, jstr(openid)),
                            ("access_token"@, jstr(access_token)),
                            ("refresh_token"@, jstr(refresh_token)),
                            ("expired_in"@, jnum(0)),
                            ("str_musicid"@, jstr(uin)),
                            ("musicid"@, jnum(music_id)),
                            ("musickey"@, jstr(authst)),
                            ("refresh_key"@, jstr(refresh_key)),
                            ("loginMode"@, jnum(2)),
                        ],
                    ),
                )
            }
        },
    }
}

/// A JSON non-negative integer value.
fn json_u64(n: u64) -> (r: JsonValue)
    ensures
        json_view(r) == jnum(n),
{
    JsonValue::Number(JsonNumber::PosInt(n))
}

/// Builds the parameters of a token refresh for the login type recorded with the
/// last login.
pub fn build_refresh_param(settings: &JsonValue, old: &QqAuth) -> (r: Result<JsonValue, String>)
    ensures
        match spec_refresh_param(json_view(*settings), old.uin@, old.authst@) {
            Ok(es) => r is Ok && json_view(r->Ok_0) == JsonView::Object(es),
            Err(m) => r is Err && r->Err_0@ == m,
        },
{
    let uin_chars = str_chars(old.uin.as_str());
    let music_id = match parse_u64(uin_chars.as_slice()) {
        Some(v) => v,
        None => return Err(String::from_str("uin 必须为数字")),
    };
    let login_type = match opt_as_u64(index_opt(value_get(settings, "loginResponseData"), "loginType")) {
        Some(t) => t,
        None => 0,
    };
    let openid = text_or_empty(settings, "openid");
    let access_token = text_or_empty(settings, "accessToken");
    let refresh_token = text_or_empty(settings, "refreshToken");
    let refresh_key = text_or_empty(settings, "refreshKey");
    let mut es: Vec<(String, JsonValue)> = Vec::new();
    let ghost mut pairs: Seq<(Seq<char>, JsonView)> = Seq::empty();
    assert(entries_view(es@) =~= spec_object_of(pairs));
    if login_type == 1 {
        insert_pair(&mut es, Ghost(pairs), "openid", json_string(openid));
        proof { pairs = pairs.push(("openid"@, jstr(openid@))); }
        insert_pair(&mut es, Ghost(pairs), "refresh_token", json_string(refresh_token));
        proof { pairs = pairs.push(("refresh_token"@, jstr(refresh_token@))); }
        insert_pair(&mut es, Ghost(pairs), "str_musicid", json_string(old.uin.as_str()));
        proof { pairs = pairs.push(("str_musicid"@, jstr(old.uin@))); }
        insert_pair(&mut es, Ghost(pairs), "musickey", json_string(old.authst.as_str()));
        proof { pairs = pairs.push(("musickey"@, jstr(old.authst@))); }
        insert_pair(&mut es, Ghost(pairs), "refresh_key", json_string(refresh_key));
        proof { pairs = pairs.push(("refresh_key"@, jstr(refresh_key@))); }
        insert_pair(&mut es, Ghost(pairs), "loginMode", json_u64(2));
        proof { pairs = pairs.push(("loginMode"@, jnum(2))); }
        assert(pairs =~= seq![
            ("openid"@, jstr(openid@)),
            ("refresh_token"@, jstr(refresh_token@)),
            ("str_musicid"@, jstr(old.uin@)),
            ("musickey"@, jstr(old.authst@)),
            ("refresh_key"@, jstr(refresh_key@)),
            ("loginMode"@, jnum(2)),
        ]);
    } else if login_type == 2 {
        insert_pair(&mut es, Ghost(pairs), "openid", json_string(openid));
        proof { pairs = pairs.push(("openid"@, jstr(openid@))); }
        insert_pair(&mut es, Ghost(pairs), "access_token", json_string(access_token));
        proof { pairs = pairs.push(("access_token"@, jstr(access_token@))); }
        insert_pair(&mut es, Ghost(pairs), "refresh_token", json_string(refresh_token));
        proof { pairs = pairs.push(("refresh_token"@, jstr(refresh_token@))); }
        insert_pair(&mut es, Ghost(pairs), "expired_in", json_u64(0));
        proof { pairs = pairs.push(("expired_in"@, jnum(0))); }
        insert_pair(&mut es, Ghost(pairs), "musicid", json_u64(music_id));
        proof { pairs = pairs.push(("musicid"@, jnum(music_id))); }
        insert_pair(&mut es, Ghost(pairs), "musickey", json_string(old.authst.as_str()));
        proof { pairs = pairs.push(("musickey"@, jstr(old.authst@))); }
        insert_pair(&mut es, Ghost(pairs), "refresh_key", json_string(refresh_key));
        proof { pairs = pairs.push(("refresh_key"@, jstr(refresh_key@))); }
        insert_pair(&mut es, Ghost(pairs), "loginMode", json_u64(2));
        proof { pairs = pairs.push(("loginMode"@, jnum(2))); }
        assert(pairs =~= seq![
            ("openid"@, jstr(openid@)),
            ("access_token"@, jstr(access_token@)),
            ("refresh_token"@, jstr(refresh_token@)),
            ("expired_in"@, jnum(0)),
            ("musicid"@, jnum(music_id)),
            ("musickey"@, jstr(old.authst@)),
            ("refresh_key"@, jstr(refresh_key@)),
            ("loginMode"@, jnum(2)),
        ]);
    } else {
        insert_pair(&mut es, Ghost(pairs), "openid", json_string(openid));
        proof { pairs = pairs.push(("openid"@, jstr(openid@))); }
        insert_pair(&mut es, Ghost(pairs), "access_token", json_string(access_token));
        proof { pairs = pairs.push(("access_token"@, jstr(access_token@))); }
        insert_pair(&mut es, Ghost(pairs), "refresh_token", json_string(refresh_token));
        proof { pairs = pairs.push(("refresh_token"@, jstr(refresh_token@))); }
        insert_pair(&mut es, Ghost(pairs), "expired_in", json_u64(0));
        proof { pairs = pairs.push(("expired_in"@, jnum(0))); }
        insert_pair(&mut es, Ghost(pairs), "str_musicid", json_string(old.uin.as_str()));
        proof { pairs = pairs.push(("str_musicid"@, jstr(old.uin@))); }
        insert_pair(&mut es, Ghost(pairs), "musicid", json_u64(music_id));
        proof { pairs = pairs.push(("musicid"@, jnum(music_id))); }
        insert_pair(&mut es, Ghost(pairs), "musickey", json_string(old.authst.as_str()));
        proof { pairs = pairs.push(("musickey"@, jstr(old.authst@))); }
        insert_pair(&mut es, Ghost(pairs), "refresh_key", json_string(refresh_key));
        proof { pairs = pairs.push(("refresh_key"@, jstr(refresh_key@))); }
        insert_pair(&mut es, Ghost(pairs), "loginMode", json_u64(2));
        proof { pairs = pairs.push(("loginMode"@, jnum(2))); }
        assert(pairs =~= seq![
            ("openid"@, jstr(openid@)),
            ("access_token"@, jstr(access_token@)),
            ("refresh_token"@, jstr(refresh_token@)),
            ("expired_in"@, jnum(0)),
            ("str_musicid"@, jstr(old.uin@)),
            ("musicid"@, jnum(music_id)),
            ("musickey"@, jstr(old.authst@)),
            ("refresh_key"@, jstr(refresh_key@)),
            ("loginMode"@, jnum(2)),
        ]);
    }
    Ok(JsonValue::Object(es))
}

/// The login a refresh answer carries: the uin from `str_musicid` (if non-empty)
/// or the number `musicid`, and the token from a non-empty `musickey`.
pub open spec fn spec_refreshed_auth(data: JsonView) -> Result<(Seq<char>, Seq<char>), Seq<char>> {
    let str_id = spec_as_str(spec_index(data, "str_musicid"@));
    let num_id = spec_as_u64(spec_index(data, "musicid"@));
    let key = spec_as_str(spec_index(data, "musickey"@));
    let uin = if str_id is Some && str_id->0.len() > 0 {
        Some(str_id->0)
    } else if num_id is Some {
        Some(spec_decimal(num_id->0 as nat))
    } else {
        None
    };
    match uin {
        None => Err("刷新响应缺少 musicid"@),
        Some(u) => if key is Some && key->0.len() > 0 {
            Ok((u, key->0))
        } else {
            Err("刷新响应缺少 musickey"@)
        },
    }
}

/// Reads the new login from a refresh answer.
pub fn auth_from_login_data(data: &JsonValue) -> (r: Result<QqAuth, String>)
    ensures
        match spec_refreshed_auth(json_view(*data)) {
            Ok(a) => r is Ok && r->Ok_0.uin@ == a.0 && r->Ok_0.authst@ == a.1,
            Err(m) => r is Err && r->Err_0@ == m,
        },
{
    let str_id = opt_as_str(value_get(data, "str_musicid"));
    let uin: Option<String> = match str_id {
        Some(s) if s.unicode_len() > 0 => Some(String::from_str(s)),
        _ => match opt_as_u64(value_get(data, "musicid")) {
            Some(n) => {
                let mut digits: Vec<char> = Vec::new();
                push_decimal(n, &mut digits);
                Some(string_from_chars(digits.as_slice()))
            },
            None => None,
        },
    };
    let uin = match uin {
        Some(u) => u,
        None => return Err(String::from_str("刷新响应缺少 musicid")),
    };
    match opt_as_str(value_get(data, "musickey")) {
        Some(k) if k.unicode_len() > 0 => Ok(QqAuth { uin, authst: String::from_str(k) }),
        _ => Err(String::from_str("刷新响应缺少 musickey")),
    }
}

/// The settings after a refresh: the new uin and token, the tokens the answer
/// carries, and the whole answer; every other field stays.
pub open spec fn spec_refreshed_settings(
    es: Seq<(Seq<char>, JsonView)>,
    uin: Seq<char>,
    authst: Seq<char>,
    data: JsonView,
) -> Seq<(Seq<char>, JsonView)> {
    let e1 = spec_obj_insert(spec_obj_insert(es, "loginUin"@, jstr(uin)), "authst"@, jstr(authst));
    let e2 = copy_token(e1, data, "refresh_token"@, "refreshToken"@);
    let e3 = copy_token(e2, data, "refresh_key"@, "refreshKey"@);
    let e4 = copy_token(e3, data, "access_token"@, "accessToken"@);
    let e5 = copy_token(e4, data, "openid"@, "openid"@);
    spec_obj_insert(e5, "loginResponseData"@, data)
}

/// The entries with `target` set to the answer's `source` text, when it has one.
pub open spec fn copy_token(
    es: Seq<(Seq<char>, JsonView)>,
    data: JsonView,
    source: Seq<char>,
    target: Seq<char>,
) -> Seq<(Seq<char>, JsonView)> {
    match spec_as_str(spec_index(data, source)) {
        Some(v) => spec_obj_insert(es, target, jstr(v)),
        None => es,
    }
}

/// Sets `target` to the answer's `source` text, when it has one.
fn store_token(es: &mut Vec<(String, JsonValue)>, data: &JsonValue, source: &str, target: &str)
    ensures
        entries_view(final(es)@) == copy_token(entries_view(old(es)@), json_view(*data), source@, target@),
{
    match opt_as_str(value_get(data, source)) {
        Some(v) => obj_insert(es, String::from_str(target), json_string(v)),
        None => {},
    }
}

/// Stores a refreshed login in the settings object, keeping the other settings
/// (the same file may also hold download settings).
pub fn apply_refreshed_credentials(settings: &mut Vec<(String, JsonValue)>, auth: &QqAuth, data: JsonValue)
    ensures
        entries_view(final(settings)@) == spec_refreshed_settings(
            entries_view(old(settings)@),
            auth.uin@,
            auth.authst@,
            json_view(data),
        ),
{
    obj_insert(settings, String::from_str("loginUin"), json_string(auth.uin.as_str()));
    obj_insert(settings, String::from_str("authst"), json_string(auth.authst.as_str()));
    store_token(settings, &data, "refresh_token", "refreshToken");
    store_token(settings, &data, "refresh_key", "refreshKey");
    store_token(settings, &data, "access_token", "accessToken");
    store_token(settings, &data, "openid", "openid");
    obj_insert(settings, String::from_str("loginResponseData"), data);
}

/// What a login service call answers: the module's `data`, unless the module is
/// missing or its code is not 0.
pub open spec fn spec_login_response(data: JsonValue, request_key: Seq<char>) -> Result<Option<JsonValue>, Seq<char>> {
    match spec_value_get(data, request_key) {
        None => Err("响应缺少对应模块"@),
        Some(module) => {
            let code = spec_value_get(module, "code"@);
            let c: i64 = match spec_as_i64(opt_view(code)) {
                Some(v) => v,
                None => -1i64,
            };
            if c != 0 {
                Err("接口错误: code="@ + match code {
                    Some(x) => json_text(x),
                    None => "null"@,
                })
            } else {
                Ok(spec_value_get(module, "data"@))
            }
        },
    }
}

/// Reads a login service answer: the module's `data` (`null` when missing), or
/// the service's refusal.
pub fn login_response_data(data: &JsonValue, request_key: &str) -> (r: Result<JsonValue, String>)
    ensures
        match spec_login_response(*data, request_key@) {
            Ok(d) => r is Ok && json_view(r->Ok_0) == opt_view(d),
            Err(m) => r is Err && r->Err_0@ == m,
        },
{
    let module = match value_get(data, request_key) {
        Some(m) => m,
        None => return Err(String::from_str("响应缺少对应模块")),
    };
    let code = value_get(module, "code");
    let c = match opt_as_i64(code) {
        Some(v) => v,
        None => -1,
    };
    if c != 0 {
        let mut m = String::from_str("接口错误: code=");
        let text = opt_json_to_text(code);
        m.append(text.as_str());
        return Err(m);
    }
    match value_get(module, "data") {
        Some(d) => Ok(copy_json(d)),
        None => Ok(JsonValue::Null),
    }
}

/// The fields every login service call sends under `comm`.
pub open spec fn spec_comm_base() -> Seq<(Seq<char>, JsonView)> {
    let e0 = Seq::<(Seq<char>, JsonView)>::empty();
    let e1 = spec_obj_insert(e0, "ct"@, jstr("11"@));
    let e2 = spec_obj_insert(e1, "cv"@, jstr("13020508"@));
    let e3 = spec_obj_insert(e2, "v"@, jstr("13020508"@));
    let e4 = spec_obj_insert(e3, "tmeAppID"@, jstr("qqmusic"@));
    let e5 = spec_obj_insert(e4, "format"@, jstr("json"@));
    let e6 = spec_obj_insert(e5, "inCharset"@, jstr("utf-8"@));
    spec_obj_insert(e6, "outCharset"@, jstr("utf-8"@))
}

/// Entries with each of `extra` set in turn.
pub open spec fn spec_insert_all(es: Seq<(Seq<char>, JsonView)>, extra: Seq<(Seq<char>, JsonView)>) -> Seq<
    (Seq<char>, JsonView),
>
    decreases extra.len(),
{
    if extra.len() == 0 {
        es
    } else {
        let l = extra.last();
        spec_obj_insert(spec_insert_all(es, extra.drop_last()), l.0, l.1)
    }
}

/// The body of a login service call: `comm` with the extra fields set, and the
/// module's request under `module.method`.
pub open spec fn spec_login_request(
    module: Seq<char>,
    method: Seq<char>,
    param: JsonView,
    extra: Seq<(Seq<char>, JsonView)>,
) -> JsonView {
    let comm = spec_insert_all(spec_comm_base(), extra);
    let m0 = spec_obj_insert(Seq::empty(), "module"@, jstr(module));
    let m1 = spec_obj_insert(m0, "method"@, jstr(method));
    let m2 = spec_obj_insert(m1, "param"@, param);
    let b0 = spec_obj_insert(Seq::empty(), "comm"@, JsonView::Object(comm));
    JsonView::Object(spec_obj_insert(b0, module + "."@ + method, JsonView::Object(m2)))
}

/// Builds the body of a login service call.
pub fn login_request(module: &str, method: &str, param: JsonValue, extra: &Vec<(String, JsonValue)>) -> (r:
    JsonValue)
    ensures
        json_view(r) == spec_login_request(module@, method@, json_view(param), entries_view(extra@)),
{
    let mut comm: Vec<(String, JsonValue)> = Vec::new();
    assert(entries_view(comm@) =~= Seq::<(Seq<char>, JsonView)>::empty());
    obj_insert(&mut comm, String::from_str("ct"), json_string("11"));
    obj_insert(&mut comm, String::from_str("cv"), json_string("13020508"));
    obj_insert(&mut comm, String::from_str("v"), json_string("13020508"));
    obj_insert(&mut comm, String::from_str("tmeAppID"), json_string("qqmusic"));
    obj_insert(&mut comm, String::from_str("format"), json_string("json"));
    obj_insert(&mut comm, String::from_str("inCharset"), json_string("utf-8"));
    obj_insert(&mut comm, String::from_str("outCharset"), json_string("utf-8"));
    let ghost ev = entries_view(extra@);
    assert(entries_view(comm@) == spec_comm_base());
    assert(ev.take(0) =~= Seq::<(Seq<char>, JsonView)>::empty());
    let mut k: usize = 0;
    while k < extra.len()
        invariant
            k <= extra.len(),
            ev == entries_view(extra@),
            entries_view(comm@) == spec_insert_all(spec_comm_base(), ev.take(k as int)),
        decreases extra.len() - k,
    {
        let key = String::from_str(extra[k].0.as_str());
        let value = copy_json(&extra[k].1);
        assert(ev[k as int] == (extra@[k as int].0@, json_view(extra@[k as int].1)));
        obj_insert(&mut comm, key, value);
        assert(ev.take(k + 1).drop_last() =~= ev.take(k as int));
        k = k + 1;
    }
    assert(ev.take(k as int) =~= ev);
    let mut inner: Vec<(String, JsonValue)> = Vec::new();
    assert(entries_view(inner@) =~= Seq::<(Seq<char>, JsonView)>::empty());
    obj_insert(&mut inner, String::from_str("module"), json_string(module));
    obj_insert(&mut inner, String::from_str("method"), json_string(method));
    obj_insert(&mut inner, String::from_str("param"), param);
    let mut key = String::from_str(module);
    key.append(".");
    key.append(method);
    proof {
        reveal_strlit(".");
    }
    let mut body: Vec<(String, JsonValue)> = Vec::new();
    assert(entries_view(body@) =~= Seq::<(Seq<char>, JsonView)>::empty());
    obj_insert(&mut body, String::from_str("comm"), JsonValue::Object(comm));
    assert(key@ == module@ + "."@ + method@);
    assert(json_view(JsonValue::Object(comm)) == JsonView::Object(entries_view(comm@)));
    obj_insert(&mut body, key, JsonValue::Object(inner));
    JsonValue::Object(body)
}

/// The message for a settings file that is not JSON.
pub open spec fn settings_parse_message(error: Seq<char>) -> Seq<char> {
    "解析 QQ 凭据文件失败: "@ + error
}

/// Reads the credential settings file's text: it must be a JSON object.
pub fn parse_settings_text(text: &str) -> (r: Result<JsonValue, String>)
    ensures
        match parsed_json(text@) {
            Err(e) => r is Err && r->Err_0@ == settings_parse_message(e),
            Ok(v) => if v is Object {
                r is Ok && json_view(r->Ok_0) == v
            } else {
                r is Err && r->Err_0@ == "QQ 凭据文件必须是 JSON 对象"@
            },
        },
{
    match parse_json_text(text) {
        Err(e) => {
            let mut m = String::from_str("解析 QQ 凭据文件失败: ");
            m.append(e.as_str());
            proof {
                reveal_strlit("解析 QQ 凭据文件失败: ");
            }
            Err(m)
        },
        Ok(v) => match v {
            JsonValue::Object(_) => Ok(v),
            _ => Err(String::from_str("QQ 凭据文件必须是 JSON 对象")),
        },
    }
}

/// Where the check of the stored login stands.
pub enum CredentialState {
    /// The settings file is being read.
    Start,
    /// The stored login is being checked with the login service.
    Checking { settings: JsonValue, auth: QqAuth },
    /// An expired login is being refreshed.
    Refreshing { settings: JsonValue, auth: QqAuth },
    /// The refreshed login is being written to the settings file.
    Saving { auth: QqAuth, refreshed: QqAuth },
    /// The check is over.
    Done,
}

/// What the runtime reports back.
pub enum CredentialEvent {
    /// The settings file's object (see `parse_settings_text`), `None` when there
    /// is no file, or why it could not be read or parsed.
    SettingsRead(Result<Option<JsonValue>, String>),
    /// The login service's whole answer (see `parse_response_json`), or why the
    /// call failed.
    LoginReply(Result<JsonValue, String>),
    /// The outcome of writing the settings file.
    Saved(Result<(), String>),
}

/// What the runtime does next.
pub enum CredentialAction {
    /// Post this body to the login service.
    CallLogin { body: JsonValue },
    /// Write these settings to the settings file.
    SaveSettings { settings: JsonValue },
    /// The login to use (`None`: not logged in), or why none could be read.
    Finish(Result<Option<QqAuth>, String>),
}

/// The service module and method that check a login.
pub open spec fn check_module() -> Seq<char> {
    "music.UserInfo.userInfoServer"@
}

/// The method that checks a login.
pub open spec fn check_method() -> Seq<char> {
    "GetLoginUserInfo"@
}

/// The service module that refreshes a login.
pub open spec fn login_module() -> Seq<char> {
    "music.login.LoginServer"@
}

/// The method that refreshes a login.
pub open spec fn login_method() -> Seq<char> {
    "Login"@
}

/// The extra `comm` fields of a login check: the login itself.
pub open spec fn spec_check_extra(uin: Seq<char>, authst: Seq<char>) -> Seq<(Seq<char>, JsonView)> {
    seq![("uin"@, jstr(uin)), ("authst"@, jstr(authst)), ("tmeLoginType"@, jstr("6"@))]
}

/// The body of a login check.
pub open spec fn spec_check_body(uin: Seq<char>, authst: Seq<char>) -> JsonView {
    spec_login_request(check_module(), check_method(), JsonView::Object(Seq::empty()), spec_check_extra(uin, authst))
}

/// The body of a login refresh with the given parameters.
pub open spec fn spec_refresh_body(param: Seq<(Seq<char>, JsonView)>) -> JsonView {
    spec_login_request(login_module(), login_method(), JsonView::Object(param), seq![("tmeLoginType"@, jstr("6"@))])
}

/// The module data of a login service answer, or why there is none.
pub open spec fn spec_reply_data(reply: Result<JsonValue, String>, key: Seq<char>) -> Result<JsonView, Seq<char>> {
    match reply {
        Err(m) => Err(m@),
        Ok(d) => match spec_login_response(d, key) {
            Ok(x) => Ok(opt_view(x)),
            Err(m) => Err(m),
        },
    }
}

/// The entries of an object; none for another value.
pub open spec fn spec_entries(v: JsonView) -> Seq<(Seq<char>, JsonView)> {
    match v {
        JsonView::Object(es) => es,
        _ => Seq::empty(),
    }
}

/// The message for an event that does not fit the state.
pub open spec fn unexpected_event_message() -> Seq<char> {
    "凭据检查状态错误"@
}

/// The check is over with this login.
pub open spec fn spec_finish_with(ns: CredentialState, a: CredentialAction, auth: QqAuth) -> bool {
    ns is Done && (a matches CredentialAction::Finish(Ok(Some(x))) && x.uin@ == auth.uin@ && x.authst@ == auth.authst@)
}

/// The check is over because the event does not fit the state.
pub open spec fn spec_unexpected(ns: CredentialState, a: CredentialAction) -> bool {
    ns is Done && (a matches CredentialAction::Finish(Err(x)) && x@ == unexpected_event_message())
}

/// The step after the settings file was read.
pub open spec fn spec_after_read(e: Result<Option<JsonValue>, String>, ns: CredentialState, a: CredentialAction) -> bool {
    match e {
        Err(m) => ns is Done && (a matches CredentialAction::Finish(Err(x)) && x@ == m@),
        Ok(None) => ns is Done && (a matches CredentialAction::Finish(Ok(None))),
        Ok(Some(settings)) => {
            let uin = spec_as_str(spec_index(json_view(settings), "loginUin"@));
            let authst = spec_as_str(spec_index(json_view(settings), "authst"@));
            if uin is Some && authst is Some && uin->0.len() > 0 && authst->0.len() > 0 {
                &&& ns matches CredentialState::Checking { settings: s2, auth } && json_view(s2) == json_view(settings)
                    && auth.uin@ == uin->0 && auth.authst@ == authst->0
                &&& a matches CredentialAction::CallLogin { body } && json_view(body) == spec_check_body(uin->0, authst->0)
            } else {
                ns is Done && (a matches CredentialAction::Finish(Ok(None)))
            }
        },
    }
}

/// The step after the login check answered: a login the service refuses is
/// refreshed when refresh tokens are stored; in every other case the stored
/// login is used (a network failure does not discard a login that may hold).
pub open spec fn spec_after_check(
    settings: JsonValue,
    auth: QqAuth,
    reply: Result<JsonValue, String>,
    ns: CredentialState,
    a: CredentialAction,
) -> bool {
    let expired = match spec_reply_data(reply, check_module() + "."@ + check_method()) {
        Ok(_) => false,
        Err(m) => spec_starts_with(m, "接口错误:"@),
    };
    let sv = json_view(settings);
    let has_token = setting_text(sv, "refreshToken"@).len() > 0 || setting_text(sv, "refreshKey"@).len() > 0;
    if !expired || !has_token {
        spec_finish_with(ns, a, auth)
    } else {
        match spec_refresh_param(sv, auth.uin@, auth.authst@) {
            Err(_) => spec_finish_with(ns, a, auth),
            Ok(param) => {
                &&& ns matches CredentialState::Refreshing { settings: s2, auth: a2 } && json_view(s2) == sv
                    && a2.uin@ == auth.uin@ && a2.authst@ == auth.authst@
                &&& a matches CredentialAction::CallLogin { body } && json_view(body) == spec_refresh_body(param)
            },
        }
    }
}

/// The step after the refresh answered: a new login is stored in the settings
/// (the other settings kept) and written; a failed refresh keeps the old login.
pub open spec fn spec_after_refresh(
    settings: JsonValue,
    auth: QqAuth,
    reply: Result<JsonValue, String>,
    ns: CredentialState,
    a: CredentialAction,
) -> bool {
    match spec_reply_data(reply, login_module() + "."@ + login_method()) {
        Err(_) => spec_finish_with(ns, a, auth),
        Ok(data) => match spec_refreshed_auth(data) {
            Err(_) => spec_finish_with(ns, a, auth),
            Ok(fresh) => {
                &&& ns matches CredentialState::Saving { auth: a1, refreshed } && a1.uin@ == auth.uin@
                    && a1.authst@ == auth.authst@ && refreshed.uin@ == fresh.0 && refreshed.authst@ == fresh.1
                &&& a matches CredentialAction::SaveSettings { settings: out } && json_view(out) == JsonView::Object(
                    spec_refreshed_settings(spec_entries(json_view(settings)), fresh.0, fresh.1, data),
                )
            },
        },
    }
}

/// One step of the check of the stored login.
pub open spec fn spec_credential_step(
    s: CredentialState,
    e: CredentialEvent,
    ns: CredentialState,
    a: CredentialAction,
) -> bool {
    match s {
        CredentialState::Start => match e {
            CredentialEvent::SettingsRead(read) => spec_after_read(read, ns, a),
            _ => spec_unexpected(ns, a),
        },
        CredentialState::Checking { settings, auth } => match e {
            CredentialEvent::LoginReply(reply) => spec_after_check(settings, auth, reply, ns, a),
            _ => spec_unexpected(ns, a),
        },
        CredentialState::Refreshing { settings, auth } => match e {
            CredentialEvent::LoginReply(reply) => spec_after_refresh(settings, auth, reply, ns, a),
            _ => spec_unexpected(ns, a),
        },
        CredentialState::Saving { auth, refreshed } => match e {
            CredentialEvent::Saved(Ok(())) => spec_finish_with(ns, a, refreshed),
            CredentialEvent::Saved(Err(_)) => spec_finish_with(ns, a, auth),
            _ => spec_unexpected(ns, a),
        },
        CredentialState::Done => spec_unexpected(ns, a),
    }
}

/// The check is over with this login.
fn finish_with(auth: QqAuth) -> (r: (CredentialState, CredentialAction))
    ensures
        spec_finish_with(r.0, r.1, auth),
{
    (CredentialState::Done, CredentialAction::Finish(Ok(Some(auth))))
}

/// The check is over because the event does not fit the state.
fn unexpected_event() -> (r: (CredentialState, CredentialAction))
    ensures
        spec_unexpected(r.0, r.1),
{
    (CredentialState::Done, CredentialAction::Finish(Err(String::from_str("凭据检查状态错误"))))
}

/// The body of a login check.
fn check_body(auth: &QqAuth) -> (r: JsonValue)
    ensures
        json_view(r) == spec_check_body(auth.uin@, auth.authst@),
{
    proof {
        reveal_strlit("6");
    }
    let mut extra: Vec<(String, JsonValue)> = Vec::new();
    extra.push((String::from_str("uin"), json_string(auth.uin.as_str())));
    extra.push((String::from_str("authst"), json_string(auth.authst.as_str())));
    extra.push((String::from_str("tmeLoginType"), json_string("6")));
    assert(entries_view(extra@) =~= spec_check_extra(auth.uin@, auth.authst@));
    let empty: Vec<(String, JsonValue)> = Vec::new();
    assert(entries_view(empty@) =~= Seq::<(Seq<char>, JsonView)>::empty());
    login_request("music.UserInfo.userInfoServer", "GetLoginUserInfo", JsonValue::Object(empty), &extra)
}

/// The body of a login refresh.
fn refresh_body(param: JsonValue) -> (r: JsonValue)
    requires
        json_view(param) is Object,
    ensures
        json_view(r) == spec_refresh_body(spec_entries(json_view(param))),
{
    let mut extra: Vec<(String, JsonValue)> = Vec::new();
    extra.push((String::from_str("tmeLoginType"), json_string("6")));
    assert(entries_view(extra@) =~= seq![("tmeLoginType"@, jstr("6"@))]);
    login_request("music.login.LoginServer", "Login", param, &extra)
}

/// One step of the check of the stored login: what the runtime reports leads
/// to the next state and what the runtime does next.
pub fn credential_step(state: CredentialState, event: CredentialEvent) -> (r: (CredentialState, CredentialAction))
    ensures
        spec_credential_step(state, event, r.0, r.1),
{
    proof {
        reveal_strlit("music.UserInfo.userInfoServer");
        reveal_strlit("GetLoginUserInfo");
        reveal_strlit("music.UserInfo.userInfoServer.GetLoginUserInfo");
        reveal_strlit("music.login.LoginServer");
        reveal_strlit("Login");
        reveal_strlit("music.login.LoginServer.Login");
        reveal_strlit(".");
        assert("music.UserInfo.userInfoServer.GetLoginUserInfo"@ =~= check_module() + "."@ + check_method());
        assert("music.login.LoginServer.Login"@ =~= login_module() + "."@ + login_method());
    }
    match state {
        CredentialState::Start => match event {
            CredentialEvent::SettingsRead(read) => match read {
                Err(m) => (CredentialState::Done, CredentialAction::Finish(Err(m))),
                Ok(None) => (CredentialState::Done, CredentialAction::Finish(Ok(None))),
                Ok(Some(settings)) => match stored_auth(&settings) {
                    None => (CredentialState::Done, CredentialAction::Finish(Ok(None))),
                    Some(auth) => {
                        let body = check_body(&auth);
                        (CredentialState::Checking { settings, auth }, CredentialAction::CallLogin { body })
                    },
                },
            },
            _ => unexpected_event(),
        },
        CredentialState::Checking { settings, auth } => match event {
            CredentialEvent::LoginReply(reply) => {
                let checked: Result<(), String> = match reply {
                    Err(m) => Err(m),
                    Ok(d) => match login_response_data(&d, "music.UserInfo.userInfoServer.GetLoginUserInfo") {
                        Ok(_) => Ok(()),
                        Err(m) => Err(m),
                    },
                };
                match expiry_from_check(checked) {
                    Ok(true) => {
                        if !has_refresh_token(&settings) {
                            return finish_with(auth);
                        }
                        match build_refresh_param(&settings, &auth) {
                            Err(_) => finish_with(auth),
                            Ok(param) => {
                                let body = refresh_body(param);
                                (CredentialState::Refreshing { settings, auth }, CredentialAction::CallLogin { body })
                            },
                        }
                    },
                    _ => finish_with(auth),
                }
            },
            _ => unexpected_event(),
        },
        CredentialState::Refreshing { settings, auth } => match event {
            CredentialEvent::LoginReply(reply) => {
                let data = match reply {
                    Err(_) => return finish_with(auth),
                    Ok(d) => match login_response_data(&d, "music.login.LoginServer.Login") {
                        Ok(x) => x,
                        Err(_) => return finish_with(auth),
                    },
                };
                let refreshed = match auth_from_login_data(&data) {
                    Ok(a) => a,
                    Err(_) => return finish_with(auth),
                };
                let mut entries: Vec<(String, JsonValue)> = match settings {
                    JsonValue::Object(es) => es,
                    _ => Vec::new(),
                };
                proof {
                    if !(json_view(settings) is Object) {
                        assert(entries_view(entries@) =~= Seq::<(Seq<char>, JsonView)>::empty());
                    }
                }
                apply_refreshed_credentials(&mut entries, &refreshed, data);
                (
                    CredentialState::Saving { auth, refreshed },
                    CredentialAction::SaveSettings { settings: JsonValue::Object(entries) },
                )
            },
            _ => unexpected_event(),
        },
        CredentialState::Saving { auth, refreshed } => match event {
            CredentialEvent::Saved(saved) => match saved {
                Ok(()) => finish_with(refreshed),
                Err(_) => finish_with(auth),
            },
            _ => unexpected_event(),
        },
        CredentialState::Done => unexpected_event(),
    }
}

} // verus!
