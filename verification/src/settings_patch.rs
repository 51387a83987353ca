//! Field-level settings updates shared by the desktop and web runtimes. Storage
//! and events belong to the runtime; merging and conflict rules are here.
//!
//! Every changed field carries the value its author saw. Changes to different
//! fields merge; a change to a field that someone else changed meanwhile is a
//! conflict, answered with the current snapshot so that the user can choose.

use vstd::prelude::*;
use vstd::utf8::encode_utf8;

use crate::json::{
    copy_entries, copy_json, entries_view, json_eq, json_view, keys_unique, lemma_get_after_insert,
    lemma_get_after_insert_other, lemma_get_after_remove, lemma_get_after_remove_other, obj_get,
    obj_insert, obj_remove, spec_as_object, spec_as_u64, spec_obj_get, spec_obj_get_or_null,
    spec_obj_insert, spec_obj_remove, JsonNumber, JsonValue, JsonView, NumberView,
};
use crate::text::{str_chars, str_eq};

verus! {

/// A settings update: the new value of each changed field, and the value each
/// field had when its author read it.
#[derive(Debug)]
pub struct SettingsPatch {
    pub changes: Vec<(String, JsonValue)>,
    pub expected: Vec<(String, JsonValue)>,
}

/// The settings visible to the pages, with their revision.
#[derive(Debug)]
pub struct SettingsSnapshot {
    pub revision: u64,
    pub settings: JsonValue,
}

/// Which runtime applies an update: the desktop app may change runtime paths and
/// window behaviour, the web service may not.
#[derive(Clone, Copy, Debug, PartialEq, Eq, Structural)]
pub enum SettingsScope {
    Tauri,
    Web,
}

/// Why an update was refused.
#[derive(Debug)]
pub enum SettingsPatchError {
    Invalid(String),
    Conflict { fields: Vec<String>, snapshot: SettingsSnapshot },
}

/// An applied update: the settings to store, their snapshot, and the fields
/// whose value actually changed.
#[derive(Debug)]
pub struct AppliedSettingsPatch {
    pub stored: JsonValue,
    pub snapshot: SettingsSnapshot,
    pub changed_fields: Vec<String>,
}

/// A refused update as a value.
pub enum PatchErrorView {
    Invalid(Seq<char>),
    Conflict { fields: Seq<Seq<char>>, revision: u64, settings: JsonView },
}

/// An applied update as a value: the stored entries and the changed fields.
pub struct AppliedView {
    pub stored: Seq<(Seq<char>, JsonView)>,
    pub changed_fields: Seq<Seq<char>>,
}

/// The key under which the revision is stored inside the settings object; old
/// settings files have none and start at revision 0.
pub open spec fn revision_key() -> Seq<char> {
    "_settingsRevision"@
}

/// The entries without the login credentials.
pub open spec fn spec_strip_credentials(es: Seq<(Seq<char>, JsonView)>) -> Seq<(Seq<char>, JsonView)> {
    spec_obj_remove(
        spec_obj_remove(
            spec_obj_remove(
                spec_obj_remove(
                    spec_obj_remove(
                        spec_obj_remove(spec_obj_remove(es, "loginUin"@), "authst"@),
                        "refreshToken"@,
                    ),
                    "refreshKey"@,
                ),
                "accessToken"@,
            ),
            "openid"@,
        ),
        "loginResponseData"@,
    )
}

/// Whether a key names a login credential.
pub open spec fn is_credential_key(k: Seq<char>) -> bool {
    k == "loginUin"@ || k == "authst"@ || k == "refreshToken"@ || k == "refreshKey"@ || k
        == "accessToken"@ || k == "openid"@ || k == "loginResponseData"@
}

/// The entries of the stored settings, or none when they are not an object.
pub open spec fn spec_stored_entries(stored: JsonView) -> Seq<(Seq<char>, JsonView)> {
    match spec_as_object(stored) {
        Some(es) => es,
        None => Seq::empty(),
    }
}

/// The revision of the stored settings: its stored number, else 0.
pub open spec fn spec_snapshot_revision(stored: JsonView) -> u64 {
    match spec_obj_get(spec_stored_entries(stored), revision_key()) {
        Some(v) => match spec_as_u64(v) {
            Some(n) => n,
            None => 0,
        },
        None => 0,
    }
}

/// The settings visible in a snapshot: without the revision and the credentials.
pub open spec fn spec_snapshot_settings(stored: JsonView) -> JsonView {
    JsonView::Object(
        spec_strip_credentials(spec_obj_remove(spec_stored_entries(stored), revision_key())),
    )
}

/// The length of a text in UTF-8 bytes (`str::len`).
pub open spec fn byte_len(s: Seq<char>) -> nat {
    encode_utf8(s).len()
}

/// Whether a text is a quality name in the downgrade order: not empty, at most
/// 64 bytes.
pub open spec fn is_quality_name(v: JsonView) -> bool {
    match v {
        JsonView::String(q) => q.len() > 0 && byte_len(q) <= 64,
        _ => false,
    }
}

/// Whether a field may be set to a value in a scope.
pub open spec fn spec_valid_field(field: Seq<char>, v: JsonView, scope: SettingsScope) -> bool {
    if field == "autoDowngrade"@ || field == "writeMetadata"@ || field == "downloadLrc"@ {
        v is Bool
    } else if field == "maxConcurrent"@ {
        match spec_as_u64(v) {
            Some(n) => 1 <= n <= 32,
            None => false,
        }
    } else if field == "defaultQuality"@ {
        match v {
            JsonView::String(t) => t.len() > 0 && byte_len(t) <= 512,
            _ => false,
        }
    } else if field == "namingTemplate"@ || field == "artistSeparator"@ {
        match v {
            JsonView::String(t) => byte_len(t) <= 512,
            _ => false,
        }
    } else if field == "duplicateStrategy"@ {
        match v {
            JsonView::String(t) => t == "ask"@ || t == "overwrite"@ || t == "rename"@ || t
                == "cancel"@,
            _ => false,
        }
    } else if field == "qualityDowngradeOrder"@ {
        match v {
            JsonView::Array(items) => items.len() > 0 && items.len() <= 64 && forall|i: int|
                0 <= i < items.len() ==> is_quality_name(#[trigger] items[i]),
            _ => false,
        }
    } else if (field == "jumpToTask"@ || field == "notifyOnComplete"@) && scope == SettingsScope::Tauri {
        v is Bool
    } else if (field == "downloadDir"@ || field == "safFolderUri"@ || field == "safFolderName"@) && scope
        == SettingsScope::Tauri {
        v is String
    } else {
        false
    }
}

/// The message for an invalid field value.
pub open spec fn invalid_field_message(field: Seq<char>) -> Seq<char> {
    "设置字段 "@ + field + " 的值无效"@
}

/// The message for a changed field without the value its author saw.
pub open spec fn missing_expected_message(field: Seq<char>) -> Seq<char> {
    "缺少 "@ + field + " 的原值"@
}

/// Checks the changed fields in order: the first invalid value or missing
/// expected value is the error; otherwise the fields whose current value differs
/// from the expected one, in order.
pub open spec fn spec_field_check(
    changes: Seq<(Seq<char>, JsonView)>,
    expected: Seq<(Seq<char>, JsonView)>,
    current: Seq<(Seq<char>, JsonView)>,
    scope: SettingsScope,
) -> Result<Seq<Seq<char>>, Seq<char>>
    decreases changes.len(),
{
    if changes.len() == 0 {
        Ok(Seq::empty())
    } else {
        match spec_field_check(changes.drop_last(), expected, current, scope) {
            Err(m) => Err(m),
            Ok(conflicts) => {
                let field = changes.last().0;
                let value = changes.last().1;
                if !spec_valid_field(field, value, scope) {
                    Err(invalid_field_message(field))
                } else {
                    match spec_obj_get(expected, field) {
                        None => Err(missing_expected_message(field)),
                        Some(e) => if spec_obj_get_or_null(current, field) != e {
                            Ok(conflicts.push(field))
                        } else {
                            Ok(conflicts)
                        },
                    }
                }
            },
        }
    }
}

/// Applies the changes in order to the entries: a field is set and listed as
/// changed when its value differs.
pub open spec fn spec_merge(
    start: Seq<(Seq<char>, JsonView)>,
    changes: Seq<(Seq<char>, JsonView)>,
) -> (Seq<(Seq<char>, JsonView)>, Seq<Seq<char>>)
    decreases changes.len(),
{
    if changes.len() == 0 {
        (start, Seq::empty())
    } else {
        let prev = spec_merge(start, changes.drop_last());
        let field = changes.last().0;
        let value = changes.last().1;
        if spec_obj_get(prev.0, field) != Some(value) {
            (spec_obj_insert(prev.0, field, value), prev.1.push(field))
        } else {
            prev
        }
    }
}

/// The outcome of applying an update to the stored settings.
pub open spec fn spec_apply_patch(
    stored: JsonView,
    changes: Seq<(Seq<char>, JsonView)>,
    expected: Seq<(Seq<char>, JsonView)>,
    scope: SettingsScope,
) -> Result<AppliedView, PatchErrorView> {
    match spec_as_object(stored) {
        None => Err(PatchErrorView::Invalid("设置必须是 JSON 对象"@)),
        Some(current) => if changes.len() == 0 {
            Err(PatchErrorView::Invalid("设置更新不能为空"@))
        } else {
            match spec_field_check(changes, expected, current, scope) {
                Err(m) => Err(PatchErrorView::Invalid(m)),
                Ok(conflicts) => if conflicts.len() > 0 {
                    Err(
                        PatchErrorView::Conflict {
                            fields: conflicts,
                            revision: spec_snapshot_revision(stored),
                            settings: spec_snapshot_settings(stored),
                        },
                    )
                } else {
                    let merged = spec_merge(current, changes);
                    if merged.1.len() > 0 {
                        let next = spec_snapshot_revision(stored) + 1;
                        if next > u64::MAX {
                            Err(PatchErrorView::Invalid("设置修订号已达到上限"@))
                        } else {
                            Ok(
                                AppliedView {
                                    stored: spec_obj_insert(
                                        merged.0,
                                        revision_key(),
                                        JsonView::Number(NumberView::PosInt(next as u64)),
                                    ),
                                    changed_fields: merged.1,
                                },
                            )
                        }
                    } else {
                        Ok(AppliedView { stored: merged.0, changed_fields: merged.1 })
                    }
                },
            }
        },
    }
}

/// The texts of some strings.
pub open spec fn strings_view(s: Seq<String>) -> Seq<Seq<char>> {
    s.map_values(|x: String| x@)
}

/// A refused update as a value.
pub open spec fn patch_error_view(e: SettingsPatchError) -> PatchErrorView {
    match e {
        SettingsPatchError::Invalid(m) => PatchErrorView::Invalid(m@),
        SettingsPatchError::Conflict { fields, snapshot } => PatchErrorView::Conflict {
            fields: strings_view(fields@),
            revision: snapshot.revision,
            settings: json_view(snapshot.settings),
        },
    }
}

/// Whether a snapshot shows the given stored settings.
pub open spec fn is_snapshot_of(s: SettingsSnapshot, stored: JsonView) -> bool {
    s.revision == spec_snapshot_revision(stored) && json_view(s.settings) == spec_snapshot_settings(stored)
}

/// The snapshot of the stored settings: their revision, and the settings without
/// the revision and the login credentials, so that syncing settings never
/// carries credentials.
pub fn snapshot(stored: &JsonValue) -> (r: SettingsSnapshot)
    ensures
        is_snapshot_of(r, json_view(*stored)),
{
    let mut visible: Vec<(String, JsonValue)> = match stored.as_object() {
        Some(es) => copy_entries(es),
        None => Vec::new(),
    };
    assert(entries_view(visible@) =~= spec_stored_entries(json_view(*stored)));
    let revision: u64 = match obj_remove(&mut visible, "_settingsRevision") {
        Some(v) => match v.as_u64() {
            Some(n) => n,
            None => 0,
        },
        None => 0,
    };
    let _ = obj_remove(&mut visible, "loginUin");
    let _ = obj_remove(&mut visible, "authst");
    let _ = obj_remove(&mut visible, "refreshToken");
    let _ = obj_remove(&mut visible, "refreshKey");
    let _ = obj_remove(&mut visible, "accessToken");
    let _ = obj_remove(&mut visible, "openid");
    let _ = obj_remove(&mut visible, "loginResponseData");
    SettingsSnapshot { revision, settings: JsonValue::Object(visible) }
}

/// Whether every item is a quality name.
fn all_quality_names(items: &Vec<JsonValue>) -> (r: bool)
    ensures
        r == forall|i: int|
            0 <= i < crate::json::array_view(items@).len() ==> is_quality_name(
                #[trigger] crate::json::array_view(items@)[i],
            ),
{
    let ghost av = crate::json::array_view(items@);
    let mut i: usize = 0;
    while i < items.len()
        invariant
            i <= items.len(),
            av == crate::json::array_view(items@),
            forall|k: int| 0 <= k < i ==> is_quality_name(#[trigger] av[k]),
        decreases items.len() - i,
    {
        let ok = match items[i].as_str() {
            Some(q) => q.unicode_len() > 0 && q.as_bytes().len() <= 64,
            None => false,
        };
        assert(av[i as int] == json_view(items@[i as int]));
        if !ok {
            assert(!is_quality_name(av[i as int]));
            return false;
        }
        i = i + 1;
    }
    true
}

/// Whether a field may be set to a value in a scope.
fn valid_field(field: &str, value: &JsonValue, scope: SettingsScope) -> (r: bool)
    ensures
        r == spec_valid_field(field@, json_view(*value), scope),
{
    if str_eq(field, "autoDowngrade") || str_eq(field, "writeMetadata") || str_eq(field, "downloadLrc") {
        value.is_boolean()
    } else if str_eq(field, "maxConcurrent") {
        match value.as_u64() {
            Some(n) => 1 <= n && n <= 32,
            None => false,
        }
    } else if str_eq(field, "defaultQuality") {
        match value.as_str() {
            Some(t) => t.unicode_len() > 0 && t.as_bytes().len() <= 512,
            None => false,
        }
    } else if str_eq(field, "namingTemplate") || str_eq(field, "artistSeparator") {
        match value.as_str() {
            Some(t) => t.as_bytes().len() <= 512,
            None => false,
        }
    } else if str_eq(field, "duplicateStrategy") {
        match value.as_str() {
            Some(t) => str_eq(t, "ask") || str_eq(t, "overwrite") || str_eq(t, "rename") || str_eq(
                t,
                "cancel",
            ),
            None => false,
        }
    } else if str_eq(field, "qualityDowngradeOrder") {
        match value.as_array() {
            Some(items) => items.len() > 0 && items.len() <= 64 && all_quality_names(items),
            None => false,
        }
    } else if (str_eq(field, "jumpToTask") || str_eq(field, "notifyOnComplete")) && scope
        == SettingsScope::Tauri {
        value.is_boolean()
    } else if (str_eq(field, "downloadDir") || str_eq(field, "safFolderUri") || str_eq(
        field,
        "safFolderName",
    )) && scope == SettingsScope::Tauri {
        value.is_string()
    } else {
        false
    }
}

/// A message made of a prefix, a field name and a suffix.
fn field_message(prefix: &str, field: &str, suffix: &str) -> (r: String)
    ensures
        r@ == prefix@ + field@ + suffix@,
{
    let mut m = String::from_str(prefix);
    m.append(field);
    m.append(suffix);
    m
}

/// Applies an update to the stored settings. Every changed field must be valid
/// for the scope and carry the value its author saw; fields whose stored value
/// differs from it are conflicts, answered with the current snapshot. The
/// revision goes up by one when some value actually changed.
pub fn apply_patch(stored: &JsonValue, patch: SettingsPatch, scope: SettingsScope) -> (r: Result<
    AppliedSettingsPatch,
    SettingsPatchError,
>)
    ensures
        match spec_apply_patch(
            json_view(*stored),
            entries_view(patch.changes@),
            entries_view(patch.expected@),
            scope,
        ) {
            Ok(a) => r is Ok && json_view(r->Ok_0.stored) == JsonView::Object(a.stored)
                && is_snapshot_of(r->Ok_0.snapshot, JsonView::Object(a.stored)) && strings_view(
                r->Ok_0.changed_fields@,
            ) == a.changed_fields,
            Err(e) => r is Err && patch_error_view(r->Err_0) == e,
        },
{
    let current = match stored.as_object() {
        Some(es) => es,
        None => return Err(SettingsPatchError::Invalid(String::from_str("设置必须是 JSON 对象"))),
    };
    let ghost cur = entries_view(current@);
    let ghost ch = entries_view(patch.changes@);
    let ghost ex = entries_view(patch.expected@);
    if patch.changes.len() == 0 {
        return Err(SettingsPatchError::Invalid(String::from_str("设置更新不能为空")));
    }
    let mut conflicts: Vec<String> = Vec::new();
    let mut i: usize = 0;
    assert(ch.take(0) =~= Seq::<(Seq<char>, JsonView)>::empty());
    assert(strings_view(conflicts@) =~= Seq::<Seq<char>>::empty());
    while i < patch.changes.len()
        invariant
            i <= patch.changes.len(),
            ch == entries_view(patch.changes@),
            ex == entries_view(patch.expected@),
            cur == entries_view(current@),
            spec_as_object(json_view(*stored)) == Some(cur),
            ch.len() > 0,
            spec_field_check(ch.take(i as int), ex, cur, scope) == Ok::<Seq<Seq<char>>, Seq<char>>(
                strings_view(conflicts@),
            ),
        decreases patch.changes.len() - i,
    {
        let field = &patch.changes[i].0;
        let value = &patch.changes[i].1;
        assert(ch.take(i + 1).drop_last() =~= ch.take(i as int));
        assert(ch.take(i + 1).last() == ch[i as int]);
        assert(ch[i as int] == (field@, json_view(*value)));
        if !valid_field(field.as_str(), value, scope) {
            let m = field_message("设置字段 ", field.as_str(), " 的值无效");
            assert(spec_field_check(ch.take(i + 1), ex, cur, scope) == Err::<Seq<Seq<char>>, Seq<char>>(
                invalid_field_message(field@),
            ));
            proof {
                lemma_field_check_error_stays(ch, ex, cur, scope, i as int + 1);
            }
            return Err(SettingsPatchError::Invalid(m));
        }
        let expected = match obj_get(&patch.expected, field.as_str()) {
            Some(e) => e,
            None => {
                let m = field_message("缺少 ", field.as_str(), " 的原值");
                assert(spec_field_check(ch.take(i + 1), ex, cur, scope) == Err::<Seq<Seq<char>>, Seq<char>>(
                    missing_expected_message(field@),
                ));
                proof {
                    lemma_field_check_error_stays(ch, ex, cur, scope, i as int + 1);
                }
                return Err(SettingsPatchError::Invalid(m));
            },
        };
        let differs = match obj_get(current, field.as_str()) {
            Some(actual) => !json_eq(actual, expected),
            None => !json_eq(&JsonValue::Null, expected),
        };
        if differs {
            let ghost before = conflicts@;
            conflicts.push(field.clone());
            assert(strings_view(conflicts@) =~= strings_view(before).push(field@));
        }
        i = i + 1;
    }
    assert(ch.take(i as int) =~= ch);
    if conflicts.len() > 0 {
        return Err(SettingsPatchError::Conflict { fields: conflicts, snapshot: snapshot(stored) });
    }
    let mut next = copy_entries(current);
    let mut changed_fields: Vec<String> = Vec::new();
    let ghost start = entries_view(next@);
    let changes = patch.changes;
    let mut j: usize = 0;
    assert(ch.take(0) =~= Seq::<(Seq<char>, JsonView)>::empty());
    assert(strings_view(changed_fields@) =~= Seq::<Seq<char>>::empty());
    while j < changes.len()
        invariant
            j <= changes.len(),
            ch == entries_view(changes@),
            start == cur,
            spec_merge(start, ch.take(j as int)) == (entries_view(next@), strings_view(changed_fields@)),
        decreases changes.len() - j,
    {
        let field = &changes[j].0;
        let value = &changes[j].1;
        assert(ch.take(j + 1).drop_last() =~= ch.take(j as int));
        assert(ch[j as int] == (field@, json_view(*value)));
        let same = match obj_get(&next, field.as_str()) {
            Some(v) => json_eq(v, value),
            None => false,
        };
        if !same {
            let ghost before = changed_fields@;
            obj_insert(&mut next, field.clone(), copy_json(value));
            changed_fields.push(field.clone());
            assert(strings_view(changed_fields@) =~= strings_view(before).push(field@));
        }
        j = j + 1;
    }
    assert(ch.take(j as int) =~= ch);
    if changed_fields.len() > 0 {
        let old_revision = snapshot(stored).revision;
        if old_revision == u64::MAX {
            return Err(SettingsPatchError::Invalid(String::from_str("设置修订号已达到上限")));
        }
        obj_insert(
            &mut next,
            String::from_str("_settingsRevision"),
            JsonValue::Number(JsonNumber::PosInt(old_revision + 1)),
        );
    }
    let new_stored = JsonValue::Object(next);
    let new_snapshot = snapshot(&new_stored);
    Ok(AppliedSettingsPatch { stored: new_stored, snapshot: new_snapshot, changed_fields })
}

/// Once the check of a prefix of the changes fails, the check of all of them
/// fails with the same message.
pub proof fn lemma_field_check_error_stays(
    changes: Seq<(Seq<char>, JsonView)>,
    expected: Seq<(Seq<char>, JsonView)>,
    current: Seq<(Seq<char>, JsonView)>,
    scope: SettingsScope,
    n: int,
)
    requires
        0 <= n <= changes.len(),
        spec_field_check(changes.take(n), expected, current, scope) is Err,
    ensures
        spec_field_check(changes, expected, current, scope) == spec_field_check(
            changes.take(n),
            expected,
            current,
            scope,
        ),
    decreases changes.len() - n,
{
    if n < changes.len() {
        assert(changes.take(n + 1).drop_last() =~= changes.take(n));
        lemma_field_check_error_stays(changes, expected, current, scope, n + 1);
    } else {
        assert(changes.take(n) =~= changes);
    }
}

/// The revision key and the credential keys are never valid fields, so no
/// update can set them.
pub proof fn lemma_reserved_keys_invalid(key: Seq<char>, v: JsonView, scope: SettingsScope)
    requires
        key == revision_key() || is_credential_key(key),
    ensures
        !spec_valid_field(key, v, scope),
{
    reveal_strlit("_settingsRevision");
    reveal_strlit("loginUin");
    reveal_strlit("authst");
    reveal_strlit("refreshToken");
    reveal_strlit("refreshKey");
    reveal_strlit("accessToken");
    reveal_strlit("openid");
    reveal_strlit("loginResponseData");
    reveal_strlit("autoDowngrade");
    reveal_strlit("writeMetadata");
    reveal_strlit("downloadLrc");
    reveal_strlit("maxConcurrent");
    reveal_strlit("defaultQuality");
    reveal_strlit("namingTemplate");
    reveal_strlit("artistSeparator");
    reveal_strlit("duplicateStrategy");
    reveal_strlit("qualityDowngradeOrder");
    reveal_strlit("jumpToTask");
    reveal_strlit("notifyOnComplete");
    reveal_strlit("downloadDir");
    reveal_strlit("safFolderUri");
    reveal_strlit("safFolderName");
    let names = seq![
        "autoDowngrade"@, "writeMetadata"@, "downloadLrc"@, "maxConcurrent"@, "defaultQuality"@,
        "namingTemplate"@, "artistSeparator"@, "duplicateStrategy"@, "qualityDowngradeOrder"@,
        "jumpToTask"@, "notifyOnComplete"@, "downloadDir"@, "safFolderUri"@, "safFolderName"@
    ];
    assert forall|i: int| 0 <= i < names.len() implies #[trigger] names[i] != key by {
        if key == revision_key() {
            assert(key[0] == '_');
            assert(names[i].len() == 0 || names[i][0] != '_');
        } else if key == "loginUin"@ || key == "loginResponseData"@ {
            assert(key[0] == 'l');
            assert(names[i].len() == 0 || names[i][0] != 'l');
        } else if key == "authst"@ || key == "accessToken"@ {
            assert(key[0] == 'a');
            if names[i] == key {
                assert(names[i] == "artistSeparator"@ || names[i] == "autoDowngrade"@);
                assert(names[i][1] != key[1]);
            }
        } else if key == "refreshToken"@ || key == "refreshKey"@ {
            assert(key[0] == 'r');
            assert(names[i].len() == 0 || names[i][0] != 'r');
        } else {
            assert(key == "openid"@);
            assert(key[0] == 'o');
            assert(names[i].len() == 0 || names[i][0] != 'o');
        }
    }
    assert(names[0] != key);
    assert(names[1] != key);
    assert(names[2] != key);
    assert(names[3] != key);
    assert(names[4] != key);
    assert(names[5] != key);
    assert(names[6] != key);
    assert(names[7] != key);
    assert(names[8] != key);
    assert(names[9] != key);
    assert(names[10] != key);
    assert(names[11] != key);
    assert(names[12] != key);
    assert(names[13] != key);
}

/// A passed check means every changed field is valid.
pub proof fn lemma_field_check_valid(
    changes: Seq<(Seq<char>, JsonView)>,
    expected: Seq<(Seq<char>, JsonView)>,
    current: Seq<(Seq<char>, JsonView)>,
    scope: SettingsScope,
)
    requires
        spec_field_check(changes, expected, current, scope) is Ok,
    ensures
        forall|i: int|
            0 <= i < changes.len() ==> spec_valid_field((#[trigger] changes[i]).0, changes[i].1, scope),
    decreases changes.len(),
{
    if changes.len() > 0 {
        lemma_field_check_valid(changes.drop_last(), expected, current, scope);
        assert forall|i: int| 0 <= i < changes.len() implies spec_valid_field(
            (#[trigger] changes[i]).0,
            changes[i].1,
            scope,
        ) by {
            if i < changes.len() - 1 {
                assert(changes.drop_last()[i] == changes[i]);
            }
        }
    }
}

/// Merging changes to other keys leaves a key's value alone.
pub proof fn lemma_merge_keeps_key(
    start: Seq<(Seq<char>, JsonView)>,
    changes: Seq<(Seq<char>, JsonView)>,
    key: Seq<char>,
)
    requires
        forall|i: int| 0 <= i < changes.len() ==> (#[trigger] changes[i]).0 != key,
    ensures
        spec_obj_get(spec_merge(start, changes).0, key) == spec_obj_get(start, key),
    decreases changes.len(),
{
    if changes.len() > 0 {
        assert forall|i: int| 0 <= i < changes.drop_last().len() implies (
        #[trigger] changes.drop_last()[i]).0 != key by {
            assert(changes.drop_last()[i] == changes[i]);
        }
        lemma_merge_keeps_key(start, changes.drop_last(), key);
        let prev = spec_merge(start, changes.drop_last());
        assert(changes.last() == changes[changes.len() - 1]);
        lemma_get_after_insert_other(prev.0, changes.last().0, changes.last().1, key);
    }
}

/// When no value changed, merging leaves the entries as they were.
pub proof fn lemma_merge_without_change(start: Seq<(Seq<char>, JsonView)>, changes: Seq<(Seq<char>, JsonView)>)
    requires
        spec_merge(start, changes).1.len() == 0,
    ensures
        spec_merge(start, changes).0 == start,
    decreases changes.len(),
{
    if changes.len() > 0 {
        let prev = spec_merge(start, changes.drop_last());
        if spec_obj_get(prev.0, changes.last().0) != Some(changes.last().1) {
        } else {
            lemma_merge_without_change(start, changes.drop_last());
        }
    }
}

/// The revision goes up by one exactly when an applied update changed a value,
/// and stays otherwise.
pub proof fn lemma_revision_counts_changes(
    stored: JsonView,
    changes: Seq<(Seq<char>, JsonView)>,
    expected: Seq<(Seq<char>, JsonView)>,
    scope: SettingsScope,
)
    requires
        spec_apply_patch(stored, changes, expected, scope) is Ok,
    ensures
        ({
            let a = spec_apply_patch(stored, changes, expected, scope)->Ok_0;
            spec_snapshot_revision(JsonView::Object(a.stored)) == spec_snapshot_revision(stored) + (
            if a.changed_fields.len() > 0 {
                1int
            } else {
                0int
            })
        }),
{
    let current = spec_as_object(stored)->Some_0;
    let a = spec_apply_patch(stored, changes, expected, scope)->Ok_0;
    let merged = spec_merge(current, changes);
    lemma_field_check_valid(changes, expected, current, scope);
    if merged.1.len() > 0 {
        let next = (spec_snapshot_revision(stored) + 1) as u64;
        lemma_get_after_insert(merged.0, revision_key(), JsonView::Number(NumberView::PosInt(next)));
    } else {
        lemma_merge_without_change(current, changes);
    }
}

/// Two pages changing different fields, each against the values it read, both
/// succeed: the second update keeps the first one's value, and each field ends
/// with the value its author set.
pub proof fn lemma_disjoint_fields_merge(
    stored: JsonView,
    f1: Seq<char>,
    v1: JsonView,
    f2: Seq<char>,
    v2: JsonView,
    scope: SettingsScope,
)
    requires
        stored is Object,
        f1 != f2,
        spec_valid_field(f1, v1, scope),
        spec_valid_field(f2, v2, scope),
        spec_snapshot_revision(stored) + 2 <= u64::MAX,
    ensures
        ({
            let current = spec_as_object(stored)->Some_0;
            let first = spec_apply_patch(
                stored,
                seq![(f1, v1)],
                seq![(f1, spec_obj_get_or_null(current, f1))],
                scope,
            );
            &&& first is Ok
            &&& ({
                let s1 = JsonView::Object(first->Ok_0.stored);
                let second = spec_apply_patch(
                    s1,
                    seq![(f2, v2)],
                    seq![(f2, spec_obj_get_or_null(current, f2))],
                    scope,
                );
                &&& second is Ok
                &&& spec_obj_get(second->Ok_0.stored, f1) == Some(v1)
                &&& spec_obj_get(second->Ok_0.stored, f2) == Some(v2)
            })
        }),
{
    let current = spec_as_object(stored)->Some_0;
    let c1 = seq![(f1, v1)];
    let e1 = seq![(f1, spec_obj_get_or_null(current, f1))];
    reveal_strlit("_settingsRevision");
    assert(c1.drop_last() =~= Seq::<(Seq<char>, JsonView)>::empty());
    assert(spec_obj_get(e1, f1) == Some(spec_obj_get_or_null(current, f1))) by {
        crate::json::lemma_entry_index_is_first(e1, f1, 0, 0);
    }
    assert(spec_field_check(c1.drop_last(), e1, current, scope) == Ok::<Seq<Seq<char>>, Seq<char>>(Seq::empty()));
    assert(spec_field_check(c1, e1, current, scope) == Ok::<Seq<Seq<char>>, Seq<char>>(Seq::empty()));
    lemma_reserved_keys_invalid(revision_key(), v1, scope);
    lemma_reserved_keys_invalid(revision_key(), v2, scope);
    assert(f1 != revision_key());
    assert(f2 != revision_key());
    let m1 = spec_merge(current, c1);
    assert(spec_merge(current, c1.drop_last()) == (current, Seq::<Seq<char>>::empty()));
    assert(spec_obj_get(m1.0, f1) == Some(v1)) by {
        if spec_obj_get(current, f1) != Some(v1) {
            lemma_get_after_insert(current, f1, v1);
        }
    }
    assert(spec_obj_get(m1.0, f2) == spec_obj_get(current, f2)) by {
        if spec_obj_get(current, f1) != Some(v1) {
            lemma_get_after_insert_other(current, f1, v1, f2);
        }
    }
    let first = spec_apply_patch(stored, c1, e1, scope);
    let rev1 = (spec_snapshot_revision(stored) + 1) as u64;
    let s1_entries = first->Ok_0.stored;
    assert(spec_obj_get(s1_entries, f1) == Some(v1) && spec_obj_get(s1_entries, f2) == spec_obj_get(current, f2)) by {
        if m1.1.len() > 0 {
            lemma_get_after_insert_other(m1.0, revision_key(), JsonView::Number(NumberView::PosInt(rev1)), f1);
            lemma_get_after_insert_other(m1.0, revision_key(), JsonView::Number(NumberView::PosInt(rev1)), f2);
        }
    }
    lemma_revision_counts_changes(stored, c1, e1, scope);
    let s1 = JsonView::Object(s1_entries);
    let c2 = seq![(f2, v2)];
    let e2 = seq![(f2, spec_obj_get_or_null(current, f2))];
    assert(c2.drop_last() =~= Seq::<(Seq<char>, JsonView)>::empty());
    assert(spec_obj_get(e2, f2) == Some(spec_obj_get_or_null(current, f2))) by {
        crate::json::lemma_entry_index_is_first(e2, f2, 0, 0);
    }
    assert(spec_obj_get_or_null(s1_entries, f2) == spec_obj_get_or_null(current, f2));
    assert(spec_field_check(c2.drop_last(), e2, s1_entries, scope) == Ok::<Seq<Seq<char>>, Seq<char>>(Seq::empty()));
    assert(spec_field_check(c2, e2, s1_entries, scope) == Ok::<Seq<Seq<char>>, Seq<char>>(Seq::empty()));
    let m2 = spec_merge(s1_entries, c2);
    assert(spec_merge(s1_entries, c2.drop_last()) == (s1_entries, Seq::<Seq<char>>::empty()));
    assert(spec_obj_get(m2.0, f2) == Some(v2) && spec_obj_get(m2.0, f1) == Some(v1)) by {
        if spec_obj_get(s1_entries, f2) != Some(v2) {
            lemma_get_after_insert(s1_entries, f2, v2);
            lemma_get_after_insert_other(s1_entries, f2, v2, f1);
        }
    }
    let rev2 = (spec_snapshot_revision(s1) + 1) as u64;
    let second = spec_apply_patch(s1, c2, e2, scope);
    assert(second is Ok);
    assert(spec_obj_get(second->Ok_0.stored, f1) == Some(v1) && spec_obj_get(second->Ok_0.stored, f2) == Some(v2)) by {
        if m2.1.len() > 0 {
            lemma_get_after_insert_other(m2.0, revision_key(), JsonView::Number(NumberView::PosInt(rev2)), f1);
            lemma_get_after_insert_other(m2.0, revision_key(), JsonView::Number(NumberView::PosInt(rev2)), f2);
        }
    }
}

/// A change to a field whose stored value differs from the value its author
/// read is refused as a conflict on that field, with the current snapshot.
pub proof fn lemma_stale_field_conflicts(
    stored: JsonView,
    field: Seq<char>,
    value: JsonView,
    seen: JsonView,
    scope: SettingsScope,
)
    requires
        stored is Object,
        spec_valid_field(field, value, scope),
        spec_obj_get_or_null(spec_as_object(stored)->Some_0, field) != seen,
    ensures
        spec_apply_patch(stored, seq![(field, value)], seq![(field, seen)], scope) == Err::<
            AppliedView,
            PatchErrorView,
        >(
            PatchErrorView::Conflict {
                fields: seq![field],
                revision: spec_snapshot_revision(stored),
                settings: spec_snapshot_settings(stored),
            },
        ),
{
    let c = seq![(field, value)];
    let e = seq![(field, seen)];
    let current = spec_as_object(stored)->Some_0;
    assert(c.drop_last() =~= Seq::<(Seq<char>, JsonView)>::empty());
    assert(spec_field_check(c.drop_last(), e, current, scope) == Ok::<Seq<Seq<char>>, Seq<char>>(Seq::empty()));
    crate::json::lemma_entry_index_is_first(e, field, 0, 0);
    assert(spec_field_check(c, e, current, scope) == Ok::<Seq<Seq<char>>, Seq<char>>(seq![field]));
    assert(Seq::<Seq<char>>::empty().push(field) =~= seq![field]);
}

/// The web service may not change runtime paths, window behaviour or login
/// credentials: such an update is refused as invalid.
pub proof fn lemma_web_rejects_runtime_fields(stored: JsonView, field: Seq<char>, value: JsonView, seen: JsonView)
    requires
        stored is Object,
        field == "downloadDir"@ || field == "safFolderUri"@ || field == "safFolderName"@ || field
            == "jumpToTask"@ || field == "notifyOnComplete"@ || is_credential_key(field),
    ensures
        spec_apply_patch(stored, seq![(field, value)], seq![(field, seen)], SettingsScope::Web)
            == Err::<AppliedView, PatchErrorView>(PatchErrorView::Invalid(invalid_field_message(field))),
{
    let c = seq![(field, value)];
    let e = seq![(field, seen)];
    let current = spec_as_object(stored)->Some_0;
    assert(c.drop_last() =~= Seq::<(Seq<char>, JsonView)>::empty());
    assert(spec_field_check(c.drop_last(), e, current, SettingsScope::Web) == Ok::<Seq<Seq<char>>, Seq<char>>(Seq::empty()));
    if is_credential_key(field) {
        lemma_reserved_keys_invalid(field, value, SettingsScope::Web);
    } else {
        reveal_strlit("autoDowngrade");
        reveal_strlit("writeMetadata");
        reveal_strlit("downloadLrc");
        reveal_strlit("maxConcurrent");
        reveal_strlit("defaultQuality");
        reveal_strlit("namingTemplate");
        reveal_strlit("artistSeparator");
        reveal_strlit("duplicateStrategy");
        reveal_strlit("qualityDowngradeOrder");
        reveal_strlit("jumpToTask");
        reveal_strlit("notifyOnComplete");
        reveal_strlit("downloadDir");
        reveal_strlit("safFolderUri");
        reveal_strlit("safFolderName");
        assert(field.len() >= 10);
        assert(field[0] == 'd' || field[0] == 's' || field[0] == 'j' || field[0] == 'n');
        assert(field != "autoDowngrade"@ && field != "writeMetadata"@ && field != "maxConcurrent"@
            && field != "artistSeparator"@ && field != "qualityDowngradeOrder"@);
        assert(field != "downloadLrc"@ && field != "defaultQuality"@ && field != "duplicateStrategy"@) by {
            if field[0] == 'd' {
                assert(field == "downloadDir"@);
                assert(field[8] == 'D');
            }
        }
        assert(field != "namingTemplate"@) by {
            if field[0] == 'n' {
                assert(field[1] == 'o');
            }
        }
        assert(!spec_valid_field(field, value, SettingsScope::Web));
    }
}

/// A snapshot never shows the revision key or a login credential.
pub proof fn lemma_snapshot_hides_credentials(stored: JsonView, key: Seq<char>)
    requires
        keys_unique(spec_stored_entries(stored)),
        key == revision_key() || is_credential_key(key),
    ensures
        crate::json::spec_get(spec_snapshot_settings(stored), key) is None,
{
    let es0 = spec_stored_entries(stored);
    let es1 = spec_obj_remove(es0, revision_key());
    lemma_get_after_remove(es0, revision_key());
    let k1 = "loginUin"@;
    let k2 = "authst"@;
    let k3 = "refreshToken"@;
    let k4 = "refreshKey"@;
    let k5 = "accessToken"@;
    let k6 = "openid"@;
    let k7 = "loginResponseData"@;
    let e2 = spec_obj_remove(es1, k1);
    let e3 = spec_obj_remove(e2, k2);
    let e4 = spec_obj_remove(e3, k3);
    let e5 = spec_obj_remove(e4, k4);
    let e6 = spec_obj_remove(e5, k5);
    let e7 = spec_obj_remove(e6, k6);
    let e8 = spec_obj_remove(e7, k7);
    lemma_get_after_remove(es1, k1);
    lemma_get_after_remove(e2, k2);
    lemma_get_after_remove(e3, k3);
    lemma_get_after_remove(e4, k4);
    lemma_get_after_remove(e5, k5);
    lemma_get_after_remove(e6, k6);
    lemma_get_after_remove(e7, k7);
    if key == k7 {
    } else {
        lemma_get_after_remove_other(e7, k7, key);
        if key == k6 {
        } else {
            lemma_get_after_remove_other(e6, k6, key);
            if key == k5 {
            } else {
                lemma_get_after_remove_other(e5, k5, key);
                if key == k4 {
                } else {
                    lemma_get_after_remove_other(e4, k4, key);
                    if key == k3 {
                    } else {
                        lemma_get_after_remove_other(e3, k3, key);
                        if key == k2 {
                        } else {
                            lemma_get_after_remove_other(e2, k2, key);
                            if key == k1 {
                            } else {
                                lemma_get_after_remove_other(es1, k1, key);
                            }
                        }
                    }
                }
            }
        }
    }
}

/// The flags `autoDowngrade`, `writeMetadata` and `downloadLrc` take exactly
/// the JSON booleans, in every scope.
pub proof fn lemma_flag_fields_take_booleans(field: Seq<char>, v: JsonView, scope: SettingsScope)
    requires
        field == "autoDowngrade"@ || field == "writeMetadata"@ || field == "downloadLrc"@,
    ensures
        spec_valid_field(field, v, scope) <==> v is Bool,
{
}


/// The limits on the other settings, in every scope: `maxConcurrent` takes a
/// whole number from 1 to 32, `duplicateStrategy` one of `ask`, `overwrite`,
/// `rename` and `cancel`, `defaultQuality` a non-empty text of at most 512
/// bytes, and `namingTemplate` and `artistSeparator` any text of at most 512
/// bytes.
pub proof fn lemma_field_limits(field: Seq<char>, v: JsonView, scope: SettingsScope)
    ensures
        field == "maxConcurrent"@ ==> (spec_valid_field(field, v, scope) <==> (spec_as_u64(v) matches Some(
            n,
        ) && 1 <= n <= 32)),
        field == "duplicateStrategy"@ ==> (spec_valid_field(field, v, scope) <==> (v == JsonView::String(
            "ask"@,
        ) || v == JsonView::String("overwrite"@) || v == JsonView::String("rename"@) || v
            == JsonView::String("cancel"@))),
        field == "defaultQuality"@ ==> (spec_valid_field(field, v, scope) <==> (v matches JsonView::String(
            t,
        ) && t.len() > 0 && byte_len(t) <= 512)),
        (field == "namingTemplate"@ || field == "artistSeparator"@) ==> (spec_valid_field(
            field,
            v,
            scope,
        ) <==> (v matches JsonView::String(t) && byte_len(t) <= 512)),
{
    reveal_strlit("autoDowngrade");
    reveal_strlit("writeMetadata");
    reveal_strlit("downloadLrc");
    reveal_strlit("maxConcurrent");
    reveal_strlit("defaultQuality");
    reveal_strlit("namingTemplate");
    reveal_strlit("artistSeparator");
    reveal_strlit("duplicateStrategy");
    assert("maxConcurrent"@[0] != "autoDowngrade"@[0]);
    assert("maxConcurrent"@[0] != "writeMetadata"@[0]);
    assert("defaultQuality"@.len() == 14 && "namingTemplate"@.len() == 14);
    assert("defaultQuality"@[0] != "namingTemplate"@[0]);
    assert("autoDowngrade"@.len() == 13 && "writeMetadata"@.len() == 13 && "downloadLrc"@.len() == 11);
    assert("maxConcurrent"@.len() == 13 && "artistSeparator"@.len() == 15);
    assert("duplicateStrategy"@.len() == 17);
}

} // verus!
