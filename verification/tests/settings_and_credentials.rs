use hotdownloader_core::decryption::init_for_filename;
use hotdownloader_core::download_config::DownloadConfig;
use hotdownloader_core::json::{JsonNumber, JsonValue};
use hotdownloader_core::qq_credentials::{
    build_refresh_param, credential_step, parse_settings_text, CredentialAction, CredentialEvent, CredentialState, QqAuth,
};
use hotdownloader_core::qqmusic_link::parse_vkey_response;
use hotdownloader_core::settings_patch::{apply_patch, SettingsPatch, SettingsPatchError, SettingsScope};

fn to_json(v: &serde_json::Value) -> JsonValue {
    match v {
        serde_json::Value::Null => JsonValue::Null,
        serde_json::Value::Bool(b) => JsonValue::Bool(*b),
        serde_json::Value::Number(n) => {
            if let Some(u) = n.as_u64() {
                JsonValue::Number(JsonNumber::PosInt(u))
            } else if let Some(i) = n.as_i64() {
                JsonValue::Number(JsonNumber::NegInt(i))
            } else {
                JsonValue::Number(JsonNumber::Float(n.to_string()))
            }
        }
        serde_json::Value::String(s) => JsonValue::String(s.clone()),
        serde_json::Value::Array(a) => JsonValue::Array(a.iter().map(to_json).collect()),
        serde_json::Value::Object(m) => {
            JsonValue::Object(m.iter().map(|(k, v)| (k.clone(), to_json(v))).collect())
        }
    }
}

fn from_json(v: &JsonValue) -> serde_json::Value {
    match v {
        JsonValue::Null => serde_json::Value::Null,
        JsonValue::Bool(b) => serde_json::Value::Bool(*b),
        JsonValue::Number(JsonNumber::PosInt(u)) => serde_json::Value::from(*u),
        JsonValue::Number(JsonNumber::NegInt(i)) => serde_json::Value::from(*i),
        JsonValue::Number(JsonNumber::Float(t)) => serde_json::from_str(t).unwrap(),
        JsonValue::String(s) => serde_json::Value::String(s.clone()),
        JsonValue::Array(a) => serde_json::Value::Array(a.iter().map(from_json).collect()),
        JsonValue::Object(es) => {
            let mut m = serde_json::Map::new();
            for (k, v) in es {
                m.insert(k.clone(), from_json(v));
            }
            serde_json::Value::Object(m)
        }
    }
}

fn parse(text: &str) -> JsonValue {
    to_json(&serde_json::from_str(text).unwrap())
}

fn patch(field: &str, value: JsonValue, expected: JsonValue) -> SettingsPatch {
    SettingsPatch { changes: vec![(field.to_string(), value)], expected: vec![(field.to_string(), expected)] }
}

#[test]
fn invalid_directory_falls_back_without_losing_other_settings() {
    let settings = parse(
        r#"{"downloadDir": "relative/music", "namingTemplate": "{artist} - {song}",
            "writeMetadata": true, "downloadLrc": true}"#,
    );
    let config = DownloadConfig::from_settings(&settings, "C:/Music");
    assert_eq!(config.download_dir, "C:/Music");
    assert_eq!(config.naming_template, "{artist} - {song}");
    assert!(config.write_metadata);
    assert!(config.download_lrc);
}

#[test]
fn saf_directory_and_uri_are_preserved() {
    let settings = parse(r#"{"downloadDir": "saf://", "safFolderUri": "content://folder"}"#);
    let config = DownloadConfig::from_settings(&settings, "/tmp/music");
    assert_eq!(config.download_dir, "saf://");
    assert_eq!(config.saf_folder_uri.as_deref(), Some("content://folder"));
}

#[test]
fn private_app_directory_is_replaced_by_the_default() {
    let settings = parse(r#"{"downloadDir": "/data/user/0/app/files"}"#);
    let config = DownloadConfig::from_settings(&settings, "/sdcard/Music");
    assert_eq!(config.download_dir, "/sdcard/Music");
    assert_eq!(config.naming_template, "{song} - {artist}");
    assert!(!config.write_metadata);
}

#[test]
fn regular_audio_never_uses_qmc_cipher() {
    assert!(!init_for_filename("song.mp3", "bad-key").enabled);
    assert!(!init_for_filename("song.mflac", "").enabled);
}

#[test]
fn refresh_parameters_follow_original_login_type() {
    let auth = QqAuth { uin: "12345".into(), authst: "current-token".into() };
    let with_type = |login_type: u64| {
        parse(&format!(
            r#"{{"refreshToken": "refresh-token", "refreshKey": "refresh-key",
                "accessToken": "access-token", "openid": "open-id",
                "loginResponseData": {{"loginType": {login_type}}}}}"#
        ))
    };

    let type_one = from_json(&build_refresh_param(&with_type(1), &auth).unwrap());
    assert_eq!(type_one["str_musicid"], "12345");
    assert!(type_one.get("musicid").is_none());

    let type_two = from_json(&build_refresh_param(&with_type(2), &auth).unwrap());
    assert_eq!(type_two["musicid"], 12345);
    assert!(type_two.get("str_musicid").is_none());

    let default_type = from_json(&build_refresh_param(&with_type(0), &auth).unwrap());
    assert_eq!(default_type["musicid"], 12345);
    assert_eq!(default_type["str_musicid"], "12345");
}

#[test]
fn only_encrypted_formats_receive_ekey() {
    let response = parse(
        r#"{"vkey.GetVkeyServer.CgiGetVkey": {"code": 0, "data": {
            "sip": ["https://cdn.example/"],
            "midurlinfo": [{"purl": "audio", "ekey": "secret", "result": 0}]}}}"#,
    );
    assert_eq!(
        parse_vkey_response(&response, "song.mp3").unwrap(),
        ("https://cdn.example/audio".to_string(), String::new())
    );
    assert_eq!(
        parse_vkey_response(&response, "song.mflac").unwrap(),
        ("https://cdn.example/audio".to_string(), "secret".to_string())
    );
}

#[test]
fn platform_rejection_keeps_existing_error_contract() {
    let response = parse(
        r#"{"vkey.GetVkeyServer.CgiGetVkey": {"code": 0, "data": {
            "midurlinfo": [{"purl": "", "result": 104004}]}}}"#,
    );
    assert_eq!(parse_vkey_response(&response, "song.mp3").unwrap_err(), "该歌曲已下架或禁止下载");
}

#[test]
fn different_fields_merge_without_overwriting_each_other() {
    let start = parse(r#"{"maxConcurrent": 3, "namingTemplate": "{song}"}"#);
    let first = apply_patch(
        &start,
        patch("maxConcurrent", parse("5"), parse("3")),
        SettingsScope::Web,
    )
    .unwrap();
    let second = apply_patch(
        &first.stored,
        patch("namingTemplate", parse(r#""{artist}""#), parse(r#""{song}""#)),
        SettingsScope::Web,
    )
    .unwrap();
    let settings = from_json(&second.snapshot.settings);
    assert_eq!(settings["maxConcurrent"], 5);
    assert_eq!(settings["namingTemplate"], "{artist}");
    assert_eq!(second.snapshot.revision, 2);
}

#[test]
fn same_field_reports_conflict_and_current_snapshot() {
    let current = parse(r#"{"maxConcurrent": 5, "_settingsRevision": 4}"#);
    let error = apply_patch(&current, patch("maxConcurrent", parse("7"), parse("3")), SettingsScope::Web)
        .err()
        .unwrap();
    match error {
        SettingsPatchError::Conflict { fields, snapshot } => {
            assert_eq!(fields, ["maxConcurrent"]);
            assert_eq!(from_json(&snapshot.settings)["maxConcurrent"], 5);
            assert_eq!(snapshot.revision, 4);
        }
        _ => panic!("应返回字段冲突"),
    }
}

#[test]
fn web_rejects_runtime_path_and_credentials() {
    let current = parse("{}");
    for field in ["downloadDir", "authst", "jumpToTask"] {
        assert!(matches!(
            apply_patch(&current, patch(field, parse(r#""value""#), JsonValue::Null), SettingsScope::Web),
            Err(SettingsPatchError::Invalid(_))
        ));
    }
}

#[test]
fn unchanged_value_keeps_the_revision() {
    let current = parse(r#"{"maxConcurrent": 5, "_settingsRevision": 4, "authst": "secret"}"#);
    let applied = apply_patch(&current, patch("maxConcurrent", parse("5"), parse("5")), SettingsScope::Web).unwrap();
    assert!(applied.changed_fields.is_empty());
    assert_eq!(applied.snapshot.revision, 4);
    assert!(from_json(&applied.snapshot.settings).get("authst").is_none());
}

#[test]
fn credential_check_uses_a_valid_login_and_refreshes_a_refused_one() {
    let settings = parse_settings_text(
        r#"{"downloadDir": "/music", "loginUin": "12345", "authst": "old", "refreshToken": "rt",
            "loginResponseData": {"loginType": 2}}"#,
    )
    .unwrap();
    let (state, action) = credential_step(CredentialState::Start, CredentialEvent::SettingsRead(Ok(Some(settings))));
    let CredentialAction::CallLogin { body } = action else { panic!("a stored login is checked first") };
    let body = from_json(&body);
    assert_eq!(body["comm"]["uin"], "12345");
    assert_eq!(body["comm"]["authst"], "old");
    assert_eq!(body["comm"]["ct"], "11");
    assert_eq!(body["music.UserInfo.userInfoServer.GetLoginUserInfo"]["method"], "GetLoginUserInfo");

    let refused = parse(r#"{"music.UserInfo.userInfoServer.GetLoginUserInfo": {"code": 1000}}"#);
    let (state, action) = credential_step(state, CredentialEvent::LoginReply(Ok(refused)));
    let CredentialAction::CallLogin { body } = action else { panic!("a refused login is refreshed") };
    let body = from_json(&body);
    assert_eq!(body["music.login.LoginServer.Login"]["param"]["musicid"], 12345);
    assert_eq!(body["comm"]["tmeLoginType"], "6");

    let answer = parse(
        r#"{"music.login.LoginServer.Login": {"code": 0, "data": {"musicid": 12345, "musickey": "new", "refresh_token": "rt2"}}}"#,
    );
    let (state, action) = credential_step(state, CredentialEvent::LoginReply(Ok(answer)));
    let CredentialAction::SaveSettings { settings } = action else { panic!("a refreshed login is saved") };
    let saved = from_json(&settings);
    assert_eq!(saved["authst"], "new");
    assert_eq!(saved["refreshToken"], "rt2");
    assert_eq!(saved["downloadDir"], "/music");

    let (_, action) = credential_step(state, CredentialEvent::Saved(Ok(())));
    let CredentialAction::Finish(Ok(Some(auth))) = action else { panic!("the refreshed login is used") };
    assert_eq!(auth.uin, "12345");
    assert_eq!(auth.authst, "new");
}

#[test]
fn missing_and_invalid_files_are_distinguished() {
    let (_, action) = credential_step(CredentialState::Start, CredentialEvent::SettingsRead(Ok(None)));
    assert!(matches!(action, CredentialAction::Finish(Ok(None))));
    assert!(parse_settings_text("{").unwrap_err().contains("解析 QQ 凭据文件失败"));
    assert_eq!(parse_settings_text("[1]").unwrap_err(), "QQ 凭据文件必须是 JSON 对象");
}

#[test]
fn service_codes_are_quoted_as_json_in_errors() {
    let data = parse(r#"{"vkey.GetVkeyServer.CgiGetVkey": {"code": "e\"1"}}"#);
    assert_eq!(parse_vkey_response(&data, "song.mp3").unwrap_err(), r#"CgiGetVkey 错误: code="e\"1""#);
    let data = parse(r#"{"vkey.GetVkeyServer.CgiGetVkey": {"code": 1.5}}"#);
    assert_eq!(parse_vkey_response(&data, "song.mp3").unwrap_err(), "CgiGetVkey 错误: code=1.5");
}
