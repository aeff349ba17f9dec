use deft_cli::config::{set_platform_app_id, ConfigError, Json};

fn s(v: &str) -> Json {
    Json::Str(v.to_string())
}

fn obj(members: Vec<(&str, Json)>) -> Json {
    Json::Object(members.into_iter().map(|(k, v)| (k.to_string(), v)).collect())
}

#[test]
fn adds_platform_next_to_existing_one() {
    let doc = obj(vec![("android", obj(vec![("appId", s("old"))]))]);
    let out = set_platform_app_id(doc, "ohos", "com.example.app").unwrap();
    let want = obj(vec![
        ("android", obj(vec![("appId", s("old"))])),
        ("ohos", obj(vec![("appId", s("com.example.app"))])),
    ]);
    assert_eq!(out, want);
}

#[test]
fn empty_document_gets_entry() {
    let out = set_platform_app_id(obj(vec![]), "android", "a.b").unwrap();
    assert_eq!(out, obj(vec![("android", obj(vec![("appId", s("a.b"))]))]));
}

#[test]
fn second_value_for_same_platform_wins() {
    let doc = set_platform_app_id(obj(vec![]), "ohos", "first.id").unwrap();
    let out = set_platform_app_id(doc, "ohos", "second.id").unwrap();
    assert_eq!(out, obj(vec![("ohos", obj(vec![("appId", s("second.id"))]))]));
}

#[test]
fn two_platforms_kept_independently() {
    let doc = set_platform_app_id(obj(vec![]), "ohos", "o.id").unwrap();
    let out = set_platform_app_id(doc, "android", "a.id").unwrap();
    assert_eq!(
        out,
        obj(vec![
            ("ohos", obj(vec![("appId", s("o.id"))])),
            ("android", obj(vec![("appId", s("a.id"))])),
        ])
    );
}

#[test]
fn other_fields_preserved() {
    let doc = obj(vec![
        ("ohos", obj(vec![("name", s("demo")), ("appId", s("x.y")), ("extra", Json::Bool(true))])),
        ("other", Json::Array(vec![Json::Null, Json::Number("3".to_string())])),
    ]);
    let out = set_platform_app_id(doc, "ohos", "new.id").unwrap();
    let want = obj(vec![
        ("ohos", obj(vec![("name", s("demo")), ("appId", s("new.id")), ("extra", Json::Bool(true))])),
        ("other", Json::Array(vec![Json::Null, Json::Number("3".to_string())])),
    ]);
    assert_eq!(out, want);
}

#[test]
fn document_not_object_is_invalid() {
    let r = set_platform_app_id(Json::Array(vec![]), "ohos", "a.b");
    assert_eq!(r, Err(ConfigError::InvalidConfig));
    let r = set_platform_app_id(s("not json"), "ohos", "a.b");
    assert_eq!(r, Err(ConfigError::InvalidConfig));
}

#[test]
fn platform_entry_not_object_is_invalid() {
    let doc = obj(vec![("android", s("old"))]);
    let r = set_platform_app_id(doc, "android", "a.b");
    assert_eq!(r, Err(ConfigError::InvalidConfig));
}

#[test]
fn error_messages() {
    assert_eq!(ConfigError::InvalidConfig.message(), "Invalid config found");
    assert_eq!(ConfigError::Parse("expected value".to_string()).message(), "expected value");
    assert_eq!(ConfigError::Io("denied".to_string()).message(), "denied");
}

#[test]
fn pretty_config_text_round_trips() {
    let text = "{\"android\":{\"appId\":\"old\",\"extra\":[1,2.5,null]},\"ohos\":{\"appId\":\"a.b\"}}";
    let v: serde_json::Value = serde_json::from_str(text).unwrap();
    let saved = serde_json::to_string_pretty(&v).unwrap();
    let again: serde_json::Value = serde_json::from_str(&saved).unwrap();
    assert_eq!(v, again);
    let saved_again = serde_json::to_string_pretty(&again).unwrap();
    assert_eq!(saved, saved_again);
}

#[test]
fn malformed_config_text_fails_to_parse() {
    let r: Result<serde_json::Value, _> = serde_json::from_str("not json");
    assert!(r.is_err());
}
