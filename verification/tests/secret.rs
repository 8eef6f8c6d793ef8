use baofzf::errors::AppError;
use baofzf::secret::{
    editable_secret, edited_secret, editor_outcome, parse_edited, secret_table, secret_version,
    shown_outcome, update_outcome, EditedSecret,
};
use baofzf::version::KvVersion;

fn json(text: &str) -> serde_json::Value {
    serde_json::from_str(text).unwrap()
}

#[test]
fn secret_version_names_the_layout() {
    assert!(matches!(secret_version("2"), Ok(KvVersion::V2)));
    assert!(matches!(secret_version("1"), Ok(KvVersion::V1)));
    match secret_version("5") {
        Err(e) => assert_eq!(e.message(), "Unknown KV version"),
        Ok(_) => panic!("an unknown layout must be refused"),
    }
}

#[test]
fn kv2_accepts_any_json_value() {
    match parse_edited(KvVersion::V2, r#"{"foo": "bar"}"#) {
        Ok(EditedSecret::Kv2(v)) => assert_eq!(v, json(r#"{"foo":"bar"}"#)),
        _ => panic!("an object is a layout-2 secret"),
    }
    assert!(matches!(parse_edited(KvVersion::V2, "[1, 2]"), Ok(EditedSecret::Kv2(_))));
    assert!(matches!(parse_edited(KvVersion::V2, "42"), Ok(EditedSecret::Kv2(_))));
}

#[test]
fn kv1_accepts_only_objects() {
    match parse_edited(KvVersion::V1, r#"{"foo": "bar"}"#) {
        Ok(EditedSecret::Kv1(m)) => {
            assert_eq!(m.len(), 1);
            assert_eq!(m.get("foo"), Some(&json(r#""bar""#)));
        }
        _ => panic!("an object is a layout-1 secret"),
    }
    assert!(matches!(parse_edited(KvVersion::V1, "[1, 2]"), Err(AppError::ParseFailed(_))));
    assert!(matches!(parse_edited(KvVersion::V1, "42"), Err(AppError::ParseFailed(_))));
}

#[test]
fn kv1_keeps_keys_that_need_escapes() {
    match parse_edited(KvVersion::V1, r#"{"a\"b": "x", "c\nd": 1}"#) {
        Ok(EditedSecret::Kv1(m)) => {
            assert_eq!(m.get("a\"b"), Some(&json(r#""x""#)));
            assert_eq!(m.get("c\nd"), Some(&json("1")));
        }
        _ => panic!("keys with escapes belong to a layout-1 secret"),
    }
}

#[test]
fn unchanged_editor_text_gives_the_secret_back() {
    let secret = json(r#"{"a\"b": "x", "list": [1, "two", null], "nested": {"k": true}}"#);
    let text = editable_secret(&secret).unwrap();
    match edited_secret(KvVersion::V2, Ok(text.clone())) {
        Ok(EditedSecret::Kv2(v)) => assert_eq!(v, secret),
        _ => panic!("the editor's own text must be accepted"),
    }
    match edited_secret(KvVersion::V1, Ok(text)) {
        Ok(EditedSecret::Kv1(m)) => assert_eq!(serde_json::Value::Object(m), secret),
        _ => panic!("the editor's own text must be accepted"),
    }
    match edited_secret(KvVersion::V2, Err("no editor".to_string())) {
        Err(e) => assert_eq!(e.message(), "Failed to open secret in default editor - no editor"),
        Ok(_) => panic!(),
    }
}

#[test]
fn broken_json_is_refused_with_its_reason() {
    match parse_edited(KvVersion::V2, "{\"foo\": ") {
        Err(e) => {
            let text = e.message();
            assert!(text.starts_with("Failed to parse edited secret - "));
            assert!(text.len() > "Failed to parse edited secret - ".len());
        }
        Ok(_) => panic!("broken JSON must be refused"),
    }
}

#[test]
fn editable_text_reads_back_as_the_secret() {
    let secret = json(r#"{"foo": "bar", "n": [1, 2]}"#);
    let text = editable_secret(&secret).unwrap();
    assert!(text.contains('\n'));
    assert_eq!(json(&text), secret);
}

#[test]
fn table_shows_keys_and_values() {
    let table = secret_table(&json(r#"{"foo": "bar"}"#));
    assert!(table.contains("foo"));
    assert!(table.contains("bar"));
    assert!(table.starts_with('+'));
}

#[test]
fn outcomes_carry_the_detail() {
    assert_eq!(editor_outcome(Ok("x".to_string())).ok(), Some("x".to_string()));
    match editor_outcome(Err("no editor".to_string())) {
        Err(e) => assert_eq!(e.message(), "Failed to open secret in default editor - no editor"),
        Ok(_) => panic!(),
    }
    assert!(update_outcome(Ok(())).is_ok());
    match update_outcome(Err("denied".to_string())) {
        Err(e) => assert_eq!(e.message(), "Failed to update secret - denied"),
        Ok(_) => panic!(),
    }
    match shown_outcome(Err("gone".to_string())) {
        Err(e) => assert_eq!(e.message(), "Could not read secret value - gone"),
        Ok(_) => panic!(),
    }
    assert_eq!(shown_outcome(Ok("t".to_string())).ok(), Some("t".to_string()));
}

#[test]
fn messages() {
    assert_eq!(AppError::AddressNotSet.message(), "BAO_ADDR/VAULT_ADDR not set");
    assert_eq!(
        AppError::TokenNotFound.message(),
        "OpenBao/Vault token not found. Set BAO_TOKEN/VAULT_TOKEN environment variable and try again."
    );
    assert_eq!(AppError::FinderFailed("tty".to_string()).message(), "Skim error - tty");
    assert_eq!(AppError::JsonFailed("bad".to_string()).message(), "bad");
    assert_eq!(
        AppError::ParseFailed("eof".to_string()).message(),
        "Failed to parse edited secret - eof"
    );
}

#[test]
fn refusal_reason_is_serde_json_message() {
    let text = "{\"foo\": ";
    let expected = serde_json::from_str::<serde_json::Value>(text).unwrap_err().to_string();
    match parse_edited(KvVersion::V2, text) {
        Err(AppError::ParseFailed(d)) => assert_eq!(d, expected),
        _ => panic!("broken JSON must be refused"),
    }
    let expected =
        serde_json::from_str::<serde_json::Map<String, serde_json::Value>>("[1]").unwrap_err().to_string();
    match parse_edited(KvVersion::V1, "[1]") {
        Err(AppError::ParseFailed(d)) => assert_eq!(d, expected),
        _ => panic!("an array is no layout-1 secret"),
    }
}
