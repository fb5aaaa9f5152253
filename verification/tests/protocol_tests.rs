use openpad::parts::summarize_tool_input;
use openpad::secret::{is_sensitive_key, ExtraMaskedMap, SecretString};
use openpad::types::JsonValue;

#[test]
fn test_summarize_tool_input_redaction() {
    let mut input = ExtraMaskedMap::new();
    input.insert(
        "token".to_string(),
        JsonValue { json: "\"secret\"".to_string(), str_value: Some("secret".to_string()) },
    );
    assert!(summarize_tool_input(&input).contains("<REDACTED>"));
}

#[test]
fn test_extra_masked_map_debug() {
    let mut masked: ExtraMaskedMap<String> = ExtraMaskedMap::new();
    masked.insert("api_key".to_string(), "secret123".to_string());
    masked.insert("normal_field".to_string(), "value".to_string());

    let debug = masked.debug_string();

    assert!(debug.contains("api_key"));
    assert!(debug.contains("<REDACTED>"));
    assert!(!debug.contains("secret123"));
    assert!(debug.contains("normal_field"));
    assert!(debug.contains("value"));
}

#[test]
fn masked_map_debug_has_exact_shape() {
    let mut masked: ExtraMaskedMap<String> = ExtraMaskedMap::new();
    masked.insert("password".to_string(), "hunter2".to_string());
    masked.insert("path".to_string(), "a\"b".to_string());
    assert_eq!(masked.debug_string(), "{\"password\": \"<REDACTED>\", \"path\": \"a\\\"b\"}");
}

#[test]
fn sensitive_keys_are_recognised_whatever_the_case() {
    assert!(is_sensitive_key("API_KEY"));
    assert!(is_sensitive_key("Authorization"));
    assert!(!is_sensitive_key("path"));
}

#[test]
fn secret_string_never_shows_its_value() {
    let s = SecretString::new("topsecret".to_string());
    assert_eq!(s.debug_string(), "\"<REDACTED>\"");
    assert_eq!(s.as_str(), "topsecret");
}

#[test]
fn tool_input_summary_shows_plain_values() {
    let mut input = ExtraMaskedMap::new();
    input.insert(
        "path".to_string(),
        JsonValue { json: "\"src/main.rs\"".to_string(), str_value: Some("src/main.rs".to_string()) },
    );
    let s = summarize_tool_input(&input);
    assert!(s.contains("src/main.rs"));
    assert!(!s.contains("<REDACTED>"));
}

#[test]
fn masked_debug_does_not_depend_on_secret_values() {
    let render = |secret: &str| {
        let mut m: ExtraMaskedMap<String> = ExtraMaskedMap::new();
        m.insert("Authorization".to_string(), secret.to_string());
        m.insert("path".to_string(), "/tmp".to_string());
        m.debug_string()
    };
    assert_eq!(render("Bearer abc"), render("Bearer xyz"));
}

#[test]
fn tool_summary_does_not_depend_on_secret_values() {
    let summary = |secret: &str| {
        let mut input = ExtraMaskedMap::new();
        input.insert("api_key".to_string(), JsonValue { json: format!("\"{}\"", secret), str_value: Some(secret.to_string()) });
        input.insert("mode".to_string(), JsonValue { json: "1".to_string(), str_value: None });
        summarize_tool_input(&input)
    };
    assert_eq!(summary("abc"), summary("xyz"));
    assert!(!summary("abc").contains("abc"));
    assert_eq!(summarize_tool_input(&ExtraMaskedMap::new()), "");
}

#[test]
fn secret_from_string_derefs_to_it() {
    let s = SecretString::from("sk-123".to_string());
    assert_eq!(s.len(), 6);
    assert_eq!(s.as_str(), "sk-123");
    assert_eq!(s.debug_string(), "\"<REDACTED>\"");
}

#[test]
fn secret_from_str_derefs_to_it() {
    let s: SecretString = "sk-abc".into();
    assert_eq!(s.as_str(), "sk-abc");
    assert_eq!(*s, "sk-abc".to_string());
}

#[test]
fn tool_summary_quotes_keys_as_json() {
    let mut input = ExtraMaskedMap::new();
    input.insert("a\"b\n".to_string(), JsonValue { json: "1".to_string(), str_value: None });
    input.insert("c\u{1}".to_string(), JsonValue { json: "true".to_string(), str_value: None });
    assert_eq!(summarize_tool_input(&input), "{\"a\\\"b\\n\":1,\"c\\u0001\":true}");
}

#[test]
fn secret_default_is_empty_and_secrets_compare_by_text() {
    let d = SecretString::default();
    assert_eq!(d.as_str(), "");
    assert!(SecretString::from("k") == SecretString::new("k".to_string()));
    assert!(SecretString::from("k") != SecretString::from("j"));
    let mut set = std::collections::HashSet::new();
    set.insert(SecretString::from("k"));
    assert!(set.contains(&SecretString::from("k")));
}
