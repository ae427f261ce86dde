use gyroflow_core::json::{JsonNumber, JsonValue};
use gyroflow_core::settings;
use gyroflow_core::settings::{clear, contains, get, get_all, get_bool, get_str, get_u64, try_get, Settings};

#[test]
fn set_then_get_returns_the_value() {
    let mut s = Settings::new();
    settings::set(&mut s, "volume", JsonValue::Number(JsonNumber::PosInt(7)));
    settings::set(&mut s, "dark", JsonValue::Bool(true));
    settings::set(&mut s, "lang", JsonValue::Text("pl".to_string()));
    assert!(contains(&s, "volume"));
    assert!(!contains(&s, "missing"));
    assert_eq!(get_u64(&s, "volume", 3), 7);
    assert_eq!(get_bool(&s, "dark", false), true);
    assert_eq!(get_str(&s, "lang", "en"), "pl");
    assert_eq!(get_all(&s).len(), 3);
}

#[test]
fn typed_reads_fall_back_to_the_default() {
    let mut s = Settings::new();
    settings::set(&mut s, "name", JsonValue::Text("x".to_string()));
    settings::set(&mut s, "negative", JsonValue::Number(JsonNumber::NegInt(-4)));
    assert_eq!(get_u64(&s, "name", 42), 42);
    assert_eq!(get_u64(&s, "negative", 42), 42);
    assert_eq!(get_u64(&s, "absent", 5), 5);
    assert_eq!(get_bool(&s, "name", true), true);
    assert_eq!(get_str(&s, "negative", "d"), "d");
    assert!(matches!(get(&s, "absent", JsonValue::Null), JsonValue::Null));
    assert!(try_get(&s, "absent").is_none());
}

#[test]
fn overwrite_keeps_one_entry() {
    let mut s = Settings::new();
    settings::set(&mut s, "k", JsonValue::Bool(false));
    settings::set(&mut s, "k", JsonValue::Bool(true));
    assert_eq!(get_all(&s).len(), 1);
    assert_eq!(get_bool(&s, "k", false), true);
}

#[test]
fn clear_removes_everything() {
    let mut s = Settings::new();
    settings::set(&mut s, "a", JsonValue::Null);
    settings::set(&mut s, "b", JsonValue::Array(vec![JsonValue::Bool(true)]));
    clear(&mut s);
    assert!(!contains(&s, "a"));
    assert!(!contains(&s, "b"));
    assert!(get_all(&s).is_empty());
}
