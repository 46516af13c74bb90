use kalgan::settings::get_max_connections;
use kalgan::settings::is_prod;
use kalgan::settings::refresh_config_timeout;
use kalgan::settings::Settings;
use kalgan::settings::Value;

fn mock_config() -> Settings {
    let mut settings = Settings::new();
    settings.set(
        "mock.string_value".to_string(),
        Value::Str("Hello World".to_string()),
    );
    settings.set("mock.boolean_value".to_string(), Value::Bool(true));
    settings.set("mock.number_value".to_string(), Value::Int(1984));
    settings
}

#[test]
fn test_get() {
    let settings = mock_config();
    assert_eq!(
        settings.get("mock.string_value").unwrap().as_str().unwrap(),
        "Hello World"
    );
}

#[test]
fn test_get_string() {
    let settings = mock_config();
    assert_eq!(
        settings.get_string("mock.string_value").unwrap(),
        "Hello World"
    );
}

#[test]
fn test_get_bool() {
    let settings = mock_config();
    assert!(settings.get_bool("mock.boolean_value").unwrap());
}

#[test]
fn test_get_number() {
    let settings = mock_config();
    assert_eq!(settings.get_number("mock.number_value").unwrap(), 1984);
}

#[test]
fn test_exists() {
    let settings = mock_config();
    assert!(settings.key_exists("mock.boolean_value"));
}

#[test]
fn test_refresh_config_timeout() {
    let settings = mock_config();
    assert_eq!(refresh_config_timeout(&settings), 3);
}

#[test]
fn test_is_prod() {
    let settings = mock_config();
    assert_eq!(is_prod(&settings), false);
}

#[test]
fn settings_missing_key_error() {
    let settings = mock_config();
    assert_eq!(
        settings.get_string("no.such.key").unwrap_err(),
        "Key \"no.such.key\" not found."
    );
}

#[test]
fn settings_wrong_type_errors() {
    let settings = mock_config();
    assert_eq!(
        settings.get_string("mock.number_value").unwrap_err(),
        "Value \"mock.number_value\" is not a string."
    );
    assert_eq!(
        settings.get_bool("mock.string_value").unwrap_err(),
        "Value \"mock.string_value\" is not boolean."
    );
    assert_eq!(
        settings.get_number("mock.string_value").unwrap_err(),
        "Value \"mock.string_value\" is not i64/u64."
    );
}

#[test]
fn settings_last_write_wins() {
    let mut settings = Settings::new();
    settings.set("a".to_string(), Value::Str("first".to_string()));
    settings.set("a".to_string(), Value::Str("second".to_string()));
    assert_eq!(settings.get_string("a").unwrap(), "second");
}

#[test]
fn settings_configured_timeout_and_prod() {
    let mut settings = Settings::new();
    settings.set(
        "environment.refresh_config_timeout".to_string(),
        Value::Int(42),
    );
    settings.set("environment.is_prod".to_string(), Value::Bool(true));
    assert_eq!(refresh_config_timeout(&settings), 42);
    assert!(is_prod(&settings));
}

#[test]
fn settings_max_connections() {
    let mut settings = Settings::new();
    settings.set("db.max_connections".to_string(), Value::Int(17));
    assert_eq!(get_max_connections(&settings), 17);
}
