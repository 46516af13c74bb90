use kalgan::cookie::Cookie;
use kalgan::settings::Settings;
use kalgan::settings::Value;

#[test]
fn test_new() {
    let cookie = Cookie::new();
    assert_eq!(cookie.name, "Kalgan".to_string());
}

#[test]
fn test_create() {
    let cookie = Cookie::new();
    assert_eq!(cookie.create(), "\r\nSet-Cookie: Kalgan=...a Rust Framework for Web Developers.; Max-Age=86400000   ; Path=/ ; Secure ; HttpOnly".to_string());
}

#[test]
fn test_set_from_settings() {
    let mut settings = Settings::new();
    settings.set("cookie.mock.name".to_string(), Value::Str("mock_id".to_string()));
    let mut cookie = Cookie::new();
    cookie.set_from_settings(&settings, "mock");
    assert_eq!(cookie.name, "mock_id");
}

#[test]
fn test_set_name() {
    let mut cookie = Cookie::new();
    cookie.set_name("mock_name".to_string());
    assert_eq!(cookie.name, "mock_name");
}

#[test]
fn test_set_value() {
    let mut cookie = Cookie::new();
    cookie.set_value("mock_value".to_string());
    assert_eq!(cookie.value, "mock_value");
}

#[test]
fn test_set_max_age() {
    let mut cookie = Cookie::new();
    cookie.set_max_age(404);
    assert_eq!(cookie.max_age, 404);
}

#[test]
fn test_set_expires() {
    let mut cookie = Cookie::new();
    cookie.set_expires("mock_expires".to_string());
    assert_eq!(cookie.expires, "mock_expires".to_string());
}

#[test]
fn test_set_domain() {
    let mut cookie = Cookie::new();
    cookie.set_domain("mock_domain".to_string());
    assert_eq!(cookie.domain, "mock_domain".to_string());
}

#[test]
fn test_set_path() {
    let mut cookie = Cookie::new();
    cookie.set_path("/mock".to_string());
    assert_eq!(cookie.path, "/mock".to_string());
}

#[test]
fn test_set_http_only() {
    let mut cookie = Cookie::new();
    cookie.set_http_only(false);
    assert_eq!(cookie.http_only, false);
}

#[test]
fn test_set_secure() {
    let mut cookie = Cookie::new();
    cookie.set_secure(false);
    assert_eq!(cookie.secure, false);
}

#[test]
fn cookie_full_settings_override() {
    let mut settings = Settings::new();
    settings.set("cookie.mock.name".to_string(), Value::Str("sid".to_string()));
    settings.set("cookie.mock.value".to_string(), Value::Str("v0".to_string()));
    settings.set("cookie.mock.max_age".to_string(), Value::Int(60));
    settings.set("cookie.mock.expires".to_string(), Value::Str("soon".to_string()));
    settings.set("cookie.mock.domain".to_string(), Value::Str("example.test".to_string()));
    settings.set("cookie.mock.path".to_string(), Value::Str("/app".to_string()));
    settings.set("cookie.mock.secure".to_string(), Value::Bool(false));
    settings.set("cookie.mock.http_only".to_string(), Value::Bool(false));
    let mut cookie = Cookie::new();
    cookie.set_from_settings(&settings, "mock");
    assert_eq!(cookie.name, "sid");
    assert_eq!(cookie.value, "v0");
    assert_eq!(cookie.max_age, 60);
    assert_eq!(cookie.expires, "soon");
    assert_eq!(cookie.domain, "example.test");
    assert_eq!(cookie.path, "/app");
    assert_eq!(cookie.secure, false);
    assert_eq!(cookie.http_only, false);
    assert_eq!(
        cookie.create(),
        "\r\nSet-Cookie: sid=v0; Max-Age=60 ; Expires=60 ; Domain=example.test ; Path=/app  "
    );
}
