use kalgan::cookie::Cookie;
use kalgan::response;
use kalgan::response::Mock;
use kalgan::response::Response;
use kalgan::settings::Settings;
use kalgan::settings::Value;

#[test]
fn response_serialize_idempotent() {
    let mut resp = Response::new()
        .set_status(200)
        .set_content_type("text/html; charset=UTF-8")
        .set_content_length(2)
        .set_content("OK");
    let mut cookie = Cookie::new();
    cookie.set_name("sid".to_string());
    resp.add_cookie(cookie);
    let first = resp.create();
    let second = resp.create();
    assert_eq!(first, second);
}

#[test]
fn response_wire_format() {
    let resp = Response::new()
        .set_status(200)
        .set_content_type("text/html; charset=UTF-8")
        .set_content("<h1>Hi</h1>");
    let bytes = resp.create();
    assert_eq!(
        bytes,
        b"HTTP/1.1 200 OK\r\nContent-Type: text/html; charset=UTF-8;\r\n\r\n<h1>Hi</h1>".to_vec()
    );
}

#[test]
fn response_status_lines() {
    assert_eq!(Response::new().set_status(200).status, "HTTP/1.1 200 OK");
    assert_eq!(
        Response::new().set_status(301).status,
        "HTTP/1.1 301 Moved Permanently"
    );
    assert_eq!(Response::new().set_status(302).status, "HTTP/1.1 302 Found");
    assert_eq!(
        Response::new().set_status(403).status,
        "HTTP/1.1 403 Forbidden"
    );
    assert_eq!(
        Response::new().set_status(404).status,
        "HTTP/1.1 404 Not Found"
    );
    assert_eq!(
        Response::new().set_status(500).status,
        "HTTP/1.1 500 Internal Server Error"
    );
    assert_eq!(
        Response::new().set_status(503).status,
        "HTTP/1.1 503 Service Unavailable"
    );
    assert_eq!(Response::new().set_status(999).status, "");
}

#[test]
fn response_mock_getters() {
    let resp = Response::new().set_status(200);
    assert_eq!(resp.mock_get_status(), "HTTP/1.1 200 OK".to_string());
    let resp = Response::new().set_content_type("text/html; charset=UTF-8");
    assert_eq!(
        resp.mock_get_content_type(),
        "\r\nContent-Type: text/html; charset=UTF-8;".to_string()
    );
    let resp = Response::new().set_location("/home");
    assert_eq!(resp.mock_get_location(), "\r\nLocation: /home".to_string());
    let resp = Response::new().set_content("<h1>Hello World</h1>");
    assert_eq!(resp.mock_get_content(), "<h1>Hello World</h1>");
    let resp = Response::new().set_content_length(50);
    assert_eq!(
        resp.mock_get_content_length(),
        "\r\nContent-Length: 50".to_string()
    );
}

#[test]
fn response_json() {
    let resp = response::json("{\"name\": \"John\", \"surname\": \"Doe\"}");
    assert_eq!(resp.status, "HTTP/1.1 200 OK");
    assert_eq!(
        resp.content_type,
        "\r\nContent-Type: application/json; charset=UTF-8;"
    );
    assert_eq!(resp.content, "{\"name\": \"John\", \"surname\": \"Doe\"}");
    assert_eq!(resp.content_length, "\r\nContent-Length: 34");
}

#[test]
fn response_xml() {
    let resp = response::xml("<user><name>John</name></user>");
    assert_eq!(resp.status, "HTTP/1.1 200 OK");
    assert_eq!(
        resp.content_type,
        "\r\nContent-Type: application/xml; charset=UTF-8;"
    );
    assert_eq!(resp.content, "<user><name>John</name></user>");
}

#[test]
fn response_html() {
    let resp = response::create_html_response(404, "<h1>Missing</h1>");
    assert_eq!(resp.status, "HTTP/1.1 404 Not Found");
    assert_eq!(
        resp.content_type,
        "\r\nContent-Type: text/html; charset=UTF-8;"
    );
    assert_eq!(resp.content, "<h1>Missing</h1>");
    assert_eq!(resp.content_length, "\r\nContent-Length: 16");
}

#[test]
fn response_redirect() {
    let resp = response::redirect("/home".to_string());
    assert_eq!(resp.status, "HTTP/1.1 302 Found");
    assert_eq!(resp.location, "\r\nLocation: /home");
}

#[test]
fn response_cookie_in_stream() {
    let mut resp = Response::new().set_status(200);
    let mut cookie = Cookie::new();
    cookie.set_name("sid".to_string());
    cookie.set_value("42".to_string());
    cookie.set_max_age(9);
    cookie.set_path("".to_string());
    cookie.set_secure(false);
    cookie.set_http_only(false);
    resp.add_cookie(cookie);
    let bytes = resp.create();
    assert_eq!(
        bytes,
        b"HTTP/1.1 200 OK\r\nSet-Cookie: sid=42; Max-Age=9     \r\n\r\n".to_vec()
    );
}

#[test]
fn response_content_length_extremes() {
    let resp = Response::new().set_content_length(0);
    assert_eq!(resp.content_length, "\r\nContent-Length: 0");
    let resp = Response::new().set_content_length(usize::MAX);
    assert_eq!(
        resp.content_length,
        format!("\r\nContent-Length: {}", usize::MAX)
    );
}

#[test]
fn response_add_session() {
    let mut settings = Settings::new();
    settings.set(
        "session.user.cookie".to_string(),
        Value::Str("mock".to_string()),
    );
    settings.set(
        "cookie.mock.name".to_string(),
        Value::Str("session_id".to_string()),
    );
    let resp = Response::new().add_session(&settings, "user", "key-in-redis".to_string());
    assert_eq!(resp.cookies.len(), 1);
    assert_eq!(resp.cookies[0].name, "session_id");
    assert_eq!(resp.cookies[0].value, "key-in-redis");
}

#[test]
fn response_add_session_without_setting() {
    let settings = Settings::new();
    let resp = Response::new().add_session(&settings, "user", "key".to_string());
    assert_eq!(resp.cookies.len(), 0);
}
