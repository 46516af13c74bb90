use kalgan::asset;
use kalgan::settings::Settings;
use kalgan::settings::Value;

#[test]
fn asset_content_types() {
    assert_eq!(asset::get_content_type(b"style/main.css"), "text/css");
    assert_eq!(asset::get_content_type(b"img/logo.png"), "image/png");
    assert_eq!(asset::get_content_type(b"doc/report.pdf"), "application/pdf");
    assert_eq!(asset::get_content_type(b"page.html"), "text/html");
    assert_eq!(asset::get_content_type(b"data.json"), "application/json");
    assert_eq!(
        asset::get_content_type(b"archive.zip"),
        "application/octet-stream"
    );
    assert_eq!(asset::get_content_type(b"font.woff2"), "font/woff2");
}

#[test]
fn asset_static_file_detection() {
    let mut settings = Settings::new();
    settings.set(
        "static.folders".to_string(),
        Value::Str("static, assets".to_string()),
    );
    assert!(asset::is_static_file(b"/static/css/main.css", &settings));
    assert!(asset::is_static_file(b"/assets/logo.png", &settings));
    assert!(!asset::is_static_file(b"/home", &settings));
    assert!(!asset::is_static_file(b"/app/static/x", &settings));
}

#[test]
fn asset_static_folder_with_slashes() {
    let mut settings = Settings::new();
    settings.set(
        "static.folders".to_string(),
        Value::Str("/static/".to_string()),
    );
    assert!(asset::is_static_file(b"/static/css/main.css", &settings));
    assert!(!asset::is_static_file(b"/staticx/main.css", &settings));
}

#[test]
fn asset_static_detection_without_setting() {
    let settings = Settings::new();
    assert!(!asset::is_static_file(b"/static/css/main.css", &settings));
}

#[test]
fn asset_clean_static_file() {
    assert_eq!(
        asset::get_clean_static_file(b"/static/main.css"),
        b"static/main.css".to_vec()
    );
    assert_eq!(
        asset::get_clean_static_file(b"/static/main.css?v=3"),
        b"static/main.css".to_vec()
    );
}

#[test]
fn asset_served_bytes() {
    let bytes = asset::serve_static_bytes("text/css", b"body{}");
    assert_eq!(
        bytes,
        b"HTTP/1.1 200 OK\r\nContent-Type: text/css;\r\n\r\n\n\nbody{}".to_vec()
    );
}
