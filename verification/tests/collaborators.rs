use std::collections::HashMap;

use kalgan::i18n;
use kalgan::request::Request;
use kalgan::resolver;
use kalgan::resolver::Dispatch;
use kalgan::settings::Settings;
use kalgan::url;

fn empty_router() -> kalgan_router::Router {
    kalgan_router::Router {
        collection: Vec::new(),
    }
}

fn mock_messages() -> kalgan_i18n::Messages {
    let mut english = HashMap::new();
    english.insert("mock.hello".to_string(), "Hello World".to_string());
    english.insert(
        "mock.user".to_string(),
        "My name is {name} {surname}".to_string(),
    );
    let mut collection = HashMap::new();
    collection.insert("en".to_string(), english);
    kalgan_i18n::Messages { collection }
}

#[test]
fn trans() {
    let messages = mock_messages();
    assert_eq!(
        i18n::trans(&messages, "en", "mock.hello", Vec::new()),
        "Hello World"
    );
    let parameters = vec![
        ("name".to_string(), "John".to_string()),
        ("surname".to_string(), "Doe".to_string()),
    ];
    assert_eq!(
        i18n::trans(&messages, "en", "mock.user", parameters),
        "My name is John Doe"
    );
}

#[test]
fn trans_missing_message_yields_id() {
    let messages = mock_messages();
    assert_eq!(
        i18n::trans(&messages, "en", "mock.other", Vec::new()),
        "mock.other"
    );
    assert_eq!(
        i18n::trans(&messages, "fr", "mock.hello", Vec::new()),
        "mock.hello"
    );
}

#[test]
fn url_generate_unknown_route() {
    let router = empty_router();
    assert_eq!(
        url::generate(&router, "hello_world", Vec::new()),
        "Route \"hello_world\" not found."
    );
}

#[test]
fn resolver_non_ascii_uri_takes_error_path() {
    let router = empty_router();
    let settings = Settings::new();
    let mut req = Request::new(b"GET /caf%C3%A9 HTTP/1.1\r\nHost: x\r\n\r\n").unwrap();
    let d = resolver::resolver(&mut req, &router, &settings);
    match d {
        Dispatch::Fail { code, message } => {
            assert_eq!(code, 404);
            assert_eq!(
                message,
                format!(
                    "No route found for uri '{}' and method 'GET'",
                    String::from_utf8_lossy(req.get_uri())
                )
            );
        }
        _ => panic!("expected the error path"),
    }
}

#[test]
fn resolver_unmatched_uri_through_router() {
    let router = empty_router();
    let settings = Settings::new();
    let mut req = Request::new(b"GET /nowhere HTTP/1.1\r\nHost: x\r\n\r\n").unwrap();
    let d = resolver::resolver(&mut req, &router, &settings);
    match d {
        Dispatch::Fail { code, message } => {
            assert_eq!(code, 404);
            assert_eq!(message, "No route found for uri '/nowhere' and method 'GET'");
        }
        _ => panic!("expected the error path"),
    }
}
