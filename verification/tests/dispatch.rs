use kalgan::dict::Dict;
use kalgan::error;
use kalgan::middleware;
use kalgan::middleware::Outcome;
use kalgan::middleware::Verdict;
use kalgan::request::Request;
use kalgan::resolver;
use kalgan::resolver::Completion;
use kalgan::resolver::Dispatch;
use kalgan::response::Response;
use kalgan::route::Route;
use kalgan::settings::Settings;
use kalgan::settings::Value;

fn home_route() -> Route {
    Route {
        name: "home".to_string(),
        path: "/home".to_string(),
        controller: "home".to_string(),
        middleware: "".to_string(),
        language: "".to_string(),
        parameters: Vec::new(),
    }
}

#[test]
fn dispatch_route_to_controller() {
    let mut req = Request::new(b"GET /home HTTP/1.1\r\nHost: x\r\n\r\n").unwrap();
    let settings = Settings::new();
    let d = resolver::dispatch_route(&mut req, Ok(home_route()), &settings);
    match d {
        Dispatch::CallController { controller } => {
            assert_eq!(controller, "home");
        }
        _ => panic!("expected a controller call"),
    }
    assert!(req.route.is_some());
    // the controller collaborator answers 200 OK for "home"
    let controller_response = Response::new().set_status(200).set_content("OK");
    match resolver::after_controller(Ok(controller_response)) {
        Completion::Done(resp) => {
            assert_eq!(resp.status, "HTTP/1.1 200 OK");
            assert_eq!(resp.content, "OK");
        }
        Completion::Failed { .. } => panic!("expected the controller's response"),
    }
}

#[test]
fn dispatch_route_with_middleware() {
    let mut req = Request::new(b"GET /admin HTTP/1.1\r\n\r\n").unwrap();
    let settings = Settings::new();
    let route = Route {
        middleware: "auth".to_string(),
        controller: "admin".to_string(),
        ..home_route()
    };
    let d = resolver::dispatch_route(&mut req, Ok(route), &settings);
    match d {
        Dispatch::CallMiddleware {
            middleware,
            controller,
        } => {
            assert_eq!(middleware, "auth");
            assert_eq!(controller, "admin");
        }
        _ => panic!("expected a middleware call"),
    }
}

#[test]
fn dispatch_language_default() {
    let mut req = Request::new(b"GET /home HTTP/1.1\r\n\r\n").unwrap();
    let mut settings = Settings::new();
    settings.set(
        "i18n.language.default".to_string(),
        Value::Str("en".to_string()),
    );
    resolver::dispatch_route(&mut req, Ok(home_route()), &settings);
    assert_eq!(req.route.unwrap().language, "en");
}

#[test]
fn dispatch_unmatched_uri_gives_404() {
    let mut req = Request::new(b"GET /nowhere HTTP/1.1\r\nHost: x\r\n\r\n").unwrap();
    let settings = Settings::new();
    let d = resolver::dispatch_route(
        &mut req,
        Err("No route found for uri '/nowhere' and method 'GET'".to_string()),
        &settings,
    );
    let (code, message) = match d {
        Dispatch::Fail { code, message } => (code, message),
        _ => panic!("expected the error path"),
    };
    assert_eq!(code, 404);
    // no error.404 controller is configured: the built-in fallback answers
    assert!(error::error_controller_name(&settings, code).is_none());
    let resp = error::trigger_internal_error(&settings, &req, code, &message);
    assert_eq!(resp.status, "HTTP/1.1 404 Not Found");
}

#[test]
fn dispatch_error_controller_lookup() {
    let mut settings = Settings::new();
    settings.set(
        "error.404".to_string(),
        Value::Str("not_found_page".to_string()),
    );
    assert_eq!(
        error::error_controller_name(&settings, 404).unwrap(),
        "not_found_page"
    );
    assert!(error::error_controller_name(&settings, 500).is_none());
}

#[test]
fn dispatch_fallback_content() {
    let req = Request::new(b"GET /x HTTP/1.1\r\n\r\n").unwrap();
    let settings = Settings::new();
    let resp = error::trigger_internal_error(&settings, &req, 500, "boom");
    assert_eq!(resp.status, "HTTP/1.1 500 Internal Server Error");
    assert_eq!(
        resp.content,
        "HTTP/1.1 500 Internal Server Error<br><br>boom<br><br>GET /x HTTP/1.1\r\n\r\n."
    );
    assert_eq!(
        resp.content_length,
        format!("\r\nContent-Length: {}", resp.content.len())
    );
    let mut prod_settings = Settings::new();
    prod_settings.set("environment.is_prod".to_string(), Value::Bool(true));
    let masked = error::trigger_internal_error(&prod_settings, &req, 500, "boom");
    assert_eq!(
        masked.content,
        " An error occurred :( <br> HTTP/1.1 500 Internal Server Error."
    );
}

#[test]
fn middleware_success_proceeds() {
    let verdict = middleware::after_middleware(Ok(Outcome {
        success: true,
        response: None,
    }));
    assert!(verdict.is_proceed());
}

#[test]
fn middleware_failure_with_response() {
    let verdict = middleware::after_middleware(Ok(Outcome {
        success: false,
        response: Some(Response::new().set_status(403)),
    }));
    match verdict {
        Verdict::Respond(resp) => assert_eq!(resp.status, "HTTP/1.1 403 Forbidden"),
        _ => panic!("expected the middleware's response"),
    }
}

#[test]
fn middleware_failure_without_response() {
    let verdict = middleware::after_middleware(Ok(Outcome {
        success: false,
        response: None,
    }));
    match verdict {
        Verdict::Fault(m) => assert_eq!(m, "No Middleware response was set."),
        _ => panic!("expected a fault"),
    }
}

#[test]
fn middleware_error_propagates() {
    let verdict = middleware::after_middleware(Err("middleware broke".to_string()));
    match verdict {
        Verdict::Fault(m) => assert_eq!(m, "middleware broke"),
        _ => panic!("expected a fault"),
    }
}

#[test]
fn middleware_missing_handler_message() {
    assert_eq!(
        middleware::middleware_missing_message("auth", "admin"),
        "Middleware \"auth\" is set for Controller \"admin\" but Middleware Factory has not been declared."
    );
}

#[test]
fn controller_error_gives_500() {
    match resolver::after_controller(Err("controller broke".to_string())) {
        Completion::Failed { code, message } => {
            assert_eq!(code, 500);
            assert_eq!(message, "controller broke");
        }
        Completion::Done(_) => panic!("expected the error path"),
    }
}

#[test]
fn dispatch_renew_cookies() {
    let mut settings = Settings::new();
    settings.set("cookie.renew".to_string(), Value::Str("mock".to_string()));
    settings.set(
        "cookie.mock.name".to_string(),
        Value::Str("sid".to_string()),
    );
    let mut request_cookies = Dict::new();
    request_cookies.insert(b"sid".to_vec(), b"42".to_vec());
    let mut resp = Response::new().set_status(200);
    resolver::renew_cookies(&mut resp, &request_cookies, &settings);
    assert_eq!(resp.cookies.len(), 1);
    assert_eq!(resp.cookies[0].name, "sid");
    assert_eq!(resp.cookies[0].value, "42");
}

#[test]
fn dispatch_renew_skips_absent_cookie() {
    let mut settings = Settings::new();
    settings.set("cookie.renew".to_string(), Value::Str("mock".to_string()));
    settings.set(
        "cookie.mock.name".to_string(),
        Value::Str("sid".to_string()),
    );
    let request_cookies = Dict::new();
    let mut resp = Response::new().set_status(200);
    resolver::renew_cookies(&mut resp, &request_cookies, &settings);
    assert_eq!(resp.cookies.len(), 0);
}
