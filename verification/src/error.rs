//! The error path of dispatch: the application-defined error controller
//! for a status code, and the built-in fallback page when none is
//! configured or it fails.

use vstd::prelude::*;
use vstd::string::StringExecFns;
use crate::num::spec_decimal;
use crate::num::u64_to_string;
use crate::request::Request;
use crate::response::spec_status_line;
use crate::response::Response;
use crate::settings::as_str_spec;
use crate::settings::spec_is_prod;
use crate::settings::Settings;
use crate::settings::ValueV;
use crate::text::lossy_chars;

verus! {

/// The settings key `error.<code>` naming the error controller for a
/// status code.
pub open spec fn spec_error_key(code: int) -> Seq<char>
    recommends
        code >= 0,
{
    "error."@ + spec_decimal(code as nat)
}

/// The standard reason phrase of the error codes the fallback knows.
pub open spec fn spec_error_text(code: int) -> Seq<char> {
    if code == 403 {
        "Forbidden"@
    } else if code == 404 {
        "Not Found"@
    } else if code == 500 {
        "Internal Server Error"@
    } else if code == 503 {
        "Service Unavailable"@
    } else {
        ""@
    }
}

/// The body of the built-in fallback page: a masked line in production, the
/// status line, the message and the raw request dump otherwise.
pub open spec fn spec_fallback_content(
    code: int,
    message: Seq<char>,
    prod: bool,
    raw: Seq<char>,
) -> Seq<char> {
    if prod {
        " An error occurred :( <br> HTTP/1.1 "@ + spec_decimal(code as nat) + " "@
            + spec_error_text(code) + "."@
    } else {
        "HTTP/1.1 "@ + spec_decimal(code as nat) + " "@ + spec_error_text(code) + "<br><br>"@
            + message + "<br><br>"@ + raw + "."@
    }
}

/// The name of the error controller configured for a status code, when
/// the settings hold one.
pub fn error_controller_name(settings: &Settings, error_code: i32) -> (r: Option<String>)
    requires
        error_code >= 0,
    ensures
        match r {
            Some(n) => settings@.contains_key(spec_error_key(error_code as int)) && as_str_spec(
                settings@[spec_error_key(error_code as int)],
            ) == Some(n@),
            None => !(settings@.contains_key(spec_error_key(error_code as int)) && as_str_spec(
                settings@[spec_error_key(error_code as int)],
            ) is Some),
        },
{
    let code = u64_to_string(error_code as u64);
    let mut key = String::from_str("error.");
    key.append(code.as_str());
    match settings.get_string(key.as_str()) {
        Ok(name) => Some(name),
        Err(_) => None,
    }
}

/// The built-in fallback response for an error: the status line for the
/// code, an HTML content type, the fallback page as content, and the
/// content's byte length as the stored length line.
pub fn trigger_internal_error(
    settings: &Settings,
    request: &Request,
    error_code: i32,
    message: &str,
) -> (r: Response)
    requires
        error_code >= 0,
    ensures
        r@.status == spec_status_line(error_code as int),
        r@.content_type == "\r\nContent-Type: "@ + "text/html; charset=UTF-8"@ + ";"@,
        r@.content == spec_fallback_content(
            error_code as int,
            message@,
            spec_is_prod(settings@),
            lossy_chars(request.raw@),
        ),
        r@.content_length == "\r\nContent-Length: "@ + spec_decimal(
            (crate::text::bytes_of(
                spec_fallback_content(
                    error_code as int,
                    message@,
                    spec_is_prod(settings@),
                    lossy_chars(request.raw@),
                ),
            ).len() as usize) as nat,
        ),
        r@.cookies.len() == 0,
        r@.location.len() == 0,
{
    let code = u64_to_string(error_code as u64);
    let text = error_text(error_code);
    let contents = if crate::settings::is_prod(settings) {
        let mut c = String::from_str(" An error occurred :( <br> HTTP/1.1 ");
        c.append(code.as_str());
        c.append(" ");
        c.append(text);
        c.append(".");
        c
    } else {
        let dump = crate::text::utf8_lossy(request.raw.as_slice());
        let mut c = String::from_str("HTTP/1.1 ");
        c.append(code.as_str());
        c.append(" ");
        c.append(text);
        c.append("<br><br>");
        c.append(message);
        c.append("<br><br>");
        c.append(dump.as_str());
        c.append(".");
        c
    };
    Response::new().set_status(error_code).set_content_type("text/html; charset=UTF-8")
        .set_content_length(contents.as_str().len())
        .set_content(contents.as_str())
}

/// The standard reason phrase of the error codes the fallback knows.
fn error_text(code: i32) -> (r: &'static str)
    ensures
        r@ == spec_error_text(code as int),
{
    if code == 403 {
        "Forbidden"
    } else if code == 404 {
        "Not Found"
    } else if code == 500 {
        "Internal Server Error"
    } else if code == 503 {
        "Service Unavailable"
    } else {
        proof {
            reveal_strlit("");
            assert(""@ =~= spec_error_text(code as int));
        }
        ""
    }
}

} // verus!
