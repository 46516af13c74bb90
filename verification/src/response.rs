//! The response object: staged mutation through setters, then one
//! finalization into the byte stream sent to the browser.

use vstd::prelude::*;
use vstd::string::StringExecFns;
use crate::cookie::spec_cookie_from_settings;
use crate::cookie::spec_cookie_line;
use crate::cookie::spec_default_cookie;
use crate::cookie::Cookie;
use crate::cookie::CookieV;
use crate::num::spec_decimal;
use crate::num::u64_to_string;
use crate::settings::as_str_spec;
use crate::settings::Settings;
use crate::text::bytes_of;

verus! {

/// The data to be sent to the browser.
pub struct Response {
    pub status: String,
    pub content_type: String,
    pub location: String,
    pub cookies: Vec<Cookie>,
    pub content: String,
    pub content_length: String,
}

/// The abstraction of a response.
#[verifier::ext_equal]
pub struct ResponseV {
    pub status: Seq<char>,
    pub content_type: Seq<char>,
    pub location: Seq<char>,
    pub cookies: Seq<CookieV>,
    pub content: Seq<char>,
    pub content_length: Seq<char>,
}

impl View for Response {
    type V = ResponseV;

    open spec fn view(&self) -> ResponseV {
        ResponseV {
            status: self.status@,
            content_type: self.content_type@,
            location: self.location@,
            cookies: self.cookies@.map_values(|c: Cookie| c@),
            content: self.content@,
            content_length: self.content_length@,
        }
    }
}

/// The status line for a code: one of the supported codes mapped to its
/// standard reason phrase, any other code to an empty line.
pub open spec fn spec_status_line(code: int) -> Seq<char> {
    if code == 200 {
        "HTTP/1.1 200 OK"@
    } else if code == 301 {
        "HTTP/1.1 301 Moved Permanently"@
    } else if code == 302 {
        "HTTP/1.1 302 Found"@
    } else if code == 403 {
        "HTTP/1.1 403 Forbidden"@
    } else if code == 404 {
        "HTTP/1.1 404 Not Found"@
    } else if code == 500 {
        "HTTP/1.1 500 Internal Server Error"@
    } else if code == 503 {
        "HTTP/1.1 503 Service Unavailable"@
    } else {
        ""@
    }
}

/// The concatenation of the `Set-Cookie` lines of a cookie sequence, in
/// order.
pub open spec fn spec_cookie_lines(cs: Seq<CookieV>) -> Seq<char>
    decreases cs.len(),
{
    if cs.len() == 0 {
        Seq::empty()
    } else {
        spec_cookie_lines(cs.drop_last()) + spec_cookie_line(cs.last())
    }
}

/// The serialized response: status line, location, cookies and content
/// type, a blank line, then the body.  The stored content length does not
/// appear in the stream.
pub open spec fn spec_response_chars(r: ResponseV) -> Seq<char> {
    r.status + r.location + spec_cookie_lines(r.cookies) + r.content_type + "\r\n\r\n"@ + r.content
}

/// The bytes a response serializes to.
pub open spec fn spec_response_bytes(r: ResponseV) -> Seq<u8> {
    bytes_of(spec_response_chars(r))
}

/// Serialization is a function of the response alone, so serializing the
/// same response twice yields identical byte sequences.
pub proof fn lemma_create_idempotent(r: ResponseV, first: Seq<u8>, second: Seq<u8>)
    requires
        first == spec_response_bytes(r),
        second == spec_response_bytes(r),
    ensures
        first == second,
{
}

impl Response {
    /// A response with all the fields empty.
    pub fn new() -> (r: Response)
        ensures
            r@.status.len() == 0,
            r@.content_type.len() == 0,
            r@.location.len() == 0,
            r@.cookies.len() == 0,
            r@.content.len() == 0,
            r@.content_length.len() == 0,
    {
        let r = Response {
            status: String::new(),
            content_type: String::new(),
            location: String::new(),
            cookies: Vec::new(),
            content: String::new(),
            content_length: String::new(),
        };
        proof {
            assert(r@.cookies =~= Seq::<CookieV>::empty());
        }
        r
    }

    /// Sets the status line for the given status code.
    pub fn set_status(self, status_code: i32) -> (r: Response)
        ensures
            r@ == (ResponseV { status: spec_status_line(status_code as int), ..self@ }),
    {
        let ghost orig = self@;
        let mut this = self;
        this.status = if status_code == 200 {
            String::from_str("HTTP/1.1 200 OK")
        } else if status_code == 301 {
            String::from_str("HTTP/1.1 301 Moved Permanently")
        } else if status_code == 302 {
            String::from_str("HTTP/1.1 302 Found")
        } else if status_code == 403 {
            String::from_str("HTTP/1.1 403 Forbidden")
        } else if status_code == 404 {
            String::from_str("HTTP/1.1 404 Not Found")
        } else if status_code == 500 {
            String::from_str("HTTP/1.1 500 Internal Server Error")
        } else if status_code == 503 {
            String::from_str("HTTP/1.1 503 Service Unavailable")
        } else {
            String::new()
        };
        proof {
            if !(status_code == 200 || status_code == 301 || status_code == 302 || status_code
                == 403 || status_code == 404 || status_code == 500 || status_code == 503) {
                reveal_strlit("");
                assert(this.status@ =~= ""@);
            }
            assert(this@ =~= (ResponseV { status: spec_status_line(status_code as int), ..orig }));
        }
        this
    }

    /// Sets the `Content-Type` header line.
    pub fn set_content_type(self, content_type: &str) -> (r: Response)
        ensures
            r@ == (ResponseV {
                content_type: "\r\nContent-Type: "@ + content_type@ + ";"@,
                ..self@
            }),
    {
        let ghost orig = self@;
        let mut this = self;
        let mut s = String::from_str("\r\nContent-Type: ");
        s.append(content_type);
        s.append(";");
        this.content_type = s;
        proof {
            assert(this@ =~= (ResponseV {
                content_type: "\r\nContent-Type: "@ + content_type@ + ";"@,
                ..orig
            }));
        }
        this
    }

    /// Sets the `Location` header line.
    pub fn set_location(self, url: &str) -> (r: Response)
        ensures
            r@ == (ResponseV { location: "\r\nLocation: "@ + url@, ..self@ }),
    {
        let ghost orig = self@;
        let mut this = self;
        let mut s = String::from_str("\r\nLocation: ");
        s.append(url);
        this.location = s;
        proof {
            assert(this@ =~= (ResponseV { location: "\r\nLocation: "@ + url@, ..orig }));
        }
        this
    }

    /// Adds a cookie to the response.
    pub fn add_cookie(&mut self, cookie: Cookie)
        ensures
            final(self)@ == (ResponseV {
                cookies: old(self)@.cookies.push(cookie@),
                ..old(self)@
            }),
    {
        let ghost cv = cookie@;
        self.cookies.push(cookie);
        proof {
            assert(self@.cookies =~= old(self)@.cookies.push(cv));
            assert(self@ =~= (ResponseV { cookies: old(self)@.cookies.push(cv), ..old(self)@ }));
        }
    }

    /// Adds the session cookie named by the settings parameter
    /// `session.<name>.cookie`, filled from the settings and carrying the
    /// given session key as its value; without that parameter the response
    /// is unchanged.
    pub fn add_session(self, settings: &Settings, session_name: &str, session_key_in_redis: String) -> (r: Response)
        ensures
            ({
                let key = "session."@ + session_name@ + ".cookie"@;
                if settings@.contains_key(key) && as_str_spec(settings@[key]) is Some {
                    let cookie_name = as_str_spec(settings@[key]).unwrap();
                    let c = spec_cookie_from_settings(settings@, cookie_name, spec_default_cookie());
                    r@ == (ResponseV {
                        cookies: self@.cookies.push(
                            CookieV { value: session_key_in_redis@, ..c },
                        ),
                        ..self@
                    })
                } else {
                    r@ == self@
                }
            }),
    {
        let mut this = self;
        let mut key = String::from_str("session.");
        key.append(session_name);
        key.append(".cookie");
        match settings.get_string(key.as_str()) {
            Ok(cookie_name) => {
                let mut cookie = Cookie::new();
                cookie.set_from_settings(settings, cookie_name.as_str());
                cookie.set_value(session_key_in_redis);
                this.add_cookie(cookie);
            },
            Err(_) => {},
        }
        this
    }

    /// Sets the content of the response.
    pub fn set_content(self, content: &str) -> (r: Response)
        ensures
            r@ == (ResponseV { content: content@, ..self@ }),
    {
        let ghost orig = self@;
        let mut this = self;
        this.content = String::from_str(content);
        proof {
            assert(this@ =~= (ResponseV { content: content@, ..orig }));
        }
        this
    }

    /// Sets the `Content-Length` header line; the line is stored but does
    /// not appear in the serialized stream.
    pub fn set_content_length(self, content_length: usize) -> (r: Response)
        ensures
            r@ == (ResponseV {
                content_length: "\r\nContent-Length: "@ + spec_decimal(content_length as nat),
                ..self@
            }),
    {
        let ghost orig = self@;
        let mut this = self;
        let n = u64_to_string(content_length as u64);
        let mut s = String::from_str("\r\nContent-Length: ");
        s.append(n.as_str());
        this.content_length = s;
        proof {
            assert(this@ =~= (ResponseV {
                content_length: "\r\nContent-Length: "@ + spec_decimal(content_length as nat),
                ..orig
            }));
        }
        this
    }

    /// The concatenation of the cookies' `Set-Cookie` lines.
    fn create_cookies(&self) -> (r: String)
        ensures
            r@ == spec_cookie_lines(self@.cookies),
    {
        let mut s = String::new();
        let mut i: usize = 0;
        while i < self.cookies.len()
            invariant
                0 <= i <= self.cookies@.len(),
                s@ == spec_cookie_lines(self@.cookies.subrange(0, i as int)),
            decreases self.cookies@.len() - i,
        {
            let line = self.cookies[i].create();
            s.append(line.as_str());
            proof {
                let cs = self@.cookies;
                assert(cs.subrange(0, i + 1).drop_last() =~= cs.subrange(0, i as int));
                assert(cs.subrange(0, i + 1).last() == cs[i as int]);
            }
            i = i + 1;
        }
        proof {
            assert(self@.cookies.subrange(0, self@.cookies.len() as int) =~= self@.cookies);
        }
        s
    }

    /// Serializes the response into the bytes to be sent to the browser.
    pub fn create(&self) -> (r: Vec<u8>)
        ensures
            r@ == spec_response_bytes(self@),
    {
        let mut s = String::new();
        s.append(self.status.as_str());
        s.append(self.location.as_str());
        let cookies = self.create_cookies();
        s.append(cookies.as_str());
        s.append(self.content_type.as_str());
        s.append("\r\n\r\n");
        s.append(self.content.as_str());
        s.as_bytes_vec()
    }
}

/// A JSON response: status 200, the JSON content type, the given content
/// and its length.
pub fn json(contents: &str) -> (r: Response)
    ensures
        r@.status == spec_status_line(200),
        r@.content_type == "\r\nContent-Type: "@ + "application/json; charset=UTF-8"@ + ";"@,
        r@.content == contents@,
        r@.content_length == "\r\nContent-Length: "@ + spec_decimal(
            (bytes_of(contents@).len() as usize) as nat,
        ),
        r@.location.len() == 0,
        r@.cookies.len() == 0,
{
    Response::new().set_status(200).set_content_type("application/json; charset=UTF-8")
        .set_content_length(contents.len())
        .set_content(contents)
}

/// An XML response: status 200, the XML content type, the given content
/// and its length.
pub fn xml(contents: &str) -> (r: Response)
    ensures
        r@.status == spec_status_line(200),
        r@.content_type == "\r\nContent-Type: "@ + "application/xml; charset=UTF-8"@ + ";"@,
        r@.content == contents@,
        r@.content_length == "\r\nContent-Length: "@ + spec_decimal(
            (bytes_of(contents@).len() as usize) as nat,
        ),
        r@.location.len() == 0,
        r@.cookies.len() == 0,
{
    Response::new().set_status(200).set_content_type("application/xml; charset=UTF-8")
        .set_content_length(contents.len())
        .set_content(contents)
}

/// An HTML response for a status code and rendered page: the status line
/// for the code, the HTML content type, the content and its length.  The
/// rendering of the page itself is the template collaborator's work; this
/// assembles the response around its output.
pub fn create_html_response(status: i32, contents: &str) -> (r: Response)
    ensures
        r@.status == spec_status_line(status as int),
        r@.content_type == "\r\nContent-Type: "@ + "text/html; charset=UTF-8"@ + ";"@,
        r@.content == contents@,
        r@.content_length == "\r\nContent-Length: "@ + spec_decimal(
            (bytes_of(contents@).len() as usize) as nat,
        ),
        r@.location.len() == 0,
        r@.cookies.len() == 0,
{
    Response::new().set_status(status).set_content_type("text/html; charset=UTF-8")
        .set_content_length(contents.len())
        .set_content(contents)
}

/// A redirect response: status 302 and the given location.
pub fn redirect(url: String) -> (r: Response)
    ensures
        r@.status == spec_status_line(302),
        r@.location == "\r\nLocation: "@ + url@,
        r@.content_type.len() == 0,
        r@.content.len() == 0,
        r@.cookies.len() == 0,
{
    Response::new().set_status(302).set_location(url.as_str())
}

/// Read access to the response fields, for examining a built response.
pub trait Mock {
    /// The status line of the response.
    fn mock_get_status(self) -> String;

    /// The content type line of the response.
    fn mock_get_content_type(self) -> String;

    /// The location line of the response.
    fn mock_get_location(self) -> String;

    /// The cookies of the response.
    fn mock_get_cookies(self) -> Vec<Cookie>;

    /// The content of the response.
    fn mock_get_content(self) -> String;

    /// The content length line of the response.
    fn mock_get_content_length(self) -> String;
}

impl Mock for Response {
    fn mock_get_status(self) -> String {
        self.status
    }

    fn mock_get_content_type(self) -> String {
        self.content_type
    }

    fn mock_get_location(self) -> String {
        self.location
    }

    fn mock_get_cookies(self) -> Vec<Cookie> {
        self.cookies
    }

    fn mock_get_content(self) -> String {
        self.content
    }

    fn mock_get_content_length(self) -> String {
        self.content_length
    }
}

} // verus!
