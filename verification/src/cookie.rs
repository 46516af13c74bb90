//! Cookies attached to a response, with framework-wide defaults and the
//! `Set-Cookie` line each one serializes to.

use vstd::prelude::*;
use vstd::string::StringExecFns;
use crate::num::spec_decimal;
use crate::num::u64_to_string;
use crate::settings::as_bool_spec;
use crate::settings::as_int_spec;
use crate::settings::as_str_spec;
use crate::settings::Settings;

verus! {

/// A cookie to be sent to the browser.
pub struct Cookie {
    pub name: String,
    pub value: String,
    pub max_age: usize,
    pub expires: String,
    pub domain: String,
    pub path: String,
    pub secure: bool,
    pub http_only: bool,
}

/// The abstraction of a cookie.
#[verifier::ext_equal]
pub struct CookieV {
    pub name: Seq<char>,
    pub value: Seq<char>,
    pub max_age: int,
    pub expires: Seq<char>,
    pub domain: Seq<char>,
    pub path: Seq<char>,
    pub secure: bool,
    pub http_only: bool,
}

impl View for Cookie {
    type V = CookieV;

    open spec fn view(&self) -> CookieV {
        CookieV {
            name: self.name@,
            value: self.value@,
            max_age: self.max_age as int,
            expires: self.expires@,
            domain: self.domain@,
            path: self.path@,
            secure: self.secure,
            http_only: self.http_only,
        }
    }
}

/// The default cookie: the framework's name and slogan, a day-long age,
/// the root path, secure and HTTP-only.
pub open spec fn spec_default_cookie() -> CookieV {
    CookieV {
        name: "Kalgan"@,
        value: "...a Rust Framework for Web Developers."@,
        max_age: 86400000,
        expires: ""@,
        domain: ""@,
        path: "/"@,
        secure: true,
        http_only: true,
    }
}

/// The `Set-Cookie` line of a cookie: name and value, `Max-Age`, then
/// `Expires`, `Domain` and `Path` when their fields are non-empty, then
/// the `Secure` and `HttpOnly` flags, each optional piece preceded by one
/// space.  The `Expires` attribute repeats the `Max-Age` number.
pub open spec fn spec_cookie_line(c: CookieV) -> Seq<char> {
    "\r\nSet-Cookie: "@ + c.name + "="@ + c.value + "; Max-Age="@ + spec_decimal(c.max_age as nat)
        + " "@ + (if c.expires.len() == 0 {
        Seq::<char>::empty()
    } else {
        "; Expires="@ + spec_decimal(c.max_age as nat)
    }) + " "@ + (if c.domain.len() == 0 {
        Seq::<char>::empty()
    } else {
        "; Domain="@ + c.domain
    }) + " "@ + (if c.path.len() == 0 {
        Seq::<char>::empty()
    } else {
        "; Path="@ + c.path
    }) + " "@ + (if c.secure {
        "; Secure"@
    } else {
        Seq::<char>::empty()
    }) + " "@ + (if c.http_only {
        "; HttpOnly"@
    } else {
        Seq::<char>::empty()
    })
}

/// The settings key `cookie.<name>.<field>`.
pub open spec fn spec_cookie_key(name: Seq<char>, field: Seq<char>) -> Seq<char> {
    "cookie."@ + name + "."@ + field
}

/// A cookie taken from the settings: each field of `c` is replaced by the
/// parameter `cookie.<name>.<field>` when that parameter exists with the
/// field's type, and kept otherwise.  An integer `max_age` is taken only
/// when it fits the machine's word.
pub open spec fn spec_cookie_from_settings(
    m: Map<Seq<char>, crate::settings::ValueV>,
    name: Seq<char>,
    c: CookieV,
) -> CookieV {
    let c = if m.contains_key(spec_cookie_key(name, "name"@)) && as_str_spec(
        m[spec_cookie_key(name, "name"@)],
    ) is Some {
        CookieV { name: as_str_spec(m[spec_cookie_key(name, "name"@)]).unwrap(), ..c }
    } else {
        c
    };
    let c = if m.contains_key(spec_cookie_key(name, "value"@)) && as_str_spec(
        m[spec_cookie_key(name, "value"@)],
    ) is Some {
        CookieV { value: as_str_spec(m[spec_cookie_key(name, "value"@)]).unwrap(), ..c }
    } else {
        c
    };
    let c = if m.contains_key(spec_cookie_key(name, "max_age"@)) && as_int_spec(
        m[spec_cookie_key(name, "max_age"@)],
    ) is Some && 0 <= as_int_spec(m[spec_cookie_key(name, "max_age"@)]).unwrap() <= usize::MAX {
        CookieV { max_age: as_int_spec(m[spec_cookie_key(name, "max_age"@)]).unwrap(), ..c }
    } else {
        c
    };
    let c = if m.contains_key(spec_cookie_key(name, "expires"@)) && as_str_spec(
        m[spec_cookie_key(name, "expires"@)],
    ) is Some {
        CookieV { expires: as_str_spec(m[spec_cookie_key(name, "expires"@)]).unwrap(), ..c }
    } else {
        c
    };
    let c = if m.contains_key(spec_cookie_key(name, "domain"@)) && as_str_spec(
        m[spec_cookie_key(name, "domain"@)],
    ) is Some {
        CookieV { domain: as_str_spec(m[spec_cookie_key(name, "domain"@)]).unwrap(), ..c }
    } else {
        c
    };
    let c = if m.contains_key(spec_cookie_key(name, "path"@)) && as_str_spec(
        m[spec_cookie_key(name, "path"@)],
    ) is Some {
        CookieV { path: as_str_spec(m[spec_cookie_key(name, "path"@)]).unwrap(), ..c }
    } else {
        c
    };
    let c = if m.contains_key(spec_cookie_key(name, "secure"@)) && as_bool_spec(
        m[spec_cookie_key(name, "secure"@)],
    ) is Some {
        CookieV { secure: as_bool_spec(m[spec_cookie_key(name, "secure"@)]).unwrap(), ..c }
    } else {
        c
    };
    if m.contains_key(spec_cookie_key(name, "http_only"@)) && as_bool_spec(
        m[spec_cookie_key(name, "http_only"@)],
    ) is Some {
        CookieV { http_only: as_bool_spec(m[spec_cookie_key(name, "http_only"@)]).unwrap(), ..c }
    } else {
        c
    }
}

/// The settings key `cookie.<name>.<field>`, as a string.
pub fn cookie_key(name: &str, field: &str) -> (r: String)
    ensures
        r@ == spec_cookie_key(name@, field@),
{
    let mut s = String::from_str("cookie.");
    s.append(name);
    s.append(".");
    s.append(field);
    s
}

impl Cookie {
    /// A cookie with the framework-wide default fields.
    pub fn new() -> (r: Cookie)
        ensures
            r@ == spec_default_cookie(),
    {
        let r = Cookie {
            name: String::from_str("Kalgan"),
            value: String::from_str("...a Rust Framework for Web Developers."),
            max_age: 86400000,
            expires: String::new(),
            domain: String::new(),
            path: String::from_str("/"),
            secure: true,
            http_only: true,
        };
        proof {
            reveal_strlit("");
            assert(""@ =~= Seq::<char>::empty());
            assert(r@ =~= spec_default_cookie());
        }
        r
    }

    /// An owned copy of the cookie.
    pub fn duplicate(&self) -> (r: Cookie)
        ensures
            r@ == self@,
    {
        Cookie {
            name: self.name.clone(),
            value: self.value.clone(),
            max_age: self.max_age,
            expires: self.expires.clone(),
            domain: self.domain.clone(),
            path: self.path.clone(),
            secure: self.secure,
            http_only: self.http_only,
        }
    }

    /// The `Set-Cookie` line this cookie serializes to.
    pub fn create(&self) -> (r: String)
        ensures
            r@ == spec_cookie_line(self@),
    {
        let age = u64_to_string(self.max_age as u64);
        let mut s = String::from_str("\r\nSet-Cookie: ");
        s.append(self.name.as_str());
        s.append("=");
        s.append(self.value.as_str());
        s.append("; Max-Age=");
        s.append(age.as_str());
        s.append(" ");
        if !self.expires.as_str().is_empty() {
            s.append("; Expires=");
            s.append(age.as_str());
        }
        s.append(" ");
        if !self.domain.as_str().is_empty() {
            s.append("; Domain=");
            s.append(self.domain.as_str());
        }
        s.append(" ");
        if !self.path.as_str().is_empty() {
            s.append("; Path=");
            s.append(self.path.as_str());
        }
        s.append(" ");
        if self.secure {
            s.append("; Secure");
        }
        s.append(" ");
        if self.http_only {
            s.append("; HttpOnly");
        }
        s
    }

    /// Overwrites the fields defined in the settings for the given cookie
    /// name, leaving the others as they are.
    pub fn set_from_settings(&mut self, settings: &Settings, cookie_name: &str)
        ensures
            final(self)@ == spec_cookie_from_settings(settings@, cookie_name@, old(self)@),
    {
        let key = cookie_key(cookie_name, "name");
        match settings.get_string(key.as_str()) {
            Ok(name) => {
                self.set_name(name);
            },
            Err(_) => {},
        }
        let key = cookie_key(cookie_name, "value");
        match settings.get_string(key.as_str()) {
            Ok(value) => {
                self.set_value(value);
            },
            Err(_) => {},
        }
        let key = cookie_key(cookie_name, "max_age");
        match settings.get_number(key.as_str()) {
            Ok(max_age) => {
                if max_age >= 0 && (max_age as u64) <= (usize::MAX as u64) {
                    self.set_max_age(max_age as usize);
                }
            },
            Err(_) => {},
        }
        let key = cookie_key(cookie_name, "expires");
        match settings.get_string(key.as_str()) {
            Ok(expires) => {
                self.set_expires(expires);
            },
            Err(_) => {},
        }
        let key = cookie_key(cookie_name, "domain");
        match settings.get_string(key.as_str()) {
            Ok(domain) => {
                self.set_domain(domain);
            },
            Err(_) => {},
        }
        let key = cookie_key(cookie_name, "path");
        match settings.get_string(key.as_str()) {
            Ok(path) => {
                self.set_path(path);
            },
            Err(_) => {},
        }
        let key = cookie_key(cookie_name, "secure");
        match settings.get_bool(key.as_str()) {
            Ok(secure) => {
                self.set_secure(secure);
            },
            Err(_) => {},
        }
        let key = cookie_key(cookie_name, "http_only");
        match settings.get_bool(key.as_str()) {
            Ok(http_only) => {
                self.set_http_only(http_only);
            },
            Err(_) => {},
        }
    }

    /// Sets the name of the cookie.
    pub fn set_name(&mut self, name: String)
        ensures
            final(self)@ == (CookieV { name: name@, ..old(self)@ }),
    {
        self.name = name;
    }

    /// Sets the value of the cookie.
    pub fn set_value(&mut self, value: String)
        ensures
            final(self)@ == (CookieV { value: value@, ..old(self)@ }),
    {
        self.value = value;
    }

    /// Sets the max age of the cookie.
    pub fn set_max_age(&mut self, max_age: usize)
        ensures
            final(self)@ == (CookieV { max_age: max_age as int, ..old(self)@ }),
    {
        self.max_age = max_age;
    }

    /// Sets the expire date of the cookie.
    pub fn set_expires(&mut self, expires: String)
        ensures
            final(self)@ == (CookieV { expires: expires@, ..old(self)@ }),
    {
        self.expires = expires;
    }

    /// Sets the domain of the cookie.
    pub fn set_domain(&mut self, domain: String)
        ensures
            final(self)@ == (CookieV { domain: domain@, ..old(self)@ }),
    {
        self.domain = domain;
    }

    /// Sets the path of the cookie.
    pub fn set_path(&mut self, path: String)
        ensures
            final(self)@ == (CookieV { path: path@, ..old(self)@ }),
    {
        self.path = path;
    }

    /// Sets the HTTP-only flag of the cookie.
    pub fn set_http_only(&mut self, http_only: bool)
        ensures
            final(self)@ == (CookieV { http_only, ..old(self)@ }),
    {
        self.http_only = http_only;
    }

    /// Sets the secure flag of the cookie.
    pub fn set_secure(&mut self, secure: bool)
        ensures
            final(self)@ == (CookieV { secure, ..old(self)@ }),
    {
        self.secure = secure;
    }
}

} // verus!
