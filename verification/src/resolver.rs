//! The dispatch resolver: from a route lookup answer to the next stage of
//! the pipeline — a controller call, a middleware call, or the error path.

use vstd::prelude::*;
use vstd::string::StringExecFns;
use crate::cookie::spec_cookie_from_settings;
use crate::cookie::spec_cookie_key;
use crate::cookie::spec_default_cookie;
use crate::cookie::Cookie;
use crate::cookie::CookieV;
use crate::dict::Dict;
use crate::request::Request;
use crate::response::Response;
use crate::response::ResponseV;
use crate::route::Route;
use crate::route::RouteV;
use crate::router::route_lookup;
use crate::settings::as_str_spec;
use crate::settings::Settings;
use crate::settings::ValueV;
use crate::text::bytes_of;
use crate::text::lossy_chars;
use crate::text::spec_split;
use crate::text::spec_strip;

verus! {

/// The next stage of the pipeline for a request.
pub enum Dispatch {
    /// Call the controller of this name.
    CallController { controller: String },
    /// Call the middleware of this name, then on success the controller.
    CallMiddleware { middleware: String, controller: String },
    /// Take the error path with this status code and message.
    Fail { code: i32, message: String },
}

/// The abstraction of a dispatch decision.
#[verifier::ext_equal]
pub enum DispatchV {
    CallControllerV { controller: Seq<char> },
    CallMiddlewareV { middleware: Seq<char>, controller: Seq<char> },
    FailV { code: int, message: Seq<char> },
}

impl View for Dispatch {
    type V = DispatchV;

    open spec fn view(&self) -> DispatchV {
        match self {
            Dispatch::CallController { controller } => DispatchV::CallControllerV {
                controller: controller@,
            },
            Dispatch::CallMiddleware { middleware, controller } => DispatchV::CallMiddlewareV {
                middleware: middleware@,
                controller: controller@,
            },
            Dispatch::Fail { code, message } => DispatchV::FailV {
                code: *code as int,
                message: message@,
            },
        }
    }
}

/// The matched route completed from the settings: a route without a
/// language takes `i18n.language.default` when that parameter is set to a
/// string.
pub open spec fn spec_routed(route: RouteV, m: Map<Seq<char>, ValueV>) -> RouteV {
    if route.language.len() == 0 && m.contains_key("i18n.language.default"@) && as_str_spec(
        m["i18n.language.default"@],
    ) is Some {
        RouteV { language: as_str_spec(m["i18n.language.default"@]).unwrap(), ..route }
    } else {
        route
    }
}

/// The dispatch decision for a route lookup answer: an unmatched URI goes
/// to the error path as a 404; a matched route without middleware goes to
/// its controller; one with middleware goes to the middleware first.
pub open spec fn spec_dispatch(
    lookup: Result<RouteV, Seq<char>>,
    m: Map<Seq<char>, ValueV>,
) -> DispatchV {
    match lookup {
        Err(e) => DispatchV::FailV { code: 404, message: e },
        Ok(route) => {
            if route.middleware.len() == 0 {
                DispatchV::CallControllerV { controller: route.controller }
            } else {
                DispatchV::CallMiddlewareV {
                    middleware: route.middleware,
                    controller: route.controller,
                }
            }
        },
    }
}

/// Decides the next stage for a route lookup answer, attaching the matched
/// route (with its language defaulted from the settings) to the request.
pub fn dispatch_route(request: &mut Request, lookup: Result<Route, String>, settings: &Settings) -> (d: Dispatch)
    ensures
        d@ == spec_dispatch(
            match lookup {
                Ok(route) => Ok::<RouteV, Seq<char>>(route@),
                Err(e) => Err(e@),
            },
            settings@,
        ),
        match lookup {
            Ok(route) => final(request).route is Some && final(request).route.unwrap()@
                == spec_routed(route@, settings@) && final(request).method == old(request).method
                && final(request).uri == old(request).uri && final(request).protocol == old(
                request,
            ).protocol && final(request).input == old(request).input && final(request).files == old(
                request,
            ).files && final(request).cookies == old(request).cookies && final(request).raw == old(
                request,
            ).raw,
            Err(_) => *final(request) == *old(request),
        },
{
    match lookup {
        Ok(route) => {
            let mut route = route;
            let ghost orig = route@;
            if route.language.as_str().is_empty() {
                match settings.get_string("i18n.language.default") {
                    Ok(language) => {
                        route.language = language;
                    },
                    Err(_) => {},
                }
            }
            let controller = route.controller.clone();
            let middleware = route.middleware.clone();
            proof {
                assert(route@ =~= spec_routed(orig, settings@));
            }
            request.route = Some(route);
            if middleware.as_str().is_empty() {
                Dispatch::CallController { controller }
            } else {
                Dispatch::CallMiddleware { middleware, controller }
            }
        },
        Err(message) => Dispatch::Fail { code: 404, message },
    }
}

/// An unmatched URI dispatches to the error path with status code 404 and
/// the lookup's message; the status line for that code — the one the
/// built-in fallback builds its response with when no error controller is
/// configured — is `HTTP/1.1 404 Not Found`.
pub proof fn lemma_unmatched_uri_yields_404(
    lookup: Result<RouteV, Seq<char>>,
    m: Map<Seq<char>, ValueV>,
)
    requires
        lookup is Err,
    ensures
        match lookup {
            Err(e) => spec_dispatch(lookup, m) == (DispatchV::FailV { code: 404, message: e }),
            Ok(_) => false,
        },
        crate::response::spec_status_line(404) == "HTTP/1.1 404 Not Found"@,
{
}

/// Looks the request's URI and method up in the route table and decides
/// the next stage of the pipeline.
///
/// The route table is consulted only for an all-ASCII URI: its matcher
/// slices the URI at byte offsets and would abort on a multi-byte
/// character, so a URI with non-ASCII bytes is treated as unmatched and
/// takes the error path with the table's not-found message.
pub fn resolver(request: &mut Request, router: &kalgan_router::Router, settings: &Settings) -> (d: Dispatch)
    ensures
        crate::text::spec_is_ascii(old(request).uri@) ==> d@ == spec_dispatch(
            route_lookup(router, old(request).uri@, old(request).method@),
            settings@,
        ),
        crate::text::spec_is_ascii(old(request).uri@) ==> match route_lookup(
            router,
            old(request).uri@,
            old(request).method@,
        ) {
            Ok(v) => final(request).route is Some && ({
                let attached = final(request).route.unwrap()@;
                &&& attached.name == v.name
                &&& attached.path == v.path
                &&& attached.controller == v.controller
                &&& attached.middleware == v.middleware
                &&& attached.language == (if v.language.len() == 0 && settings@.contains_key(
                    "i18n.language.default"@,
                ) && as_str_spec(settings@["i18n.language.default"@]) is Some {
                    as_str_spec(settings@["i18n.language.default"@]).unwrap()
                } else {
                    v.language
                })
            }),
            Err(_) => *final(request) == *old(request),
        },
        !crate::text::spec_is_ascii(old(request).uri@) ==> d@ == (DispatchV::FailV {
            code: 404,
            message: "No route found for uri '"@ + lossy_chars(old(request).uri@)
                + "' and method '"@ + lossy_chars(old(request).method@) + "'"@,
        }) && *final(request) == *old(request),
{
    if crate::text::is_ascii_bytes(request.uri.as_slice()) {
        let lookup = crate::router::get_route(
            router,
            request.uri.as_slice(),
            request.method.as_slice(),
        );
        dispatch_route(request, lookup, settings)
    } else {
        let uri_text = crate::text::utf8_lossy(request.uri.as_slice());
        let method_text = crate::text::utf8_lossy(request.method.as_slice());
        let mut message = String::from_str("No route found for uri '");
        message.append(uri_text.as_str());
        message.append("' and method '");
        message.append(method_text.as_str());
        message.append("'");
        Dispatch::Fail { code: 404, message }
    }
}

/// The end of the pipeline after a controller call: its response, or the
/// error path.
pub enum Completion {
    /// The controller's response, terminal.
    Done(Response),
    /// Take the error path with this status code and message.
    Failed { code: i32, message: String },
}

/// The decision on what a controller returned: a response is terminal; an
/// error goes to the error path as a 500 with the controller's message.
pub fn after_controller(result: Result<Response, String>) -> (c: Completion)
    ensures
        match result {
            Ok(resp) => c matches Completion::Done(r2) && r2@ == resp@,
            Err(e) => c matches Completion::Failed { code, message } && code == 500 && message@
                == e@,
        },
{
    match result {
        Ok(resp) => Completion::Done(resp),
        Err(message) => Completion::Failed { code: 500, message },
    }
}

/// The comma-separated renew list of the settings: `cookie.renew` as
/// bytes, one comma stripped at each end, split on commas; empty when the
/// parameter is not a string.
pub open spec fn spec_renew_segs(m: Map<Seq<char>, ValueV>) -> Seq<Seq<u8>> {
    let key = "cookie.renew"@;
    if m.contains_key(key) && as_str_spec(m[key]) is Some {
        spec_split(spec_strip(bytes_of(as_str_spec(m[key]).unwrap()), 44), seq![44u8])
    } else {
        Seq::empty()
    }
}

/// The cookies renewed onto a response, one per renew-list entry whose
/// configured cookie name the request carries: the cookie filled from the
/// settings, its value taken from the request.
pub open spec fn renew_entries(
    segs: Seq<Seq<u8>>,
    m: Map<Seq<char>, ValueV>,
    req_cookies: Map<Seq<u8>, Seq<u8>>,
) -> Seq<CookieV>
    decreases segs.len(),
{
    if segs.len() == 0 {
        Seq::empty()
    } else {
        renew_entries(segs.drop_last(), m, req_cookies) + ({
            let cname = lossy_chars(segs.last());
            let key = spec_cookie_key(cname, "name"@);
            if m.contains_key(key) && as_str_spec(m[key]) is Some && req_cookies.contains_key(
                bytes_of(as_str_spec(m[key]).unwrap()),
            ) {
                seq![
                    (CookieV {
                        value: lossy_chars(
                            req_cookies[bytes_of(as_str_spec(m[key]).unwrap())],
                        ),
                        ..spec_cookie_from_settings(m, cname, spec_default_cookie())
                    }),
                ]
            } else {
                Seq::empty()
            }
        })
    }
}

/// Renews onto the response every cookie the `cookie.renew` list names
/// and the request carries, each filled from the settings with the
/// request's value.
pub fn renew_cookies(response: &mut Response, request_cookies: &Dict, settings: &Settings)
    ensures
        final(response)@ == (ResponseV {
            cookies: old(response)@.cookies + renew_entries(
                spec_renew_segs(settings@),
                settings@,
                request_cookies@,
            ),
            ..old(response)@
        }),
{
    match settings.get_string("cookie.renew") {
        Err(_) => {
            proof {
                assert(renew_entries(
                    spec_renew_segs(settings@),
                    settings@,
                    request_cookies@,
                ) =~= Seq::<CookieV>::empty());
                assert(old(response)@.cookies + Seq::<CookieV>::empty() =~= old(
                    response,
                )@.cookies);
                assert(response@ =~= (ResponseV {
                    cookies: old(response)@.cookies + renew_entries(
                        spec_renew_segs(settings@),
                        settings@,
                        request_cookies@,
                    ),
                    ..old(response)@
                }));
            }
        },
        Ok(renew) => {
            let renew_bytes = renew.as_str().as_bytes_vec();
            let stripped = crate::text::strip(renew_bytes.as_slice(), 44);
            let mut comma: Vec<u8> = Vec::new();
            comma.push(44);
            proof {
                assert(comma@ =~= seq![44u8]);
            }
            let segs = crate::text::split(stripped.as_slice(), comma.as_slice());
            let ghost gsegs = segs@.map_values(|p: Vec<u8>| p@);
            proof {
                assert(gsegs == spec_renew_segs(settings@));
            }
            let mut i: usize = 0;
            while i < segs.len()
                invariant
                    gsegs == segs@.map_values(|p: Vec<u8>| p@),
                    gsegs == spec_renew_segs(settings@),
                    0 <= i <= segs@.len(),
                    response@ == (ResponseV {
                        cookies: old(response)@.cookies + renew_entries(
                            gsegs.subrange(0, i as int),
                            settings@,
                            request_cookies@,
                        ),
                        ..old(response)@
                    }),
                decreases segs@.len() - i,
            {
                let ghost before = response@.cookies;
                proof {
                    assert(gsegs.subrange(0, i + 1).drop_last() =~= gsegs.subrange(0, i as int));
                    assert(gsegs.subrange(0, i + 1).last() == gsegs[i as int]);
                }
                let cname = crate::text::utf8_lossy(segs[i].as_slice());
                let key = crate::cookie::cookie_key(cname.as_str(), "name");
                match settings.get_string(key.as_str()) {
                    Ok(cookie_name) => {
                        let name_bytes = cookie_name.as_str().as_bytes_vec();
                        match request_cookies.get(name_bytes.as_slice()) {
                            Some(value) => {
                                let mut ck = Cookie::new();
                                ck.set_from_settings(settings, cname.as_str());
                                ck.set_value(crate::text::utf8_lossy(value.as_slice()));
                                response.add_cookie(ck);
                            },
                            None => {},
                        }
                    },
                    Err(_) => {},
                }
                proof {
                    assert(response@.cookies =~= old(response)@.cookies + renew_entries(
                        gsegs.subrange(0, i + 1),
                        settings@,
                        request_cookies@,
                    ));
                    assert(response@ =~= (ResponseV {
                        cookies: old(response)@.cookies + renew_entries(
                            gsegs.subrange(0, i + 1),
                            settings@,
                            request_cookies@,
                        ),
                        ..old(response)@
                    }));
                }
                i = i + 1;
            }
            proof {
                assert(gsegs.subrange(0, gsegs.len() as int) =~= gsegs);
            }
        },
    }
}

} // verus!
