//! The route-table collaborator: lookups go to the `kalgan_router` crate,
//! whose results are carried into the library's own route type.

use vstd::prelude::*;
use crate::dict::entries_map;
use crate::route::Route;
use crate::route::RouteV;

verus! {

#[verifier::external_type_specification]
#[verifier::external_body]
pub struct ExRouter(kalgan_router::Router);

/// What the route table answers for a URI and method: the matched route or
/// the not-found message.  The answer depends on the router's collection
/// and the two arguments alone; the parameters of the answered route are
/// meaningful as a mapping.
pub uninterp spec fn route_lookup(
    router: &kalgan_router::Router,
    uri: Seq<u8>,
    method: Seq<u8>,
) -> Result<RouteV, Seq<char>>;

/// Relies on `kalgan_router`'s `Router::get_route`: walks the collection in
/// order and returns the first route whose methods and path pattern match
/// the URI, with its captured parameters and language, or a message naming
/// the URI and method when none matches.
///
/// The route matcher slices the URI string at byte offsets, which panics
/// when an offset falls inside a multi-byte character; an all-ASCII URI
/// makes every offset a character boundary, so the call is total only
/// then, and the precondition demands it.
#[verifier::external_body]
pub fn get_route(router: &kalgan_router::Router, uri: &[u8], method: &[u8]) -> (r: Result<
    Route,
    String,
>)
    requires
        crate::text::spec_is_ascii(uri@),
    ensures
        match (r, route_lookup(router, uri@, method@)) {
            (Ok(route), Ok(v)) => route@.name == v.name && route@.path == v.path
                && route@.controller == v.controller && route@.middleware == v.middleware
                && route@.language == v.language && entries_map(route@.parameters) == entries_map(
                v.parameters,
            ),
            (Err(e), Err(m)) => e@ == m,
            _ => false,
        },
{
    let uri_string = String::from_utf8_lossy(uri).to_string();
    let method_string = String::from_utf8_lossy(method).to_string();
    match router.get_route(&uri_string, &method_string) {
        Ok(rt) => Ok(Route {
            name: rt.get_name().clone(),
            path: rt.get_path().clone(),
            controller: rt.get_controller().clone(),
            middleware: rt.get_middleware().clone(),
            language: rt.language.clone(),
            parameters: rt.parameters.iter().map(|(k, v)| (k.clone(), v.clone())).collect(),
        }),
        Err(e) => Err(e),
    }
}

} // verus!
