//! URI generation from route names, through the route-table collaborator.

use vstd::prelude::*;

verus! {

/// What the route table builds for a route name alone: the first route of
/// that name's path, or a message naming the missing route; a function of
/// the router's collection and the name.
pub uninterp spec fn uri_lookup(
    router: &kalgan_router::Router,
    route_name: Seq<char>,
) -> Seq<char>;

/// The URI for the given route name: the route's path with each `{key}`
/// replaced by the value given for `key`.
///
/// Relies on `kalgan_router`'s `Router::get_uri`.  With no parameters
/// nothing is replaced and the result is the looked-up path itself; with
/// parameters the replacements are applied in an unspecified order, so
/// nothing further is promised.
#[verifier::external_body]
pub fn generate(
    router: &kalgan_router::Router,
    route_name: &str,
    parameters: Vec<(String, String)>,
) -> (r: String)
    ensures
        parameters@.len() == 0 ==> r@ == uri_lookup(router, route_name@),
{
    let map: std::collections::HashMap<&str, String> = parameters.iter().map(
        |(k, v)| (k.as_str(), v.clone()),
    ).collect();
    router.get_uri(route_name, map)
}

} // verus!
