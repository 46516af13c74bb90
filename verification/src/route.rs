//! The route a request matched: the mapping from a URI pattern to a
//! controller name, an optional middleware name and a language tag.

use vstd::prelude::*;

verus! {

/// A matched route.
pub struct Route {
    pub name: String,
    pub path: String,
    pub controller: String,
    pub middleware: String,
    pub language: String,
    pub parameters: Vec<(String, String)>,
}

/// The abstraction of a route.
#[verifier::ext_equal]
pub struct RouteV {
    pub name: Seq<char>,
    pub path: Seq<char>,
    pub controller: Seq<char>,
    pub middleware: Seq<char>,
    pub language: Seq<char>,
    pub parameters: Seq<(Seq<char>, Seq<char>)>,
}

impl View for Route {
    type V = RouteV;

    open spec fn view(&self) -> RouteV {
        RouteV {
            name: self.name@,
            path: self.path@,
            controller: self.controller@,
            middleware: self.middleware@,
            language: self.language@,
            parameters: self.parameters@.map_values(|p: (String, String)| (p.0@, p.1@)),
        }
    }
}

impl Route {
    /// The name of the route.
    pub fn get_name(&self) -> (r: &String)
        ensures
            r@ == self@.name,
    {
        &self.name
    }

    /// The URI pattern of the route.
    pub fn get_path(&self) -> (r: &String)
        ensures
            r@ == self@.path,
    {
        &self.path
    }

    /// The controller name of the route.
    pub fn get_controller(&self) -> (r: &String)
        ensures
            r@ == self@.controller,
    {
        &self.controller
    }

    /// The middleware name of the route; empty when the route has none.
    pub fn get_middleware(&self) -> (r: &String)
        ensures
            r@ == self@.middleware,
    {
        &self.middleware
    }
}

} // verus!
