//! The middleware stage of dispatch: the outcome a middleware returns and
//! the decision the pipeline takes on it.

use vstd::prelude::*;
use vstd::string::StringExecFns;
use crate::response::Response;

verus! {

/// The object returned by a middleware.
///
/// With `success` set, the request goes on to the controller; without it,
/// the controller is skipped and `response` is sent to the browser.
pub struct Outcome {
    pub success: bool,
    pub response: Option<Response>,
}

/// The decision taken on a middleware outcome.
pub enum Verdict {
    /// Go on to the controller.
    Proceed,
    /// Skip the controller and send this response.
    Respond(Response),
    /// Treat the outcome as an internal error with this message.
    Fault(String),
}

impl Verdict {
    /// Whether the decision is to go on to the controller.
    pub fn is_proceed(&self) -> (r: bool)
        ensures
            r == (self is Proceed),
    {
        match self {
            Verdict::Proceed => true,
            _ => false,
        }
    }
}

/// The decision on what a middleware returned: success means the
/// controller is called; failure with a response short-circuits to that
/// response; failure without one, or an error from the middleware itself,
/// is an internal error.
pub fn after_middleware(outcome: Result<Outcome, String>) -> (d: Verdict)
    ensures
        match outcome {
            Ok(o) => {
                if o.success {
                    d is Proceed
                } else {
                    match o.response {
                        Some(resp) => d matches Verdict::Respond(x) && x@ == resp@,
                        None => d matches Verdict::Fault(m) && m@
                            == "No Middleware response was set."@,
                    }
                }
            },
            Err(e) => d matches Verdict::Fault(m) && m@ == e@,
        },
{
    match outcome {
        Ok(o) => {
            if o.success {
                Verdict::Proceed
            } else {
                match o.response {
                    Some(resp) => Verdict::Respond(resp),
                    None => Verdict::Fault(String::from_str("No Middleware response was set.")),
                }
            }
        },
        Err(e) => Verdict::Fault(e),
    }
}

/// The message reported when a route names a middleware but no middleware
/// handler is registered.
pub fn middleware_missing_message(middleware: &str, controller: &str) -> (m: String)
    ensures
        m@ == "Middleware \""@ + middleware@ + "\" is set for Controller \""@ + controller@
            + "\" but Middleware Factory has not been declared."@,
{
    let mut m = String::from_str("Middleware \"");
    m.append(middleware);
    m.append("\" is set for Controller \"");
    m.append(controller);
    m.append("\" but Middleware Factory has not been declared.");
    m
}

} // verus!
