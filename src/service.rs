use std::path::PathBuf;
use vstd::prelude::*;

verus! {

#[verifier::external_type_specification]
#[verifier::external_body]
pub struct ExPathBuf(PathBuf);

/// Relies on `PathBuf::clone`: the copy holds the same path as the original.
pub assume_specification[ <PathBuf as Clone>::clone ](p: &PathBuf) -> (r: PathBuf)
    ensures
        r == *p,
;

/// An HTTP verb that a service may be configured with.
#[derive(Clone, Copy, Debug, PartialEq, Eq, Structural)]
pub enum Method {
    Get,
    Post,
    Put,
    Delete,
    Patch,
    Options,
    Head,
    Connect,
    Trace,
}

impl Default for Method {
    /// A service with no method given listens for `POST`.
    fn default() -> (r: Method)
        ensures
            r == Method::Post,
    {
        Method::Post
    }
}

/// An HTTP verb that a route can be registered for.
#[derive(Clone, Copy, Debug, PartialEq, Eq, Structural)]
pub enum RouteMethod {
    Get,
    Post,
    Put,
    Delete,
    Patch,
}

/// The routable verb of a configured method, if it has one.
pub open spec fn route_method_of(m: Method) -> Option<RouteMethod> {
    match m {
        Method::Get => Some(RouteMethod::Get),
        Method::Post => Some(RouteMethod::Post),
        Method::Put => Some(RouteMethod::Put),
        Method::Delete => Some(RouteMethod::Delete),
        Method::Patch => Some(RouteMethod::Patch),
        _ => None,
    }
}

/// A method that no route can be registered for.
#[derive(Clone, Copy, Debug, PartialEq, Eq, Structural)]
pub struct UnsupportedMethod {
    pub method: Method,
}

impl Method {
    /// Maps the method to the verb its route is registered for; `OPTIONS`,
    /// `HEAD`, `CONNECT` and `TRACE` have none and are reported back.
    pub fn routable(self) -> (r: Result<RouteMethod, UnsupportedMethod>)
        ensures
            route_method_of(self) matches Some(m) ==> r == Ok::<RouteMethod, UnsupportedMethod>(m),
            route_method_of(self) is None ==> r == Err::<RouteMethod, UnsupportedMethod>(
                UnsupportedMethod { method: self },
            ),
    {
        match self {
            Method::Get => Ok(RouteMethod::Get),
            Method::Post => Ok(RouteMethod::Post),
            Method::Put => Ok(RouteMethod::Put),
            Method::Delete => Ok(RouteMethod::Delete),
            Method::Patch => Ok(RouteMethod::Patch),
            _ => Err(UnsupportedMethod { method: self }),
        }
    }
}

/// One configured binding of a method and a path to a script, run in `dir`,
/// and guarded by `api_key` when one is given.
#[derive(Clone, Debug)]
pub struct Service {
    pub path: String,
    pub script: PathBuf,
    pub dir: PathBuf,
    pub api_key: Option<String>,
    pub method: Method,
}

} // verus!
