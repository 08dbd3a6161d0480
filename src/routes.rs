use vstd::prelude::*;

use crate::service::{route_method_of, Method, RouteMethod, Service, UnsupportedMethod};

verus! {

/// A route: requests with `method` at exactly `path`.
#[derive(Clone, Debug)]
pub struct Route {
    pub path: String,
    pub method: RouteMethod,
}

/// A route bound to the service at index `service` of the configured list.
#[derive(Clone, Debug)]
pub struct Binding {
    pub service: usize,
    pub route: Route,
}

/// Why a configured service got no route.
#[derive(Clone, Copy, Debug, PartialEq, Eq, Structural)]
pub enum RouteError {
    /// Its method cannot be routed.
    Unsupported { service: usize, method: Method },
    /// The service at `earlier` already holds the same path and method.
    Duplicate { service: usize, earlier: usize },
}

/// The routes built from a list of services, and a report on each service
/// that got none.
#[derive(Clone, Debug)]
pub struct RoutePlan {
    pub routes: Vec<Binding>,
    pub errors: Vec<RouteError>,
}

/// The path and verb a service asks to be reached at, if its method is
/// routable.
pub open spec fn route_key(s: Service) -> Option<(Seq<char>, RouteMethod)> {
    match route_method_of(s.method) {
        Some(m) => Some((s.path@, m)),
        None => None,
    }
}

pub open spec fn binding_key(b: Binding) -> (Seq<char>, RouteMethod) {
    (b.route.path@, b.route.method)
}

/// The service at `i` gets a route: its method is routable and no earlier
/// service asks for the same path and verb. The first of several equal
/// entries wins.
pub open spec fn is_bound(services: Seq<Service>, i: int) -> bool {
    &&& route_key(services[i]) is Some
    &&& forall|j: int| 0 <= j < i ==> route_key(#[trigger] services[j]) != route_key(services[i])
}

pub open spec fn error_service(e: RouteError) -> int {
    match e {
        RouteError::Unsupported { service, .. } => service as int,
        RouteError::Duplicate { service, .. } => service as int,
    }
}

/// The report is true of the services it names.
pub open spec fn error_fits(e: RouteError, services: Seq<Service>) -> bool {
    match e {
        RouteError::Unsupported { service, method } => {
            &&& service < services.len()
            &&& services[service as int].method == method
            &&& route_method_of(method) is None
        },
        RouteError::Duplicate { service, earlier } => {
            &&& earlier < service < services.len()
            &&& is_bound(services, earlier as int)
            &&& route_key(services[service as int]) is Some
            &&& route_key(services[earlier as int]) == route_key(services[service as int])
        },
    }
}

/// `plan` routes exactly the bound services, in their order, each at its own
/// path and verb, and reports every other service once, in order.
pub open spec fn plan_fits(plan: RoutePlan, services: Seq<Service>) -> bool {
    &&& forall|k: int|
        0 <= k < plan.routes@.len() ==> {
            let b = #[trigger] plan.routes@[k];
            &&& b.service < services.len()
            &&& is_bound(services, b.service as int)
            &&& route_key(services[b.service as int]) == Some(binding_key(b))
        }
    &&& forall|k1: int, k2: int|
        0 <= k1 < k2 < plan.routes@.len() ==> (#[trigger] plan.routes@[k1]).service
            < (#[trigger] plan.routes@[k2]).service
    &&& forall|i: int|
        0 <= i < services.len() && #[trigger] is_bound(services, i) ==> exists|k: int|
            0 <= k < plan.routes@.len() && (#[trigger] plan.routes@[k]).service == i
    &&& forall|k: int| 0 <= k < plan.errors@.len() ==> error_fits(#[trigger] plan.errors@[k], services)
    &&& forall|k1: int, k2: int|
        0 <= k1 < k2 < plan.errors@.len() ==> error_service(#[trigger] plan.errors@[k1])
            < error_service(#[trigger] plan.errors@[k2])
    &&& forall|i: int|
        0 <= i < services.len() && !#[trigger] is_bound(services, i) ==> exists|k: int|
            0 <= k < plan.errors@.len() && error_service(#[trigger] plan.errors@[k]) == i
}

/// Some route of `plan` answers requests with `method` at `path`.
pub open spec fn serves(plan: RoutePlan, path: Seq<char>, method: RouteMethod) -> bool {
    exists|k: int| 0 <= k < plan.routes@.len() && binding_key(#[trigger] plan.routes@[k]) == (path, method)
}

impl Service {
    /// The route this service is reached at, or the method that keeps it
    /// from having one.
    pub fn to_router(&self) -> (r: Result<Route, UnsupportedMethod>)
        ensures
            match route_key(*self) {
                Some(key) => r matches Ok(route) && (route.path@, route.method) == key,
                None => r == Err::<Route, UnsupportedMethod>(UnsupportedMethod { method: self.method }),
            },
    {
        match self.method.routable() {
            Ok(method) => Ok(Route { path: self.path.clone(), method }),
            Err(e) => Err(e),
        }
    }
}

/// The position of a binding at the same path and verb as `route`, if any.
fn find_route(routes: &Vec<Binding>, route: &Route) -> (r: Option<usize>)
    ensures
        r matches Some(k) ==> k < routes@.len() && binding_key(routes@[k as int]) == (
            route.path@,
            route.method,
        ),
        r is None ==> forall|k: int|
            0 <= k < routes@.len() ==> binding_key(#[trigger] routes@[k]) != (route.path@, route.method),
{
    let mut k: usize = 0;
    while k < routes.len()
        invariant
            k <= routes@.len(),
            forall|j: int|
                0 <= j < k ==> binding_key(#[trigger] routes@[j]) != (route.path@, route.method),
        decreases routes@.len() - k,
    {
        if routes[k].route.method == route.method && routes[k].route.path == route.path {
            return Some(k);
        }
        k = k + 1;
    }
    None
}

/// Builds the routes for a list of services. A service whose method cannot
/// be routed, or whose path and verb an earlier service already holds, gets
/// no route and is reported; the others are routed regardless.
pub fn plan_routes(services: &[Service]) -> (plan: RoutePlan)
    ensures
        plan_fits(plan, services@),
{
    let mut routes: Vec<Binding> = Vec::new();
    let mut errors: Vec<RouteError> = Vec::new();
    let mut i: usize = 0;
    while i < services.len()
        invariant
            i <= services@.len(),
            forall|k: int|
                0 <= k < routes@.len() ==> {
                    let b = #[trigger] routes@[k];
                    &&& b.service < i
                    &&& is_bound(services@, b.service as int)
                    &&& route_key(services@[b.service as int]) == Some(binding_key(b))
                },
            forall|k1: int, k2: int|
                0 <= k1 < k2 < routes@.len() ==> (#[trigger] routes@[k1]).service
                    < (#[trigger] routes@[k2]).service,
            forall|j: int|
                0 <= j < i && #[trigger] is_bound(services@, j) ==> exists|k: int|
                    0 <= k < routes@.len() && (#[trigger] routes@[k]).service == j,
            forall|j: int|
                0 <= j < i && #[trigger] route_key(services@[j]) is Some ==> exists|k: int|
                    0 <= k < routes@.len() && Some(binding_key(#[trigger] routes@[k]))
                        == route_key(services@[j]),
            forall|k: int|
                0 <= k < errors@.len() ==> error_fits(#[trigger] errors@[k], services@)
                    && error_service(errors@[k]) < i,
            forall|k1: int, k2: int|
                0 <= k1 < k2 < errors@.len() ==> error_service(#[trigger] errors@[k1])
                    < error_service(#[trigger] errors@[k2]),
            forall|j: int|
                0 <= j < i && !#[trigger] is_bound(services@, j) ==> exists|k: int|
                    0 <= k < errors@.len() && error_service(#[trigger] errors@[k]) == j,
        decreases services@.len() - i,
    {
        let ghost old_routes = routes@;
        let ghost old_errors = errors@;
        match services[i].to_router() {
            Err(e) => {
                errors.push(RouteError::Unsupported { service: i, method: e.method });
                assert(!is_bound(services@, i as int));
                assert(error_service(errors@[errors@.len() - 1]) == i);
            },
            Ok(route) => match find_route(&routes, &route) {
                Some(k) => {
                    let earlier = routes[k].service;
                    errors.push(RouteError::Duplicate { service: i, earlier });
                    assert(route_key(services@[earlier as int]) == route_key(services@[i as int]));
                    assert(!is_bound(services@, i as int));
                    assert(error_service(errors@[errors@.len() - 1]) == i);
                },
                None => {
                    assert forall|j: int| 0 <= j < i implies route_key(#[trigger] services@[j])
                        != route_key(services@[i as int]) by {
                        if route_key(services@[j]) is Some {
                            let k = choose|k: int|
                                0 <= k < routes@.len() && Some(binding_key(#[trigger] routes@[k]))
                                    == route_key(services@[j]);
                            assert(binding_key(routes@[k]) != (route.path@, route.method));
                        }
                    }
                    assert(is_bound(services@, i as int));
                    routes.push(Binding { service: i, route });
                    assert(routes@[routes@.len() - 1].service == i);
                    assert(Some(binding_key(routes@[routes@.len() - 1])) == route_key(services@[i as int]));
                },
            },
        }
        assert forall|j: int| 0 <= j < i && #[trigger] is_bound(services@, j) implies exists|k: int|
            0 <= k < routes@.len() && (#[trigger] routes@[k]).service == j by {
            let k = choose|k: int| 0 <= k < old_routes.len() && (#[trigger] old_routes[k]).service == j;
            assert(routes@[k] == old_routes[k]);
        }
        assert forall|j: int| 0 <= j < i && #[trigger] route_key(services@[j]) is Some implies exists|k: int|
            0 <= k < routes@.len() && Some(binding_key(#[trigger] routes@[k])) == route_key(services@[j]) by {
            let k = choose|k: int|
                0 <= k < old_routes.len() && Some(binding_key(#[trigger] old_routes[k])) == route_key(services@[j]);
            assert(routes@[k] == old_routes[k]);
        }
        assert forall|j: int| 0 <= j < i && !#[trigger] is_bound(services@, j) implies exists|k: int|
            0 <= k < errors@.len() && error_service(#[trigger] errors@[k]) == j by {
            let k = choose|k: int| 0 <= k < old_errors.len() && error_service(#[trigger] old_errors[k]) == j;
            assert(errors@[k] == old_errors[k]);
        }
        i = i + 1;
    }
    RoutePlan { routes, errors }
}

/// Every service with a routable method shares its path and verb with a
/// bound service at or before it.
proof fn lemma_first_claim(services: Seq<Service>, j: int)
    requires
        0 <= j < services.len(),
        route_key(services[j]) is Some,
    ensures
        exists|f: int|
            0 <= f <= j && #[trigger] is_bound(services, f) && route_key(services[f]) == route_key(
                services[j],
            ),
    decreases j,
{
    if !is_bound(services, j) {
        let e = choose|e: int| 0 <= e < j && route_key(#[trigger] services[e]) == route_key(services[j]);
        lemma_first_claim(services, e);
        let f = choose|f: int|
            0 <= f <= e && #[trigger] is_bound(services, f) && route_key(services[f]) == route_key(
                services[e],
            );
        assert(is_bound(services, f));
    } else {
        assert(is_bound(services, j));
    }
}

/// Building the routes never fails as a whole: a service whose method cannot
/// be routed gets no route and is reported, while every service with a
/// routable method is reachable at its path and verb.
pub proof fn lemma_unroutable_service_is_skipped(services: Seq<Service>, plan: RoutePlan, i: int)
    requires
        plan_fits(plan, services),
        0 <= i < services.len(),
        route_method_of(services[i].method) is None,
    ensures
        forall|k: int| 0 <= k < plan.routes@.len() ==> (#[trigger] plan.routes@[k]).service != i,
        exists|k: int|
            0 <= k < plan.errors@.len() && #[trigger] plan.errors@[k] == (RouteError::Unsupported {
                service: i as usize,
                method: services[i].method,
            }),
        forall|j: int|
            0 <= j < services.len() && (#[trigger] route_method_of(services[j].method)) is Some
                ==> serves(plan, services[j].path@, route_method_of(services[j].method)->0),
{
    assert(!is_bound(services, i));
    let k = choose|k: int| 0 <= k < plan.errors@.len() && error_service(#[trigger] plan.errors@[k]) == i;
    assert(error_fits(plan.errors@[k], services));
    assert forall|j: int|
        0 <= j < services.len() && (#[trigger] route_method_of(services[j].method)) is Some
            implies serves(plan, services[j].path@, route_method_of(services[j].method)->0) by {
        lemma_first_claim(services, j);
        let f = choose|f: int|
            0 <= f <= j && #[trigger] is_bound(services, f) && route_key(services[f]) == route_key(
                services[j],
            );
        let kr = choose|kr: int| 0 <= kr < plan.routes@.len() && (#[trigger] plan.routes@[kr]).service == f;
        assert(binding_key(plan.routes@[kr]) == (
            services[j].path@,
            route_method_of(services[j].method)->0,
        ));
    }
}

} // verus!
