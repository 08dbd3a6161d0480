//! A configuration-driven webhook runner: each configured service binds an
//! HTTP method and path to a script, optionally guarded by a shared secret
//! sent in the `x-api-key` header.
//!
//! The library holds the decisions: which services become routes, whether a
//! request is authorized, what is launched and what the caller is answered.
//! Listening, spawning and logging are left to the program around it.

mod auth;
mod dispatch;
mod routes;
mod service;

pub use service::{route_method_of, Method, RouteMethod, Service, UnsupportedMethod};
pub use auth::{
    authorization, authorize, header_is_text, header_view, is_header_char, is_header_text, key_view,
    AuthError,
};
pub use dispatch::{
    auth_message, handle, launch_failure_prefix, launch_response, launches,
    lemma_keyed_service_checks_header, lemma_open_service_always_launches, Dispatch, Launch,
    Response, BODY_ENV_VAR, STATUS_INTERNAL_ERROR, STATUS_OK, STATUS_UNAUTHORIZED,
};
pub use routes::{
    binding_key, error_fits, error_service, is_bound, lemma_unroutable_service_is_skipped, plan_fits,
    plan_routes, route_key, serves,
    Binding, Route, RouteError, RoutePlan,
};
