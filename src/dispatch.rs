use std::path::PathBuf;
use vstd::prelude::*;
use vstd::utf8::encode_utf8;

use crate::auth::{authorization, authorize, header_view, is_header_text, key_view, AuthError};
use crate::service::Service;

verus! {

/// The environment variable that carries the request body to the script.
pub const BODY_ENV_VAR: &'static str = "WEBHOOK_BODY";

/// The status of a request whose script was started.
pub const STATUS_OK: u16 = 200;

/// The status of a request refused by the secret check.
pub const STATUS_UNAUTHORIZED: u16 = 401;

/// The status of a request whose script could not be started.
pub const STATUS_INTERNAL_ERROR: u16 = 500;

/// The answer sent back to the caller: a status code and a short text body.
#[derive(Clone, Debug)]
pub struct Response {
    pub status: u16,
    pub body: String,
}

/// A script to start, detached: `script` run in `dir`, with `body` handed
/// over in the environment variable `BODY_ENV_VAR` besides the inherited ones.
#[derive(Clone, Debug)]
pub struct Launch {
    pub script: PathBuf,
    pub dir: PathBuf,
    pub body: String,
}

/// What to do with one request: start its service's script, or answer at
/// once without starting anything.
#[derive(Clone, Debug)]
pub enum Dispatch {
    Launch(Launch),
    Respond(Response),
}

/// The text sent back for each authorization failure.
pub open spec fn auth_message(e: AuthError) -> Seq<char> {
    match e {
        AuthError::MissingKey => "missing api key"@,
        AuthError::InvalidKey => "invalid api key"@,
    }
}

impl AuthError {
    /// The text that tells the caller why the request was refused.
    pub fn message(&self) -> (r: String)
        ensures
            r@ == auth_message(*self),
    {
        match self {
            AuthError::MissingKey => String::from_str("missing api key"),
            AuthError::InvalidKey => String::from_str("invalid api key"),
        }
    }

    /// The answer to a refused request: `401` with the failure's text.
    pub fn response(&self) -> (r: Response)
        ensures
            r.status == STATUS_UNAUTHORIZED,
            r.body@ == auth_message(*self),
    {
        Response { status: STATUS_UNAUTHORIZED, body: self.message() }
    }
}

/// Whether a request to `service` whose `x-api-key` header is `header` passes
/// authorization and so leads to a launch.
pub open spec fn launches(service: Service, header: Option<Seq<u8>>) -> bool {
    authorization(key_view(service.api_key), header) is Ok
}

/// Decides what to do with a request to `service`. Only the `x-api-key`
/// header is looked at; the body is passed on untouched. A request that
/// passes authorization launches the service's script in the service's
/// directory with the body; one that fails is answered with `401` and
/// launches nothing.
pub fn handle(service: &Service, header: Option<&[u8]>, body: String) -> (r: Dispatch)
    ensures
        match authorization(key_view(service.api_key), header_view(header)) {
            Ok(_) => r matches Dispatch::Launch(l) && l.script == service.script && l.dir
                == service.dir && l.body@ == body@,
            Err(e) => r matches Dispatch::Respond(resp) && resp.status == STATUS_UNAUTHORIZED
                && resp.body@ == auth_message(e),
        },
        (r is Launch) == launches(*service, header_view(header)),
{
    match authorize(&service.api_key, header) {
        Ok(()) => Dispatch::Launch(
            Launch { script: service.script.clone(), dir: service.dir.clone(), body },
        ),
        Err(e) => Dispatch::Respond(e.response()),
    }
}

/// The text that starts the answer to a failed launch.
pub open spec fn launch_failure_prefix() -> Seq<char> {
    "Failed to execute webhook: "@
}

/// The answer once the script was started (`Ok` with its process id) or could
/// not be (`Err` with the system's error text): `200` with a fixed message,
/// or `500` with a message that ends in the error text.
pub fn launch_response(outcome: Result<u32, String>) -> (r: Response)
    ensures
        outcome is Ok ==> r.status == STATUS_OK && r.body@ == "Webhook executed successfully"@,
        outcome matches Err(e) ==> r.status == STATUS_INTERNAL_ERROR && r.body@
            == launch_failure_prefix() + e@,
        outcome is Err ==> r.body@.len() > 0,
{
    match outcome {
        Ok(_) => Response {
            status: STATUS_OK,
            body: String::from_str("Webhook executed successfully"),
        },
        Err(e) => {
            let body = String::from_str("Failed to execute webhook: ").concat(e.as_str());
            proof {
                reveal_strlit("Failed to execute webhook: ");
            }
            Response { status: STATUS_INTERNAL_ERROR, body }
        },
    }
}

/// A service without a secret launches its script on every request,
/// whatever headers the request carries.
pub proof fn lemma_open_service_always_launches(service: Service, header: Option<Seq<u8>>)
    requires
        service.api_key is None,
    ensures
        launches(service, header),
{
}

/// For a service with secret `s`: a header equal to `s` launches; a header
/// that differs, or cannot be read as text, is refused as an invalid key; a
/// missing header is refused as a missing key; and a refused request never
/// launches.
pub proof fn lemma_keyed_service_checks_header(service: Service, s: String, header: Option<Seq<u8>>)
    requires
        service.api_key == Some(s),
    ensures
        header matches Some(h) && is_header_text(h) && h == encode_utf8(s@) ==> launches(
            service,
            header,
        ),
        header matches Some(h) && (!is_header_text(h) || h != encode_utf8(s@)) ==> authorization(
            key_view(service.api_key),
            header,
        ) == Err::<(), AuthError>(AuthError::InvalidKey),
        header is None ==> authorization(key_view(service.api_key), header) == Err::<
            (),
            AuthError,
        >(AuthError::MissingKey),
        authorization(key_view(service.api_key), header) is Err ==> !launches(service, header),
{
}

} // verus!
