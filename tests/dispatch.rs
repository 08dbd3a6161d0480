use std::path::PathBuf;

use swhr::{
    authorize, handle, header_is_text, launch_response, AuthError, Dispatch, Method, Service,
    BODY_ENV_VAR, STATUS_INTERNAL_ERROR, STATUS_OK, STATUS_UNAUTHORIZED,
};

fn service(path: &str, method: Method, api_key: Option<&str>) -> Service {
    Service {
        path: path.to_string(),
        script: PathBuf::from("/opt/hooks/run.sh"),
        dir: PathBuf::from("/srv/app"),
        api_key: api_key.map(|k| k.to_string()),
        method,
    }
}

fn launched(d: Dispatch) -> swhr::Launch {
    match d {
        Dispatch::Launch(l) => l,
        Dispatch::Respond(r) => panic!("expected a launch, got {} {}", r.status, r.body),
    }
}

fn refused(d: Dispatch) -> swhr::Response {
    match d {
        Dispatch::Respond(r) => r,
        Dispatch::Launch(_) => panic!("expected a refusal, got a launch"),
    }
}

#[test]
fn open_service_launches_without_header() {
    let s = service("/hook", Method::Post, None);
    let l = launched(handle(&s, None, "payload".to_string()));
    assert_eq!(l.script, s.script);
    assert_eq!(l.dir, s.dir);
    assert_eq!(l.body, "payload");
}

#[test]
fn open_service_launches_with_any_header() {
    let s = service("/hook", Method::Post, None);
    assert!(matches!(handle(&s, Some(b"whatever"), String::new()), Dispatch::Launch(_)));
    assert!(matches!(handle(&s, Some(&[0u8, 200u8]), String::new()), Dispatch::Launch(_)));
    assert_eq!(authorize(&None, None), Ok(()));
}

#[test]
fn keyed_service_accepts_matching_header() {
    let s = service("/deploy", Method::Post, Some("secret123"));
    let l = launched(handle(&s, Some(b"secret123"), "x".to_string()));
    assert_eq!(l.body, "x");
}

#[test]
fn keyed_service_refuses_missing_header() {
    let s = service("/deploy", Method::Post, Some("secret123"));
    let r = refused(handle(&s, None, "x".to_string()));
    assert_eq!(r.status, 401);
    assert_eq!(r.body, "missing api key");
}

#[test]
fn keyed_service_refuses_wrong_header() {
    let s = service("/deploy", Method::Post, Some("secret123"));
    for bad in [&b"secret12"[..], b"secret1234", b"SECRET123", b"", b"secret123 "] {
        let r = refused(handle(&s, Some(bad), "x".to_string()));
        assert_eq!(r.status, STATUS_UNAUTHORIZED);
        assert_eq!(r.body, "invalid api key");
    }
}

#[test]
fn keyed_service_refuses_header_that_is_not_text() {
    let key = Some("s\u{e9}cret".to_string());
    // The UTF-8 bytes of the secret itself are not header text.
    assert_eq!(
        authorize(&key, Some("s\u{e9}cret".as_bytes())),
        Err(AuthError::InvalidKey)
    );
    assert_eq!(authorize(&Some("a\nb".to_string()), Some(b"a\nb")), Err(AuthError::InvalidKey));
}

#[test]
fn header_text_check() {
    assert!(header_is_text(b"abc XYZ~\t!"));
    assert!(header_is_text(b""));
    assert!(!header_is_text(b"a\nb"));
    assert!(!header_is_text(&[0x7f]));
    assert!(!header_is_text(&[0xc3, 0xa9]));
}

#[test]
fn auth_error_messages() {
    assert_eq!(AuthError::MissingKey.message(), "missing api key");
    assert_eq!(AuthError::InvalidKey.message(), "invalid api key");
    assert_eq!(AuthError::InvalidKey.response().status, 401);
}

#[test]
fn body_is_passed_on_exactly() {
    let s = service("/hook", Method::Put, None);
    for body in ["", "line one\nline two\n", "{\"ref\":\"main\"}", "  spaced  \r\n"] {
        let l = launched(handle(&s, None, body.to_string()));
        assert_eq!(l.body, body);
    }
    assert_eq!(BODY_ENV_VAR, "WEBHOOK_BODY");
}

#[test]
fn launch_success_answers_ok() {
    let r = launch_response(Ok(4242));
    assert_eq!(r.status, STATUS_OK);
    assert_eq!(r.status, 200);
    assert_eq!(r.body, "Webhook executed successfully");
}

#[test]
fn launch_failure_answers_internal_error() {
    let r = launch_response(Err("No such file or directory (os error 2)".to_string()));
    assert_eq!(r.status, STATUS_INTERNAL_ERROR);
    assert_eq!(r.status, 500);
    assert_eq!(r.body, "Failed to execute webhook: No such file or directory (os error 2)");
    let r = launch_response(Err(String::new()));
    assert_eq!(r.status, 500);
    assert!(!r.body.is_empty());
}
