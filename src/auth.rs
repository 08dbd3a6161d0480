use vstd::prelude::*;
use vstd::utf8::encode_utf8;

verus! {

/// Why a request to a guarded service was turned away.
#[derive(Clone, Copy, Debug, PartialEq, Eq, Structural)]
pub enum AuthError {
    /// The request carried no `x-api-key` header.
    MissingKey,
    /// The header was there, but was not text or did not equal the secret.
    InvalidKey,
}

/// A byte that may stand in a header value read as text: a visible ASCII
/// character, a space or a tab.
pub open spec fn is_header_char(b: u8) -> bool {
    (32 <= b && b < 127) || b == 9
}

/// A header value that can be read as text.
pub open spec fn is_header_text(h: Seq<u8>) -> bool {
    forall|i: int| 0 <= i < h.len() ==> is_header_char(#[trigger] h[i])
}

/// The outcome of the authorization check, given the service's secret (if
/// any) and the raw value of the request's `x-api-key` header (if any).
pub open spec fn authorization(
    api_key: Option<Seq<char>>,
    header: Option<Seq<u8>>,
) -> Result<(), AuthError> {
    match api_key {
        None => Ok(()),
        Some(secret) => match header {
            None => Err(AuthError::MissingKey),
            Some(h) => if is_header_text(h) && h == encode_utf8(secret) {
                Ok(())
            } else {
                Err(AuthError::InvalidKey)
            },
        },
    }
}

/// The secret of a service, as characters.
pub open spec fn key_view(api_key: Option<String>) -> Option<Seq<char>> {
    match api_key {
        None => None,
        Some(s) => Some(s@),
    }
}

/// The raw bytes of a header value, if present.
pub open spec fn header_view(header: Option<&[u8]>) -> Option<Seq<u8>> {
    match header {
        None => None,
        Some(h) => Some(h@),
    }
}

/// Whether the raw header value can be read as text.
pub fn header_is_text(h: &[u8]) -> (r: bool)
    ensures
        r == is_header_text(h@),
{
    let mut i: usize = 0;
    while i < h.len()
        invariant
            i <= h@.len(),
            forall|j: int| 0 <= j < i ==> is_header_char(#[trigger] h@[j]),
        decreases h@.len() - i,
    {
        let b = h[i];
        if !((32 <= b && b < 127) || b == 9) {
            return false;
        }
        i = i + 1;
    }
    true
}

/// Whether two byte strings are equal.
fn bytes_equal(a: &[u8], b: &[u8]) -> (r: bool)
    ensures
        r == (a@ == b@),
{
    if a.len() != b.len() {
        return false;
    }
    let mut i: usize = 0;
    while i < a.len()
        invariant
            i <= a@.len(),
            a@.len() == b@.len(),
            forall|j: int| 0 <= j < i ==> a@[j] == b@[j],
        decreases a@.len() - i,
    {
        if a[i] != b[i] {
            return false;
        }
        i = i + 1;
    }
    assert(a@ =~= b@);
    true
}

/// Checks a request against a service's secret. With no secret every request
/// passes; with one, the `x-api-key` header must be present, readable as
/// text, and byte for byte equal to the secret.
pub fn authorize(api_key: &Option<String>, header: Option<&[u8]>) -> (r: Result<(), AuthError>)
    ensures
        r == authorization(key_view(*api_key), header_view(header)),
{
    match api_key {
        None => Ok(()),
        Some(secret) => match header {
            None => Err(AuthError::MissingKey),
            Some(h) => {
                if header_is_text(h) && bytes_equal(h, secret.as_str().as_bytes()) {
                    Ok(())
                } else {
                    Err(AuthError::InvalidKey)
                }
            },
        },
    }
}

} // verus!
