//! The HTTP-facing result of every control plane operation: a status code
//! and a plain text body.  The transport layer sends both verbatim.

use vstd::prelude::*;

verus! {

/// HTTP status for success.
pub const OK: u16 = 200;

/// HTTP status for a validation failure.
pub const BAD_REQUEST: u16 = 400;

/// HTTP status for a missing resource on a delete path.
pub const NOT_FOUND: u16 = 404;

/// HTTP status for a backend failure.
pub const INTERNAL_SERVER_ERROR: u16 = 500;

/// A status code with a response body.
#[derive(Debug)]
pub struct ApiResponse {
    pub code: u16,
    pub body: String,
}

/// A response with the given code and body text.
pub fn resp(code: u16, body: &str) -> (r: ApiResponse)
    ensures
        r.code == code,
        r.body@ == body@,
{
    ApiResponse { code, body: body.to_owned() }
}

/// A response with the given code, owning the body.
pub fn resp_owned(code: u16, body: String) -> (r: ApiResponse)
    ensures
        r.code == code,
        r.body == body,
{
    ApiResponse { code, body }
}

/// The concatenation of two string slices.
pub fn msg2(a: &str, b: &str) -> (r: String)
    ensures
        r@ == a@ + b@,
{
    let mut s = String::new();
    s.append(a);
    s.append(b);
    proof {
        assert(s@ =~= a@ + b@);
    }
    s
}

/// The concatenation of three string slices.
pub fn msg3(a: &str, b: &str, c: &str) -> (r: String)
    ensures
        r@ == a@ + b@ + c@,
{
    let mut s = String::new();
    s.append(a);
    s.append(b);
    s.append(c);
    proof {
        assert(s@ =~= a@ + b@ + c@);
    }
    s
}

/// The concatenation of five string slices.
pub fn msg5(a: &str, b: &str, c: &str, d: &str, e: &str) -> (r: String)
    ensures
        r@ == a@ + b@ + c@ + d@ + e@,
{
    let mut s = String::new();
    s.append(a);
    s.append(b);
    s.append(c);
    s.append(d);
    s.append(e);
    proof {
        assert(s@ =~= a@ + b@ + c@ + d@ + e@);
    }
    s
}

} // verus!
