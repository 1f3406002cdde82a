//! What the HTTP surface of the daemon shares: the value of a request
//! header, the error answered to a refused request, and the rule that
//! admits a request by its token.

use crate::auth::token_matches;
use crate::text::{from_chars, to_chars};
use vstd::prelude::*;

verus! {

pub const STATUS_BAD_REQUEST: u16 = 400;
pub const STATUS_UNAUTHORIZED: u16 = 401;
pub const STATUS_FORBIDDEN: u16 = 403;
pub const STATUS_NOT_FOUND: u16 = 404;
pub const STATUS_CONFLICT: u16 = 409;
pub const STATUS_PAYLOAD_TOO_LARGE: u16 = 413;
pub const STATUS_INTERNAL_SERVER_ERROR: u16 = 500;
pub const STATUS_INSUFFICIENT_STORAGE: u16 = 507;

/// What a request holds under one header name.
#[derive(Clone, Debug, PartialEq, Eq)]
pub enum HeaderField {
    /// The header is absent.
    Missing,
    /// The header is present, but its value is not visible ASCII text.
    Opaque,
    /// The header is present with this text.
    Text(String),
}

/// A [`HeaderField`] as a mathematical value.
pub enum HeaderValue {
    Missing,
    Opaque,
    Text(Seq<char>),
}

impl View for HeaderField {
    type V = HeaderValue;

    open spec fn view(&self) -> HeaderValue {
        match *self {
            HeaderField::Missing => HeaderValue::Missing,
            HeaderField::Opaque => HeaderValue::Opaque,
            HeaderField::Text(s) => HeaderValue::Text(s@),
        }
    }
}

/// The answer to a refused request: a status code and a short text.
#[derive(Clone, Debug, PartialEq, Eq)]
pub struct HttpError {
    pub status: u16,
    pub message: String,
}

/// An [`HttpError`] as a mathematical value.
pub struct Refusal {
    pub status: u16,
    pub message: Seq<char>,
}

impl View for HttpError {
    type V = Refusal;

    open spec fn view(&self) -> Refusal {
        Refusal { status: self.status, message: self.message@ }
    }
}

impl HttpError {
    /// An error with the given status and text.
    pub fn new(status: u16, message: &str) -> (e: HttpError)
        ensures
            e@ == (Refusal { status, message: message@ }),
    {
        HttpError { status, message: message.to_owned() }
    }
}

/// The text after the prefix `Bearer `, for a value that starts with it.
pub open spec fn bearer_token(value: Seq<char>) -> Option<Seq<char>> {
    if value.len() >= 7 && value.take(7) == "Bearer "@ {
        Some(value.skip(7))
    } else {
        None
    }
}

/// Whether the header `X-JST-Auth` carries the token: its text is the
/// token.
pub open spec fn carries_token(x_jst_auth: HeaderValue, token: Seq<char>) -> bool {
    x_jst_auth == HeaderValue::Text(token)
}

/// Whether the header `Authorization` carries the token: its text is
/// `Bearer ` followed by the token.
pub open spec fn bears_token(authorization: HeaderValue, token: Seq<char>) -> bool {
    authorization matches HeaderValue::Text(v) && bearer_token(v) == Some(token)
}

/// Whether a request for `path` is let through: `/health` and `/io` always,
/// any other path only with the process token, in `X-JST-Auth` or in
/// `Authorization`. It is enough that one of the two headers carries it,
/// whatever the other holds.
pub open spec fn admitted(
    path: Seq<char>,
    x_jst_auth: HeaderValue,
    authorization: HeaderValue,
    token: Seq<char>,
) -> bool {
    path == "/health"@ || path == "/io"@ || carries_token(x_jst_auth, token) || bears_token(
        authorization,
        token,
    )
}

/// Strips the prefix `Bearer ` from an `Authorization` value.
pub fn strip_bearer(value: &str) -> (rest: Option<String>)
    ensures
        match bearer_token(value@) {
            Some(t) => rest.is_some() && rest.unwrap()@ == t,
            None => rest.is_none(),
        },
{
    proof {
        reveal_strlit("Bearer ");
    }
    let chars = to_chars(value);
    if chars.len() >= 7 && chars[0] == 'B' && chars[1] == 'e' && chars[2] == 'a' && chars[3] == 'r'
        && chars[4] == 'e' && chars[5] == 'r' && chars[6] == ' ' {
        assert(value@.take(7) =~= "Bearer "@);
        let rest = vstd::slice::slice_subrange(chars.as_slice(), 7, chars.len());
        assert(rest@ =~= value@.skip(7));
        Some(from_chars(rest))
    } else {
        proof {
            if value@.len() >= 7 && value@.take(7) == "Bearer "@ {
                assert(value@.take(7)[0] == 'B');
                assert(value@.take(7)[1] == 'e');
                assert(value@.take(7)[2] == 'a');
                assert(value@.take(7)[3] == 'r');
                assert(value@.take(7)[4] == 'e');
                assert(value@.take(7)[5] == 'r');
                assert(value@.take(7)[6] == ' ');
            }
        }
        None
    }
}

/// The admission rule of the HTTP surface. A request that is not admitted
/// is answered with status 401.
pub fn authorize(
    path: &str,
    x_jst_auth: &HeaderField,
    authorization: &HeaderField,
    token: &str,
) -> (ok: bool)
    ensures
        ok == admitted(path@, x_jst_auth@, authorization@, token@),
{
    if token_matches(path, "/health") || token_matches(path, "/io") {
        return true;
    }
    let by_header = match x_jst_auth {
        HeaderField::Text(t) => token_matches(t.as_str(), token),
        _ => false,
    };
    if by_header {
        return true;
    }
    match authorization {
        HeaderField::Text(v) => match strip_bearer(v.as_str()) {
            Some(t) => token_matches(t.as_str(), token),
            None => false,
        },
        _ => false,
    }
}

/// A request that carries the token in either header is admitted on every
/// path, whatever the other header holds.
pub proof fn lemma_either_header_admits(
    path: Seq<char>,
    x_jst_auth: HeaderValue,
    authorization: HeaderValue,
    token: Seq<char>,
)
    ensures
        admitted(path, HeaderValue::Text(token), authorization, token),
        admitted(path, x_jst_auth, HeaderValue::Text("Bearer "@ + token), token),
        path != "/health"@ && path != "/io"@ && !carries_token(x_jst_auth, token) && !bears_token(
            authorization,
            token,
        ) ==> !admitted(path, x_jst_auth, authorization, token),
{
    let value = "Bearer "@ + token;
    reveal_strlit("Bearer ");
    assert(value.take(7) =~= "Bearer "@);
    assert(value.skip(7) =~= token);
}

} // verus!
