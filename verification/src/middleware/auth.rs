//! Bearer-token authentication of requests.

use vstd::prelude::*;
use crate::text::{chars_of, has_prefix, starts_with, string_from_chars, sub_chars};

verus! {

broadcast use vstd::string::group_string_axioms;

/// Who a request is made by, from its verified token.
#[derive(Clone, Debug)]
pub struct AuthClaims {
    pub user_id: i64,
    pub username: String,
    pub role: String,
}

/// How a request without valid credentials is refused.
#[derive(Clone, Debug)]
pub struct Rejection {
    pub status: u16,
    pub code: String,
    pub message: String,
}

/// The token of an `Authorization` header: what follows `Bearer `.
pub open spec fn bearer_of(header: Option<Seq<char>>) -> Option<Seq<char>> {
    match header {
        Some(h) => if has_prefix(h, "Bearer "@) {
            Some(h.subrange("Bearer "@.len() as int, h.len() as int))
        } else {
            None
        },
        None => None,
    }
}

/// The bearer token of the `Authorization` header, when it has one.
pub fn bearer_token(header: Option<&str>) -> (r: Option<String>)
    ensures
        r matches Some(t) ==> bearer_of(
            match header {
                Some(h) => Some(h@),
                None => None,
            },
        ) == Some(t@),
        r is None ==> bearer_of(
            match header {
                Some(h) => Some(h@),
                None => None,
            },
        ) is None,
{
    match header {
        Some(h) => {
            let hc = chars_of(h);
            let p = chars_of("Bearer ");
            if starts_with(&hc, &p) {
                let t = sub_chars(&hc, p.len(), hc.len());
                Some(string_from_chars(&t))
            } else {
                None
            }
        },
        None => None,
    }
}

/// The refusal of a request without a bearer token.
pub fn missing_token() -> (r: Rejection)
    ensures
        r.status == 401,
        r.code@ == "UNAUTHORIZED"@,
        r.message@ == "missing token"@,
{
    Rejection {
        status: 401,
        code: "UNAUTHORIZED".to_string(),
        message: "missing token".to_string(),
    }
}

/// The refusal of a request whose token does not verify.
pub fn invalid_token() -> (r: Rejection)
    ensures
        r.status == 401,
        r.code@ == "UNAUTHORIZED"@,
        r.message@ == "invalid token"@,
{
    Rejection {
        status: 401,
        code: "UNAUTHORIZED".to_string(),
        message: "invalid token".to_string(),
    }
}

} // verus!
