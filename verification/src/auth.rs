//! Plain data shapes of the authentication layer above the engine: token
//! claims and the sanitized user record handed back to clients. Signing and
//! verifying tokens is the transport layer's work; only the claim
//! computation is the library's.

use vstd::prelude::*;
use vstd::string::StrSliceExecFns;

verus! {

/// How long an issued token stays valid, in seconds.
pub const TOKEN_LIFETIME_SECS: usize = 24 * 3600;

/// The claims carried by an issued token: the subject (a user id) and the
/// expiration time (seconds since the epoch).
#[derive(Debug)]
pub struct Claims {
    pub sub: i32,
    pub exp: usize,
}

impl Claims {
    /// The claims issued to `sub` at clock reading `now_secs`: the token
    /// expires exactly `TOKEN_LIFETIME_SECS` later.
    pub fn issued_at(sub: i32, now_secs: usize) -> (c: Claims)
        requires
            now_secs + TOKEN_LIFETIME_SECS <= usize::MAX,
        ensures
            c.sub == sub,
            c.exp == now_secs + TOKEN_LIFETIME_SECS,
    {
        Claims { sub, exp: now_secs + TOKEN_LIFETIME_SECS }
    }

    /// Whether the claims are still valid at clock reading `now_secs`.
    pub fn valid_at(&self, now_secs: usize) -> (r: bool)
        ensures
            r == (now_secs < self.exp),
    {
        now_secs < self.exp
    }
}

/// The token text carried by an authorization header: what follows the
/// `Bearer ` scheme prefix, or absence when the header does not use that
/// scheme. The middleware hands the result to token verification.
pub fn bearer_token(header: &str) -> (r: Option<&str>)
    ensures
        match r {
            Some(t) => header@.len() >= 7 && header@.subrange(0, 7) == "Bearer "@ && t@
                == header@.subrange(7, header@.len() as int),
            None => header@.len() < 7 || header@.subrange(0, 7) != "Bearer "@,
        },
{
    let scheme = "Bearer ";
    let n = header.unicode_len();
    proof {
        reveal_strlit("Bearer ");
    }
    if n < 7 {
        return None;
    }
    let mut i: usize = 0;
    while i < 7
        invariant
            i <= 7,
            n == header@.len(),
            n >= 7,
            scheme@ == "Bearer "@,
            forall|j: int| 0 <= j < i ==> header@[j] == scheme@[j],
        decreases 7 - i,
    {
        proof {
            reveal_strlit("Bearer ");
        }
        if header.get_char(i) != scheme.get_char(i) {
            proof {
                assert(header@.subrange(0, 7)[i as int] == header@[i as int]);
            }
            return None;
        }
        i = i + 1;
    }
    proof {
        assert(header@.subrange(0, 7) =~= scheme@);
    }
    Some(header.substring_char(7, n))
}

/// A user record with the sensitive fields left out: what a handler returns
/// to the client in place of the stored record.
#[derive(Debug)]
pub struct UserResponse {
    pub id: i32,
    pub email: String,
    pub name: String,
}

impl UserResponse {
    /// The client-facing image of a stored user record: exactly the public
    /// fields, nothing of the credential material.
    pub fn new(id: i32, email: String, name: String) -> (r: UserResponse)
        ensures
            r.id == id,
            r.email == email,
            r.name == name,
    {
        UserResponse { id, email, name }
    }
}

} // verus!
