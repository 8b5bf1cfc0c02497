//! The authentication gate for the single mutating method: a
//! bearer-style token checked against an injected allowlist of trusted
//! tokens.  No expiry, no per-caller identity.

use vstd::prelude::*;

use crate::protocol::ParamV;
use crate::protocol::ParamValueV;
use crate::protocol::param_str;

verus! {

/// The distinct non-standard code reserved for unauthorized access.
pub const ERROR_UNAUTHORIZED: i32 = -32604;

/// Membership of a token in the allowlist.
pub open spec fn token_trusted(token: Seq<char>, trusted: Seq<Seq<char>>) -> bool {
    exists|i: int| 0 <= i < trusted.len() && #[trigger] trusted[i] == token
}

/// A parameter map passes authentication when its `auth_token` field
/// is present, a string, and a member of the allowlist.
pub open spec fn auth_ok(ps: Seq<ParamV>, trusted: Seq<Seq<char>>) -> bool {
    match param_str(ps, "auth_token"@) {
        Some(t) => token_trusted(t, trusted),
        None => false,
    }
}

/// Tests a bare token against the allowlist.
pub fn token_trusted_exec(token: &str, trusted_tokens: &Vec<String>) -> (r: bool)
    ensures
        r == token_trusted(token@, trusted_tokens.deep_view()),
{
    let mut i: usize = 0;
    while i < trusted_tokens.len()
        invariant
            i <= trusted_tokens@.len(),
            forall|j: int| 0 <= j < i ==> #[trigger] trusted_tokens.deep_view()[j]
                != token@,
        decreases trusted_tokens@.len() - i,
    {
        if crate::text::str_eq(trusted_tokens[i].as_str(), token) {
            assert(trusted_tokens.deep_view()[i as int] == token@);
            return true;
        }
        i = i + 1;
    }
    false
}

/// Validates the authentication token carried in a request's
/// parameters against the allowlist; a missing or ill-typed token is
/// simply invalid, never an error.
pub fn validate_auth_token(options: &crate::protocol::MCPParams,
    trusted_tokens: &Vec<String>) -> (r: bool)
    ensures
        r == auth_ok(options.entries.deep_view(), trusted_tokens.deep_view()),
{
    match options.get_str("auth_token") {
        Some(t) => token_trusted_exec(t.as_str(), trusted_tokens),
        None => false,
    }
}

/// The fixed message reported for unauthorized access.
pub fn unauthorized_error_message() -> (r: String)
    ensures
        r@ == "Invalid or missing authentication token"@,
{
    "Invalid or missing authentication token".to_owned()
}

} // verus!
