use vstd::prelude::*;

use crate::error::ProxyError;
use crate::text::{has_prefix, join2, str_eq};

verus! {

/// What a token grants: every repository, or those matched by a list of prefix patterns.
#[derive(Debug)]
pub enum AccessLevel {
    All,
    Repositories { repos: Vec<String> },
}

/// The claims carried by an access token.
#[derive(Debug)]
pub struct Claims {
    pub sub: String,
    pub exp: Option<usize>,
    pub access: AccessLevel,
}

/// The secret that tokens are verified under.
#[derive(Debug)]
pub struct AuthState {
    pub jwt_secret: String,
}

/// Pattern `p` matches repository `r` when `r` is `p`, or `p` followed by `/` and more.
pub open spec fn pattern_matches(p: Seq<char>, r: Seq<char>) -> bool {
    r == p || (p.len() < r.len() && r.subrange(0, p.len() as int) == p && r[p.len() as int]
        == '/')
}

impl AccessLevel {
    pub open spec fn grants(&self, r: Seq<char>) -> bool {
        match self {
            AccessLevel::All => true,
            AccessLevel::Repositories { repos } => exists|i: int|
                0 <= i < repos@.len() && #[trigger] pattern_matches(repos@[i]@, r),
        }
    }

    pub fn can_access(&self, repository: &str) -> (r: bool)
        ensures
            r == self.grants(repository@),
    {
        match self {
            AccessLevel::All => true,
            AccessLevel::Repositories { repos } => any_pattern_matches(repos, repository),
        }
    }
}

/// Whether some pattern of the list matches the repository.
pub fn any_pattern_matches(repos: &Vec<String>, repository: &str) -> (r: bool)
    ensures
        r == exists|i: int| 0 <= i < repos@.len() && #[trigger] pattern_matches(repos@[i]@, repository@),
{
    let mut i: usize = 0;
    while i < repos.len()
        invariant
            0 <= i <= repos@.len(),
            forall|k: int| 0 <= k < i ==> !pattern_matches(#[trigger] repos@[k]@, repository@),
        decreases repos@.len() - i,
    {
        if matches_pattern(repos[i].as_str(), repository) {
            assert(pattern_matches(repos@[i as int]@, repository@));
            return true;
        }
        i = i + 1;
    }
    false
}

/// Decides `pattern_matches(p, r)`.
pub fn matches_pattern(p: &str, r: &str) -> (b: bool)
    ensures
        b == pattern_matches(p@, r@),
{
    if str_eq(p, r) {
        return true;
    }
    let n = p.unicode_len();
    if n >= r.unicode_len() {
        return false;
    }
    has_prefix(r, p) && r.get_char(n) == '/'
}

/// Allows the request when the claims grant the repository, else a `Forbidden` error.
pub fn check_repository_access(claims: &Claims, repository: &str) -> (r: Result<(), ProxyError>)
    ensures
        r.is_ok() == claims.access.grants(repository@),
        r matches Err(e) ==> e matches ProxyError::Forbidden(m) && m@ == "Access denied to repository: "@
            + repository@,
{
    if claims.access.can_access(repository) {
        Ok(())
    } else {
        Err(ProxyError::Forbidden(join2("Access denied to repository: ", repository)))
    }
}

/// The scheme prefix that a bearer `Authorization` header must start with.
pub open spec fn bearer_prefix() -> Seq<char> {
    "Bearer "@
}

/// The token of an `Authorization` header value: what follows the literal `Bearer `.
pub fn extract_bearer_token(header: Option<&str>) -> (r: Option<String>)
    ensures
        r is Some <==> (header matches Some(h) && 7 <= h@.len() && h@.subrange(0, 7)
            == bearer_prefix()),
        r matches Some(t) ==> header matches Some(h) && t@ == h@.subrange(7, h@.len() as int),
{
    match header {
        None => None,
        Some(h) => {
            proof {
                reveal_strlit("Bearer ");
            }
            if has_prefix(h, "Bearer ") {
                let n = h.unicode_len();
                Some(String::from_str(h.substring_char(7, n)))
            } else {
                None
            }
        },
    }
}

/// The bearer token of a request, or the `Unauthorized` error when there is none.
pub fn require_bearer_token(header: Option<&str>) -> (r: Result<String, ProxyError>)
    ensures
        r is Ok <==> (header matches Some(h) && 7 <= h@.len() && h@.subrange(0, 7)
            == bearer_prefix()),
        r matches Ok(t) ==> header matches Some(h) && t@ == h@.subrange(7, h@.len() as int),
        r matches Err(e) ==> e matches ProxyError::Unauthorized(m) && m@
            == "Missing or invalid Authorization header"@,
{
    match extract_bearer_token(header) {
        Some(t) => Ok(t),
        None => Err(
            ProxyError::Unauthorized(String::from_str("Missing or invalid Authorization header")),
        ),
    }
}

/// The error for a token that fails to decode or verify.
pub fn invalid_token(detail: &str) -> (e: ProxyError)
    ensures
        e matches ProxyError::Unauthorized(m) && m@ == "Invalid token: "@ + detail@,
{
    ProxyError::Unauthorized(join2("Invalid token: ", detail))
}

/// A token is current when it carries no expiry, or the time now (in seconds since the
/// Unix epoch) is strictly before it.
pub open spec fn unexpired(exp: Option<usize>, now: u64) -> bool {
    match exp {
        None => true,
        Some(e) => now < e,
    }
}

/// Rejects claims whose expiry has been reached.
pub fn check_token_expiry(claims: &Claims, now: u64) -> (r: Result<(), ProxyError>)
    ensures
        r is Ok <==> unexpired(claims.exp, now),
        r matches Err(e) ==> e matches ProxyError::Unauthorized(m) && m@
            == "Invalid token: ExpiredSignature"@,
{
    match claims.exp {
        None => Ok(()),
        Some(e) => {
            if (now as u128) < (e as u128) {
                Ok(())
            } else {
                proof {
                    reveal_strlit("Invalid token: ");
                    reveal_strlit("ExpiredSignature");
                    reveal_strlit("Invalid token: ExpiredSignature");
                    assert("Invalid token: "@ + "ExpiredSignature"@ =~= "Invalid token: ExpiredSignature"@);
                }
                Err(invalid_token("ExpiredSignature"))
            }
        },
    }
}

} // verus!
