use vstd::prelude::*;

use crate::auth::{Claims, check_repository_access};
use crate::config::{Config, ResolvedRepository, same_auth};
use crate::error::ProxyError;
use crate::text::join2;

verus! {

/// The first step of every repository endpoint: authorize the repository under the
/// claims, then resolve it through the configuration.
pub fn authorize_and_resolve(config: &Config, claims: &Claims, repository: &str) -> (r: Result<
    ResolvedRepository,
    ProxyError,
>)
    ensures
        !claims.access.grants(repository@) ==> (r matches Err(ProxyError::Forbidden(m)) && m@
            == "Access denied to repository: "@ + repository@),
        claims.access.grants(repository@) ==> match r {
            Ok(res) => exists|i: int, j: int|
                #![trigger config.is_first_repository(i, repository@), config.is_first_registry(j, config.repositories@[i].registry_id@)]
                config.is_first_repository(i, repository@) && config.is_first_registry(
                    j,
                    config.repositories@[i].registry_id@,
                ) && res.upstream_name@ == config.repositories@[i].upstream_name@
                    && res.registry_url@ == config.registries@[j].url@ && same_auth(
                    config.registries@[j].auth,
                    res.auth,
                ),
            Err(e) => (e matches ProxyError::NotFound(m) && m@ == "Repository not mapped: "@
                + repository@) && forall|i: int| #[trigger]
                config.is_first_repository(i, repository@) ==> !config.knows_registry(
                    config.repositories@[i].registry_id@,
                ),
        },
{
    match check_repository_access(claims, repository) {
        Err(e) => Err(e),
        Ok(()) => match config.resolve_repository(repository) {
            Some(res) => Ok(res),
            None => Err(ProxyError::NotFound(join2("Repository not mapped: ", repository))),
        },
    }
}

/// The answer to any write request.
pub fn handle_unsupported_write() -> (r: Result<(), ProxyError>)
    ensures
        r matches Err(ProxyError::Forbidden(m)) && m@
            == "Write operations are not supported by this proxy"@,
{
    Err(ProxyError::Forbidden(String::from_str("Write operations are not supported by this proxy")))
}

/// The body of the version check: an empty JSON object.
pub fn version_check_body() -> (r: String)
    ensures
        r@ == "{}"@,
{
    String::from_str("{}")
}

} // verus!
