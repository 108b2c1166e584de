use vstd::prelude::*;

use crate::challenge::{ChallengeParams, challenge_params, parse_www_authenticate};
use crate::config::ResolvedRepository;
use crate::error::ProxyError;
use crate::text::{decimal, decimal_of, join2, join3};

verus! {

/// The key that an upstream token is cached under: `<registry_url>:<upstream_name>`.
pub fn token_cache_key(repo: &ResolvedRepository) -> (r: String)
    ensures
        r@ == repo.registry_url@ + ":"@ + repo.upstream_name@,
{
    join3(repo.registry_url.as_str(), ":", repo.upstream_name.as_str())
}

/// `<registry_url>/v2/<upstream_name>/manifests/<reference>`.
pub fn manifest_url(repo: &ResolvedRepository, reference: &str) -> (r: String)
    ensures
        r@ == repo.registry_url@ + "/v2/"@ + repo.upstream_name@ + "/manifests/"@ + reference@,
{
    let head = join3(repo.registry_url.as_str(), "/v2/", repo.upstream_name.as_str());
    join3(head.as_str(), "/manifests/", reference)
}

/// `<registry_url>/v2/<upstream_name>/blobs/<digest>`.
pub fn blob_url(repo: &ResolvedRepository, digest: &str) -> (r: String)
    ensures
        r@ == repo.registry_url@ + "/v2/"@ + repo.upstream_name@ + "/blobs/"@ + digest@,
{
    let head = join3(repo.registry_url.as_str(), "/v2/", repo.upstream_name.as_str());
    join3(head.as_str(), "/blobs/", digest)
}

/// `<registry_url>/v2/<upstream_name>/tags/list`.
pub fn tags_url(repo: &ResolvedRepository) -> (r: String)
    ensures
        r@ == repo.registry_url@ + "/v2/"@ + repo.upstream_name@ + "/tags/list"@,
{
    let head = join3(repo.registry_url.as_str(), "/v2/", repo.upstream_name.as_str());
    join2(head.as_str(), "/tags/list")
}

pub open spec fn default_manifest_type() -> Seq<char> {
    "application/vnd.docker.distribution.manifest.v2+json"@
}

/// The `Accept` values of a manifest request, one header each, in this order.
pub fn manifest_accept_types() -> (r: Vec<String>)
    ensures
        r@.len() == 4,
        r@[0]@ == default_manifest_type(),
        r@[1]@ == "application/vnd.docker.distribution.manifest.list.v2+json"@,
        r@[2]@ == "application/vnd.oci.image.manifest.v1+json"@,
        r@[3]@ == "application/vnd.oci.image.index.v1+json"@,
{
    let mut r: Vec<String> = Vec::new();
    r.push(String::from_str("application/vnd.docker.distribution.manifest.v2+json"));
    r.push(String::from_str("application/vnd.docker.distribution.manifest.list.v2+json"));
    r.push(String::from_str("application/vnd.oci.image.manifest.v1+json"));
    r.push(String::from_str("application/vnd.oci.image.index.v1+json"));
    r
}

/// What a token service is asked: its URL and the optional `service` and `scope` query
/// parameters.
#[derive(Debug)]
pub struct TokenRequest {
    pub realm: String,
    pub service: Option<String>,
    pub scope: Option<String>,
}

pub open spec fn opt_view(o: Option<String>) -> Option<Seq<char>> {
    match o {
        Some(s) => Some(s@),
        None => None,
    }
}

pub open spec fn param_of(m: Map<Seq<char>, Seq<char>>, k: Seq<char>) -> Option<Seq<char>> {
    if m.contains_key(k) {
        Some(m[k])
    } else {
        None
    }
}

/// The token request of a challenge; `realm` is required.
pub fn token_request_of(params: &ChallengeParams) -> (r: Result<TokenRequest, ProxyError>)
    ensures
        r is Ok <==> params@.contains_key("realm"@),
        r matches Ok(req) ==> req.realm@ == params@["realm"@] && opt_view(req.service)
            == param_of(params@, "service"@) && opt_view(req.scope) == param_of(
            params@,
            "scope"@,
        ),
        r matches Err(e) ==> e matches ProxyError::Internal(m) && m@
            == "WWW-Authenticate header missing realm"@,
{
    match params.get("realm") {
        None => Err(ProxyError::Internal(String::from_str("WWW-Authenticate header missing realm"))),
        Some(realm) => Ok(
            TokenRequest { realm, service: params.get("service"), scope: params.get("scope") },
        ),
    }
}

/// The serialization of the URL that a text parses to, if it parses.
pub uninterp spec fn parsed_url_of(s: Seq<char>) -> Option<Seq<char>>;

/// The serialization of the URL that `url` parses to, with `key=value` appended,
/// form-encoded, to its query; none if `url` does not parse.
pub uninterp spec fn with_query_pair(url: Seq<char>, key: Seq<char>, value: Seq<char>) -> Option<
    Seq<char>,
>;

/// Relies on `reqwest::Url::parse` (the `url` crate's): the URL a text parses to, taken
/// as its serialization, depends on the text alone.
#[verifier::external_body]
fn parse_url(s: &str) -> (r: Option<String>)
    ensures
        opt_view(r) == parsed_url_of(s@),
{
    reqwest::Url::parse(s).ok().map(String::from)
}

/// Relies on `append_pair` of `reqwest::Url::query_pairs_mut`: it appends `key=value`,
/// form-encoded, to the query of the URL that `url` parses to. The text is parsed by
/// `reqwest::Url::parse` first, so there is a result exactly when that parse succeeds.
#[verifier::external_body]
fn append_query_pair(url: &str, key: &str, value: &str) -> (r: Option<String>)
    ensures
        opt_view(r) == with_query_pair(url@, key@, value@),
        r is Some <==> parsed_url_of(url@) is Some,
{
    match reqwest::Url::parse(url) {
        Ok(mut u) => {
            u.query_pairs_mut().append_pair(key, value);
            Some(String::from(u))
        },
        Err(_) => None,
    }
}

/// `url` with `key=value` appended when there is a value; none once a step fails.
pub open spec fn append_if_some(url: Option<Seq<char>>, key: Seq<char>, value: Option<Seq<char>>) -> Option<
    Seq<char>,
> {
    match url {
        None => None,
        Some(u) => match value {
            None => Some(u),
            Some(v) => with_query_pair(u, key, v),
        },
    }
}

/// The token-service URL of a request: the realm, then `service`, then `scope`.
pub open spec fn token_url_of(req: TokenRequest) -> Option<Seq<char>> {
    append_if_some(
        append_if_some(parsed_url_of(req.realm@), "service"@, opt_view(req.service)),
        "scope"@,
        opt_view(req.scope),
    )
}

fn append_optional(url: String, key: &str, value: &Option<String>) -> (r: Option<String>)
    ensures
        opt_view(r) == append_if_some(Some(url@), key@, opt_view(*value)),
{
    match value {
        None => Some(url),
        Some(v) => append_query_pair(url.as_str(), key, v.as_str()),
    }
}

/// The token-service URL: the realm, with the `service` and then the `scope` query pair
/// when the challenge gave them.
pub fn token_service_url(req: &TokenRequest) -> (r: Result<String, ProxyError>)
    ensures
        r is Ok <==> token_url_of(*req) is Some,
        r matches Ok(u) ==> token_url_of(*req) == Some(u@),
        r matches Err(e) ==> e matches ProxyError::Internal(m) && m@ == "Invalid realm URL"@,
{
    let base = match parse_url(req.realm.as_str()) {
        None => {
            return Err(invalid_realm());
        },
        Some(u) => u,
    };
    let with_service = match append_optional(base, "service", &req.service) {
        None => {
            return Err(invalid_realm());
        },
        Some(u) => u,
    };
    match append_optional(with_service, "scope", &req.scope) {
        None => Err(invalid_realm()),
        Some(u) => Ok(u),
    }
}

/// What to do with the first response of an upstream request.
#[derive(Debug)]
pub enum AuthStep {
    /// Hand the response back as it is.
    UseResponse,
    /// Obtain a token from the token service, then retry once with it.
    Exchange(TokenRequest),
    /// Fail the request.
    Fail(ProxyError),
}

/// Decides on the first response: its status, and its `WWW-Authenticate` header
/// (absent; present but not text; or its text).
pub fn after_first_response(status: u16, www_authenticate: Option<Option<&str>>) -> (r: AuthStep)
    ensures
        status != 401 ==> r is UseResponse,
        status == 401 && www_authenticate is None ==> r is UseResponse,
        status == 401 && www_authenticate == Some(None::<&str>) ==> (r matches AuthStep::Fail(
            ProxyError::Internal(m),
        ) && m@ == "Invalid WWW-Authenticate header"@),
        status == 401 ==> (www_authenticate matches Some(Some(h)) ==> {
            let p = challenge_params(h@);
            if p.contains_key("realm"@) {
                r matches AuthStep::Exchange(req) && req.realm@ == p["realm"@] && opt_view(
                    req.service,
                ) == param_of(p, "service"@) && opt_view(req.scope) == param_of(p, "scope"@)
            } else {
                r matches AuthStep::Fail(ProxyError::Internal(m)) && m@
                    == "WWW-Authenticate header missing realm"@
            }
        }),
{
    if status != 401 {
        return AuthStep::UseResponse;
    }
    match www_authenticate {
        None => AuthStep::UseResponse,
        Some(None) => AuthStep::Fail(
            ProxyError::Internal(String::from_str("Invalid WWW-Authenticate header")),
        ),
        Some(Some(h)) => {
            let params = parse_www_authenticate(h);
            match token_request_of(&params) {
                Ok(req) => AuthStep::Exchange(req),
                Err(e) => AuthStep::Fail(e),
            }
        },
    }
}

/// The bearer token of a token-service answer: `token` if present, else `access_token`.
pub fn select_token(token: Option<String>, access_token: Option<String>) -> (r: Result<
    String,
    ProxyError,
>)
    ensures
        token matches Some(t) ==> (r matches Ok(x) && x@ == t@),
        token is None ==> (access_token matches Some(t) ==> (r matches Ok(x) && x@ == t@)),
        token is None && access_token is None ==> (r matches Err(ProxyError::Internal(m)) && m@
            == "No token in auth response"@),
{
    match token {
        Some(t) => Ok(t),
        None => match access_token {
            Some(t) => Ok(t),
            None => Err(ProxyError::Internal(String::from_str("No token in auth response"))),
        },
    }
}

/// The error for a token service that answered with a status other than success.
pub fn token_service_failure(status: &str) -> (e: ProxyError)
    ensures
        e matches ProxyError::Internal(m) && m@ == "Authentication failed with status: "@ + status@,
{
    ProxyError::Internal(join2("Authentication failed with status: ", status))
}

/// The error for a realm that is not a URL.
pub fn invalid_realm() -> (e: ProxyError)
    ensures
        e matches ProxyError::Internal(m) && m@ == "Invalid realm URL"@,
{
    ProxyError::Internal(String::from_str("Invalid realm URL"))
}

/// Success is a 2xx status.
pub open spec fn is_success(status: u16) -> bool {
    200 <= status < 300
}

/// The message of the `Upstream` error for a status that is neither success nor 404.
pub open spec fn unexpected_status_message(status: u16) -> Seq<char> {
    "unexpected status "@ + decimal_of(status as nat)
}

/// The error, if any, for the status of a final upstream answer: none for success,
/// `NotFound` with the given message for 404, and `Upstream` for any other status.
pub fn status_outcome(status: u16, not_found: String) -> (r: Result<(), ProxyError>)
    ensures
        r is Ok <==> is_success(status),
        status == 404 ==> (r matches Err(ProxyError::NotFound(m)) && m@ == not_found@),
        !is_success(status) && status != 404 ==> (r matches Err(ProxyError::Upstream(m)) && m@
            == unexpected_status_message(status)),
{
    if 200 <= status && status < 300 {
        Ok(())
    } else if status == 404 {
        Err(ProxyError::NotFound(not_found))
    } else {
        Err(ProxyError::Upstream(join2("unexpected status ", decimal(status as u64).as_str())))
    }
}

/// The content type of a fetched manifest; `NotFound` for a 404 and `Upstream` for any
/// other status but success.
pub fn manifest_outcome(status: u16, content_type: Option<&str>, reference: &str) -> (r: Result<
    String,
    ProxyError,
>)
    ensures
        r is Ok <==> is_success(status),
        status == 404 ==> (r matches Err(ProxyError::NotFound(m)) && m@ == "Manifest not found: "@
            + reference@),
        !is_success(status) && status != 404 ==> (r matches Err(ProxyError::Upstream(m)) && m@
            == unexpected_status_message(status)),
        is_success(status) ==> (content_type matches Some(c) ==> (r matches Ok(t) && t@ == c@)),
        is_success(status) && content_type is None ==> (r matches Ok(t) && t@
            == default_manifest_type()),
{
    match status_outcome(status, join2("Manifest not found: ", reference)) {
        Err(e) => Err(e),
        Ok(()) => match content_type {
            Some(c) => Ok(String::from_str(c)),
            None => Ok(String::from_str("application/vnd.docker.distribution.manifest.v2+json")),
        },
    }
}

/// Whether a fetched blob may be served; `NotFound` for a 404 and `Upstream` for any other
/// status but success.
pub fn blob_outcome(status: u16, digest: &str) -> (r: Result<(), ProxyError>)
    ensures
        r is Ok <==> is_success(status),
        status == 404 ==> (r matches Err(ProxyError::NotFound(m)) && m@ == "Blob not found: "@
            + digest@),
        !is_success(status) && status != 404 ==> (r matches Err(ProxyError::Upstream(m)) && m@
            == unexpected_status_message(status)),
{
    status_outcome(status, join2("Blob not found: ", digest))
}

/// Whether a fetched tag listing may be served; `NotFound` for a 404 and `Upstream` for
/// any other status but success.
pub fn tags_outcome(status: u16, repository: &str) -> (r: Result<(), ProxyError>)
    ensures
        r is Ok <==> is_success(status),
        status == 404 ==> (r matches Err(ProxyError::NotFound(m)) && m@ == "Tags not found: "@
            + repository@),
        !is_success(status) && status != 404 ==> (r matches Err(ProxyError::Upstream(m)) && m@
            == unexpected_status_message(status)),
{
    status_outcome(status, join2("Tags not found: ", repository))
}

} // verus!
