use docker_registry_proxy::config::ResolvedRepository;
use docker_registry_proxy::error::ProxyError;
use docker_registry_proxy::upstream::{
    after_first_response, blob_outcome, blob_url, manifest_accept_types, manifest_outcome,
    manifest_url, select_token, tags_outcome, tags_url, token_cache_key, token_service_failure, token_service_url,
    AuthStep,
    TokenRequest,
};

fn repo() -> ResolvedRepository {
    ResolvedRepository {
        upstream_name: "library/alpine".to_string(),
        registry_url: "https://registry-1.docker.io".to_string(),
        auth: None,
    }
}

#[test]
fn upstream_urls_and_key() {
    let r = repo();
    assert_eq!(
        token_cache_key(&r),
        "https://registry-1.docker.io:library/alpine"
    );
    assert_eq!(
        manifest_url(&r, "latest"),
        "https://registry-1.docker.io/v2/library/alpine/manifests/latest"
    );
    assert_eq!(
        blob_url(&r, "sha256:abc"),
        "https://registry-1.docker.io/v2/library/alpine/blobs/sha256:abc"
    );
    assert_eq!(
        tags_url(&r),
        "https://registry-1.docker.io/v2/library/alpine/tags/list"
    );
}

#[test]
fn manifest_accept_order() {
    assert_eq!(
        manifest_accept_types(),
        vec![
            "application/vnd.docker.distribution.manifest.v2+json",
            "application/vnd.docker.distribution.manifest.list.v2+json",
            "application/vnd.oci.image.manifest.v1+json",
            "application/vnd.oci.image.index.v1+json",
        ]
    );
}

#[test]
fn challenge_leads_to_token_exchange() {
    let header = r#"Bearer realm="https://auth.docker.io/token",service="registry.docker.io",scope="repository:library/alpine:pull""#;
    match after_first_response(401, Some(Some(header))) {
        AuthStep::Exchange(req) => {
            assert_eq!(req.realm, "https://auth.docker.io/token");
            assert_eq!(req.service.unwrap(), "registry.docker.io");
            assert_eq!(req.scope.unwrap(), "repository:library/alpine:pull");
        }
        _ => panic!("expected a token exchange"),
    }
}

#[test]
fn first_response_without_challenge_is_used() {
    assert!(matches!(after_first_response(200, None), AuthStep::UseResponse));
    assert!(matches!(
        after_first_response(404, Some(Some("Bearer realm=\"x\""))),
        AuthStep::UseResponse
    ));
    assert!(matches!(after_first_response(401, None), AuthStep::UseResponse));
}

#[test]
fn broken_challenges_fail_internally() {
    match after_first_response(401, Some(Some("Basic realm=\"test\""))) {
        AuthStep::Fail(ProxyError::Internal(m)) => {
            assert_eq!(m, "WWW-Authenticate header missing realm")
        }
        _ => panic!("expected an internal error"),
    }
    match after_first_response(401, Some(None)) {
        AuthStep::Fail(ProxyError::Internal(m)) => assert_eq!(m, "Invalid WWW-Authenticate header"),
        _ => panic!("expected an internal error"),
    }
}

#[test]
fn token_selection() {
    assert_eq!(
        select_token(Some("a".to_string()), Some("b".to_string())).unwrap(),
        "a"
    );
    assert_eq!(select_token(None, Some("b".to_string())).unwrap(), "b");
    match select_token(None, None) {
        Err(ProxyError::Internal(m)) => assert_eq!(m, "No token in auth response"),
        _ => panic!("expected an internal error"),
    }
    match token_service_failure("403 Forbidden") {
        ProxyError::Internal(m) => assert_eq!(m, "Authentication failed with status: 403 Forbidden"),
        _ => panic!("expected an internal error"),
    }
}

#[test]
fn response_outcomes() {
    assert_eq!(
        manifest_outcome(200, None, "latest").unwrap(),
        "application/vnd.docker.distribution.manifest.v2+json"
    );
    assert_eq!(
        manifest_outcome(200, Some("application/vnd.oci.image.index.v1+json"), "latest").unwrap(),
        "application/vnd.oci.image.index.v1+json"
    );
    match manifest_outcome(404, None, "latest") {
        Err(ProxyError::NotFound(m)) => assert_eq!(m, "Manifest not found: latest"),
        _ => panic!("expected NotFound"),
    }
    assert!(blob_outcome(200, "sha256:a").is_ok());
    match blob_outcome(404, "sha256:a") {
        Err(ProxyError::NotFound(m)) => assert_eq!(m, "Blob not found: sha256:a"),
        _ => panic!("expected NotFound"),
    }
}

#[test]
fn token_service_url_carries_query() {
    let req = TokenRequest {
        realm: "https://auth.docker.io/token".to_string(),
        service: Some("registry.docker.io".to_string()),
        scope: Some("repository:library/alpine:pull".to_string()),
    };
    let url = token_service_url(&req).unwrap();
    assert_eq!(
        url,
        "https://auth.docker.io/token?service=registry.docker.io&scope=repository%3Alibrary%2Falpine%3Apull"
    );

    let bare = TokenRequest {
        realm: "https://auth.example.com/token".to_string(),
        service: None,
        scope: None,
    };
    assert_eq!(
        token_service_url(&bare).unwrap().as_str(),
        "https://auth.example.com/token"
    );
}

#[test]
fn relative_realm_is_rejected() {
    let req = TokenRequest {
        realm: "not a url".to_string(),
        service: None,
        scope: None,
    };
    match token_service_url(&req) {
        Err(ProxyError::Internal(m)) => assert_eq!(m, "Invalid realm URL"),
        _ => panic!("expected an internal error"),
    }
}

#[test]
fn failed_upstream_answers_are_errors() {
    match blob_outcome(401, "sha256:a") {
        Err(ProxyError::Upstream(m)) => assert_eq!(m, "unexpected status 401"),
        _ => panic!("expected an upstream error"),
    }
    match blob_outcome(500, "sha256:a") {
        Err(e) => {
            assert_eq!(e.status_code(), 502);
            assert_eq!(e.message(), "Upstream registry error: unexpected status 500");
        }
        _ => panic!("expected an upstream error"),
    }
    match manifest_outcome(503, None, "latest") {
        Err(ProxyError::Upstream(m)) => assert_eq!(m, "unexpected status 503"),
        _ => panic!("expected an upstream error"),
    }
    assert!(blob_outcome(204, "sha256:a").is_ok());
    assert!(blob_outcome(301, "sha256:a").is_err());
    assert!(blob_outcome(199, "sha256:a").is_err());
}

#[test]
fn tag_listing_outcomes() {
    assert!(tags_outcome(200, "library/alpine").is_ok());
    match tags_outcome(404, "library/alpine") {
        Err(ProxyError::NotFound(m)) => assert_eq!(m, "Tags not found: library/alpine"),
        _ => panic!("expected NotFound"),
    }
    match tags_outcome(401, "library/alpine") {
        Err(ProxyError::Upstream(m)) => assert_eq!(m, "unexpected status 401"),
        _ => panic!("expected an upstream error"),
    }
}
