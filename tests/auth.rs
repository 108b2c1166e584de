use docker_registry_proxy::auth::{
    check_repository_access, check_token_expiry, extract_bearer_token, invalid_token, require_bearer_token,
    AccessLevel, Claims,
};
use docker_registry_proxy::error::ProxyError;

#[test]
fn test_access_level_all() {
    let access = AccessLevel::All;
    assert!(access.can_access("any/repository"));
    assert!(access.can_access("another/one"));
}

#[test]
fn test_access_level_specific_repos() {
    let access = AccessLevel::Repositories {
        repos: vec!["myapp".to_string(), "team/app".to_string()],
    };

    assert!(access.can_access("myapp"));
    assert!(access.can_access("team/app"));
    assert!(access.can_access("team/app/subpath"));
    assert!(!access.can_access("other"));
    assert!(!access.can_access("team/other"));
}

#[test]
fn test_check_repository_access() {
    let claims = Claims {
        sub: "user".to_string(),
        exp: None,
        access: AccessLevel::Repositories {
            repos: vec!["allowed".to_string()],
        },
    };

    assert!(check_repository_access(&claims, "allowed").is_ok());
    assert!(check_repository_access(&claims, "denied").is_err());
}

#[test]
fn test_check_access_with_all_permission() {
    let claims = Claims {
        sub: "user".to_string(),
        exp: None,
        access: AccessLevel::All,
    };

    assert!(check_repository_access(&claims, "any/repo").is_ok());
}

#[test]
fn test_check_access_with_specific_repos() {
    let claims = Claims {
        sub: "user".to_string(),
        exp: None,
        access: AccessLevel::Repositories {
            repos: vec!["allowed".to_string()],
        },
    };

    assert!(check_repository_access(&claims, "allowed").is_ok());
    assert!(check_repository_access(&claims, "denied").is_err());
}

#[test]
fn all_access_grants_single_segment() {
    let access = AccessLevel::All;
    assert!(access.can_access("any/repo"));
    assert!(access.can_access("x"));
    assert!(access.can_access(""));
}

#[test]
fn prefix_needs_slash_boundary() {
    let access = AccessLevel::Repositories {
        repos: vec!["team/app".to_string()],
    };
    assert!(access.can_access("team/app"));
    assert!(access.can_access("team/app/subpath"));
    assert!(!access.can_access("team/other"));
    assert!(!access.can_access("team"));
    assert!(!access.can_access("team/app-private"));
}

#[test]
fn empty_repository_list_denies_everything() {
    let access = AccessLevel::Repositories { repos: vec![] };
    assert!(!access.can_access("anything"));
    assert!(!access.can_access(""));
}

#[test]
fn denied_access_message() {
    let claims = Claims {
        sub: "u".to_string(),
        exp: None,
        access: AccessLevel::Repositories {
            repos: vec!["team/app".to_string()],
        },
    };
    match check_repository_access(&claims, "team/other") {
        Err(ProxyError::Forbidden(m)) => {
            assert_eq!(m, "Access denied to repository: team/other")
        }
        _ => panic!("expected Forbidden"),
    }
}

#[test]
fn bearer_token_extraction() {
    assert_eq!(
        extract_bearer_token(Some("Bearer abc.def.ghi")),
        Some("abc.def.ghi".to_string())
    );
    assert_eq!(extract_bearer_token(Some("bearer abc")), None);
    assert_eq!(extract_bearer_token(Some("Bearer")), None);
    assert_eq!(extract_bearer_token(Some("Basic abc")), None);
    assert_eq!(extract_bearer_token(None), None);
    assert_eq!(extract_bearer_token(Some("Bearer ")), Some(String::new()));
}

#[test]
fn missing_token_is_unauthorized() {
    match require_bearer_token(None) {
        Err(ProxyError::Unauthorized(m)) => {
            assert_eq!(m, "Missing or invalid Authorization header")
        }
        _ => panic!("expected Unauthorized"),
    }
    match invalid_token("InvalidSignature") {
        ProxyError::Unauthorized(m) => assert_eq!(m, "Invalid token: InvalidSignature"),
        _ => panic!("expected Unauthorized"),
    }
}

#[test]
fn token_expiry_is_strict() {
    let mut claims = Claims {
        sub: "u".to_string(),
        exp: None,
        access: AccessLevel::All,
    };
    assert!(check_token_expiry(&claims, 1_000).is_ok());
    claims.exp = Some(1_000);
    assert!(check_token_expiry(&claims, 999).is_ok());
    match check_token_expiry(&claims, 1_000) {
        Err(ProxyError::Unauthorized(m)) => assert_eq!(m, "Invalid token: ExpiredSignature"),
        _ => panic!("expected Unauthorized"),
    }
    assert!(check_token_expiry(&claims, 1_001).is_err());
}
