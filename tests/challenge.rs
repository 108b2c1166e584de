use docker_registry_proxy::challenge::parse_www_authenticate;

#[test]
fn test_parse_www_authenticate() {
    let header = r#"Bearer realm="https://auth.docker.io/token",service="registry.docker.io",scope="repository:library/alpine:pull""#;
    let params = parse_www_authenticate(header);

    assert_eq!(params.get("realm").unwrap(), "https://auth.docker.io/token");
    assert_eq!(params.get("service").unwrap(), "registry.docker.io");
    assert_eq!(
        params.get("scope").unwrap(),
        "repository:library/alpine:pull"
    );
}

#[test]
fn test_parse_www_authenticate_without_bearer() {
    let header = "Basic realm=\"test\"";
    let params = parse_www_authenticate(header);
    assert!(params.is_empty());
}

#[test]
fn challenge_has_exactly_three_pairs() {
    let header = r#"Bearer realm="https://auth.docker.io/token",service="registry.docker.io",scope="repository:library/alpine:pull""#;
    let params = parse_www_authenticate(header);
    assert_eq!(params.pairs.len(), 3);
    assert_eq!(params.get("other"), None);
}

#[test]
fn challenge_trims_and_later_keys_win() {
    let params = parse_www_authenticate("  Bearer  a = \"1\" , junk ,a=\"2\",b=x=y  ");
    assert_eq!(params.get("a").unwrap(), "2");
    assert_eq!(params.get("b").unwrap(), "x=y");
    assert_eq!(params.get("junk"), None);
}

#[test]
fn bare_bearer_scheme_has_no_parameters() {
    assert!(parse_www_authenticate("Bearer").is_empty());
    assert!(parse_www_authenticate("").is_empty());
    assert!(parse_www_authenticate("Bearer ,,").is_empty());
}
