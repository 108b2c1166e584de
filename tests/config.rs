use docker_registry_proxy::config::{
    default_bind_address, default_port, AuthConfig, CacheConfig, Config, Registry, Repository,
    ServerConfig, UpstreamAuth,
};

fn sample_config(registry_id_of_myapp: &str) -> Config {
    Config {
        server: ServerConfig {
            bind_address: "127.0.0.1".to_string(),
            port: 8080,
        },
        auth: AuthConfig {
            jwt_secret: "test-secret".to_string(),
        },
        cache: CacheConfig {
            directory: "/tmp/cache".to_string(),
            max_size_bytes: 1073741824,
            max_age_seconds: 86400,
        },
        registries: vec![
            Registry {
                id: "dockerhub".to_string(),
                url: "https://registry-1.docker.io".to_string(),
                auth: None,
            },
            Registry {
                id: "private".to_string(),
                url: "https://private-registry.example.com".to_string(),
                auth: Some(UpstreamAuth {
                    username: "user".to_string(),
                    password: "pass".to_string(),
                }),
            },
        ],
        repositories: vec![
            Repository {
                name: "myapp".to_string(),
                registry_id: registry_id_of_myapp.to_string(),
                upstream_name: "library/myapp".to_string(),
            },
            Repository {
                name: "private/app".to_string(),
                registry_id: "private".to_string(),
                upstream_name: "team/app".to_string(),
            },
        ],
    }
}

#[test]
fn test_validation_invalid_registry_id() {
    let config = sample_config("nonexistent");
    let result = config.validate();
    assert!(result.is_err());
    assert_eq!(
        result.unwrap_err(),
        "Repository 'myapp' references unknown registry_id 'nonexistent'"
    );
}

#[test]
fn valid_config_resolves_mappings() {
    let config = sample_config("dockerhub");
    assert!(config.validate().is_ok());

    let resolved = config.resolve_repository("myapp").unwrap();
    assert_eq!(resolved.upstream_name, "library/myapp");
    assert_eq!(resolved.registry_url, "https://registry-1.docker.io");
    assert!(resolved.auth.is_none());

    let private = config.resolve_repository("private/app").unwrap();
    assert_eq!(private.upstream_name, "team/app");
    assert_eq!(private.registry_url, "https://private-registry.example.com");
    let auth = private.auth.unwrap();
    assert_eq!(auth.username, "user");
    assert_eq!(auth.password, "pass");
}

#[test]
fn unmapped_or_dangling_repository_is_absent() {
    let config = sample_config("dockerhub");
    assert!(config.resolve_repository("unknown").is_none());
    assert!(config.resolve_repository("myap").is_none());
    let dangling = sample_config("nonexistent");
    assert!(dangling.resolve_repository("myapp").is_none());
}

#[test]
fn server_defaults() {
    assert_eq!(default_bind_address(), "0.0.0.0");
    assert_eq!(default_port(), 5000);
}
