use base64::Engine;
use krust::auth::{
    resolve_auth, AuthConfig, DefaultKeychain, DockerAuthEntry, DockerConfig, MultiKeychain,
};
use krust::registry::RegistryAuth;

fn entry(
    auth: Option<&str>,
    username: Option<&str>,
    password: Option<&str>,
    identity_token: Option<&str>,
    registry_token: Option<&str>,
) -> DockerAuthEntry {
    DockerAuthEntry {
        auth: auth.map(|s| s.to_string()),
        username: username.map(|s| s.to_string()),
        password: password.map(|s| s.to_string()),
        identity_token: identity_token.map(|s| s.to_string()),
        registry_token: registry_token.map(|s| s.to_string()),
    }
}

#[test]
fn test_extract_registry() {
    assert_eq!(
        DefaultKeychain::extract_registry("docker.io/library/ubuntu:latest"),
        "docker.io"
    );
    assert_eq!(DefaultKeychain::extract_registry("gcr.io/project/image:tag"), "gcr.io");
    assert_eq!(DefaultKeychain::extract_registry("localhost:5000/image"), "localhost:5000");
    assert_eq!(DefaultKeychain::extract_registry("ubuntu:latest"), "index.docker.io");
    assert_eq!(DefaultKeychain::extract_registry("user/image:tag"), "index.docker.io");
}

#[test]
fn test_normalize_registry() {
    let variants = DefaultKeychain::normalize_registry("docker.io");
    assert!(variants.contains(&"docker.io".to_string()));
    assert!(variants.contains(&"index.docker.io".to_string()));

    let variants = DefaultKeychain::normalize_registry("gcr.io");
    assert!(variants.contains(&"gcr.io".to_string()));
    assert!(variants.contains(&"https://gcr.io".to_string()));
}

#[test]
fn test_docker_auth_entry_to_auth_config() {
    let e = entry(Some("dXNlcjpwYXNz"), None, None, None, None);
    let config = e.to_auth_config();
    assert_eq!(config.auth, Some("dXNlcjpwYXNz".to_string()));
    assert!(config.username.is_none());
    assert!(config.password.is_none());
}

#[test]
fn test_auth_config_anonymous() {
    let auth = AuthConfig::anonymous();
    assert!(auth.is_anonymous());
    assert_eq!(auth.to_authorization_header().unwrap(), None);
}

#[test]
fn test_auth_config_basic() {
    let auth = AuthConfig::new("user".to_string(), "pass".to_string());
    assert!(!auth.is_anonymous());

    let header = auth.to_authorization_header().unwrap().unwrap();
    assert!(header.starts_with("Basic "));

    let expected = base64::engine::general_purpose::STANDARD.encode("user:pass");
    assert_eq!(header, format!("Basic {}", expected));
}

#[test]
fn test_auth_config_bearer() {
    let auth = AuthConfig {
        username: None,
        password: None,
        auth: None,
        identity_token: None,
        registry_token: Some("token123".to_string()),
    };

    let header = auth.to_authorization_header().unwrap().unwrap();
    assert_eq!(header, "Bearer token123");
}

#[test]
fn test_auth_config_to_registry_auth() {
    let auth = AuthConfig::anonymous();
    assert!(matches!(auth.to_registry_auth(), RegistryAuth::Anonymous));

    let auth = AuthConfig::new("user".to_string(), "pass".to_string());
    assert!(matches!(
        auth.to_registry_auth(),
        RegistryAuth::Basic { username, password }
        if username == "user" && password == "pass"
    ));

    let auth = AuthConfig {
        username: None,
        password: None,
        auth: None,
        identity_token: None,
        registry_token: Some("token123".to_string()),
    };
    assert!(matches!(
        auth.to_registry_auth(),
        RegistryAuth::Bearer { token }
        if token == "token123"
    ));
}

#[test]
fn test_auth_blob_round_trip() {
    // Encoding `user:pass` and decoding it back restores the fields, and
    // anonymous stays anonymous.
    let blob = base64::engine::general_purpose::STANDARD.encode("user:pass");
    let auth = AuthConfig {
        username: None,
        password: None,
        auth: Some(blob),
        identity_token: None,
        registry_token: None,
    };
    assert!(matches!(
        auth.to_registry_auth(),
        RegistryAuth::Basic { username, password }
        if username == "user" && password == "pass"
    ));
    assert!(matches!(AuthConfig::anonymous().to_registry_auth(), RegistryAuth::Anonymous));
}

#[test]
fn test_parse_auth_entry_empty_is_error() {
    let e = entry(None, None, None, None, None);
    let r = krust::auth::parse_auth_entry(&e);
    assert_eq!(r.unwrap_err(), krust::KrustError::AuthResolutionFailed);
}

#[test]
fn test_resolve_auth_from_config_entry() {
    // A config keyed by the historical `index.docker.io` spelling still
    // unlocks a pull of docker.io/library/x.
    let config = DockerConfig {
        auths: vec![(
            "index.docker.io".to_string(),
            entry(Some("dXNlcjpwYXNz"), None, None, None, None),
        )],
        cred_helpers: vec![],
        creds_store: None,
    };
    let auth = resolve_auth("docker.io/library/x", &config, &vec![]);
    assert!(matches!(
        auth,
        RegistryAuth::Basic { username, password }
        if username == "user" && password == "pass"
    ));
}

#[test]
fn test_resolve_auth_empty_config_is_anonymous() {
    let config = DockerConfig {
        auths: vec![],
        cred_helpers: vec![],
        creds_store: None,
    };
    let auth = resolve_auth("docker.io/library/alpine", &config, &vec![]);
    assert!(matches!(auth, RegistryAuth::Anonymous));
}

#[test]
fn test_resolve_auth_via_helper_results() {
    let config = DockerConfig {
        auths: vec![],
        cred_helpers: vec![("ecr.amazonaws.com".to_string(), "ecr-login".to_string())],
        creds_store: None,
    };
    let helpers =
        krust::auth::helper_candidates(&config, "ecr.amazonaws.com");
    assert_eq!(helpers, vec!["ecr-login".to_string()]);
    let auth = resolve_auth(
        "ecr.amazonaws.com/repo",
        &config,
        &vec![("helper-user".to_string(), "helper-pass".to_string())],
    );
    assert!(matches!(
        auth,
        RegistryAuth::Basic { username, password }
        if username == "helper-user" && password == "helper-pass"
    ));
}

#[test]
fn test_resolve_auth_bearer_entry() {
    let config = DockerConfig {
        auths: vec![(
            "ghcr.io".to_string(),
            entry(None, None, None, None, Some("ghp_token")),
        )],
        cred_helpers: vec![],
        creds_store: None,
    };
    let auth = resolve_auth("ghcr.io/user/image", &config, &vec![]);
    assert!(matches!(auth, RegistryAuth::Bearer { token } if token == "ghp_token"));
}

#[test]
fn test_find_auth_entry_matches_variants() {
    let keychain = DefaultKeychain::new();
    let config = DockerConfig {
        auths: vec![(
            "https://gcr.io".to_string(),
            entry(None, Some("u"), Some("p"), None, None),
        )],
        cred_helpers: vec![],
        creds_store: None,
    };
    let found = keychain.find_auth_entry(&config, "gcr.io");
    assert!(found.is_some());
    assert_eq!(found.unwrap().username, Some("u".to_string()));
    assert!(keychain.find_auth_entry(&config, "quay.io").is_none());
}

#[test]
fn test_get_credential_helper_prefers_specific() {
    let keychain = DefaultKeychain::new();
    let config = DockerConfig {
        auths: vec![],
        cred_helpers: vec![("ecr.amazonaws.com".to_string(), "ecr-login".to_string())],
        creds_store: Some("osxkeychain".to_string()),
    };
    assert_eq!(
        keychain.get_credential_helper(&config, "ecr.amazonaws.com"),
        Some("ecr-login".to_string())
    );
    assert_eq!(
        keychain.get_credential_helper(&config, "gcr.io"),
        Some("osxkeychain".to_string())
    );
}

#[test]
fn test_select_auth_anonymous_entry_falls_through() {
    // a found-but-empty auths entry decides nothing: the credential
    // helper's record wins
    let empty_entry = entry(None, None, None, None, None);
    let helper = AuthConfig::new("helper-user".to_string(), "helper-pass".to_string());
    let picked = DefaultKeychain::select_auth(Some(empty_entry), Some(helper));
    assert_eq!(picked.username, Some("helper-user".to_string()));

    // a usable entry still wins over the helper
    let usable = entry(Some("dXNlcjpwYXNz"), None, None, None, None);
    let helper = AuthConfig::new("helper-user".to_string(), "helper-pass".to_string());
    let picked = DefaultKeychain::select_auth(Some(usable), Some(helper));
    assert_eq!(picked.auth, Some("dXNlcjpwYXNz".to_string()));

    // nothing at all stays anonymous
    let picked = DefaultKeychain::select_auth(None, None);
    assert!(picked.is_anonymous());
}

#[test]
fn test_select_first_non_anonymous() {
    let results = vec![
        AuthConfig::anonymous(),
        AuthConfig::new("u".to_string(), "p".to_string()),
        AuthConfig::anonymous(),
    ];
    let picked = krust::auth::select_first_non_anonymous(&results);
    assert_eq!(picked.username, Some("u".to_string()));

    let nothing = krust::auth::select_first_non_anonymous(&vec![]);
    assert!(nothing.is_anonymous());

    let keychain = MultiKeychain::new(vec![DefaultKeychain::new()]);
    assert_eq!(keychain.keychains.len(), 1);
}
