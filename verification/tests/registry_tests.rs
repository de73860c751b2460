use krust::registry::{
    auth_plan, blob_url, choose_token, manifest_pull_reference, manifest_url, parse_auth_challenge,
    put_digest_url, token_request_url, upload_location_url, ImageReference, RegistryAuth,
    TokenPlan,
};
use krust::transport::{
    fetch_action, fetch_transition, upload_action, upload_transition, FetchEvent, FetchState,
    HttpMethod, UploadEvent, UploadState,
};

#[test]
fn test_parse_auth_challenge_quoted() {
    let header = "Bearer realm=\"https://auth.docker.io/token\",service=\"registry.docker.io\",scope=\"repository:library/alpine:pull\"";
    let c = parse_auth_challenge(header).unwrap();
    assert_eq!(c.realm, "https://auth.docker.io/token");
    assert_eq!(c.service, "registry.docker.io");
    assert_eq!(c.scope, "repository:library/alpine:pull");
}

#[test]
fn test_parse_auth_challenge_unquoted_and_spaced() {
    let header = "Bearer realm=https://ghcr.io/token , service=ghcr.io";
    let c = parse_auth_challenge(header).unwrap();
    assert_eq!(c.realm, "https://ghcr.io/token");
    assert_eq!(c.service, "ghcr.io");
    assert_eq!(c.scope, "");
}

#[test]
fn test_parse_auth_challenge_rejects_non_bearer() {
    assert!(parse_auth_challenge("Basic realm=\"x\"").is_none());
    assert!(parse_auth_challenge("Bearer service=\"x\"").is_none());
}

#[test]
fn test_token_request_url_scope_fallback() {
    let c = parse_auth_challenge("Bearer realm=\"https://auth.example.com/token\",service=\"reg\"")
        .unwrap();
    assert_eq!(
        token_request_url(&c, "library/alpine"),
        "https://auth.example.com/token?service=reg&scope=repository:library/alpine:pull,push"
    );

    let c2 = parse_auth_challenge(
        "Bearer realm=\"https://auth.example.com/token\",service=\"reg\",scope=\"repository:x:pull\"",
    )
    .unwrap();
    assert_eq!(
        token_request_url(&c2, "library/alpine"),
        "https://auth.example.com/token?service=reg&scope=repository:x:pull"
    );
}

#[test]
fn test_choose_token() {
    assert_eq!(choose_token("t".to_string(), "a".to_string()), "t");
    assert_eq!(choose_token("".to_string(), "a".to_string()), "a");
}

#[test]
fn test_auth_plan_oauth_disguise() {
    // a username of `_…` or `oauth2accesstoken` marks the password as a
    // ready bearer token
    let plan = auth_plan(&RegistryAuth::Basic {
        username: "oauth2accesstoken".to_string(),
        password: "ya29.token".to_string(),
    });
    assert!(matches!(plan, TokenPlan::UseToken { token } if token == "ya29.token"));

    let plan = auth_plan(&RegistryAuth::Basic {
        username: "_dcgcloud_token".to_string(),
        password: "tok".to_string(),
    });
    assert!(matches!(plan, TokenPlan::UseToken { token } if token == "tok"));

    let plan = auth_plan(&RegistryAuth::Basic {
        username: "user".to_string(),
        password: "pass".to_string(),
    });
    assert!(matches!(
        plan,
        TokenPlan::ExchangeBasic { username, password }
        if username == "user" && password == "pass"
    ));

    assert!(matches!(auth_plan(&RegistryAuth::Anonymous), TokenPlan::ExchangeAnonymous));
}

#[test]
fn test_urls() {
    assert_eq!(
        blob_url("r.example.com", "a/b", "sha256:x"),
        "https://r.example.com/v2/a/b/blobs/sha256:x"
    );
    assert_eq!(
        manifest_url("r.example.com", "a/b", "latest"),
        "https://r.example.com/v2/a/b/manifests/latest"
    );
}

#[test]
fn test_upload_url_canonicalization() {
    // absolute location, no query string
    assert_eq!(
        put_digest_url("https://s.example.com/upload/1", "r", "a/b", "sha256:x"),
        "https://s.example.com/upload/1?digest=sha256:x"
    );
    // absolute location with a query string
    assert_eq!(
        put_digest_url("https://s.example.com/upload/1?k=v", "r", "a/b", "sha256:x"),
        "https://s.example.com/upload/1?k=v&digest=sha256:x"
    );
    // root-relative locations, the registry's own path and a storage
    // backend's alike
    assert_eq!(
        put_digest_url("/v2/a/b/blobs/uploads/uuid", "r.example.com", "a/b", "sha256:x"),
        "https://r.example.com/v2/a/b/blobs/uploads/uuid?digest=sha256:x"
    );
    assert_eq!(
        put_digest_url("/artifacts-uploads/xyz", "r.example.com", "a/b", "sha256:x"),
        "https://r.example.com/artifacts-uploads/xyz?digest=sha256:x"
    );
    assert_eq!(
        put_digest_url("/artifacts-uploads/xyz?u=1", "r.example.com", "a/b", "sha256:x"),
        "https://r.example.com/artifacts-uploads/xyz?u=1&digest=sha256:x"
    );
    // bare session id
    assert_eq!(
        put_digest_url("uuid", "r.example.com", "a/b", "sha256:x"),
        "https://r.example.com/v2/a/b/blobs/uploads/uuid?digest=sha256:x"
    );
    assert_eq!(
        upload_location_url("/artifacts-uploads/xyz", "r.example.com", "a/b"),
        "https://r.example.com/artifacts-uploads/xyz"
    );
}

#[test]
fn test_manifest_pull_reference() {
    let r = ImageReference::parse("alpine@sha256:abc").unwrap();
    assert_eq!(manifest_pull_reference(&r), "sha256:abc");
    let r = ImageReference::parse("alpine:3.18").unwrap();
    assert_eq!(manifest_pull_reference(&r), "3.18");
    let r = ImageReference::parse("alpine").unwrap();
    assert_eq!(manifest_pull_reference(&r), "latest");
}

#[test]
fn test_upload_skips_present_blob() {
    // a blob the HEAD check finds present is never uploaded: the machine
    // finishes after the single HEAD request
    let s0 = UploadState::CheckExisting;
    let first = upload_action("r", "a/b", "sha256:x", &s0).unwrap();
    assert_eq!(first.method, HttpMethod::Head);
    assert!(!first.carries_blob);

    let s1 = upload_transition(s0, UploadEvent::Success { location: None });
    assert!(matches!(s1, UploadState::Done { already_present: true }));
    assert!(upload_action("r", "a/b", "sha256:x", &s1).is_none());
}

#[test]
fn test_upload_monolithic_path() {
    let s0 = UploadState::CheckExisting;
    let s1 = upload_transition(s0, UploadEvent::Error);
    assert!(matches!(s1, UploadState::StartUpload));
    let post = upload_action("r", "a/b", "sha256:x", &s1).unwrap();
    assert_eq!(post.method, HttpMethod::Post);
    assert_eq!(post.url, "https://r/v2/a/b/blobs/uploads/");

    let s2 = upload_transition(
        s1,
        UploadEvent::Success { location: Some("/v2/a/b/blobs/uploads/uuid".to_string()) },
    );
    let put = upload_action("r", "a/b", "sha256:x", &s2).unwrap();
    assert_eq!(put.method, HttpMethod::Put);
    assert!(put.carries_blob);
    assert_eq!(put.url, "https://r/v2/a/b/blobs/uploads/uuid?digest=sha256:x");

    let s3 = upload_transition(s2, UploadEvent::Success { location: None });
    assert!(matches!(s3, UploadState::Done { already_present: false }));
}

#[test]
fn test_upload_resumable_path() {
    // a registry that redirects the monolithic PUT demands the resumable
    // form: PATCH with the data, then a zero-length finalizing PUT
    let s0 = UploadState::CheckExisting;
    let s1 = upload_transition(s0, UploadEvent::Error);
    let s2 = upload_transition(s1, UploadEvent::Success { location: Some("uuid".to_string()) });
    let s3 = upload_transition(s2, UploadEvent::Redirect { location: None });
    let patch = upload_action("r", "a/b", "sha256:x", &s3).unwrap();
    assert_eq!(patch.method, HttpMethod::Patch);
    assert!(patch.carries_blob);
    assert_eq!(patch.url, "https://r/v2/a/b/blobs/uploads/uuid");

    let s4 = upload_transition(
        s3,
        UploadEvent::Success { location: Some("/v2/a/b/blobs/uploads/uuid2".to_string()) },
    );
    let fin = upload_action("r", "a/b", "sha256:x", &s4).unwrap();
    assert_eq!(fin.method, HttpMethod::Put);
    assert!(!fin.carries_blob);
    assert_eq!(fin.url, "https://r/v2/a/b/blobs/uploads/uuid2?digest=sha256:x");

    let s5 = upload_transition(s4, UploadEvent::Success { location: None });
    assert!(matches!(s5, UploadState::Done { already_present: false }));
}

#[test]
fn test_upload_failure_paths() {
    let s = upload_transition(UploadState::StartUpload, UploadEvent::Success { location: None });
    assert!(matches!(s, UploadState::Failed));
    let s = upload_transition(
        UploadState::Monolithic { location: "l".to_string() },
        UploadEvent::Error,
    );
    assert!(matches!(s, UploadState::Failed));
    let s = upload_transition(
        UploadState::Finalize { location: "l".to_string() },
        UploadEvent::Redirect { location: None },
    );
    assert!(matches!(s, UploadState::Failed));
}

#[test]
fn test_blob_fetch_redirect_drops_authorization() {
    // the first GET is authenticated; the redirect follow-up never is
    let s0 = FetchState::Fetch;
    let a0 = fetch_action("r", "a/b", "sha256:x", &s0).unwrap();
    assert!(a0.with_auth);
    assert_eq!(a0.url, "https://r/v2/a/b/blobs/sha256:x");

    let s1 = fetch_transition(
        s0,
        FetchEvent::Redirect { location: Some("https://cdn.example.com/blob".to_string()) },
    );
    let a1 = fetch_action("r", "a/b", "sha256:x", &s1).unwrap();
    assert!(!a1.with_auth);
    assert_eq!(a1.url, "https://cdn.example.com/blob");

    let s2 = fetch_transition(s1, FetchEvent::Success);
    assert!(matches!(s2, FetchState::Done));

    // a redirect without a location fails; a second redirect is never
    // followed
    let s = fetch_transition(FetchState::Fetch, FetchEvent::Redirect { location: None });
    assert!(matches!(s, FetchState::Failed));
    let s = fetch_transition(
        FetchState::FollowRedirect { location: "x".to_string() },
        FetchEvent::Redirect { location: Some("y".to_string()) },
    );
    assert!(matches!(s, FetchState::Failed));
}
