use krust::service::{digest_from_reference, platform_descriptor, BuildConfig};

#[test]
fn test_build_config_creation() {
    let config = BuildConfig {
        project_path: "/test".to_string(),
        base_image: "alpine:latest".to_string(),
        target_repo: "example.com/repo".to_string(),
        platforms: vec!["linux/amd64".to_string()],
        no_push: false,
        tag: Some("latest".to_string()),
        cargo_args: vec![],
    };

    assert_eq!(config.project_path, "/test");
    assert_eq!(config.base_image, "alpine:latest");
    assert_eq!(config.platforms.len(), 1);
}

#[test]
fn test_digest_from_reference() {
    assert_eq!(
        digest_from_reference("ttl.sh/test/app@sha256:abc123"),
        "sha256:abc123"
    );
    assert_eq!(digest_from_reference("no-digest"), "no-digest");
}

#[test]
fn test_platform_descriptor_fields() {
    let d = platform_descriptor(
        "sha256:abc".to_string(),
        42,
        "linux".to_string(),
        "amd64".to_string(),
    );
    assert_eq!(d.media_type, "application/vnd.oci.image.manifest.v1+json");
    assert_eq!(d.size, 42);
    assert_eq!(d.digest, "sha256:abc");
    assert_eq!(d.platform.os, "linux");
    assert_eq!(d.platform.architecture, "amd64");
    assert!(d.platform.variant.is_none());
}
