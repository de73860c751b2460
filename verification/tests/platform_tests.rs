use krust::platform::PlatformDetector;
use krust::registry::{ImageIndexEntry, OciImageIndex, Platform};

fn entry(os: &str, arch: &str, variant: Option<&str>) -> ImageIndexEntry {
    ImageIndexEntry {
        media_type: "application/vnd.oci.image.manifest.v1+json".to_string(),
        digest: "sha256:x".to_string(),
        size: 1,
        platform: Some(Platform {
            architecture: arch.to_string(),
            os: os.to_string(),
            variant: variant.map(|v| v.to_string()),
        }),
    }
}

fn index_of(entries: Vec<ImageIndexEntry>) -> OciImageIndex {
    OciImageIndex {
        schema_version: 2,
        media_type: "application/vnd.oci.image.index.v1+json".to_string(),
        manifests: entries,
    }
}

#[test]
fn test_default_platforms() {
    let platforms = PlatformDetector::default_platforms();
    assert_eq!(platforms.len(), 2);
    assert_eq!(platforms[0], "linux/amd64");
    assert_eq!(platforms[1], "linux/arm64");
}

#[test]
fn test_platforms_from_index_filters_unknown() {
    // an (unknown, unknown) attestation entry is filtered out before
    // discovery
    let index = index_of(vec![
        entry("linux", "amd64", None),
        entry("unknown", "unknown", None),
        entry("linux", "arm64", Some("v8")),
    ]);
    let platforms = PlatformDetector::platforms_from_index(&index);
    assert_eq!(platforms, vec!["linux/amd64".to_string(), "linux/arm64".to_string()]);
}

#[test]
fn test_platforms_from_index_keeps_other_variants() {
    let index = index_of(vec![entry("linux", "arm", Some("v7")), entry("", "amd64", None)]);
    let platforms = PlatformDetector::platforms_from_index(&index);
    assert_eq!(platforms, vec!["linux/arm/v7".to_string()]);
}

#[test]
fn test_choose_platforms() {
    let chosen = PlatformDetector::choose_platforms(Some(vec!["linux/s390x".to_string()]));
    assert_eq!(chosen, vec!["linux/s390x".to_string()]);

    let fallback = PlatformDetector::choose_platforms(Some(vec![]));
    assert_eq!(fallback, vec!["linux/amd64".to_string(), "linux/arm64".to_string()]);

    let fallback = PlatformDetector::choose_platforms(None);
    assert_eq!(fallback, vec!["linux/amd64".to_string(), "linux/arm64".to_string()]);
}
