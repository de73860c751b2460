use krust::image::{Descriptor, Manifest};
use krust::manifest::{
    build_image_manifest, compose_layered_manifest, digest_reference, index_to_oci, layers_to_copy,
    needs_layer_copy, render_oci_index, render_oci_manifest, resolve_manifest_response, ImageIndex,
    ManifestDescriptor, ManifestResolution, ManifestResponse, Platform,
};
use krust::registry::{ImageIndexEntry, ImageReference, OciDescriptor, OciImageIndex, OciImageManifest};

fn sample_manifest() -> OciImageManifest {
    OciImageManifest {
        schema_version: 2,
        media_type: "application/vnd.oci.image.manifest.v1+json".to_string(),
        config: Some(OciDescriptor {
            media_type: "application/vnd.oci.image.config.v1+json".to_string(),
            digest: "sha256:cfg".to_string(),
            size: 7,
        }),
        layers: vec![OciDescriptor {
            media_type: "application/vnd.oci.image.layer.v1.tar+gzip".to_string(),
            digest: "sha256:l1".to_string(),
            size: 9,
        }],
    }
}

#[test]
fn test_render_oci_manifest_exact() {
    let json = render_oci_manifest(&sample_manifest());
    assert_eq!(
        json,
        "{\"schemaVersion\":2,\"mediaType\":\"application/vnd.oci.image.manifest.v1+json\",\"config\":{\"mediaType\":\"application/vnd.oci.image.config.v1+json\",\"digest\":\"sha256:cfg\",\"size\":7},\"layers\":[{\"mediaType\":\"application/vnd.oci.image.layer.v1.tar+gzip\",\"digest\":\"sha256:l1\",\"size\":9}]}"
    );
}

#[test]
fn test_manifest_json_round_trip_preserves_digest() {
    // serialize, reread the fields through a JSON parser, rebuild, and
    // serialize again: the bytes — and so the digest — are identical
    let m = sample_manifest();
    let json = render_oci_manifest(&m);
    let v: serde_json::Value = serde_json::from_str(&json).unwrap();

    let config = v["config"].clone();
    let layers = v["layers"].as_array().unwrap();
    let rebuilt = OciImageManifest {
        schema_version: v["schemaVersion"].as_i64().unwrap() as i32,
        media_type: v["mediaType"].as_str().unwrap().to_string(),
        config: Some(OciDescriptor {
            media_type: config["mediaType"].as_str().unwrap().to_string(),
            digest: config["digest"].as_str().unwrap().to_string(),
            size: config["size"].as_i64().unwrap(),
        }),
        layers: layers
            .iter()
            .map(|l| OciDescriptor {
                media_type: l["mediaType"].as_str().unwrap().to_string(),
                digest: l["digest"].as_str().unwrap().to_string(),
                size: l["size"].as_i64().unwrap(),
            })
            .collect(),
    };
    let json2 = render_oci_manifest(&rebuilt);
    assert_eq!(json, json2);
    assert_eq!(sha256::digest(json.as_bytes()), sha256::digest(json2.as_bytes()));
}

#[test]
fn test_index_round_trip_preserves_digest() {
    let index = ImageIndex::new(vec![ManifestDescriptor {
        media_type: "application/vnd.oci.image.manifest.v1+json".to_string(),
        size: 10,
        digest: "sha256:m1".to_string(),
        platform: Platform {
            architecture: "amd64".to_string(),
            os: "linux".to_string(),
            variant: None,
        },
    }]);
    let oci = index_to_oci(&index);
    let json = render_oci_index(&oci);
    let v: serde_json::Value = serde_json::from_str(&json).unwrap();
    let entries = v["manifests"].as_array().unwrap();
    let rebuilt = OciImageIndex {
        schema_version: v["schemaVersion"].as_i64().unwrap() as i32,
        media_type: v["mediaType"].as_str().unwrap().to_string(),
        manifests: entries
            .iter()
            .map(|e| ImageIndexEntry {
                media_type: e["mediaType"].as_str().unwrap().to_string(),
                digest: e["digest"].as_str().unwrap().to_string(),
                size: e["size"].as_i64().unwrap(),
                platform: Some(krust::registry::Platform {
                    architecture: e["platform"]["architecture"].as_str().unwrap().to_string(),
                    os: e["platform"]["os"].as_str().unwrap().to_string(),
                    variant: e["platform"]["variant"].as_str().map(|s| s.to_string()),
                }),
            })
            .collect(),
    };
    let json2 = render_oci_index(&rebuilt);
    assert_eq!(json, json2);
}

#[test]
fn test_build_image_manifest_digests() {
    // sha256 of the empty byte string is a fixed, well-known value
    let manifest = build_image_manifest(
        &[],
        &vec![(b"layer".to_vec(), "application/vnd.oci.image.layer.v1.tar+gzip".to_string())],
    );
    let config = manifest.config.unwrap();
    assert_eq!(
        config.digest,
        "sha256:e3b0c44298fc1c149afbf4c8996fb92427ae41e4649b934ca495991b7852b855"
    );
    assert_eq!(config.size, 0);
    assert_eq!(manifest.layers.len(), 1);
    assert_eq!(manifest.layers[0].size, 5);
    assert_eq!(manifest.layers[0].digest, format!("sha256:{}", sha256::digest(&b"layer"[..])));
}

#[test]
fn test_compose_layered_manifest_keeps_layer_order() {
    let assembled = Manifest {
        schema_version: 2,
        media_type: "application/vnd.docker.distribution.manifest.v2+json".to_string(),
        config: Descriptor {
            media_type: "application/vnd.docker.container.image.v1+json".to_string(),
            size: 3,
            digest: "sha256:cfg".to_string(),
        },
        layers: vec![
            Descriptor {
                media_type: "m1".to_string(),
                size: 1,
                digest: "sha256:a".to_string(),
            },
            Descriptor {
                media_type: "m2".to_string(),
                size: 2,
                digest: "sha256:b".to_string(),
            },
        ],
    };
    let oci = compose_layered_manifest(b"xyz", &assembled);
    assert_eq!(oci.layers.len(), 2);
    assert_eq!(oci.layers[0].digest, "sha256:a");
    assert_eq!(oci.layers[1].digest, "sha256:b");
    assert_eq!(oci.media_type, "application/vnd.oci.image.manifest.v1+json");
}

#[test]
fn test_layers_to_copy_excludes_app_layer() {
    let assembled = Manifest {
        schema_version: 2,
        media_type: "m".to_string(),
        config: Descriptor {
            media_type: "c".to_string(),
            size: 0,
            digest: "sha256:cfg".to_string(),
        },
        layers: vec![
            Descriptor { media_type: "m1".to_string(), size: 1, digest: "sha256:a".to_string() },
            Descriptor { media_type: "m2".to_string(), size: 2, digest: "sha256:b".to_string() },
            Descriptor { media_type: "m3".to_string(), size: 3, digest: "sha256:new".to_string() },
        ],
    };
    let same_registry = layers_to_copy(&assembled, false);
    assert!(same_registry.is_empty());

    let cross = layers_to_copy(&assembled, true);
    assert_eq!(cross.len(), 2);
    assert_eq!(cross[0].digest, "sha256:a");
    assert_eq!(cross[1].digest, "sha256:b");

    let base = ImageReference::parse("cgr.dev/chainguard/static:latest").unwrap();
    let target = ImageReference::parse("ttl.sh/test/app").unwrap();
    assert!(needs_layer_copy(&base, &target));
    assert!(!needs_layer_copy(&base, &base));
}

#[test]
fn test_digest_reference_format() {
    assert_eq!(
        digest_reference("ttl.sh", "test/app", "sha256:abc"),
        "ttl.sh/test/app@sha256:abc"
    );
}

fn index_entry(os: &str, arch: &str, digest: &str) -> ImageIndexEntry {
    ImageIndexEntry {
        media_type: "application/vnd.oci.image.manifest.v1+json".to_string(),
        digest: digest.to_string(),
        size: 1,
        platform: Some(krust::registry::Platform {
            architecture: arch.to_string(),
            os: os.to_string(),
            variant: None,
        }),
    }
}

#[test]
fn test_single_platform_manifest_used_as_is() {
    // a single-platform manifest needs no platform selection at all
    let m = sample_manifest();
    let resolution = resolve_manifest_response(
        ManifestResponse::Manifest { manifest: m.clone() },
        "linux",
        "amd64",
    );
    match resolution {
        ManifestResolution::Use { manifest } => {
            assert_eq!(manifest.media_type, m.media_type);
            assert_eq!(manifest.layers.len(), m.layers.len());
        },
        _ => panic!("expected the manifest to be used as it stands"),
    }
}

#[test]
fn test_index_selects_matching_platform() {
    // an index defers to the entry serving the requested platform, not
    // simply to its first entry
    let index = OciImageIndex {
        schema_version: 2,
        media_type: "application/vnd.oci.image.index.v1+json".to_string(),
        manifests: vec![
            index_entry("linux", "amd64", "sha256:amd64"),
            index_entry("linux", "arm64", "sha256:arm64"),
        ],
    };
    let resolution = resolve_manifest_response(
        ManifestResponse::Index { index: index.clone() },
        "linux",
        "arm64",
    );
    assert!(matches!(
        resolution,
        ManifestResolution::FetchByDigest { digest } if digest == "sha256:arm64"
    ));

    // no entry for the platform: unusable
    let resolution =
        resolve_manifest_response(ManifestResponse::Index { index }, "linux", "s390x");
    assert!(matches!(resolution, ManifestResolution::NoMatch));

    // an empty index is unusable too
    let empty = OciImageIndex {
        schema_version: 2,
        media_type: "application/vnd.oci.image.index.v1+json".to_string(),
        manifests: vec![],
    };
    assert!(matches!(
        resolve_manifest_response(ManifestResponse::Index { index: empty }, "linux", "amd64"),
        ManifestResolution::NoMatch
    ));
}
