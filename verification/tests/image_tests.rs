use krust::image::{Config, History, ImageBuilder, ImageConfig, RootFs};
use std::io::Read;
use krust::registry::{OciDescriptor, OciImageManifest};

fn builder() -> ImageBuilder {
    ImageBuilder::new(
        "/tmp/test".to_string(),
        "test-base".to_string(),
        "linux/amd64".to_string(),
    )
}

fn create_base_image_config() -> ImageConfig {
    ImageConfig {
        architecture: "amd64".to_string(),
        os: "linux".to_string(),
        config: Config {
            env: vec![
                "PATH=/usr/local/bin:/usr/bin:/bin".to_string(),
                "SSL_CERT_FILE=/etc/ssl/certs/ca-certificates.crt".to_string(),
            ],
            cmd: None,
            working_dir: "/".to_string(),
            user: "nonroot:nonroot".to_string(),
        },
        rootfs: RootFs {
            fs_type: "layers".to_string(),
            diff_ids: vec![
                "sha256:base_layer_1".to_string(),
                "sha256:base_layer_2".to_string(),
            ],
        },
        history: vec![
            History {
                created: "2023-01-01T00:00:00Z".to_string(),
                created_by: "base-image-builder".to_string(),
                comment: "Base layer 1".to_string(),
                empty_layer: false,
            },
            History {
                created: "2023-01-01T00:01:00Z".to_string(),
                created_by: "base-image-builder".to_string(),
                comment: "Base layer 2".to_string(),
                empty_layer: false,
            },
        ],
    }
}

#[test]
fn mod_test_parse_platform() {
    let builder = builder();
    let (os, arch) = builder.parse_platform().unwrap();
    assert_eq!(os, "linux");
    assert_eq!(arch, "amd64");
}

#[test]
fn tests_test_parse_platform() {
    let builder = builder();
    let (os, arch) = builder.parse_platform().unwrap();
    assert_eq!(os, "linux");
    assert_eq!(arch, "amd64");
}

#[test]
fn test_parse_platform_invalid() {
    let builder = ImageBuilder::new(
        "/tmp/test".to_string(),
        "test-base".to_string(),
        "invalid-platform".to_string(),
    );
    assert!(builder.parse_platform().is_err());
}

#[test]
fn test_create_layered_config_preserves_base_environment() {
    let builder = builder();
    let base_config = create_base_image_config();
    let app_diff_id = "sha256:app_layer_diff_id";

    let result = builder.create_layered_config(&base_config, app_diff_id, "2023-06-01T00:00:00Z");

    assert!(result
        .config
        .env
        .contains(&"SSL_CERT_FILE=/etc/ssl/certs/ca-certificates.crt".to_string()));
    assert!(result.config.env.iter().any(|env| env.starts_with("PATH=")));
    assert_eq!(result.config.working_dir, "/");
    assert_eq!(result.config.user, "nonroot:nonroot");
    assert_eq!(result.architecture, "amd64");
    assert_eq!(result.os, "linux");
}

#[test]
fn test_create_layered_config_combines_diff_ids() {
    let builder = builder();
    let base_config = create_base_image_config();
    let app_diff_id = "sha256:app_layer_diff_id";

    let result = builder.create_layered_config(&base_config, app_diff_id, "2023-06-01T00:00:00Z");

    assert_eq!(result.rootfs.diff_ids.len(), 3);
    assert_eq!(result.rootfs.diff_ids[0], "sha256:base_layer_1");
    assert_eq!(result.rootfs.diff_ids[1], "sha256:base_layer_2");
    assert_eq!(result.rootfs.diff_ids[2], "sha256:app_layer_diff_id");
}

#[test]
fn test_create_layered_config_combines_history() {
    let builder = builder();
    let base_config = create_base_image_config();
    let app_diff_id = "sha256:app_layer_diff_id";

    let result = builder.create_layered_config(&base_config, app_diff_id, "2023-06-01T00:00:00Z");

    assert_eq!(result.history.len(), 3);
    assert_eq!(result.history[0].created_by, "base-image-builder");
    assert_eq!(result.history[1].created_by, "base-image-builder");
    assert_eq!(result.history[2].created_by, "krust");
    assert_eq!(result.history[2].comment, "Built with krust");
    assert!(!result.history[2].empty_layer);
}

#[test]
fn test_create_layered_config_adds_default_path() {
    let builder = builder();
    let mut base_config = create_base_image_config();
    base_config.config.env = vec!["HOME=/home".to_string()];

    let result = builder.create_layered_config(&base_config, "sha256:x", "t");
    assert_eq!(result.config.env.len(), 2);
    assert_eq!(
        result.config.env[1],
        "PATH=/usr/local/sbin:/usr/local/bin:/usr/sbin:/usr/bin:/sbin:/bin"
    );
    assert_eq!(result.config.cmd, Some(vec!["/app/test".to_string()]));
}

#[test]
fn test_create_layer_produces_gzip_and_diff_id() {
    let builder = builder();
    let data = b"fake binary content".to_vec();
    let (layer, diff_id) = builder.create_layer(&data).unwrap();

    // gzip magic bytes and the reproducible flate2 header
    assert_eq!(layer[0], 0x1f);
    assert_eq!(layer[1], 0x8b);
    assert!(diff_id.starts_with("sha256:"));
    assert_eq!(diff_id.len(), 7 + 64);

    // the same input yields byte-identical output
    let (layer2, diff_id2) = builder.create_layer(&data).unwrap();
    assert_eq!(layer, layer2);
    assert_eq!(diff_id, diff_id2);
}

#[test]
fn test_create_layer_tar_layout() {
    let builder = builder();
    let data = b"fake binary content".to_vec();
    let (layer, diff_id) = builder.create_layer(&data).unwrap();

    // decompress and check the tar: one 512-byte header naming app/test,
    // one padded data block, and the 1024-byte end-of-archive marker
    let mut tar = Vec::new();
    flate2::read::GzDecoder::new(layer.as_slice()).read_to_end(&mut tar).unwrap();
    assert_eq!(tar.len(), 512 + 512 + 1024);
    assert!(tar.starts_with(b"app/test\0"));
    assert_eq!(&tar[512..512 + data.len()], data.as_slice());

    // the diff id is the digest of exactly those tar bytes
    assert_eq!(diff_id, format!("sha256:{}", sha256::digest(tar.as_slice())));
}

#[test]
fn test_create_layer_rejects_unusable_file_name() {
    // a path whose file name cannot stand as a tar entry is refused
    // rather than handed to the archive builder
    let bad = ImageBuilder::new(
        "/tmp/..".to_string(),
        "test-base".to_string(),
        "linux/amd64".to_string(),
    );
    assert_eq!(bad.create_layer(b"x").unwrap_err(), krust::KrustError::IoError);

    let empty = ImageBuilder::new(
        "/tmp/".to_string(),
        "test-base".to_string(),
        "linux/amd64".to_string(),
    );
    assert!(empty.create_layer(b"x").is_err());
}

#[test]
fn test_render_image_config_exact() {
    let config = ImageConfig {
        architecture: "amd64".to_string(),
        os: "linux".to_string(),
        config: Config {
            env: vec!["A=1".to_string()],
            cmd: None,
            working_dir: "/".to_string(),
            user: "u".to_string(),
        },
        rootfs: RootFs { fs_type: "layers".to_string(), diff_ids: vec!["sha256:d".to_string()] },
        history: vec![],
    };
    let json = krust::image::render_image_config(&config);
    assert_eq!(
        json,
        "{\"architecture\":\"amd64\",\"os\":\"linux\",\"config\":{\"Env\":[\"A=1\"],\"Cmd\":null,\"WorkingDir\":\"/\",\"User\":\"u\"},\"rootfs\":{\"type\":\"layers\",\"diff_ids\":[\"sha256:d\"]},\"history\":[]}"
    );

    // the rendering is valid JSON with the same fields
    let v: serde_json::Value = serde_json::from_str(&json).unwrap();
    assert_eq!(v["architecture"], "amd64");
    assert_eq!(v["rootfs"]["diff_ids"][0], "sha256:d");
    assert!(v["config"]["Cmd"].is_null());
}

#[test]
fn test_build_appends_exactly_one_layer() {
    let builder = builder();
    let base_config = create_base_image_config();
    let base_manifest = OciImageManifest {
        schema_version: 2,
        media_type: "application/vnd.oci.image.manifest.v1+json".to_string(),
        config: Some(OciDescriptor {
            media_type: "application/vnd.oci.image.config.v1+json".to_string(),
            digest: "sha256:cfg".to_string(),
            size: 10,
        }),
        layers: vec![
            OciDescriptor {
                media_type: "application/vnd.oci.image.layer.v1.tar+gzip".to_string(),
                digest: "sha256:layer1".to_string(),
                size: 100,
            },
            OciDescriptor {
                media_type: "application/vnd.oci.image.layer.v1.tar+gzip".to_string(),
                digest: "sha256:layer2".to_string(),
                size: 200,
            },
        ],
    };
    let data = b"hello".to_vec();
    let (config_bytes, layer_bytes, manifest) = builder
        .build(&data, &base_manifest, &base_config, "2023-06-01T00:00:00Z")
        .unwrap();

    // layers are the base's layers followed by exactly one new layer
    assert_eq!(manifest.layers.len(), 3);
    assert_eq!(manifest.layers[0].digest, "sha256:layer1");
    assert_eq!(manifest.layers[1].digest, "sha256:layer2");
    assert_eq!(
        manifest.layers[2].media_type,
        "application/vnd.docker.image.rootfs.diff.tar.gzip"
    );
    assert_eq!(manifest.layers[2].size, layer_bytes.len() as i64);
    assert_eq!(manifest.config.size, config_bytes.len() as i64);
    assert!(manifest.config.digest.starts_with("sha256:"));

    // the emitted config appends the new diff id after the base's
    let v: serde_json::Value = serde_json::from_slice(&config_bytes).unwrap();
    let diff_ids = v["rootfs"]["diff_ids"].as_array().unwrap();
    assert_eq!(diff_ids.len(), 3);
    assert_eq!(diff_ids[0], "sha256:base_layer_1");
    assert_eq!(diff_ids[1], "sha256:base_layer_2");

    // reproducibility: the same inputs give the same bytes
    let (config_bytes2, layer_bytes2, manifest2) = builder
        .build(&data, &base_manifest, &base_config, "2023-06-01T00:00:00Z")
        .unwrap();
    assert_eq!(config_bytes, config_bytes2);
    assert_eq!(layer_bytes, layer_bytes2);
    assert_eq!(manifest.config.digest, manifest2.config.digest);
    assert_eq!(manifest.layers[2].digest, manifest2.layers[2].digest);
}
