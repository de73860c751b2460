use krust::config::{effective_base_image, BuildConfig, Config, ProjectConfig};

#[test]
fn test_default_config() {
    let config = Config::default();
    assert_eq!(config.base_image, "cgr.dev/chainguard/static:latest");
    assert!(config.default_registry.is_none());
    assert!(config.registries.is_empty());
}

#[test]
fn test_build_config_default() {
    let build_config = BuildConfig::default();
    assert!(build_config.env.is_empty());
    assert!(build_config.cargo_args.is_empty());
    assert!(build_config.target_dir.is_none());
}

#[test]
fn test_effective_base_image() {
    let config = Config::default();
    let no_override = ProjectConfig::default();
    assert_eq!(effective_base_image(&no_override, &config), "cgr.dev/chainguard/static:latest");

    let with_override = ProjectConfig { base_image: Some("custom:latest".to_string()) };
    assert_eq!(effective_base_image(&with_override, &config), "custom:latest");
}
