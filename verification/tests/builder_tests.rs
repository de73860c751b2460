use krust::builder::{get_rust_target_triple, resolve_binary_name, rustflags_for_target, RustBuilder};

#[test]
fn test_get_rust_target_triple() {
    assert_eq!(get_rust_target_triple("linux/amd64").unwrap(), "x86_64-unknown-linux-musl");
    assert_eq!(get_rust_target_triple("linux/arm64").unwrap(), "aarch64-unknown-linux-musl");
    assert_eq!(get_rust_target_triple("linux/arm/v7").unwrap(), "armv7-unknown-linux-musleabihf");
    assert_eq!(get_rust_target_triple("linux/arm/v6").unwrap(), "arm-unknown-linux-musleabihf");
    assert_eq!(get_rust_target_triple("linux/386").unwrap(), "i686-unknown-linux-musl");
    assert_eq!(get_rust_target_triple("linux/ppc64le").unwrap(), "powerpc64le-unknown-linux-musl");
    assert_eq!(get_rust_target_triple("linux/s390x").unwrap(), "s390x-unknown-linux-musl");
    assert_eq!(get_rust_target_triple("linux/riscv64").unwrap(), "riscv64gc-unknown-linux-musl");
    assert!(get_rust_target_triple("windows/amd64").is_err());
}

#[test]
fn test_rust_builder_with_cargo_args() {
    let builder = RustBuilder::new("/tmp/project", "x86_64-unknown-linux-musl")
        .with_cargo_args(vec!["--features".to_string(), "foo".to_string()]);

    assert_eq!(builder.cargo_args, vec!["--features", "foo"]);
}

#[test]
fn test_binary_name_from_args() {
    let builder = RustBuilder::new("/p", "x86_64-unknown-linux-musl")
        .with_cargo_args(vec!["--bin".to_string(), "tool".to_string()]);
    assert_eq!(builder.binary_name_from_args(), Some("tool".to_string()));

    let builder = RustBuilder::new("/p", "x86_64-unknown-linux-musl")
        .with_cargo_args(vec!["--example".to_string(), "demo".to_string()]);
    assert_eq!(builder.binary_name_from_args(), Some("demo".to_string()));
    assert_eq!(builder.get_binary_subdir(), Some("examples".to_string()));

    let builder = RustBuilder::new("/p", "x86_64-unknown-linux-musl");
    assert_eq!(builder.binary_name_from_args(), None);
    assert_eq!(builder.get_binary_subdir(), None);
    assert_eq!(
        resolve_binary_name(&builder, Some("pkg".to_string())).unwrap(),
        "pkg"
    );
    assert!(resolve_binary_name(&builder, None).is_err());
}

#[test]
fn test_rustflags_for_target() {
    assert_eq!(
        rustflags_for_target("x86_64-unknown-linux-musl"),
        "-C target-feature=+crt-static"
    );
    assert_eq!(
        rustflags_for_target("x86_64-unknown-linux-gnu"),
        "-C target-feature=+crt-static -C link-arg=-static-libgcc"
    );
}
