use krust::registry::{parse_image_reference, ImageReference};

#[test]
fn mod_test_parse_image_reference() {
    let (registry, repo, tag) =
        parse_image_reference("docker.io/library/hello-world:latest").unwrap();
    assert_eq!(registry, "registry-1.docker.io");
    assert_eq!(repo, "library/hello-world");
    assert_eq!(tag, "latest");
}

#[test]
fn mod_test_parse_image_reference_no_tag() {
    let (_, _, tag) = parse_image_reference("docker.io/library/hello-world").unwrap();
    assert_eq!(tag, "latest");
}

#[test]
fn tests_test_parse_image_reference() {
    let (registry, repo, tag) =
        parse_image_reference("docker.io/library/hello-world:latest").unwrap();
    // `docker.io` is always rewritten to the wire host.
    assert_eq!(registry, "registry-1.docker.io");
    assert_eq!(repo, "library/hello-world");
    assert_eq!(tag, "latest");
}

#[test]
fn tests_test_parse_image_reference_no_tag() {
    let (_, _, tag) = parse_image_reference("docker.io/library/hello-world").unwrap();
    assert_eq!(tag, "latest");
}

#[test]
fn test_parse_image_reference_with_port() {
    let (registry, repo, tag) = parse_image_reference("localhost:5000/myapp:v1.0").unwrap();
    assert_eq!(registry, "localhost:5000");
    assert_eq!(repo, "myapp");
    assert_eq!(tag, "v1.0");
}

#[test]
fn test_image_reference_parsing() {
    let ref1 = ImageReference::parse("alpine:latest").unwrap();
    assert_eq!(ref1.registry, "registry-1.docker.io");
    assert_eq!(ref1.repository, "library/alpine");
    assert_eq!(ref1.tag, Some("latest".to_string()));

    let ref2 = ImageReference::parse("cgr.dev/chainguard/static:latest").unwrap();
    assert_eq!(ref2.registry, "cgr.dev");
    assert_eq!(ref2.repository, "chainguard/static");
    assert_eq!(ref2.tag, Some("latest".to_string()));

    let ref3 = ImageReference::parse("ttl.sh/test/app@sha256:abc123").unwrap();
    assert_eq!(ref3.registry, "ttl.sh");
    assert_eq!(ref3.repository, "test/app");
    assert_eq!(ref3.digest, Some("sha256:abc123".to_string()));
}

#[test]
fn test_image_reference_parsing_docker_hub() {
    let ref1 = ImageReference::parse("ubuntu").unwrap();
    assert_eq!(ref1.registry, "registry-1.docker.io");
    assert_eq!(ref1.repository, "library/ubuntu");
    assert_eq!(ref1.tag, None);
    assert_eq!(ref1.digest, None);

    let ref2 = ImageReference::parse("ubuntu:20.04").unwrap();
    assert_eq!(ref2.registry, "registry-1.docker.io");
    assert_eq!(ref2.repository, "library/ubuntu");
    assert_eq!(ref2.tag, Some("20.04".to_string()));
    assert_eq!(ref2.digest, None);

    let ref3 = ImageReference::parse("nginx/nginx:latest").unwrap();
    assert_eq!(ref3.registry, "registry-1.docker.io");
    assert_eq!(ref3.repository, "nginx/nginx");
    assert_eq!(ref3.tag, Some("latest".to_string()));

    let ref4 = ImageReference::parse("docker.io/library/alpine:3.18").unwrap();
    assert_eq!(ref4.registry, "registry-1.docker.io");
    assert_eq!(ref4.repository, "library/alpine");
    assert_eq!(ref4.tag, Some("3.18".to_string()));

    let ref5 = ImageReference::parse("docker.io/user/repo:tag").unwrap();
    assert_eq!(ref5.registry, "registry-1.docker.io");
    assert_eq!(ref5.repository, "user/repo");
    assert_eq!(ref5.tag, Some("tag".to_string()));
}

#[test]
fn test_image_reference_parsing_digests() {
    let ref1 = ImageReference::parse("alpine@sha256:1234567890abcdef").unwrap();
    assert_eq!(ref1.registry, "registry-1.docker.io");
    assert_eq!(ref1.repository, "library/alpine");
    assert_eq!(ref1.tag, None);
    assert_eq!(ref1.digest, Some("sha256:1234567890abcdef".to_string()));

    let ref2 = ImageReference::parse("gcr.io/project/image@sha256:abcdef1234567890").unwrap();
    assert_eq!(ref2.registry, "gcr.io");
    assert_eq!(ref2.repository, "project/image");
    assert_eq!(ref2.tag, None);
    assert_eq!(ref2.digest, Some("sha256:abcdef1234567890".to_string()));

    let ref3 = ImageReference::parse(
        "quay.io/user/repo@sha256:e3b0c44298fc1c149afbf4c8996fb92427ae41e4649b934ca495991b7852b855",
    )
    .unwrap();
    assert_eq!(ref3.registry, "quay.io");
    assert_eq!(ref3.repository, "user/repo");
    assert_eq!(
        ref3.digest,
        Some("sha256:e3b0c44298fc1c149afbf4c8996fb92427ae41e4649b934ca495991b7852b855".to_string())
    );
}

#[test]
fn test_image_reference_parsing_registries() {
    let ref1 = ImageReference::parse("gcr.io/my-project/my-app:v1.0").unwrap();
    assert_eq!(ref1.registry, "gcr.io");
    assert_eq!(ref1.repository, "my-project/my-app");
    assert_eq!(ref1.tag, Some("v1.0".to_string()));

    let ref2 = ImageReference::parse("us-central1-docker.pkg.dev/project/repo/image:latest").unwrap();
    assert_eq!(ref2.registry, "us-central1-docker.pkg.dev");
    assert_eq!(ref2.repository, "project/repo/image");
    assert_eq!(ref2.tag, Some("latest".to_string()));

    let ref3 = ImageReference::parse("quay.io/organization/repository:tag").unwrap();
    assert_eq!(ref3.registry, "quay.io");
    assert_eq!(ref3.repository, "organization/repository");
    assert_eq!(ref3.tag, Some("tag".to_string()));

    let ref4 = ImageReference::parse("ghcr.io/user/repo:main").unwrap();
    assert_eq!(ref4.registry, "ghcr.io");
    assert_eq!(ref4.repository, "user/repo");
    assert_eq!(ref4.tag, Some("main".to_string()));

    let ref5 =
        ImageReference::parse("123456789012.dkr.ecr.us-west-2.amazonaws.com/my-repo:latest").unwrap();
    assert_eq!(ref5.registry, "123456789012.dkr.ecr.us-west-2.amazonaws.com");
    assert_eq!(ref5.repository, "my-repo");
    assert_eq!(ref5.tag, Some("latest".to_string()));

    let ref6 = ImageReference::parse("ttl.sh/user/image:1h").unwrap();
    assert_eq!(ref6.registry, "ttl.sh");
    assert_eq!(ref6.repository, "user/image");
    assert_eq!(ref6.tag, Some("1h".to_string()));
}

#[test]
fn test_image_reference_parsing_localhost() {
    let ref1 = ImageReference::parse("localhost:5000/my-image:latest").unwrap();
    assert_eq!(ref1.registry, "localhost:5000");
    assert_eq!(ref1.repository, "my-image");
    assert_eq!(ref1.tag, Some("latest".to_string()));

    let ref2 = ImageReference::parse("localhost/test:v1").unwrap();
    assert_eq!(ref2.registry, "localhost");
    assert_eq!(ref2.repository, "test");
    assert_eq!(ref2.tag, Some("v1".to_string()));

    let ref3 = ImageReference::parse("192.168.1.100:8080/app:dev").unwrap();
    assert_eq!(ref3.registry, "192.168.1.100:8080");
    assert_eq!(ref3.repository, "app");
    assert_eq!(ref3.tag, Some("dev".to_string()));
}

#[test]
fn test_image_reference_parsing_edge_cases() {
    let ref1 = ImageReference::parse("alpine").unwrap();
    assert_eq!(ref1.registry, "registry-1.docker.io");
    assert_eq!(ref1.repository, "library/alpine");
    assert_eq!(ref1.tag, None);
    assert_eq!(ref1.digest, None);

    let ref2 = ImageReference::parse("gcr.io/project/team/service/component:v2.1.0").unwrap();
    assert_eq!(ref2.registry, "gcr.io");
    assert_eq!(ref2.repository, "project/team/service/component");
    assert_eq!(ref2.tag, Some("v2.1.0".to_string()));

    let ref3 = ImageReference::parse("myregistry.com:443/repo:5000").unwrap();
    assert_eq!(ref3.registry, "myregistry.com:443");
    assert_eq!(ref3.repository, "repo");
    assert_eq!(ref3.tag, Some("5000".to_string()));

    let ref4 = ImageReference::parse("example.com/app:v1.2.3-alpha.1").unwrap();
    assert_eq!(ref4.registry, "example.com");
    assert_eq!(ref4.repository, "app");
    assert_eq!(ref4.tag, Some("v1.2.3-alpha.1".to_string()));

    let ref5 = ImageReference::parse("docker.io/my_user/my_repo:latest").unwrap();
    assert_eq!(ref5.registry, "registry-1.docker.io");
    assert_eq!(ref5.repository, "my_user/my_repo");
    assert_eq!(ref5.tag, Some("latest".to_string()));
}

#[test]
fn test_image_reference_whitespace_handling() {
    let ref1 = ImageReference::parse("  alpine:latest  ").unwrap();
    assert_eq!(ref1.registry, "registry-1.docker.io");
    assert_eq!(ref1.repository, "library/alpine");
    assert_eq!(ref1.tag, Some("latest".to_string()));

    let ref2 = ImageReference::parse("\tgcr.io/project/app:v1\t").unwrap();
    assert_eq!(ref2.registry, "gcr.io");
    assert_eq!(ref2.repository, "project/app");
    assert_eq!(ref2.tag, Some("v1".to_string()));
}

#[test]
fn test_image_reference_reference_method() {
    let ref1 = ImageReference::parse("alpine:3.18").unwrap();
    assert_eq!(ref1.reference(), "registry-1.docker.io/library/alpine:3.18");

    let ref2 = ImageReference::parse("alpine@sha256:abc123").unwrap();
    assert_eq!(ref2.reference(), "registry-1.docker.io/library/alpine@sha256:abc123");

    let ref3 = ImageReference::parse("alpine").unwrap();
    assert_eq!(ref3.reference(), "registry-1.docker.io/library/alpine:latest");

    let ref4 = ImageReference::parse("gcr.io/project/app:v1").unwrap();
    assert_eq!(ref4.reference(), "gcr.io/project/app:v1");
}

#[test]
fn test_image_reference_repository_url_method() {
    let ref1 = ImageReference::parse("alpine:latest").unwrap();
    assert_eq!(ref1.repository_url(), "registry-1.docker.io/library/alpine");

    let ref2 = ImageReference::parse("gcr.io/my-project/my-app:v1").unwrap();
    assert_eq!(ref2.repository_url(), "gcr.io/my-project/my-app");

    let ref3 = ImageReference::parse("localhost:5000/test@sha256:abc").unwrap();
    assert_eq!(ref3.repository_url(), "localhost:5000/test");
}

#[test]
fn test_parse_empty_reference_fails() {
    assert!(ImageReference::parse("").is_err());
    assert!(ImageReference::parse("   ").is_err());
}

#[test]
fn test_canonicalize_is_idempotent() {
    // Rendering a parsed reference reaches a fixed point in one step.
    for input in [
        "alpine",
        "alpine:3.18",
        "ubuntu@sha256:abc",
        "gcr.io/a/b:v1",
        "localhost:5000/x",
        "myregistry.com:443/repo:5000",
        "docker.io/library/alpine",
    ] {
        let once = ImageReference::parse(input).unwrap().reference();
        let twice = ImageReference::parse(&once).unwrap().reference();
        assert_eq!(once, twice);
    }
}

#[test]
fn test_parse_render_round_trip() {
    // A reference carrying a tag or digest parses back unchanged from its
    // rendering.
    for input in ["alpine:3.18", "gcr.io/a/b@sha256:012", "localhost:5000/x:dev"] {
        let first = ImageReference::parse(input).unwrap();
        let second = ImageReference::parse(&first.reference()).unwrap();
        assert_eq!(first.registry, second.registry);
        assert_eq!(first.repository, second.repository);
        assert_eq!(first.tag, second.tag);
        assert_eq!(first.digest, second.digest);
    }
}

#[test]
fn test_registry_port_with_untagged_repository() {
    // a colon before the last '/' sits in the registry host: the
    // repository after it stays untagged
    let r = ImageReference::parse("localhost:5000/x").unwrap();
    assert_eq!(r.registry, "localhost:5000");
    assert_eq!(r.repository, "x");
    assert_eq!(r.tag, None);
    assert_eq!(r.digest, None);

    let r = ImageReference::parse("192.168.1.100:8080/some/deep/repo").unwrap();
    assert_eq!(r.registry, "192.168.1.100:8080");
    assert_eq!(r.repository, "some/deep/repo");
    assert_eq!(r.tag, None);
}

#[test]
fn test_port_suffix_is_not_a_tag() {
    let r = ImageReference::parse("myhost.example.com:5000").unwrap();
    assert_eq!(r.tag, None);
    assert_eq!(r.digest, None);
    assert_eq!(r.repository, "library/myhost.example.com:5000");
}

#[test]
fn test_digest_means_no_tag() {
    let r = ImageReference::parse("gcr.io/a/b:v1@sha256:abc").unwrap();
    assert_eq!(r.digest, Some("sha256:abc".to_string()));
    assert_eq!(r.tag, None);
}
