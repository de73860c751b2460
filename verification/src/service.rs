//! The build job: what one invocation builds and pushes, and the small
//! derivations the per-platform fan-out needs.  Driving the toolchain and
//! the network happens outside.

use vstd::prelude::*;

use crate::manifest::{ManifestDescriptor, Platform};
use crate::strutil::{find_last, opt_str_view, rfind_char};

verus! {

/// One build job: the project, the base image, where the images go, and
/// for which platforms.
#[derive(Debug, Clone)]
pub struct BuildConfig {
    pub project_path: String,
    pub base_image: String,
    pub target_repo: String,
    pub platforms: Vec<String>,
    pub no_push: bool,
    pub tag: Option<String>,
    pub cargo_args: Vec<String>,
}

/// What a build job yields: the pushed image reference, when one was
/// pushed.
#[derive(Debug, Clone)]
pub struct BuildResult {
    pub image_ref: Option<String>,
}

/// The digest at the end of a `registry/repo@digest` reference; a
/// reference without `@` is returned whole.
pub fn digest_from_reference(digest_ref: &str) -> (r: String)
    ensures
        find_last(digest_ref@, '@') >= 0 ==> r@ == digest_ref@.skip(
            find_last(digest_ref@, '@') + 1,
        ),
        find_last(digest_ref@, '@') < 0 ==> r@ == digest_ref@,
{
    let n = digest_ref.unicode_len();
    match rfind_char(digest_ref, '@') {
        Some(at) => digest_ref.substring_char(at + 1, n).to_owned(),
        None => digest_ref.to_owned(),
    }
}

/// The index entry a pushed per-platform manifest contributes: its digest
/// and size under the OCI manifest media type, tagged with the platform.
pub fn platform_descriptor(digest: String, manifest_size: i64, os: String, arch: String) -> (r:
    ManifestDescriptor)
    ensures
        r.media_type@ == "application/vnd.oci.image.manifest.v1+json"@,
        r.size == manifest_size,
        r.digest == digest,
        r.platform.os == os,
        r.platform.architecture == arch,
        r.platform.variant is None,
{
    ManifestDescriptor {
        media_type: String::from_str("application/vnd.oci.image.manifest.v1+json"),
        size: manifest_size,
        digest,
        platform: Platform { architecture: arch, os, variant: None },
    }
}

/// The reference a platform-specific image is pushed by: the target
/// repository, pinned by tag only when the caller asked for one.
pub fn platform_push_reference(target_repo: &str, tag: &Option<String>) -> (r: String)
    ensures
        match opt_str_view(*tag) {
            Some(t) => r@ == target_repo@ + ":"@ + t,
            None => r@ == target_repo@,
        },
{
    match tag {
        Some(t) => crate::strutil::concat3(target_repo, ":", t.as_str()),
        None => target_repo.to_owned(),
    }
}

} // verus!
