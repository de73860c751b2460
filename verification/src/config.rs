//! Tool configuration: global defaults, per-registry credentials from the
//! tool's own config file, and the per-project override.  Reading the
//! files happens outside; the defaults and the precedence rules live
//! here.

use vstd::prelude::*;

use crate::strutil::opt_str_view;

verus! {

/// Build settings from the tool's config file.
#[derive(Debug, Clone)]
pub struct BuildConfig {
    pub env: Vec<(String, String)>,
    pub cargo_args: Vec<String>,
    pub target_dir: Option<String>,
}

/// Credentials for one registry in the tool's config file.
#[derive(Debug, Clone)]
pub struct RegistryAuth {
    pub username: Option<String>,
    pub password: Option<String>,
    pub auth: Option<String>,
}

/// The tool's configuration.
#[derive(Debug, Clone)]
pub struct Config {
    pub base_image: String,
    pub default_registry: Option<String>,
    pub build: BuildConfig,
    pub registries: Vec<(String, RegistryAuth)>,
}

/// A project's own override from its manifest metadata.
#[derive(Debug, Clone)]
pub struct ProjectConfig {
    pub base_image: Option<String>,
}

/// The base image used when nothing else names one.
pub fn default_base_image() -> (r: String)
    ensures
        r@ == "cgr.dev/chainguard/static:latest"@,
{
    String::from_str("cgr.dev/chainguard/static:latest")
}

impl Default for BuildConfig {
    /// No extra environment, no extra arguments, no target directory.
    fn default() -> (r: Self)
        ensures
            r.env@.len() == 0,
            r.cargo_args@.len() == 0,
            r.target_dir is None,
    {
        BuildConfig { env: Vec::new(), cargo_args: Vec::new(), target_dir: None }
    }
}

impl Default for Config {
    /// The stock configuration: the default base image and nothing else.
    fn default() -> (r: Self)
        ensures
            r.base_image@ == "cgr.dev/chainguard/static:latest"@,
            r.default_registry is None,
            r.build.env@.len() == 0,
            r.build.cargo_args@.len() == 0,
            r.build.target_dir is None,
            r.registries@.len() == 0,
    {
        Config {
            base_image: default_base_image(),
            default_registry: None,
            build: BuildConfig { env: Vec::new(), cargo_args: Vec::new(), target_dir: None },
            registries: Vec::new(),
        }
    }
}

impl Default for ProjectConfig {
    /// No override.
    fn default() -> (r: Self)
        ensures
            r.base_image is None,
    {
        ProjectConfig { base_image: None }
    }
}

/// The base image a build uses: the project's own override when it names
/// one, else the configured default.
pub fn effective_base_image(project: &ProjectConfig, config: &Config) -> (r: String)
    ensures
        r@ == match opt_str_view(project.base_image) {
            Some(b) => b,
            None => config.base_image@,
        },
{
    match &project.base_image {
        Some(b) => b.clone(),
        None => config.base_image.clone(),
    }
}

} // verus!
