//! A library for building and publishing OCI container images without a
//! container daemon: reference parsing, credential resolution, the registry
//! wire protocol's decisions, and image assembly.

use vstd::prelude::*;

pub mod auth;
pub mod builder;
pub mod codec;
pub mod config;
pub mod image;
pub mod jsonout;
pub mod manifest;
pub mod platform;
pub mod reference;
pub mod registry;
pub mod resolve;
pub mod service;
pub mod strutil;
pub mod transport;

verus! {

/// The kinds of failure the library reports.
#[derive(Debug, Clone, PartialEq, Eq, Structural)]
pub enum KrustError {
    /// The user-supplied image reference did not parse (empty input).
    InvalidReference,
    /// A credential source failed; resolution falls through to the next one.
    AuthResolutionFailed,
    /// The registry answered with a status outside 2xx/3xx.
    RegistryHttpError,
    /// The blob upload state machine exhausted every path.
    UploadFailed,
    /// A response was neither an image manifest nor an image index.
    ManifestUnparseable,
    /// The external compile step failed.
    ToolchainError,
    /// A filesystem read or write failed.
    IoError,
}

} // verus!
