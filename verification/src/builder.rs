//! Decisions around the external toolchain: the target triple for a
//! platform, the flags static linking needs, and which binary a build
//! produced.  Running the toolchain itself happens outside.

use vstd::prelude::*;

use crate::strutil::{concat3, str_eq};
use crate::KrustError;

verus! {

/// The musl target triple for each supported platform.
pub open spec fn spec_target_triple(p: Seq<char>) -> Option<Seq<char>> {
    if p == "linux/amd64"@ {
        Some("x86_64-unknown-linux-musl"@)
    } else if p == "linux/arm64"@ {
        Some("aarch64-unknown-linux-musl"@)
    } else if p == "linux/arm/v7"@ {
        Some("armv7-unknown-linux-musleabihf"@)
    } else if p == "linux/arm/v6"@ {
        Some("arm-unknown-linux-musleabihf"@)
    } else if p == "linux/386"@ {
        Some("i686-unknown-linux-musl"@)
    } else if p == "linux/ppc64le"@ {
        Some("powerpc64le-unknown-linux-musl"@)
    } else if p == "linux/s390x"@ {
        Some("s390x-unknown-linux-musl"@)
    } else if p == "linux/riscv64"@ {
        Some("riscv64gc-unknown-linux-musl"@)
    } else {
        None
    }
}

/// The Rust target triple a platform compiles for; platforms outside the
/// supported set are a toolchain error.
pub fn get_rust_target_triple(platform: &str) -> (r: Result<String, KrustError>)
    ensures
        match r {
            Ok(t) => spec_target_triple(platform@) == Some(t@),
            Err(e) => spec_target_triple(platform@) is None && e == KrustError::ToolchainError,
        },
{
    if str_eq(platform, "linux/amd64") {
        Ok(String::from_str("x86_64-unknown-linux-musl"))
    } else if str_eq(platform, "linux/arm64") {
        Ok(String::from_str("aarch64-unknown-linux-musl"))
    } else if str_eq(platform, "linux/arm/v7") {
        Ok(String::from_str("armv7-unknown-linux-musleabihf"))
    } else if str_eq(platform, "linux/arm/v6") {
        Ok(String::from_str("arm-unknown-linux-musleabihf"))
    } else if str_eq(platform, "linux/386") {
        Ok(String::from_str("i686-unknown-linux-musl"))
    } else if str_eq(platform, "linux/ppc64le") {
        Ok(String::from_str("powerpc64le-unknown-linux-musl"))
    } else if str_eq(platform, "linux/s390x") {
        Ok(String::from_str("s390x-unknown-linux-musl"))
    } else if str_eq(platform, "linux/riscv64") {
        Ok(String::from_str("riscv64gc-unknown-linux-musl"))
    } else {
        Err(KrustError::ToolchainError)
    }
}

/// Drives one compilation of the project for one target.
#[derive(Debug, Clone)]
pub struct RustBuilder {
    pub project_path: String,
    pub target: String,
    pub cargo_args: Vec<String>,
}

impl RustBuilder {
    /// A builder for the project at `project_path` compiling for
    /// `target`.
    pub fn new(project_path: &str, target: &str) -> (r: Self)
        ensures
            r.project_path@ == project_path@,
            r.target@ == target@,
            r.cargo_args@.len() == 0,
    {
        RustBuilder {
            project_path: project_path.to_owned(),
            target: target.to_owned(),
            cargo_args: Vec::new(),
        }
    }

    /// The same builder with the extra cargo arguments.
    pub fn with_cargo_args(self, args: Vec<String>) -> (r: Self)
        ensures
            r.project_path == self.project_path,
            r.target == self.target,
            r.cargo_args == args,
    {
        RustBuilder { project_path: self.project_path, target: self.target, cargo_args: args }
    }

    /// The binary name the arguments select: the value following the
    /// first `--example` or `--bin`, when one is there.
    pub fn binary_name_from_args(&self) -> (r: Option<String>)
        ensures
            r == spec_binary_name_from_args(self.cargo_args@),
    {
        let n = self.cargo_args.len();
        proof {
            assert(self.cargo_args@.skip(0) =~= self.cargo_args@);
        }
        let mut i: usize = 0;
        while i < n
            invariant
                i <= n,
                n == self.cargo_args@.len(),
                spec_binary_name_from_args(self.cargo_args@) == spec_binary_name_from_args(
                    self.cargo_args@.skip(i as int),
                ),
            decreases n - i,
        {
            proof {
                assert(self.cargo_args@.skip(i as int)[0] == self.cargo_args@[i as int]);
            }
            let a = &self.cargo_args[i];
            if (str_eq(a.as_str(), "--example") || str_eq(a.as_str(), "--bin")) && i + 1 < n {
                proof {
                    assert(self.cargo_args@.skip(i as int)[1] == self.cargo_args@[i as int + 1]);
                }
                return Some(self.cargo_args[i + 1].clone());
            }
            proof {
                assert(self.cargo_args@.skip(i as int).drop_first() =~= self.cargo_args@.skip(
                    i as int + 1,
                ));
            }
            i = i + 1;
        }
        proof {
            assert(self.cargo_args@.skip(n as int) =~= Seq::<String>::empty());
        }
        None
    }

    /// The subdirectory of the target directory the binary lands in:
    /// `examples` when `--example` was given.
    pub fn get_binary_subdir(&self) -> (r: Option<String>)
        ensures
            match r {
                Some(s) => s@ == "examples"@ && spec_has_example_flag(self.cargo_args@),
                None => !spec_has_example_flag(self.cargo_args@),
            },
    {
        let n = self.cargo_args.len();
        let mut i: usize = 0;
        while i < n
            invariant
                i <= n,
                n == self.cargo_args@.len(),
                forall|k: int|
                    0 <= k < i ==> !(#[trigger] self.cargo_args@[k]@ == "--example"@ && k + 1 < n),
            decreases n - i,
        {
            if str_eq(self.cargo_args[i].as_str(), "--example") && i + 1 < n {
                proof {
                    assert(self.cargo_args@[i as int]@ == "--example"@ && i as int + 1 < n);
                }
                return Some(String::from_str("examples"));
            }
            i = i + 1;
        }
        None
    }
}

/// Whether `--example` with a following value occurs among the
/// arguments.
pub open spec fn spec_has_example_flag(args: Seq<String>) -> bool {
    exists|k: int| 0 <= k < args.len() && #[trigger] args[k]@ == "--example"@ && k + 1 < args.len()
}

/// The value after the first `--example` or `--bin` flag.
pub open spec fn spec_binary_name_from_args(args: Seq<String>) -> Option<String>
    decreases args.len(),
{
    if args.len() == 0 {
        None
    } else if (args[0]@ == "--example"@ || args[0]@ == "--bin"@) && args.len() > 1 {
        Some(args[1])
    } else {
        spec_binary_name_from_args(args.drop_first())
    }
}

/// The binary a build produced: the one the arguments name, else the
/// package's own name from its manifest, else a toolchain error.
pub fn resolve_binary_name(builder: &RustBuilder, package_name: Option<String>) -> (r: Result<
    String,
    KrustError,
>)
    ensures
        match spec_binary_name_from_args(builder.cargo_args@) {
            Some(n) => r == Ok::<String, KrustError>(n),
            None => match package_name {
                Some(p) => r == Ok::<String, KrustError>(p),
                None => r == Err::<String, KrustError>(KrustError::ToolchainError),
            },
        },
{
    match builder.binary_name_from_args() {
        Some(n) => Ok(n),
        None => match package_name {
            Some(p) => Ok(p),
            None => Err(KrustError::ToolchainError),
        },
    }
}

/// The `RUSTFLAGS` a target needs for a static binary: musl targets link
/// fully statically, the rest statically where possible.
pub fn rustflags_for_target(target: &str) -> (r: String)
    ensures
        crate::strutil::has_substring(target@, "musl"@) ==> r@
            == "-C target-feature=+crt-static"@,
        !crate::strutil::has_substring(target@, "musl"@) ==> r@
            == "-C target-feature=+crt-static -C link-arg=-static-libgcc"@,
{
    if crate::strutil::contains_substr(target, "musl") {
        String::from_str("-C target-feature=+crt-static")
    } else {
        String::from_str("-C target-feature=+crt-static -C link-arg=-static-libgcc")
    }
}

/// `repository/project`: where a project's images go under a repository
/// prefix.
pub fn target_repository(repo: &str, project_name: &str) -> (r: String)
    ensures
        r@ == repo@ + "/"@ + project_name@,
{
    concat3(repo, "/", project_name)
}

/// The reference an index is pushed to: `repository:tag` with a tag,
/// else the bare repository (publishing by digest only).
pub fn manifest_list_target(repo: &str, tag: &Option<String>) -> (r: String)
    ensures
        match tag {
            Some(t) => r@ == repo@ + ":"@ + t@,
            None => r@ == repo@,
        },
{
    match tag {
        Some(t) => concat3(repo, ":", t.as_str()),
        None => repo.to_owned(),
    }
}

} // verus!
