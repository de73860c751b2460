//! Platform discovery: which platforms a base image offers, and the
//! defaults used when discovery fails or yields nothing.

use vstd::prelude::*;

use crate::registry::{ImageIndexEntry, OciImageIndex};
use crate::strutil::{concat2, concat3, opt_str_view, str_eq};

verus! {

/// Whether an index entry takes part in discovery: it must name a
/// platform whose os and architecture are present and not `unknown`.
pub open spec fn spec_entry_included(e: ImageIndexEntry) -> bool {
    match e.platform {
        Some(p) => {
            &&& p.os@ != "unknown"@
            &&& p.architecture@ != "unknown"@
            &&& p.os@.len() > 0
            &&& p.architecture@.len() > 0
        },
        None => false,
    }
}

/// The platform string of an entry: `os/arch`, with a variant appended
/// as `os/arch/variant`, and the alias `linux/arm64/v8` normalized to
/// `linux/arm64`.
pub open spec fn spec_platform_string(p: crate::registry::Platform) -> Seq<char> {
    if p.os@ == "linux"@ && p.architecture@ == "arm64"@ && opt_str_view(p.variant) == Some("v8"@) {
        "linux/arm64"@
    } else {
        p.os@ + "/"@ + p.architecture@ + (match p.variant {
            Some(v) => "/"@ + v@,
            None => Seq::empty(),
        })
    }
}

/// The platform strings an index offers, in entry order, with the
/// unusable entries left out.
pub open spec fn spec_platform_strings(entries: Seq<ImageIndexEntry>) -> Seq<Seq<char>>
    decreases entries.len(),
{
    if entries.len() == 0 {
        Seq::empty()
    } else {
        spec_platform_strings(entries.drop_last()) + (if spec_entry_included(entries.last()) {
            seq![spec_platform_string(entries.last().platform->0)]
        } else {
            Seq::empty()
        })
    }
}

/// An entry with an unusable platform — `(unknown, unknown)`, an empty
/// field, or no platform at all — is filtered out before discovery:
/// appending one to an index changes the discovered platforms not at
/// all.
pub proof fn lemma_unknown_entry_ignored(entries: Seq<ImageIndexEntry>, e: ImageIndexEntry)
    requires
        !spec_entry_included(e),
    ensures
        spec_platform_strings(entries.push(e)) == spec_platform_strings(entries),
{
    assert(entries.push(e).drop_last() =~= entries);
    assert(entries.push(e).last() == e);
    assert(spec_platform_strings(entries) + Seq::<Seq<char>>::empty() =~= spec_platform_strings(
        entries,
    ));
}

/// Detects the platforms to build for.
#[derive(Debug, Clone)]
pub struct PlatformDetector;

impl PlatformDetector {
    /// The default platform list, used when discovery fails or finds
    /// nothing.
    pub fn default_platforms() -> (r: Vec<String>)
        ensures
            r@.len() == 2,
            r@[0]@ == "linux/amd64"@,
            r@[1]@ == "linux/arm64"@,
    {
        let mut v: Vec<String> = Vec::new();
        v.push(String::from_str("linux/amd64"));
        v.push(String::from_str("linux/arm64"));
        v
    }

    /// The platforms to build for, given what discovery yielded: a
    /// non-empty discovered list wins, anything else falls back to the
    /// defaults.
    pub fn choose_platforms(detected: Option<Vec<String>>) -> (r: Vec<String>)
        ensures
            match detected {
                Some(v) => {
                    if v@.len() > 0 {
                        r == v
                    } else {
                        r@.len() == 2 && r@[0]@ == "linux/amd64"@ && r@[1]@ == "linux/arm64"@
                    }
                },
                None => r@.len() == 2 && r@[0]@ == "linux/amd64"@ && r@[1]@ == "linux/arm64"@,
            },
    {
        match detected {
            Some(v) => {
                if v.len() > 0 {
                    v
                } else {
                    Self::default_platforms()
                }
            },
            None => Self::default_platforms(),
        }
    }

    /// The platforms a base image's index offers, in order, unusable
    /// entries filtered out and known aliases normalized.
    #[verifier::loop_isolation(false)]
    pub fn platforms_from_index(index: &OciImageIndex) -> (r: Vec<String>)
        ensures
            r.deep_view() == spec_platform_strings(index.manifests@),
    {
        let mut out: Vec<String> = Vec::new();
        let n = index.manifests.len();
        proof {
            assert(index.manifests@.take(0) =~= Seq::<ImageIndexEntry>::empty());
        }
        let mut i: usize = 0;
        while i < n
            invariant
                i <= n,
                n == index.manifests@.len(),
                out.deep_view() == spec_platform_strings(index.manifests@.take(i as int)),
            decreases n - i,
        {
            let e = &index.manifests[i];
            let ghost pre = out.deep_view();
            match &e.platform {
                Some(p) => {
                    let os_ok = !str_eq(p.os.as_str(), "unknown") && p.os.as_str().unicode_len()
                        > 0;
                    let arch_ok = !str_eq(p.architecture.as_str(), "unknown")
                        && p.architecture.as_str().unicode_len() > 0;
                    if os_ok && arch_ok {
                        let is_arm64_v8 = str_eq(p.os.as_str(), "linux") && str_eq(
                            p.architecture.as_str(),
                            "arm64",
                        ) && match &p.variant {
                            Some(v) => str_eq(v.as_str(), "v8"),
                            None => false,
                        };
                        let s = if is_arm64_v8 {
                            String::from_str("linux/arm64")
                        } else {
                            let base = concat3(p.os.as_str(), "/", p.architecture.as_str());
                            match &p.variant {
                                Some(v) => base.concat(concat2("/", v.as_str()).as_str()),
                                None => base,
                            }
                        };
                        out.push(s);
                    }
                },
                None => {},
            }
            proof {
                let xs = index.manifests@.take(i as int + 1);
                assert(xs.drop_last() =~= index.manifests@.take(i as int));
                assert(xs.last() == index.manifests@[i as int]);
                assert(out.deep_view() =~= spec_platform_strings(xs));
            }
            i = i + 1;
        }
        proof {
            assert(index.manifests@.take(n as int) =~= index.manifests@);
        }
        out
    }
}

} // verus!
