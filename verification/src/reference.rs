//! Image reference parsing and rendering.
//!
//! A reference string has the shape `[registry/]repo[:tag][@digest]`.
//! Parsing trims whitespace, splits off the rightmost `@digest`, then a
//! trailing `:tag` — a colon counts only when it comes after the last
//! `/`, and an all-digit suffix with no `/` before the colon marks a
//! registry port instead — and finally decides whether the first path
//! segment names a registry.  Single-segment names go to Docker Hub under
//! `library/`, and `docker.io` is rewritten to the wire host
//! `registry-1.docker.io`.

use vstd::prelude::*;

use crate::strutil::{
    all_digit_chars, all_digits, contains_char, find_char, find_first, find_last, opt_str_view,
    rfind_char, spec_trim, str_eq, trim_str, concat2, concat3,
};
use crate::KrustError;

verus! {

/// A parsed image reference.
#[derive(Debug, Clone)]
pub struct ImageReference {
    pub registry: String,
    pub repository: String,
    pub tag: Option<String>,
    pub digest: Option<String>,
}

/// The mathematical shape of a parsed reference.
pub struct RefView {
    pub registry: Seq<char>,
    pub repository: Seq<char>,
    pub tag: Option<Seq<char>>,
    pub digest: Option<Seq<char>>,
}

impl View for ImageReference {
    type V = RefView;

    open spec fn view(&self) -> RefView {
        RefView {
            registry: self.registry@,
            repository: self.repository@,
            tag: opt_str_view(self.tag),
            digest: opt_str_view(self.digest),
        }
    }
}

pub open spec fn docker_hub_host() -> Seq<char> {
    "registry-1.docker.io"@
}

pub open spec fn docker_io_host() -> Seq<char> {
    "docker.io"@
}

pub open spec fn localhost_host() -> Seq<char> {
    "localhost"@
}

pub open spec fn library_prefix() -> Seq<char> {
    "library/"@
}

pub open spec fn latest_tag() -> Seq<char> {
    "latest"@
}

/// Splitting off the rightmost `@digest`, when one is present.
pub open spec fn parse_digest_split(s: Seq<char>) -> (Seq<char>, Option<Seq<char>>) {
    let at = find_last(s, '@');
    if at >= 0 {
        (s.take(at), Some(s.skip(at + 1)))
    } else {
        (s, None)
    }
}

/// Splitting off a trailing `:tag`.  A colon separates a tag only when it
/// comes after the last `/` (so a colon inside the registry host is never
/// one), and even then an all-digit suffix with no `/` before the colon
/// and the colon not first marks a registry port instead.
pub open spec fn parse_tag_split(rp: Seq<char>, has_digest: bool) -> (Seq<char>, Option<Seq<char>>) {
    if has_digest {
        (rp, None)
    } else {
        let cp = find_last(rp, ':');
        if cp >= 0 && cp > find_last(rp, '/') {
            let pt = rp.skip(cp + 1);
            let before = rp.take(cp);
            if all_digit_chars(pt) && !before.contains('/') && cp > 0 {
                (rp, None)
            } else {
                (before, Some(pt))
            }
        } else {
            (rp, None)
        }
    }
}

/// A first path segment names a registry when it holds a `.` or `:`, or is
/// exactly `localhost`.
pub open spec fn looks_like_registry(first: Seq<char>) -> bool {
    first.contains('.') || first.contains(':') || first == localhost_host()
}

/// Splitting the registry from the repository, with the Docker Hub defaults.
pub open spec fn parse_registry_split(rp: Seq<char>) -> (Seq<char>, Seq<char>) {
    let sl = find_first(rp, '/');
    if sl < 0 {
        (docker_hub_host(), library_prefix() + rp)
    } else {
        let first = rp.take(sl);
        let rest = rp.skip(sl + 1);
        if looks_like_registry(first) {
            if first == docker_io_host() {
                (docker_hub_host(), rest)
            } else {
                (first, rest)
            }
        } else {
            (docker_hub_host(), rp)
        }
    }
}

/// What parsing a reference string yields: `None` exactly when the trimmed
/// input is empty.
pub open spec fn spec_parse(input: Seq<char>) -> Option<RefView> {
    let s = spec_trim(input);
    if s.len() == 0 {
        None
    } else {
        let dsplit = parse_digest_split(s);
        let tsplit = parse_tag_split(dsplit.0, dsplit.1 is Some);
        let rsplit = parse_registry_split(tsplit.0);
        Some(
            RefView {
                registry: rsplit.0,
                repository: rsplit.1,
                tag: tsplit.1,
                digest: dsplit.1,
            },
        )
    }
}

/// `registry/repository`.
pub open spec fn spec_repo_url(r: RefView) -> Seq<char> {
    r.registry + "/"@ + r.repository
}

/// The canonical rendering: `registry/repo@digest` when a digest is
/// present, else `registry/repo:tag` with the tag defaulting to `latest`.
pub open spec fn spec_render(r: RefView) -> Seq<char> {
    match r.digest {
        Some(d) => spec_repo_url(r) + "@"@ + d,
        None => match r.tag {
            Some(t) => spec_repo_url(r) + ":"@ + t,
            None => spec_repo_url(r) + ":"@ + latest_tag(),
        },
    }
}

impl ImageReference {
    /// Parse a reference string; fails exactly on whitespace-only input.
    pub fn parse(reference: &str) -> (r: Result<ImageReference, KrustError>)
        ensures
            match r {
                Ok(v) => spec_parse(reference@) == Some(v@),
                Err(e) => spec_parse(reference@) is None && e == KrustError::InvalidReference,
            },
    {
        let s = trim_str(reference);
        let n = s.unicode_len();
        if n == 0 {
            return Err(KrustError::InvalidReference);
        }
        let ghost gs = s@;

        // Split on @ for the digest.
        let at_pos = rfind_char(s, '@');
        let (repo_part1, digest): (&str, Option<String>) = match at_pos {
            Some(at) => (
                s.substring_char(0, at),
                Some(s.substring_char(at + 1, n).to_owned()),
            ),
            None => (s, None),
        };
        proof {
            assert(repo_part1@ == parse_digest_split(gs).0);
            assert(opt_str_view(digest) == parse_digest_split(gs).1);
        }

        // Split on : for the tag, unless a digest is present or the colon
        // sits in the registry host (before the last slash, or marking a
        // port).
        let mut tag: Option<String> = None;
        let mut repo_part2: &str = repo_part1;
        if digest.is_none() {
            match rfind_char(repo_part1, ':') {
                Some(cp) => {
                    let after_last_slash = match rfind_char(repo_part1, '/') {
                        Some(sl) => cp > sl,
                        None => true,
                    };
                    if after_last_slash {
                        let m = repo_part1.unicode_len();
                        let potential_tag = repo_part1.substring_char(cp + 1, m);
                        let before = repo_part1.substring_char(0, cp);
                        if all_digits(potential_tag) && !contains_char(before, '/') && cp > 0 {
                            // a port in the registry host: no tag
                        } else {
                            tag = Some(potential_tag.to_owned());
                            repo_part2 = before;
                        }
                    }
                },
                None => {},
            }
        }
        proof {
            let tsplit = parse_tag_split(parse_digest_split(gs).0, parse_digest_split(gs).1 is Some);
            assert(repo_part2@ == tsplit.0);
            assert(opt_str_view(tag) == tsplit.1);
        }

        // Split the registry from the repository.
        let res = match find_char(repo_part2, '/') {
            None => ImageReference {
                registry: String::from_str("registry-1.docker.io"),
                repository: concat2("library/", repo_part2),
                tag,
                digest,
            },
            Some(sl) => {
                let m = repo_part2.unicode_len();
                let first = repo_part2.substring_char(0, sl);
                let rest = repo_part2.substring_char(sl + 1, m);
                if contains_char(first, '.') || contains_char(first, ':') || str_eq(
                    first,
                    "localhost",
                ) {
                    let registry = if str_eq(first, "docker.io") {
                        String::from_str("registry-1.docker.io")
                    } else {
                        first.to_owned()
                    };
                    ImageReference { registry, repository: rest.to_owned(), tag, digest }
                } else {
                    ImageReference {
                        registry: String::from_str("registry-1.docker.io"),
                        repository: repo_part2.to_owned(),
                        tag,
                        digest,
                    }
                }
            },
        };
        Ok(res)
    }

    /// `registry/repository`.
    pub fn repository_url(&self) -> (r: String)
        ensures
            r@ == spec_repo_url(self@),
    {
        concat3(self.registry.as_str(), "/", self.repository.as_str())
    }

    /// The canonical string form of this reference.
    pub fn reference(&self) -> (r: String)
        ensures
            r@ == spec_render(self@),
    {
        let base = self.repository_url();
        match &self.digest {
            Some(d) => concat3(base.as_str(), "@", d.as_str()),
            None => match &self.tag {
                Some(t) => concat3(base.as_str(), ":", t.as_str()),
                None => concat3(base.as_str(), ":", "latest"),
            },
        }
    }
}

/// What parsing guarantees of its result: the registry is a nonempty,
/// slash-free segment that looks like a registry host and is never the bare
/// `docker.io`; tag and digest never coexist; a digest holds no `@`; a tag
/// holds no `:` and no `@`; and no component reintroduces an `@` or edge
/// whitespace that rendering could mis-split on.
pub open spec fn parsed_wf(r: RefView) -> bool {
    &&& r.registry.len() > 0
    &&& !r.registry.contains('/')
    &&& looks_like_registry(r.registry)
    &&& r.registry != docker_io_host()
    &&& !crate::strutil::is_space_char(r.registry[0])
    &&& !(r.tag is Some && r.digest is Some)
    &&& match r.digest {
        Some(d) => !d.contains('@') && (d.len() > 0 ==> !crate::strutil::is_space_char(d.last())),
        None => !r.registry.contains('@') && !r.repository.contains('@'),
    }
    &&& match r.tag {
        Some(t) => !t.contains(':') && !t.contains('@') && !t.contains('/') && (t.len() > 0
            ==> !crate::strutil::is_space_char(t.last())),
        None => true,
    }
}

/// Rendering defaults an absent tag to `latest`; reparsing therefore reads
/// that tag back.  This is the only field the round trip can change.
pub open spec fn normalize_ref(r: RefView) -> RefView {
    RefView {
        registry: r.registry,
        repository: r.repository,
        tag: if r.digest is Some {
            None
        } else if r.tag is None {
            Some(latest_tag())
        } else {
            r.tag
        },
        digest: r.digest,
    }
}

proof fn lemma_docker_hub_host_facts()
    ensures
        docker_hub_host().len() == 20,
        !docker_hub_host().contains('/'),
        !docker_hub_host().contains('@'),
        docker_hub_host().contains('.'),
        docker_hub_host() != docker_io_host(),
        !crate::strutil::is_space_char(docker_hub_host()[0]),
        looks_like_registry(docker_hub_host()),
{
    reveal_strlit("registry-1.docker.io");
    reveal_strlit("docker.io");
    assert(docker_hub_host()[10] == '.');
    assert(docker_hub_host().contains('.'));
    assert(!docker_hub_host().contains('/')) by {
        if docker_hub_host().contains('/') {
            let w = choose|i: int| 0 <= i < 20 && docker_hub_host()[i] == '/';
        }
    }
    assert(!docker_hub_host().contains('@')) by {
        if docker_hub_host().contains('@') {
            let w = choose|i: int| 0 <= i < 20 && docker_hub_host()[i] == '@';
        }
    }
}

/// The registry/repository split undoes `registry + "/" + repository` for a
/// well-formed reference.
proof fn lemma_base_resplit(r: RefView)
    requires
        parsed_wf(r),
    ensures
        parse_registry_split(spec_repo_url(r)).0 == r.registry,
        parse_registry_split(spec_repo_url(r)).1 == r.repository,
{
    reveal_strlit("/");
    let base = spec_repo_url(r);
    assert("/"@.len() == 1 && "/"@[0] == '/');
    assert(base =~= r.registry + ("/"@ + r.repository));
    assert(("/"@ + r.repository)[0] == '/');
    assert(find_first("/"@ + r.repository, '/') == 0);
    crate::strutil::lemma_find_first_append_absent(r.registry, "/"@ + r.repository, '/');
    let sl = r.registry.len() as int;
    assert(find_first(base, '/') == sl);
    assert(base.take(sl) =~= r.registry);
    assert(base.skip(sl + 1) =~= r.repository);
}

/// Every successfully parsed reference is well-formed.
pub proof fn lemma_parse_wf(input: Seq<char>)
    requires
        spec_parse(input) is Some,
    ensures
        parsed_wf(spec_parse(input)->0),
{
    reveal_strlit("registry-1.docker.io");
    reveal_strlit("docker.io");
    reveal_strlit("localhost");
    reveal_strlit("library/");
    lemma_docker_hub_host_facts();
    let s = spec_trim(input);
    crate::strutil::lemma_trim_no_edge_space(input);
    assert(s.len() > 0);
    assert(!crate::strutil::is_space_char(s[0]));
    assert(!crate::strutil::is_space_char(s.last()));

    crate::strutil::lemma_find_last_props(s, '@');
    let at = find_last(s, '@');
    let dsp = parse_digest_split(s);
    let rp1 = dsp.0;
    let digest = dsp.1;
    if at >= 0 {
        let d = s.skip(at + 1);
        assert(!d.contains('@')) by {
            if d.contains('@') {
                let w = choose|i: int| 0 <= i < d.len() && d[i] == '@';
                assert(s[at + 1 + w] == '@');
            }
        }
        if d.len() > 0 {
            assert(d.last() == s.last());
        }
    } else {
        assert(!s.contains('@'));
    }

    let tsp = parse_tag_split(rp1, digest is Some);
    let rp2 = tsp.0;
    let tag = tsp.1;
    crate::strutil::lemma_find_last_props(rp1, ':');
    if tag is Some {
        let cp = find_last(rp1, ':');
        let t = tag->0;
        assert(digest is None && rp1 == s);
        assert(t == s.skip(cp + 1));
        assert(!t.contains(':')) by {
            if t.contains(':') {
                let w = choose|i: int| 0 <= i < t.len() && t[i] == ':';
                assert(s[cp + 1 + w] == ':');
            }
        }
        assert(!t.contains('/')) by {
            crate::strutil::lemma_find_last_props(s, '/');
            if t.contains('/') {
                let w = choose|i: int| 0 <= i < t.len() && t[i] == '/';
                assert(s[cp + 1 + w] == '/');
                assert(cp + 1 + w > find_last(s, '/'));
            }
        }
        assert(!t.contains('@')) by {
            crate::strutil::lemma_subrange_not_contains(s, cp + 1, s.len() as int, '@');
        }
        if t.len() > 0 {
            assert(t.last() == s.last());
        }
    }

    // rp2 is s or a nonempty-start prefix of s
    assert(rp2.len() > 0 ==> rp2[0] == s[0]);
    if digest is None {
        assert(!rp2.contains('@')) by {
            if rp2 != s {
                let cp = find_last(s, ':');
                crate::strutil::lemma_subrange_not_contains(s, 0, cp, '@');
                assert(rp2 =~= s.subrange(0, cp));
            }
        }
    }

    crate::strutil::lemma_find_first_props(rp2, '/');
    let sl = find_first(rp2, '/');
    let rsp = parse_registry_split(rp2);
    if sl < 0 {
        assert(rsp.0 == docker_hub_host());
        if digest is None {
            assert(!library_prefix().contains('@')) by {
                if library_prefix().contains('@') {
                    let w = choose|i: int| 0 <= i < 8 && library_prefix()[i] == '@';
                }
            }
            crate::strutil::lemma_append_not_contains(library_prefix(), rp2, '@');
        }
    } else {
        let first = rp2.take(sl);
        let rest = rp2.skip(sl + 1);
        if looks_like_registry(first) && first != docker_io_host() {
            assert(rsp.0 == first && rsp.1 == rest);
            assert(first.len() > 0) by {
                if first.contains('.') {
                    let w = choose|i: int| 0 <= i < first.len() && first[i] == '.';
                } else if first.contains(':') {
                    let w = choose|i: int| 0 <= i < first.len() && first[i] == ':';
                } else {
                    assert(first == localhost_host());
                    assert(localhost_host().len() == 9);
                }
            }
            assert(!first.contains('/')) by {
                if first.contains('/') {
                    let w = choose|i: int| 0 <= i < first.len() && first[i] == '/';
                    assert(rp2[w] == '/');
                }
            }
            assert(first[0] == rp2[0]);
            if digest is None {
                crate::strutil::lemma_subrange_not_contains(rp2, 0, sl, '@');
                crate::strutil::lemma_subrange_not_contains(rp2, sl + 1, rp2.len() as int, '@');
                assert(first =~= rp2.subrange(0, sl));
                assert(rest =~= rp2.subrange(sl + 1, rp2.len() as int));
            }
        } else {
            assert(rsp.0 == docker_hub_host());
            if digest is None && looks_like_registry(first) {
                crate::strutil::lemma_subrange_not_contains(rp2, sl + 1, rp2.len() as int, '@');
                assert(rest =~= rp2.subrange(sl + 1, rp2.len() as int));
            }
        }
    }
}

/// Parsing the canonical rendering of a well-formed reference gives the
/// reference back, up to the defaulted `latest` tag.
proof fn lemma_render_parse(r: RefView)
    requires
        parsed_wf(r),
    ensures
        spec_parse(spec_render(r)) == Some(normalize_ref(r)),
{
    reveal_strlit("/");
    reveal_strlit("@");
    reveal_strlit(":");
    reveal_strlit("latest");
    let base = spec_repo_url(r);
    assert("/"@.len() == 1 && "/"@[0] == '/');
    assert("@"@ =~= seq!['@']);
    assert(":"@ =~= seq![':']);
    assert(base.len() > 0);
    assert(base[0] == r.registry[0]);
    assert(base[r.registry.len() as int] == '/');
    assert(base.contains('/'));
    lemma_base_resplit(r);

    match r.digest {
        Some(d) => {
            let rendered = base + "@"@ + d;
            assert(rendered[0] == r.registry[0]);
            assert(rendered.len() > 0);
            if d.len() > 0 {
                assert(rendered.last() == d.last());
            } else {
                assert(rendered.last() == '@');
            }
            crate::strutil::lemma_trim_id(rendered);
            assert(spec_trim(rendered) == rendered);

            assert(base + "@"@ =~= base + seq!['@']);
            crate::strutil::lemma_find_last_append_char(base, '@');
            crate::strutil::lemma_find_last_append_absent(base + "@"@, d, '@');
            assert(rendered =~= (base + "@"@) + d);
            assert(find_last(rendered, '@') == base.len());
            let at = base.len() as int;
            assert(rendered.take(at) =~= base);
            assert(rendered.skip(at + 1) =~= d);
            assert(parse_digest_split(rendered).0 == base);
            assert(parse_digest_split(rendered).1 == Some(d));
            assert(parse_tag_split(base, true).0 == base);
            assert(parse_tag_split(base, true).1 == None::<Seq<char>>);
            assert(spec_parse(rendered) == Some(normalize_ref(r)));
        },
        None => {
            let t = match r.tag {
                Some(t0) => t0,
                None => latest_tag(),
            };
            let rendered = base + ":"@ + t;
            assert(rendered[0] == r.registry[0]);
            assert(!crate::strutil::is_space_char(rendered.last())) by {
                if t.len() > 0 {
                    assert(rendered.last() == t.last());
                    if r.tag is None {
                        assert(latest_tag().last() == 't');
                    }
                } else {
                    assert(rendered.last() == ':');
                }
            }
            crate::strutil::lemma_trim_id(rendered);

            // no '@' anywhere in the rendered form
            assert(!t.contains('@')) by {
                if r.tag is None && latest_tag().contains('@') {
                    let w = choose|i: int| 0 <= i < 6 && latest_tag()[i] == '@';
                }
            }
            assert(!":"@.contains('@')) by {
                if ":"@.contains('@') {
                    let w = choose|i: int| 0 <= i < 1 && ":"@[i] == '@';
                }
            }
            assert(!"/"@.contains('@')) by {
                if "/"@.contains('@') {
                    let w = choose|i: int| 0 <= i < 1 && "/"@[i] == '@';
                }
            }
            crate::strutil::lemma_append_not_contains(r.registry, "/"@, '@');
            crate::strutil::lemma_append_not_contains(r.registry + "/"@, r.repository, '@');
            crate::strutil::lemma_append_not_contains(base, ":"@, '@');
            crate::strutil::lemma_append_not_contains(base + ":"@, t, '@');
            assert(rendered =~= (base + ":"@) + t);
            assert(!rendered.contains('@'));
            crate::strutil::lemma_find_last_props(rendered, '@');
            assert(find_last(rendered, '@') == -1);
            assert(parse_digest_split(rendered).0 == rendered);
            assert(parse_digest_split(rendered).1 == None::<Seq<char>>);

            // the rightmost ':' is the tag separator
            assert(!t.contains(':')) by {
                if r.tag is None && latest_tag().contains(':') {
                    let w = choose|i: int| 0 <= i < 6 && latest_tag()[i] == ':';
                }
            }
            assert(base + ":"@ =~= base + seq![':']);
            crate::strutil::lemma_find_last_append_char(base, ':');
            crate::strutil::lemma_find_last_append_absent(base + ":"@, t, ':');
            assert(find_last(rendered, ':') == base.len());
            let cp = base.len() as int;

            // the tag separator sits after the last '/': the tag itself is
            // slash-free, and every '/' of the base comes before it
            assert(!t.contains('/')) by {
                if r.tag is None && latest_tag().contains('/') {
                    let w = choose|i: int| 0 <= i < 6 && latest_tag()[i] == '/';
                }
            }
            crate::strutil::lemma_find_last_append_absent(base + ":"@, t, '/');
            assert((base + ":"@).last() == ':');
            assert((base + ":"@).drop_last() =~= base);
            assert(find_last(base + ":"@, '/') == find_last(base, '/'));
            crate::strutil::lemma_find_last_props(base, '/');
            assert(find_last(rendered, '/') < cp);
            assert(rendered.take(cp) =~= base);
            assert(rendered.skip(cp + 1) =~= t);
            assert(parse_tag_split(rendered, false).0 == base);
            assert(parse_tag_split(rendered, false).1 == Some(t));
            assert(spec_parse(rendered) == Some(normalize_ref(r)));
        },
    }
}

/// Parsing is idempotent under canonical rendering: rendering a parsed
/// reference, parsing that, and rendering again gives the same string.
pub proof fn lemma_canonicalize_idempotent(s: Seq<char>)
    requires
        spec_parse(s) is Some,
    ensures
        spec_parse(spec_render(spec_parse(s)->0)) is Some,
        spec_render(spec_parse(spec_render(spec_parse(s)->0))->0) == spec_render(spec_parse(s)->0),
{
    lemma_parse_wf(s);
    let r = spec_parse(s)->0;
    lemma_render_parse(r);
    assert(spec_render(normalize_ref(r)) == spec_render(r));
}

/// The characters of an ordinary reference string.
pub open spec fn plain_ref_char(c: char) -> bool {
    ||| ('a' as u32) <= (c as u32) <= ('z' as u32)
    ||| crate::strutil::is_digit_char(c)
    ||| c == '.'
    ||| c == '/'
    ||| c == ':'
    ||| c == '@'
    ||| c == '_'
    ||| c == '-'
}

/// Parse-then-render round trip: for a reference over the ordinary
/// characters that carries a tag or a digest, the rendered form parses back
/// to the very same reference.  (A reference with neither, such as a bare
/// name, reparses with the defaulted `latest` tag instead.)
pub proof fn lemma_parse_render_roundtrip(s: Seq<char>)
    requires
        forall|i: int| 0 <= i < s.len() ==> plain_ref_char(#[trigger] s[i]),
        spec_parse(s) is Some,
        spec_parse(s)->0.tag is Some || spec_parse(s)->0.digest is Some,
    ensures
        spec_parse(spec_render(spec_parse(s)->0)) == spec_parse(s),
{
    lemma_parse_wf(s);
    let r = spec_parse(s)->0;
    lemma_render_parse(r);
    assert(normalize_ref(r) == r);
}

/// An all-digit suffix after the last colon of a slash-free,
/// whitespace-free reference is a registry port, not a tag: such a
/// reference parses with no tag at all.
pub proof fn lemma_port_suffix_is_not_a_tag(s: Seq<char>)
    requires
        spec_trim(s) == s,
        !s.contains('@'),
        find_last(s, ':') > 0,
        all_digit_chars(s.skip(find_last(s, ':') + 1)),
        !s.take(find_last(s, ':')).contains('/'),
    ensures
        spec_parse(s) is Some,
        spec_parse(s)->0.tag is None,
        spec_parse(s)->0.digest is None,
{
    crate::strutil::lemma_find_last_props(s, '@');
    crate::strutil::lemma_find_last_props(s, ':');
    let cp = find_last(s, ':');
    assert(!s.contains('/')) by {
        crate::strutil::lemma_find_last_props(s, '/');
        if s.contains('/') {
            let j = choose|j: int| 0 <= j < s.len() && s[j] == '/';
            if j < cp {
                assert(s.take(cp)[j] == '/');
            } else if j > cp {
                assert(crate::strutil::is_digit_char(s.skip(cp + 1)[j - cp - 1]));
            }
        }
    }
    crate::strutil::lemma_find_last_props(s, '/');
}

/// A reference carrying a digest never carries a tag: the text before the
/// `@` is left whole, whatever colons it holds.
pub proof fn lemma_digest_excludes_tag(s: Seq<char>)
    requires
        spec_parse(s) is Some,
        spec_parse(s)->0.digest is Some,
    ensures
        spec_parse(s)->0.tag is None,
{
}

/// Parse a reference into `(registry, repository, tag)`, the tag defaulting
/// to `latest`.
pub fn parse_image_reference(image: &str) -> (r: Result<(String, String, String), KrustError>)
    ensures
        match r {
            Ok(v) => {
                &&& spec_parse(image@) is Some
                &&& v.0@ == spec_parse(image@)->0.registry
                &&& v.1@ == spec_parse(image@)->0.repository
                &&& v.2@ == match spec_parse(image@)->0.tag {
                    Some(t) => t,
                    None => latest_tag(),
                }
            },
            Err(e) => spec_parse(image@) is None && e == KrustError::InvalidReference,
        },
{
    let parsed = ImageReference::parse(image)?;
    let tag = match parsed.tag {
        Some(t) => t,
        None => String::from_str("latest"),
    };
    Ok((parsed.registry, parsed.repository, tag))
}

} // verus!
