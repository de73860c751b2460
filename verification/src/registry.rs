//! The registry protocol's data and decisions: wire types, the
//! `WWW-Authenticate` challenge, token requests, and the `/v2/` URL
//! grammar.  The HTTP calls themselves happen outside; everything that
//! decides what to send, and where, is here.

use vstd::prelude::*;

use crate::strutil::{
    concat2, concat3, contains_char, find_char, find_first, has_prefix, opt_str_view, spec_trim,
    spec_trim_char, str_eq, str_has_prefix, trim_char_str, trim_str,
};

verus! {

pub use crate::reference::ImageReference;
pub use crate::reference::parse_image_reference;

/// How a request to a registry authenticates.
#[derive(Debug, Clone)]
pub enum RegistryAuth {
    Anonymous,
    Basic { username: String, password: String },
    Bearer { token: String },
}

/// A content descriptor: media type, `sha256:` digest, and size in bytes.
#[derive(Debug, Clone)]
pub struct OciDescriptor {
    pub media_type: String,
    pub digest: String,
    pub size: i64,
}

/// An image manifest: a config descriptor and an ordered layer list.
#[derive(Debug, Clone)]
pub struct OciImageManifest {
    pub schema_version: i32,
    pub media_type: String,
    pub config: Option<OciDescriptor>,
    pub layers: Vec<OciDescriptor>,
}

/// The platform an index entry serves.
#[derive(Debug, Clone)]
pub struct Platform {
    pub architecture: String,
    pub os: String,
    pub variant: Option<String>,
}

/// One manifest in an image index, tagged with its platform.
#[derive(Debug, Clone)]
pub struct ImageIndexEntry {
    pub media_type: String,
    pub digest: String,
    pub size: i64,
    pub platform: Option<Platform>,
}

/// A multi-platform image index.
#[derive(Debug, Clone)]
pub struct OciImageIndex {
    pub schema_version: i32,
    pub media_type: String,
    pub manifests: Vec<ImageIndexEntry>,
}

/// The three parameters of a `WWW-Authenticate: Bearer` challenge.
#[derive(Debug, Clone)]
pub struct AuthChallenge {
    pub realm: String,
    pub service: String,
    pub scope: String,
}

/// One `key=value` element of the challenge parameter list folded into the
/// accumulated `(realm, service, scope)`: keys are trimmed, values are
/// trimmed and stripped of surrounding quotes, unknown keys are ignored.
pub open spec fn challenge_apply_part(
    part: Seq<char>,
    acc: (Seq<char>, Seq<char>, Seq<char>),
) -> (Seq<char>, Seq<char>, Seq<char>) {
    let p = spec_trim(part);
    let eq = find_first(p, '=');
    if eq < 0 {
        acc
    } else {
        let key = spec_trim(p.take(eq));
        let value = spec_trim_char(spec_trim(p.skip(eq + 1)), '"');
        if key == "realm"@ {
            (value, acc.1, acc.2)
        } else if key == "service"@ {
            (acc.0, value, acc.2)
        } else if key == "scope"@ {
            (acc.0, acc.1, value)
        } else {
            acc
        }
    }
}

/// The challenge parameter list, walked comma-separated element by
/// element.
pub open spec fn challenge_scan(
    s: Seq<char>,
    acc: (Seq<char>, Seq<char>, Seq<char>),
) -> (Seq<char>, Seq<char>, Seq<char>)
    decreases s.len(),
{
    let comma = find_first(s, ',');
    if 0 <= comma < s.len() {
        challenge_scan(s.skip(comma + 1), challenge_apply_part(s.take(comma), acc))
    } else {
        challenge_apply_part(s, acc)
    }
}

/// What parsing a `WWW-Authenticate` header value yields: the scanned
/// parameters of a `Bearer` challenge, provided a realm was named.
pub open spec fn spec_parse_challenge(header: Seq<char>) -> Option<(Seq<char>, Seq<char>, Seq<char>)> {
    if !has_prefix(header, "Bearer "@) {
        None
    } else {
        let scanned = challenge_scan(header.skip(7), (Seq::empty(), Seq::empty(), Seq::empty()));
        if scanned.0.len() > 0 {
            Some(scanned)
        } else {
            None
        }
    }
}

/// Parse a `WWW-Authenticate` header value into a bearer challenge.
pub fn parse_auth_challenge(auth_header: &str) -> (r: Option<AuthChallenge>)
    ensures
        match r {
            Some(c) => spec_parse_challenge(auth_header@) == Some((c.realm@, c.service@, c.scope@)),
            None => spec_parse_challenge(auth_header@) is None,
        },
{
    proof {
        reveal_strlit("Bearer ");
    }
    if !str_has_prefix(auth_header, "Bearer ") {
        return None;
    }
    let n = auth_header.unicode_len();
    let params = auth_header.substring_char(7, n);
    proof {
        assert(params@ =~= auth_header@.skip(7));
    }
    let mut realm = String::new();
    let mut service = String::new();
    let mut scope = String::new();
    let mut rest: &str = params;
    let ghost full = params@;
    loop
        invariant
            challenge_scan(full, (Seq::<char>::empty(), Seq::<char>::empty(), Seq::<char>::empty()))
                == challenge_scan(rest@, (realm@, service@, scope@)),
        ensures
            challenge_scan(full, (Seq::<char>::empty(), Seq::<char>::empty(), Seq::<char>::empty()))
                == (realm@, service@, scope@),
        decreases rest@.len(),
    {
        let m = rest.unicode_len();
        let ghost rest0 = rest@;
        let (part, more): (&str, Option<&str>) = match find_char(rest, ',') {
            Some(cm) => (rest.substring_char(0, cm), Some(rest.substring_char(cm + 1, m))),
            None => (rest, None),
        };
        proof {
            match more {
                Some(_) => {
                    assert(part@ =~= rest0.take(find_first(rest0, ',')));
                },
                None => {},
            }
        }
        let ghost acc0 = (realm@, service@, scope@);
        let p = trim_str(part);
        match find_char(p, '=') {
            Some(eq) => {
                let pm = p.unicode_len();
                let key = trim_str(p.substring_char(0, eq));
                let value = trim_char_str(trim_str(p.substring_char(eq + 1, pm)), '"');
                proof {
                    reveal_strlit("realm");
                    reveal_strlit("service");
                    reveal_strlit("scope");
                }
                if str_eq(key, "realm") {
                    realm = value.to_owned();
                } else if str_eq(key, "service") {
                    service = value.to_owned();
                } else if str_eq(key, "scope") {
                    scope = value.to_owned();
                }
            },
            None => {},
        }
        proof {
            assert((realm@, service@, scope@) == challenge_apply_part(part@, acc0));
        }
        match more {
            Some(r2) => {
                proof {
                    assert(r2@ =~= rest@.skip(find_first(rest@, ',') + 1));
                }
                rest = r2;
            },
            None => {
                break ;
            },
        }
    }
    if realm.as_str().unicode_len() > 0 {
        Some(AuthChallenge { realm, service, scope })
    } else {
        None
    }
}

/// The scope a token is requested for: the challenge's own, or pull-push
/// on the repository when the challenge named none.
pub open spec fn effective_scope(scope: Seq<char>, repository: Seq<char>) -> Seq<char> {
    if scope.len() == 0 {
        "repository:"@ + repository + ":pull,push"@
    } else {
        scope
    }
}

/// The URL a token is requested from:
/// `realm?service=<service>&scope=<scope>`.
pub fn token_request_url(challenge: &AuthChallenge, repository: &str) -> (r: String)
    ensures
        r@ == challenge.realm@ + "?service="@ + challenge.service@ + "&scope="@ + effective_scope(
            challenge.scope@,
            repository@,
        ),
{
    let scope = if challenge.scope.as_str().unicode_len() == 0 {
        concat3("repository:", repository, ":pull,push")
    } else {
        challenge.scope.clone()
    };
    let head = concat3(challenge.realm.as_str(), "?service=", challenge.service.as_str());
    let tail = concat2("&scope=", scope.as_str());
    head.concat(tail.as_str())
}

/// The token a response carries: the `token` field, or `access_token`
/// when `token` is empty.
pub fn choose_token(token: String, access_token: String) -> (r: String)
    ensures
        r@ == if token@.len() > 0 {
            token@
        } else {
            access_token@
        },
{
    if token.as_str().unicode_len() > 0 {
        token
    } else {
        access_token
    }
}

/// How the transport obtains its bearer token for a scope.
#[derive(Debug, Clone)]
pub enum TokenPlan {
    /// The credential already is a token: attach it directly.
    UseToken { token: String },
    /// Exchange at the challenge realm with basic credentials attached.
    ExchangeBasic { username: String, password: String },
    /// Exchange at the challenge realm anonymously.
    ExchangeAnonymous,
}

/// A username of `_…` or `oauth2accesstoken` marks a password that is
/// already a bearer token (the convention of Google's registries'
/// credential helpers), which skips the exchange.
pub open spec fn spec_auth_plan(auth: RegistryAuth) -> TokenPlan {
    match auth {
        RegistryAuth::Anonymous => TokenPlan::ExchangeAnonymous,
        RegistryAuth::Basic { username, password } => {
            if has_prefix(username@, "_"@) || username@ == "oauth2accesstoken"@ {
                TokenPlan::UseToken { token: password }
            } else {
                TokenPlan::ExchangeBasic { username, password }
            }
        },
        RegistryAuth::Bearer { token } => TokenPlan::UseToken { token },
    }
}

/// Decide how to authenticate for a scope from the resolved credentials.
pub fn auth_plan(auth: &RegistryAuth) -> (r: TokenPlan)
    ensures
        r == spec_auth_plan(*auth),
{
    match auth {
        RegistryAuth::Anonymous => TokenPlan::ExchangeAnonymous,
        RegistryAuth::Basic { username, password } => {
            if str_has_prefix(username.as_str(), "_") || str_eq(
                username.as_str(),
                "oauth2accesstoken",
            ) {
                TokenPlan::UseToken { token: password.clone() }
            } else {
                TokenPlan::ExchangeBasic { username: username.clone(), password: password.clone() }
            }
        },
        RegistryAuth::Bearer { token } => TokenPlan::UseToken { token: token.clone() },
    }
}

/// `https://<registry>/v2/<repository>/blobs/<digest>`.
pub fn blob_url(registry: &str, repository: &str, digest: &str) -> (r: String)
    ensures
        r@ == "https://"@ + registry@ + "/v2/"@ + repository@ + "/blobs/"@ + digest@,
{
    let a = concat3("https://", registry, "/v2/");
    let b = concat3(repository, "/blobs/", digest);
    a.concat(b.as_str())
}

/// `https://<registry>/v2/<repository>/manifests/<reference>`.
pub fn manifest_url(registry: &str, repository: &str, reference: &str) -> (r: String)
    ensures
        r@ == "https://"@ + registry@ + "/v2/"@ + repository@ + "/manifests/"@ + reference@,
{
    let a = concat3("https://", registry, "/v2/");
    let b = concat3(repository, "/manifests/", reference);
    a.concat(b.as_str())
}

/// `https://<registry>/v2/`: the API support probe.
pub fn api_base_url(registry: &str) -> (r: String)
    ensures
        r@ == "https://"@ + registry@ + "/v2/"@,
{
    concat3("https://", registry, "/v2/")
}

/// `https://<registry>/v2/<repository>/blobs/uploads/`: where an upload
/// session starts.
pub fn upload_start_url(registry: &str, repository: &str) -> (r: String)
    ensures
        r@ == "https://"@ + registry@ + "/v2/"@ + repository@ + "/blobs/uploads/"@,
{
    let a = concat3("https://", registry, "/v2/");
    a.concat(concat2(repository, "/blobs/uploads/").as_str())
}

/// `?digest=` or `&digest=`, depending on whether the URL already carries
/// a query string.
pub open spec fn digest_suffix(url: Seq<char>, digest: Seq<char>) -> Seq<char> {
    if url.contains('?') {
        "&digest="@ + digest
    } else {
        "?digest="@ + digest
    }
}

fn append_digest_query(url: &str, digest: &str) -> (r: String)
    ensures
        r@ == url@ + digest_suffix(url@, digest@),
{
    if contains_char(url, '?') {
        concat3(url, "&digest=", digest)
    } else {
        concat3(url, "?digest=", digest)
    }
}

/// The `Location` an upload answers with, made absolute: kept when
/// absolute, prefixed with the registry origin when root-relative, and
/// treated as a bare session id under the upload path otherwise.
pub open spec fn absolute_upload_location(
    location: Seq<char>,
    registry: Seq<char>,
    repository: Seq<char>,
) -> Seq<char> {
    if has_prefix(location, "http"@) {
        location
    } else if has_prefix(location, "/"@) {
        "https://"@ + registry + location
    } else {
        "https://"@ + registry + "/v2/"@ + repository + "/blobs/uploads/"@ + location
    }
}

/// Canonicalize an upload `Location` against the registry base URL.
pub fn upload_location_url(location: &str, registry: &str, repository: &str) -> (r: String)
    ensures
        r@ == absolute_upload_location(location@, registry@, repository@),
{
    if str_has_prefix(location, "http") {
        location.to_owned()
    } else if str_has_prefix(location, "/") {
        concat3("https://", registry, location)
    } else {
        let a = concat3("https://", registry, "/v2/");
        a.concat(concat3(repository, "/blobs/uploads/", location).as_str())
    }
}

/// Where an upload PUT — the one-shot body-carrying form and the
/// zero-length finalize alike — targets: the canonicalized `Location`
/// with `digest=` appended, `?` against `&` chosen by the query string
/// already present.  A bare session id always gets `?digest=`.
pub open spec fn spec_put_digest_url(
    location: Seq<char>,
    registry: Seq<char>,
    repository: Seq<char>,
    digest: Seq<char>,
) -> Seq<char> {
    if has_prefix(location, "http"@) {
        location + digest_suffix(location, digest)
    } else if has_prefix(location, "/"@) {
        let absolute = "https://"@ + registry + location;
        absolute + digest_suffix(location, digest)
    } else {
        "https://"@ + registry + "/v2/"@ + repository + "/blobs/uploads/"@ + location + "?digest="@
            + digest
    }
}

/// The URL a blob PUT names the digest at.
pub fn put_digest_url(location: &str, registry: &str, repository: &str, digest: &str) -> (r:
    String)
    ensures
        r@ == spec_put_digest_url(location@, registry@, repository@, digest@),
{
    if str_has_prefix(location, "http") {
        append_digest_query(location, digest)
    } else if str_has_prefix(location, "/") {
        let absolute = concat3("https://", registry, location);
        if contains_char(location, '?') {
            absolute.concat(concat2("&digest=", digest).as_str())
        } else {
            absolute.concat(concat2("?digest=", digest).as_str())
        }
    } else {
        let a = concat3("https://", registry, "/v2/");
        let b = concat3(repository, "/blobs/uploads/", location);
        let c = concat2("?digest=", digest);
        a.concat(b.as_str()).concat(c.as_str())
    }
}

/// The manifest reference a pull asks for: the digest when one is pinned,
/// else the tag, else `latest`.
pub fn manifest_pull_reference(parsed: &ImageReference) -> (r: String)
    ensures
        r@ == match parsed@.digest {
            Some(d) => d,
            None => match parsed@.tag {
                Some(t) => t,
                None => "latest"@,
            },
        },
{
    match &parsed.digest {
        Some(d) => d.clone(),
        None => match &parsed.tag {
            Some(t) => t.clone(),
            None => String::from_str("latest"),
        },
    }
}

/// The manifest reference a push writes to: the caller's tag when one was
/// given, else the content digest.
pub fn manifest_push_reference(tag: &Option<String>, digest: &str) -> (r: String)
    ensures
        r@ == match opt_str_view(*tag) {
            Some(t) => t,
            None => digest@,
        },
{
    match tag {
        Some(t) => t.clone(),
        None => digest.to_owned(),
    }
}

} // verus!
