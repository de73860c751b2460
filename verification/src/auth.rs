//! Credential resolution: the auth record shapes of a Docker config file,
//! their conversion to wire credentials, and the lookup pipeline that
//! turns a registry host into the credentials to use.
//!
//! Reading config files and running credential helper subprocesses happens
//! outside; this module owns every decision on what was read: which key
//! variants match a registry, which field of an entry wins, and when the
//! pipeline falls through to anonymous access.

use vstd::prelude::*;

use crate::codec::{b64_decode_str, b64_encode_str, b64_of};
use crate::reference::spec_parse;
use crate::registry::RegistryAuth;
use crate::strutil::{
    clone_opt_string, concat2, concat3, contains_char, find_char, find_first, has_prefix,
    opt_str_view, str_eq, str_has_prefix,
};
use crate::KrustError;

verus! {

/// A credential record: the field set of one Docker config `auths` entry,
/// normalized.  A record with every field absent is anonymous.
#[derive(Debug, Clone)]
pub struct AuthConfig {
    pub username: Option<String>,
    pub password: Option<String>,
    pub auth: Option<String>,
    pub identity_token: Option<String>,
    pub registry_token: Option<String>,
}

pub open spec fn spec_is_anonymous(a: AuthConfig) -> bool {
    a.username is None && a.password is None && a.auth is None && a.identity_token is None
        && a.registry_token is None
}

/// The `Authorization` header value a record yields: bearer tokens first,
/// then a pre-encoded `auth` blob, then basic credentials.
pub open spec fn spec_auth_header(a: AuthConfig) -> Option<Seq<char>> {
    if a.registry_token is Some {
        Some("Bearer "@ + a.registry_token->0@)
    } else if a.identity_token is Some {
        Some("Bearer "@ + a.identity_token->0@)
    } else if a.auth is Some {
        Some("Basic "@ + a.auth->0@)
    } else if a.username is Some && a.password is Some {
        Some("Basic "@ + b64_of(a.username->0@ + ":"@ + a.password->0@))
    } else {
        None
    }
}

/// Whether `r` is basic credentials with exactly the given fields.
pub open spec fn is_basic_with(r: RegistryAuth, u: Seq<char>, p: Seq<char>) -> bool {
    match r {
        RegistryAuth::Basic { username, password } => username@ == u && password@ == p,
        _ => false,
    }
}

impl AuthConfig {
    /// A record holding basic credentials.
    pub fn new(username: String, password: String) -> (r: Self)
        ensures
            r.username == Some(username),
            r.password == Some(password),
            r.auth is None,
            r.identity_token is None,
            r.registry_token is None,
    {
        AuthConfig {
            username: Some(username),
            password: Some(password),
            auth: None,
            identity_token: None,
            registry_token: None,
        }
    }

    /// The anonymous record.
    pub fn anonymous() -> (r: Self)
        ensures
            spec_is_anonymous(r),
    {
        AuthConfig {
            username: None,
            password: None,
            auth: None,
            identity_token: None,
            registry_token: None,
        }
    }

    /// Whether every field is absent.
    pub fn is_anonymous(&self) -> (r: bool)
        ensures
            r == spec_is_anonymous(*self),
    {
        self.username.is_none() && self.password.is_none() && self.auth.is_none()
            && self.identity_token.is_none() && self.registry_token.is_none()
    }

    /// The `Authorization` header value for this record, when it has one.
    /// Tokens yield `Bearer …`; an `auth` blob or a username/password
    /// pair yield `Basic …` with the pair base64-encoded as `user:pass`.
    pub fn to_authorization_header(&self) -> (r: Result<Option<String>, KrustError>)
        ensures
            r matches Ok(h) && opt_str_view(h) == spec_auth_header(*self),
    {
        if let Some(t) = &self.registry_token {
            return Ok(Some(concat2("Bearer ", t.as_str())));
        }
        if let Some(t) = &self.identity_token {
            return Ok(Some(concat2("Bearer ", t.as_str())));
        }
        if let Some(a) = &self.auth {
            return Ok(Some(concat2("Basic ", a.as_str())));
        }
        if let (Some(u), Some(p)) = (&self.username, &self.password) {
            let joined = concat3(u.as_str(), ":", p.as_str());
            let encoded = b64_encode_str(joined.as_str());
            return Ok(Some(concat2("Basic ", encoded.as_str())));
        }
        Ok(None)
    }

    /// The wire credentials this record stands for.  An anonymous record
    /// gives anonymous access; tokens give bearer auth; a username and
    /// password give basic auth; a base64 `auth` blob decoding to
    /// `user:pass` gives basic auth with those fields, and anything
    /// undecodable falls back to anonymous.
    pub fn to_registry_auth(&self) -> (r: RegistryAuth)
        ensures
            spec_is_anonymous(*self) ==> r is Anonymous,
            self.registry_token is Some ==> {
                &&& r matches RegistryAuth::Bearer { token }
                &&& token == self.registry_token->0
            },
            self.registry_token is None && self.identity_token is Some ==> {
                &&& r matches RegistryAuth::Bearer { token }
                &&& token == self.identity_token->0
            },
            self.registry_token is None && self.identity_token is None && self.username is Some
                && self.password is Some ==> {
                &&& r matches RegistryAuth::Basic { username, password }
                &&& username == self.username->0
                &&& password == self.password->0
            },
            self.registry_token is None && self.identity_token is None && !(self.username is Some
                && self.password is Some) && self.auth is Some ==> {
                &&& forall|u: Seq<char>, p: Seq<char>|
                    (!u.contains(':') && self.auth->0@ == b64_of(u + ":"@ + p)) ==> is_basic_with(
                        r,
                        u,
                        p,
                    )
                &&& (r is Anonymous || r is Basic)
            },
    {
        if self.is_anonymous() {
            return RegistryAuth::Anonymous;
        }
        if let Some(t) = &self.registry_token {
            return RegistryAuth::Bearer { token: t.clone() };
        }
        if let Some(t) = &self.identity_token {
            return RegistryAuth::Bearer { token: t.clone() };
        }
        if let (Some(u), Some(p)) = (&self.username, &self.password) {
            return RegistryAuth::Basic { username: u.clone(), password: p.clone() };
        }
        if let Some(a) = &self.auth {
            let res = basic_from_auth_blob(a.as_str());
            return res;
        }
        RegistryAuth::Anonymous
    }
}

/// Decode a base64 `auth` blob into basic credentials split at the first
/// `:`; anything else gives anonymous access.
fn basic_from_auth_blob(a: &str) -> (r: RegistryAuth)
    ensures
        forall|u: Seq<char>, p: Seq<char>|
            (!u.contains(':') && a@ == b64_of(u + ":"@ + p)) ==> is_basic_with(r, u, p),
        r is Anonymous || r is Basic,
{
    match b64_decode_str(a) {
        Some(decoded) => {
            let d = decoded.as_str();
            let n = d.unicode_len();
            match find_char(d, ':') {
                Some(i) => {
                    let user = d.substring_char(0, i).to_owned();
                    let pass = d.substring_char(i + 1, n).to_owned();
                    let res = RegistryAuth::Basic { username: user, password: pass };
                    proof {
                        assert forall|u: Seq<char>, p: Seq<char>|
                            (!u.contains(':') && a@ == b64_of(
                                u + ":"@ + p,
                            )) implies is_basic_with(res, u, p) by {
                            reveal_strlit(":");
                            assert(d@ == u + ":"@ + p);
                            assert((":"@ + p)[0] == ':');
                            assert(find_first(":"@ + p, ':') == 0);
                            crate::strutil::lemma_find_first_append_absent(u, ":"@ + p, ':');
                            assert(d@ =~= u + (":"@ + p));
                            assert(find_first(d@, ':') == u.len());
                            assert(d@.subrange(0, u.len() as int) =~= u);
                            assert(d@.subrange(u.len() as int + 1, d@.len() as int) =~= p);
                        }
                    }
                    res
                },
                None => {
                    proof {
                        assert forall|u: Seq<char>, p: Seq<char>|
                            (!u.contains(':') && a@ == b64_of(
                                u + ":"@ + p,
                            )) implies is_basic_with(RegistryAuth::Anonymous, u, p) by {
                            reveal_strlit(":");
                            assert(d@ == u + ":"@ + p);
                            assert(d@[u.len() as int] == ':');
                            assert(d@.contains(':'));
                            crate::strutil::lemma_find_first_props(d@, ':');
                        }
                    }
                    RegistryAuth::Anonymous
                },
            }
        },
        None => {
            proof {
                assert forall|u: Seq<char>, p: Seq<char>|
                    (!u.contains(':') && a@ == b64_of(u + ":"@ + p)) implies is_basic_with(
                    RegistryAuth::Anonymous,
                    u,
                    p,
                ) by {}
            }
            RegistryAuth::Anonymous
        },
    }
}

/// One entry of a Docker config file's `auths` table.
#[derive(Debug, Clone)]
pub struct DockerAuthEntry {
    pub auth: Option<String>,
    pub username: Option<String>,
    pub password: Option<String>,
    pub identity_token: Option<String>,
    pub registry_token: Option<String>,
}

impl DockerAuthEntry {
    /// The credential record this entry holds, field for field.
    pub fn to_auth_config(&self) -> (r: AuthConfig)
        ensures
            r.username == self.username,
            r.password == self.password,
            r.auth == self.auth,
            r.identity_token == self.identity_token,
            r.registry_token == self.registry_token,
    {
        AuthConfig {
            username: clone_opt_string(&self.username),
            password: clone_opt_string(&self.password),
            auth: clone_opt_string(&self.auth),
            identity_token: clone_opt_string(&self.identity_token),
            registry_token: clone_opt_string(&self.registry_token),
        }
    }
}

/// A copy of an entry, equal in value to the original.
pub fn clone_auth_entry(e: &DockerAuthEntry) -> (r: DockerAuthEntry)
    ensures
        r == *e,
{
    DockerAuthEntry {
        auth: clone_opt_string(&e.auth),
        username: clone_opt_string(&e.username),
        password: clone_opt_string(&e.password),
        identity_token: clone_opt_string(&e.identity_token),
        registry_token: clone_opt_string(&e.registry_token),
    }
}

/// The wire credentials one config entry yields: a registry token gives
/// bearer auth, then a username/password pair gives basic auth, then an
/// `auth` blob decoding to `user:pass` gives basic auth; an entry with
/// nothing usable is an error, and resolution falls through past it.
pub fn parse_auth_entry(entry: &DockerAuthEntry) -> (r: Result<RegistryAuth, KrustError>)
    ensures
        entry.registry_token is Some ==> {
            &&& r matches Ok(a)
            &&& a matches RegistryAuth::Bearer { token }
            &&& token == entry.registry_token->0
        },
        entry.registry_token is None && entry.username is Some && entry.password is Some ==> {
            &&& r matches Ok(a)
            &&& a matches RegistryAuth::Basic { username, password }
            &&& username == entry.username->0
            &&& password == entry.password->0
        },
        entry.registry_token is None && !(entry.username is Some && entry.password is Some)
            && entry.auth is Some ==> forall|u: Seq<char>, p: Seq<char>|
            (!u.contains(':') && entry.auth->0@ == b64_of(u + ":"@ + p)) ==> {
                &&& r matches Ok(a)
                &&& is_basic_with(a, u, p)
            },
        entry.registry_token is None && !(entry.username is Some && entry.password is Some)
            && entry.auth is Some ==> match r {
            Ok(a) => a is Basic,
            Err(e) => e == KrustError::AuthResolutionFailed,
        },
        entry.registry_token is None && !(entry.username is Some && entry.password is Some)
            && entry.auth is None ==> {
            &&& r matches Err(e)
            &&& e == KrustError::AuthResolutionFailed
        },
{
    if let Some(t) = &entry.registry_token {
        return Ok(RegistryAuth::Bearer { token: t.clone() });
    }
    if let (Some(u), Some(p)) = (&entry.username, &entry.password) {
        return Ok(RegistryAuth::Basic { username: u.clone(), password: p.clone() });
    }
    if let Some(blob) = &entry.auth {
        let decoded = basic_from_auth_blob(blob.as_str());
        let ghost gd = decoded;
        match decoded {
            RegistryAuth::Basic { username, password } => {
                return Ok(RegistryAuth::Basic { username, password });
            },
            _ => {
                proof {
                    assert forall|u: Seq<char>, p: Seq<char>|
                        !(!u.contains(':') && blob@ == b64_of(u + ":"@ + p)) by {
                        if !u.contains(':') && blob@ == b64_of(u + ":"@ + p) {
                            assert(is_basic_with(gd, u, p));
                        }
                    }
                }
                return Err(KrustError::AuthResolutionFailed);
            },
        }
    }
    Err(KrustError::AuthResolutionFailed)
}

/// A parsed Docker config file: the `auths` table, the per-registry
/// `credHelpers` table, and the default `credsStore` helper.
#[derive(Debug, Clone)]
pub struct DockerConfig {
    pub auths: Vec<(String, DockerAuthEntry)>,
    pub cred_helpers: Vec<(String, String)>,
    pub creds_store: Option<String>,
}

impl DockerConfig {
    /// A config with nothing in it.
    pub fn empty() -> (r: Self)
        ensures
            r.auths@ =~= Seq::<(String, DockerAuthEntry)>::empty(),
            r.cred_helpers@ =~= Seq::<(String, String)>::empty(),
            r.creds_store is None,
    {
        DockerConfig { auths: Vec::new(), cred_helpers: Vec::new(), creds_store: None }
    }
}

/// The first entry of `auths` stored under `key`.
pub open spec fn lookup_entry(
    auths: Seq<(String, DockerAuthEntry)>,
    key: Seq<char>,
) -> Option<DockerAuthEntry>
    decreases auths.len(),
{
    if auths.len() == 0 {
        None
    } else if auths[0].0@ == key {
        Some(auths[0].1)
    } else {
        lookup_entry(auths.drop_first(), key)
    }
}

/// The first value of a string table stored under `key`.
pub open spec fn lookup_str(pairs: Seq<(String, String)>, key: Seq<char>) -> Option<String>
    decreases pairs.len(),
{
    if pairs.len() == 0 {
        None
    } else if pairs[0].0@ == key {
        Some(pairs[0].1)
    } else {
        lookup_str(pairs.drop_first(), key)
    }
}

/// The first hit among a list of key variants.
pub open spec fn lookup_by_variants(
    auths: Seq<(String, DockerAuthEntry)>,
    variants: Seq<Seq<char>>,
) -> Option<DockerAuthEntry>
    decreases variants.len(),
{
    if variants.len() == 0 {
        None
    } else {
        match lookup_entry(auths, variants[0]) {
            Some(e) => Some(e),
            None => lookup_by_variants(auths, variants.drop_first()),
        }
    }
}

/// Find the `auths` entry stored under `key`.
pub fn lookup_auth_entry(auths: &Vec<(String, DockerAuthEntry)>, key: &str) -> (r: Option<
    DockerAuthEntry,
>)
    ensures
        r == lookup_entry(auths@, key@),
{
    let n = auths.len();
    proof {
        assert(auths@.skip(0) =~= auths@);
    }
    let mut j: usize = 0;
    while j < n
        invariant
            j <= n,
            n == auths@.len(),
            lookup_entry(auths@, key@) == lookup_entry(auths@.skip(j as int), key@),
        decreases n - j,
    {
        proof {
            assert(auths@.skip(j as int)[0] == auths@[j as int]);
        }
        if str_eq(auths[j].0.as_str(), key) {
            return Some(clone_auth_entry(&auths[j].1));
        }
        proof {
            assert(auths@.skip(j as int).drop_first() =~= auths@.skip(j as int + 1));
        }
        j = j + 1;
    }
    proof {
        assert(auths@.skip(n as int) =~= Seq::<(String, DockerAuthEntry)>::empty());
    }
    None
}

/// The key variants under which a registry may appear in `auths`:
/// Docker Hub's many historical spellings, or the host with and without a
/// scheme and API-version suffix.
pub open spec fn spec_normalize_registry(reg: Seq<char>) -> Seq<Seq<char>> {
    if reg == "docker.io"@ || reg == "index.docker.io"@ {
        seq![
            reg,
            "docker.io"@,
            "index.docker.io"@,
            "https://index.docker.io/v1/"@,
            "https://index.docker.io/v2/"@,
        ]
    } else if !has_prefix(reg, "http://"@) && !has_prefix(reg, "https://"@) {
        seq![
            reg,
            "https://"@ + reg,
            "http://"@ + reg,
            "https://"@ + reg + "/v1/"@,
            "https://"@ + reg + "/v2/"@,
        ]
    } else {
        seq![reg]
    }
}

/// The registry a resource names, by the first path segment: a segment
/// with a `.` or `:` is a host, anything else means Docker Hub.
pub open spec fn spec_extract_registry(s: Seq<char>) -> Seq<char> {
    let sl = find_first(s, '/');
    if sl >= 0 {
        let first = s.take(sl);
        if first.contains('.') || first.contains(':') {
            first
        } else {
            "index.docker.io"@
        }
    } else {
        "index.docker.io"@
    }
}

/// A keychain that reads the Docker config file; the file's contents are
/// handed in, the lookup decisions live here.
#[derive(Debug, Clone)]
pub struct DefaultKeychain {
    /// The parsed config, once one has been read.
    pub config_cache: Option<DockerConfig>,
}

impl DefaultKeychain {
    /// A keychain with nothing cached yet.
    pub fn new() -> (r: Self)
        ensures
            r.config_cache is None,
    {
        DefaultKeychain { config_cache: None }
    }

    /// The registry an image reference addresses.
    pub fn extract_registry(image_ref: &str) -> (r: String)
        ensures
            r@ == spec_extract_registry(image_ref@),
    {
        match find_char(image_ref, '/') {
            Some(sl) => {
                let first = image_ref.substring_char(0, sl);
                if contains_char(first, '.') || contains_char(first, ':') {
                    first.to_owned()
                } else {
                    String::from_str("index.docker.io")
                }
            },
            None => String::from_str("index.docker.io"),
        }
    }

    /// The key variants to try for a registry.
    pub fn normalize_registry(registry: &str) -> (r: Vec<String>)
        ensures
            r.deep_view() == spec_normalize_registry(registry@),
    {
        let mut v: Vec<String> = Vec::new();
        v.push(registry.to_owned());
        if str_eq(registry, "docker.io") || str_eq(registry, "index.docker.io") {
            v.push(String::from_str("docker.io"));
            v.push(String::from_str("index.docker.io"));
            v.push(String::from_str("https://index.docker.io/v1/"));
            v.push(String::from_str("https://index.docker.io/v2/"));
        } else if !str_has_prefix(registry, "http://") && !str_has_prefix(registry, "https://") {
            v.push(concat2("https://", registry));
            v.push(concat2("http://", registry));
            v.push(concat3("https://", registry, "/v1/"));
            v.push(concat3("https://", registry, "/v2/"));
        }
        proof {
            assert(v.deep_view() =~= spec_normalize_registry(registry@));
        }
        v
    }

    /// The `auths` entry for a registry, matched under any of its key
    /// variants, in variant order.
    pub fn find_auth_entry(&self, config: &DockerConfig, registry: &str) -> (r: Option<
        DockerAuthEntry,
    >)
        ensures
            r == lookup_by_variants(config.auths@, spec_normalize_registry(registry@)),
    {
        let variants = Self::normalize_registry(registry);
        lookup_by_variant_list(&config.auths, &variants)
    }

    /// The credential helper for a registry: the registry's own entry in
    /// `credHelpers` first, else the default `credsStore`.
    pub fn get_credential_helper(&self, config: &DockerConfig, registry: &str) -> (r: Option<
        String,
    >)
        ensures
            r == match lookup_str(config.cred_helpers@, registry@) {
                Some(h) => Some(h),
                None => config.creds_store,
            },
    {
        match lookup_helper(&config.cred_helpers, registry) {
            Some(h) => Some(h),
            None => clone_opt_string(&config.creds_store),
        }
    }

    /// What the keychain answers once the config lookup and, when one was
    /// configured, the credential helper have spoken: a found entry wins
    /// only when it holds something — an anonymous entry falls through to
    /// the helper's record, and with neither the answer is anonymous.
    pub fn select_auth(entry: Option<DockerAuthEntry>, helper_auth: Option<AuthConfig>) -> (r:
        AuthConfig)
        ensures
            spec_entry_usable(entry) ==> {
                &&& r.username == entry->0.username
                &&& r.password == entry->0.password
                &&& r.auth == entry->0.auth
                &&& r.identity_token == entry->0.identity_token
                &&& r.registry_token == entry->0.registry_token
            },
            !spec_entry_usable(entry) && helper_auth is Some ==> r == helper_auth->0,
            !spec_entry_usable(entry) && helper_auth is None ==> spec_is_anonymous(r),
    {
        match entry {
            Some(e) => {
                let config = e.to_auth_config();
                if !config.is_anonymous() {
                    return config;
                }
            },
            None => {},
        }
        match helper_auth {
            Some(h) => h,
            None => AuthConfig::anonymous(),
        }
    }
}

/// Whether a found `auths` entry holds anything at all: an entry with
/// every field absent is anonymous and decides nothing.
pub open spec fn spec_entry_usable(entry: Option<DockerAuthEntry>) -> bool {
    match entry {
        Some(e) => !(e.username is None && e.password is None && e.auth is None
            && e.identity_token is None && e.registry_token is None),
        None => false,
    }
}

/// A keychain that asks several keychains in turn.
#[derive(Debug, Clone)]
pub struct MultiKeychain {
    pub keychains: Vec<DefaultKeychain>,
}

impl MultiKeychain {
    /// A keychain over the given list.
    pub fn new(keychains: Vec<DefaultKeychain>) -> (r: Self)
        ensures
            r.keychains == keychains,
    {
        MultiKeychain { keychains }
    }
}

/// The record the anonymous fallback yields.
pub open spec fn spec_anonymous_config() -> AuthConfig {
    AuthConfig {
        username: None,
        password: None,
        auth: None,
        identity_token: None,
        registry_token: None,
    }
}

/// The first record in the list that is not anonymous, else anonymous:
/// how a multi-keychain merges its members' answers.
pub open spec fn spec_first_non_anonymous(rs: Seq<AuthConfig>) -> AuthConfig
    decreases rs.len(),
{
    if rs.len() == 0 {
        spec_anonymous_config()
    } else if !spec_is_anonymous(rs[0]) {
        rs[0]
    } else {
        spec_first_non_anonymous(rs.drop_first())
    }
}

/// A copy of a record, equal in value to the original.
pub fn clone_auth_config(a: &AuthConfig) -> (r: AuthConfig)
    ensures
        r == *a,
{
    AuthConfig {
        username: clone_opt_string(&a.username),
        password: clone_opt_string(&a.password),
        auth: clone_opt_string(&a.auth),
        identity_token: clone_opt_string(&a.identity_token),
        registry_token: clone_opt_string(&a.registry_token),
    }
}

/// Merge the answers of several keychains: the first non-anonymous record
/// wins, and with none the result is anonymous.
pub fn select_first_non_anonymous(results: &Vec<AuthConfig>) -> (r: AuthConfig)
    ensures
        r == spec_first_non_anonymous(results@),
{
    let n = results.len();
    proof {
        assert(results@.skip(0) =~= results@);
    }
    let mut j: usize = 0;
    while j < n
        invariant
            j <= n,
            n == results@.len(),
            spec_first_non_anonymous(results@) == spec_first_non_anonymous(results@.skip(j as int)),
        decreases n - j,
    {
        proof {
            assert(results@.skip(j as int)[0] == results@[j as int]);
        }
        if !results[j].is_anonymous() {
            return clone_auth_config(&results[j]);
        }
        proof {
            assert(results@.skip(j as int).drop_first() =~= results@.skip(j as int + 1));
        }
        j = j + 1;
    }
    proof {
        assert(results@.skip(n as int) =~= Seq::<AuthConfig>::empty());
    }
    AuthConfig::anonymous()
}

/// Find the helper name stored under `key`.
pub fn lookup_helper(pairs: &Vec<(String, String)>, key: &str) -> (r: Option<String>)
    ensures
        r == lookup_str(pairs@, key@),
{
    let n = pairs.len();
    proof {
        assert(pairs@.skip(0) =~= pairs@);
    }
    let mut j: usize = 0;
    while j < n
        invariant
            j <= n,
            n == pairs@.len(),
            lookup_str(pairs@, key@) == lookup_str(pairs@.skip(j as int), key@),
        decreases n - j,
    {
        proof {
            assert(pairs@.skip(j as int)[0] == pairs@[j as int]);
        }
        if str_eq(pairs[j].0.as_str(), key) {
            return Some(pairs[j].1.clone());
        }
        proof {
            assert(pairs@.skip(j as int).drop_first() =~= pairs@.skip(j as int + 1));
        }
        j = j + 1;
    }
    proof {
        assert(pairs@.skip(n as int) =~= Seq::<(String, String)>::empty());
    }
    None
}

/// Find the first `auths` entry matched by any key in the list, in list
/// order.
pub fn lookup_by_variant_list(auths: &Vec<(String, DockerAuthEntry)>, variants: &Vec<String>) -> (r:
    Option<DockerAuthEntry>)
    ensures
        r == lookup_by_variants(auths@, variants.deep_view()),
{
    let n = variants.len();
    proof {
        assert(variants.deep_view().skip(0) =~= variants.deep_view());
    }
    let mut j: usize = 0;
    while j < n
        invariant
            j <= n,
            n == variants@.len(),
            n == variants.deep_view().len(),
            forall|k: int| 0 <= k < n ==> variants.deep_view()[k] == #[trigger] variants@[k]@,
            lookup_by_variants(auths@, variants.deep_view()) == lookup_by_variants(
                auths@,
                variants.deep_view().skip(j as int),
            ),
        decreases n - j,
    {
        proof {
            assert(variants.deep_view().skip(j as int)[0] == variants@[j as int]@);
        }
        match lookup_auth_entry(auths, variants[j].as_str()) {
            Some(e) => {
                return Some(e);
            },
            None => {},
        }
        proof {
            assert(variants.deep_view().skip(j as int).drop_first() =~= variants.deep_view().skip(
                j as int + 1,
            ));
        }
        j = j + 1;
    }
    proof {
        assert(variants.deep_view().skip(n as int) =~= Seq::<Seq<char>>::empty());
    }
    None
}

/// No list of key variants finds anything in an empty `auths` table.
pub proof fn lemma_lookup_empty_auths(variants: Seq<Seq<char>>)
    ensures
        lookup_by_variants(Seq::<(String, DockerAuthEntry)>::empty(), variants) is None,
    decreases variants.len(),
{
    if variants.len() > 0 {
        lemma_lookup_empty_auths(variants.drop_first());
    }
}

/// The registry host a resource names: the parsed reference's registry,
/// or for an unparseable resource its first path segment.
pub open spec fn spec_resolve_registry(resource: Seq<char>) -> Seq<char> {
    match spec_parse(resource) {
        Some(rv) => rv.registry,
        None => {
            let sl = find_first(resource, '/');
            if sl >= 0 {
                resource.take(sl)
            } else {
                resource
            }
        },
    }
}

/// Extract the registry host from a resource string.
pub fn resolve_registry(resource: &str) -> (r: String)
    ensures
        r@ == spec_resolve_registry(resource@),
{
    match crate::reference::ImageReference::parse(resource) {
        Ok(parsed) => parsed.registry,
        Err(_) => match find_char(resource, '/') {
            Some(sl) => resource.substring_char(0, sl).to_owned(),
            None => resource.to_owned(),
        },
    }
}

/// The `auths` keys the resolver tries, in order: the host itself, the
/// host behind `https://`, and for Docker Hub every historical spelling.
pub open spec fn spec_resolve_keys(reg: Seq<char>) -> Seq<Seq<char>> {
    let base = seq![reg, "https://"@ + reg];
    if reg == "docker.io"@ || reg == "registry-1.docker.io"@ {
        base + seq![
            "docker.io"@,
            "index.docker.io"@,
            "registry-1.docker.io"@,
            "https://index.docker.io/v1/"@,
        ]
    } else {
        base
    }
}

/// Build the key list the resolver tries for a registry.
pub fn resolve_key_variants(registry: &str) -> (r: Vec<String>)
    ensures
        r.deep_view() == spec_resolve_keys(registry@),
{
    let mut v: Vec<String> = Vec::new();
    v.push(registry.to_owned());
    v.push(concat2("https://", registry));
    if str_eq(registry, "docker.io") || str_eq(registry, "registry-1.docker.io") {
        v.push(String::from_str("docker.io"));
        v.push(String::from_str("index.docker.io"));
        v.push(String::from_str("registry-1.docker.io"));
        v.push(String::from_str("https://index.docker.io/v1/"));
    }
    proof {
        assert(v.deep_view() =~= spec_resolve_keys(registry@));
    }
    v
}

/// What the credential helpers yielded, as wire credentials: the first
/// helper's username and secret as basic auth, or anonymous access when
/// every helper failed.
pub open spec fn spec_auth_from_helpers(hs: Seq<(String, String)>) -> RegistryAuth {
    if hs.len() > 0 {
        RegistryAuth::Basic { username: hs[0].0, password: hs[0].1 }
    } else {
        RegistryAuth::Anonymous
    }
}

/// Turn credential helper output into wire credentials.
pub fn auth_from_helpers(helper_results: &Vec<(String, String)>) -> (r: RegistryAuth)
    ensures
        r == spec_auth_from_helpers(helper_results@),
{
    if helper_results.len() > 0 {
        RegistryAuth::Basic {
            username: helper_results[0].0.clone(),
            password: helper_results[0].1.clone(),
        }
    } else {
        RegistryAuth::Anonymous
    }
}

/// The helper names to execute for a registry, in order: the registry's
/// own `credHelpers` entry, then the default `credsStore`.
pub open spec fn spec_helper_candidates(config: DockerConfig, reg: Seq<char>) -> Seq<String> {
    let specific = lookup_str(config.cred_helpers@, reg);
    match specific {
        Some(h) => match config.creds_store {
            Some(s) => seq![h, s],
            None => seq![h],
        },
        None => match config.creds_store {
            Some(s) => seq![s],
            None => Seq::empty(),
        },
    }
}

/// The credential helpers to try for a registry.
pub fn helper_candidates(config: &DockerConfig, registry: &str) -> (r: Vec<String>)
    ensures
        r@ == spec_helper_candidates(*config, registry@),
{
    let mut v: Vec<String> = Vec::new();
    match lookup_helper(&config.cred_helpers, registry) {
        Some(h) => v.push(h),
        None => {},
    }
    match clone_opt_string(&config.creds_store) {
        Some(s) => v.push(s),
        None => {},
    }
    proof {
        assert(v@ =~= spec_helper_candidates(*config, registry@));
    }
    v
}

/// Resolve a resource to wire credentials.  The registry host is taken
/// from the resource; the config's `auths` table is searched under the
/// resolver's key variants; a usable entry wins.  Otherwise the
/// credential helpers' answers (obtained by the caller for the names
/// `helper_candidates` gives) decide, and with none of those the result
/// is anonymous access.  With an empty `auths` table and no helper
/// answer, the result is always anonymous.
pub fn resolve_auth(resource: &str, config: &DockerConfig, helper_results: &Vec<(String, String)>)
    -> (r: RegistryAuth)
    ensures
        ({
            let entry = lookup_by_variants(
                config.auths@,
                spec_resolve_keys(spec_resolve_registry(resource@)),
            );
            &&& entry is None ==> r == spec_auth_from_helpers(helper_results@)
            &&& entry is Some && entry->0.registry_token is Some ==> {
                &&& r matches RegistryAuth::Bearer { token }
                &&& token == entry->0.registry_token->0
            }
            &&& entry is Some && entry->0.registry_token is None && entry->0.username is Some
                && entry->0.password is Some ==> {
                &&& r matches RegistryAuth::Basic { username, password }
                &&& username == entry->0.username->0
                &&& password == entry->0.password->0
            }
            &&& entry is Some && entry->0.registry_token is None && !(entry->0.username is Some
                && entry->0.password is Some) && entry->0.auth is Some ==> {
                &&& forall|u: Seq<char>, p: Seq<char>|
                    (!u.contains(':') && entry->0.auth->0@ == b64_of(u + ":"@ + p))
                        ==> is_basic_with(r, u, p)
                &&& (r is Basic || r == spec_auth_from_helpers(helper_results@))
            }
            &&& entry is Some && entry->0.registry_token is None && !(entry->0.username is Some
                && entry->0.password is Some) && entry->0.auth is None ==> r
                == spec_auth_from_helpers(helper_results@)
        }),
        config.auths@.len() == 0 && helper_results@.len() == 0 ==> r is Anonymous,
{
    proof {
        if config.auths@.len() == 0 {
            assert(config.auths@ =~= Seq::<(String, DockerAuthEntry)>::empty());
            lemma_lookup_empty_auths(spec_resolve_keys(spec_resolve_registry(resource@)));
        }
    }
    let registry = resolve_registry(resource);
    let keys = resolve_key_variants(registry.as_str());
    match lookup_by_variant_list(&config.auths, &keys) {
        Some(e) => {
            match parse_auth_entry(&e) {
                Ok(a) => {
                    return a;
                },
                Err(_) => {},
            }
        },
        None => {},
    }
    auth_from_helpers(helper_results)
}

} // verus!
