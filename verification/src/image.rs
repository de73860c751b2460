//! Image assembly: the image config document, the application layer, and
//! the merged manifest.  A new image reuses every base layer unchanged and
//! appends exactly one layer holding the executable; the config gains that
//! layer's diff id and one history entry.  Every emitted byte is pinned,
//! which is what makes the digests reproducible.

use vstd::prelude::*;

use crate::codec::{gzip_compress, gzip_of, has_dotdot_component, sha256_hex, sha256_hex_of,
    tar_file_of, tar_single_file};
use crate::jsonout::{append_json_bool, append_json_string, append_json_string_array, json_bool,
    json_quote_seq, json_string_array_seq};
use crate::registry::OciImageManifest;
use crate::strutil::{
    concat2, contains_char, find_char, find_first, find_last, has_prefix, rfind_char, str_eq,
    str_has_prefix,
};
use crate::KrustError;

verus! {

/// The runtime section of an image config.
#[derive(Debug, Clone)]
pub struct Config {
    pub env: Vec<String>,
    pub cmd: Option<Vec<String>>,
    pub working_dir: String,
    pub user: String,
}

/// The rootfs section: the ordered diff ids of the uncompressed layers.
#[derive(Debug, Clone)]
pub struct RootFs {
    pub fs_type: String,
    pub diff_ids: Vec<String>,
}

/// One history entry of an image config.
#[derive(Debug, Clone)]
pub struct History {
    pub created: String,
    pub created_by: String,
    pub comment: String,
    pub empty_layer: bool,
}

/// An image config document.
#[derive(Debug, Clone)]
pub struct ImageConfig {
    pub architecture: String,
    pub os: String,
    pub config: Config,
    pub rootfs: RootFs,
    pub history: Vec<History>,
}

/// A content descriptor as a manifest references it.
#[derive(Debug, Clone)]
pub struct Descriptor {
    pub media_type: String,
    pub size: i64,
    pub digest: String,
}

/// An image manifest: config descriptor plus ordered layer descriptors.
#[derive(Debug, Clone)]
pub struct Manifest {
    pub schema_version: i32,
    pub media_type: String,
    pub config: Descriptor,
    pub layers: Vec<Descriptor>,
}

pub struct ConfigView {
    pub env: Seq<Seq<char>>,
    pub cmd: Option<Seq<Seq<char>>>,
    pub working_dir: Seq<char>,
    pub user: Seq<char>,
}

pub struct RootFsView {
    pub fs_type: Seq<char>,
    pub diff_ids: Seq<Seq<char>>,
}

pub struct HistoryView {
    pub created: Seq<char>,
    pub created_by: Seq<char>,
    pub comment: Seq<char>,
    pub empty_layer: bool,
}

pub struct ImageConfigView {
    pub architecture: Seq<char>,
    pub os: Seq<char>,
    pub config: ConfigView,
    pub rootfs: RootFsView,
    pub history: Seq<HistoryView>,
}

impl View for Config {
    type V = ConfigView;

    open spec fn view(&self) -> ConfigView {
        ConfigView {
            env: self.env.deep_view(),
            cmd: match self.cmd {
                Some(c) => Some(c.deep_view()),
                None => None,
            },
            working_dir: self.working_dir@,
            user: self.user@,
        }
    }
}

impl View for RootFs {
    type V = RootFsView;

    open spec fn view(&self) -> RootFsView {
        RootFsView { fs_type: self.fs_type@, diff_ids: self.diff_ids.deep_view() }
    }
}

impl View for History {
    type V = HistoryView;

    open spec fn view(&self) -> HistoryView {
        HistoryView {
            created: self.created@,
            created_by: self.created_by@,
            comment: self.comment@,
            empty_layer: self.empty_layer,
        }
    }
}

impl View for ImageConfig {
    type V = ImageConfigView;

    open spec fn view(&self) -> ImageConfigView {
        ImageConfigView {
            architecture: self.architecture@,
            os: self.os@,
            config: self.config@,
            rootfs: self.rootfs@,
            history: Seq::new(self.history@.len(), |i: int| self.history@[i]@),
        }
    }
}

/// Whether some entry sets `PATH`.
pub open spec fn spec_env_has_path(env: Seq<Seq<char>>) -> bool {
    exists|i: int| 0 <= i < env.len() && has_prefix(#[trigger] env[i], "PATH="@)
}

pub open spec fn default_path_entry() -> Seq<char> {
    "PATH=/usr/local/sbin:/usr/local/bin:/usr/sbin:/usr/bin:/sbin:/bin"@
}

/// The file name component of a path: what follows the last `/`.
pub open spec fn spec_basename(p: Seq<char>) -> Seq<char> {
    if find_last(p, '/') >= 0 {
        p.skip(find_last(p, '/') + 1)
    } else {
        p
    }
}

/// The path of the executable inside the image.
pub open spec fn app_path_of(binary_path: Seq<char>) -> Seq<char> {
    "app/"@ + spec_basename(binary_path)
}

/// Whether a file name can stand as the layer's tar entry: nonempty, not
/// the parent-directory name, and free of NUL bytes (the slash-free part
/// comes from being a basename).
pub open spec fn valid_layer_entry_name(name: Seq<char>) -> bool {
    &&& name.len() > 0
    &&& name != ".."@
    &&& !name.contains('\0')
}

/// A basename holds no `/`.
proof fn lemma_basename_no_slash(p: Seq<char>)
    ensures
        !spec_basename(p).contains('/'),
{
    crate::strutil::lemma_find_last_props(p, '/');
    let fl = find_last(p, '/');
    if spec_basename(p).contains('/') {
        let w = choose|i: int| 0 <= i < spec_basename(p).len() && spec_basename(p)[i] == '/';
        if fl >= 0 {
            assert(p[fl + 1 + w] == '/');
        } else {
            assert(p[w] == '/');
            assert(p.contains('/'));
        }
    }
}

/// `app/` followed by a slash-free name other than `..` holds no `..`
/// component.
proof fn lemma_app_path_no_dotdot(name: Seq<char>)
    requires
        !name.contains('/'),
        name != ".."@,
    ensures
        !has_dotdot_component("app/"@ + name),
{
    reveal_strlit("app/");
    reveal_strlit("..");
    let p = "app/"@ + name;
    if has_dotdot_component(p) {
        let i = choose|i: int|
            {
                &&& 0 <= i
                &&& i + 2 <= p.len()
                &&& (#[trigger] p[i]) == '.'
                &&& p[i + 1] == '.'
                &&& (i == 0 || p[i - 1] == '/')
                &&& (i + 2 == p.len() || p[i + 2] == '/')
            };
        if i < 4 {
            // the prefix holds no '.' at all
            assert(p[i] != '.');
        } else {
            // inside the name: the left boundary forces i == 4, and then
            // the name either is exactly ".." or carries a '/'
            if i > 4 {
                assert(p[i - 1] == name[i - 5]);
                assert(name[i - 5] != '/') by {
                    if name[i - 5] == '/' {
                        assert(name.contains('/'));
                    }
                }
                assert(false);
            }
            assert(name[0] == '.' && name[1] == '.');
            if i + 2 == p.len() {
                assert(name.len() == 2);
                assert(name =~= ".."@);
            } else {
                assert(p[6] == name[2]);
                assert(name[2] == '/');
                assert(name.contains('/'));
            }
        }
    }
}

/// The config of the layered image: everything of the base preserved, the
/// new diff id and one history entry appended, the command pointing at
/// the executable, and a default `PATH` added only when the base sets
/// none.
pub open spec fn spec_layered_config(
    base: ImageConfigView,
    diff_id: Seq<char>,
    created: Seq<char>,
    cmd_path: Seq<char>,
) -> ImageConfigView {
    ImageConfigView {
        architecture: base.architecture,
        os: base.os,
        config: ConfigView {
            env: if spec_env_has_path(base.config.env) {
                base.config.env
            } else {
                base.config.env.push(default_path_entry())
            },
            cmd: Some(seq![cmd_path]),
            working_dir: base.config.working_dir,
            user: base.config.user,
        },
        rootfs: RootFsView { fs_type: "layers"@, diff_ids: base.rootfs.diff_ids.push(diff_id) },
        history: base.history.push(
            HistoryView {
                created,
                created_by: "krust"@,
                comment: "Built with krust"@,
                empty_layer: false,
            },
        ),
    }
}

/// A copy of a string vector, equal in value to the original.
pub fn clone_string_vec(v: &Vec<String>) -> (r: Vec<String>)
    ensures
        r@ == v@,
{
    let n = v.len();
    let mut r: Vec<String> = Vec::new();
    let mut i: usize = 0;
    while i < n
        invariant
            i <= n,
            n == v@.len(),
            r@ =~= v@.take(i as int),
        decreases n - i,
    {
        r.push(v[i].clone());
        proof {
            assert(r@ =~= v@.take(i as int + 1));
        }
        i = i + 1;
    }
    proof {
        assert(v@.take(n as int) =~= v@);
    }
    r
}

/// A copy of a history list, equal in value to the original.
pub fn clone_history_vec(v: &Vec<History>) -> (r: Vec<History>)
    ensures
        r@ == v@,
{
    let n = v.len();
    let mut r: Vec<History> = Vec::new();
    let mut i: usize = 0;
    while i < n
        invariant
            i <= n,
            n == v@.len(),
            r@ =~= v@.take(i as int),
        decreases n - i,
    {
        r.push(
            History {
                created: v[i].created.clone(),
                created_by: v[i].created_by.clone(),
                comment: v[i].comment.clone(),
                empty_layer: v[i].empty_layer,
            },
        );
        proof {
            assert(r@ =~= v@.take(i as int + 1));
        }
        i = i + 1;
    }
    proof {
        assert(v@.take(n as int) =~= v@);
    }
    r
}

/// Whether some entry of `v` starts with `PATH=`.
pub fn has_path_entry(v: &Vec<String>) -> (b: bool)
    ensures
        b == spec_env_has_path(v.deep_view()),
{
    let n = v.len();
    let mut i: usize = 0;
    while i < n
        invariant
            i <= n,
            n == v@.len(),
            n == v.deep_view().len(),
            forall|k: int| 0 <= k < n ==> v.deep_view()[k] == #[trigger] v@[k]@,
            forall|k: int| 0 <= k < i ==> !has_prefix(#[trigger] v.deep_view()[k], "PATH="@),
        decreases n - i,
    {
        if str_has_prefix(v[i].as_str(), "PATH=") {
            proof {
                assert(has_prefix(v.deep_view()[i as int], "PATH="@));
            }
            return true;
        }
        i = i + 1;
    }
    false
}

/// Builds one image for one platform from an executable.
#[derive(Debug, Clone)]
pub struct ImageBuilder {
    pub binary_path: String,
    pub base_image: String,
    pub platform: String,
}

impl ImageBuilder {
    pub fn new(binary_path: String, base_image: String, platform: String) -> (r: Self)
        ensures
            r.binary_path == binary_path,
            r.base_image == base_image,
            r.platform == platform,
    {
        ImageBuilder { binary_path, base_image, platform }
    }

    /// Split the platform string `os/arch`; anything but exactly one `/`
    /// is rejected.
    pub fn parse_platform(&self) -> (r: Result<(String, String), KrustError>)
        ensures
            match r {
                Ok(p) => {
                    &&& find_first(self.platform@, '/') >= 0
                    &&& !self.platform@.skip(find_first(self.platform@, '/') + 1).contains('/')
                    &&& p.0@ == self.platform@.take(find_first(self.platform@, '/'))
                    &&& p.1@ == self.platform@.skip(find_first(self.platform@, '/') + 1)
                },
                Err(e) => {
                    &&& e == KrustError::InvalidReference
                    &&& (find_first(self.platform@, '/') < 0 || self.platform@.skip(
                        find_first(self.platform@, '/') + 1,
                    ).contains('/'))
                },
            },
    {
        let p = self.platform.as_str();
        let n = p.unicode_len();
        match find_char(p, '/') {
            Some(sl) => {
                let os = p.substring_char(0, sl);
                let arch = p.substring_char(sl + 1, n);
                if crate::strutil::contains_char(arch, '/') {
                    Err(KrustError::InvalidReference)
                } else {
                    Ok((os.to_owned(), arch.to_owned()))
                }
            },
            None => Err(KrustError::InvalidReference),
        }
    }

    /// The executable's file name.
    pub fn binary_file_name(&self) -> (r: String)
        ensures
            r@ == spec_basename(self.binary_path@),
    {
        let p = self.binary_path.as_str();
        let n = p.unicode_len();
        match rfind_char(p, '/') {
            Some(sl) => p.substring_char(sl + 1, n).to_owned(),
            None => p.to_owned(),
        }
    }

    /// Build the application layer: a tar holding the executable at
    /// `app/<name>` with mode `0755`, gzip-compressed.  Returns the
    /// compressed layer and the diff id — the digest of the uncompressed
    /// tar.  A path whose file name cannot stand as a tar entry is
    /// rejected.
    pub fn create_layer(&self, binary_data: &[u8]) -> (r: Result<(Vec<u8>, String), KrustError>)
        ensures
            match r {
                Ok(t) => {
                    &&& valid_layer_entry_name(spec_basename(self.binary_path@))
                    &&& t.0@ == gzip_of(
                        tar_file_of(app_path_of(self.binary_path@), 0o755u32, binary_data@),
                    )
                    &&& t.1@ == "sha256:"@ + sha256_hex_of(
                        tar_file_of(app_path_of(self.binary_path@), 0o755u32, binary_data@),
                    )
                },
                Err(e) => {
                    &&& e == KrustError::IoError
                    &&& !valid_layer_entry_name(spec_basename(self.binary_path@))
                },
            },
    {
        let name = self.binary_file_name();
        proof {
            reveal_strlit("..");
        }
        if name.as_str().unicode_len() == 0 || str_eq(name.as_str(), "..") || contains_char(
            name.as_str(),
            '\0',
        ) {
            return Err(KrustError::IoError);
        }
        let path = concat2("app/", name.as_str());
        proof {
            reveal_strlit("app/");
            lemma_basename_no_slash(self.binary_path@);
            lemma_app_path_no_dotdot(name@);
            assert(path@[0] == 'a');
            assert(!"app/"@.contains('\0')) by {
                if "app/"@.contains('\0') {
                    let w = choose|i: int| 0 <= i < 4 && "app/"@[i] == '\0';
                }
            }
            crate::strutil::lemma_append_not_contains("app/"@, name@, '\0');
        }
        let tar_data = tar_single_file(path.as_str(), 0o755, binary_data);
        let hex = sha256_hex(tar_data.as_slice());
        let diff_id = concat2("sha256:", hex.as_str());
        let compressed = gzip_compress(tar_data.as_slice());
        Ok((compressed, diff_id))
    }

    /// Derive the layered image's config from the base image's: base
    /// environment, working directory, user, architecture, os and history
    /// are preserved; the new diff id and one history entry are appended;
    /// the command runs the executable; `PATH` is defaulted only when the
    /// base sets none.
    pub fn create_layered_config(
        &self,
        base_config: &ImageConfig,
        app_diff_id: &str,
        created: &str,
    ) -> (r: ImageConfig)
        ensures
            r@ == spec_layered_config(
                base_config@,
                app_diff_id@,
                created@,
                "/app/"@ + spec_basename(self.binary_path@),
            ),
    {
        let name = self.binary_file_name();
        let mut env = clone_string_vec(&base_config.config.env);
        if !has_path_entry(&base_config.config.env) {
            env.push(
                String::from_str("PATH=/usr/local/sbin:/usr/local/bin:/usr/sbin:/usr/bin:/sbin:/bin"),
            );
        }
        let cmd_path = concat2("/app/", name.as_str());
        let mut diff_ids = clone_string_vec(&base_config.rootfs.diff_ids);
        diff_ids.push(app_diff_id.to_owned());
        let mut history = clone_history_vec(&base_config.history);
        history.push(
            History {
                created: created.to_owned(),
                created_by: String::from_str("krust"),
                comment: String::from_str("Built with krust"),
                empty_layer: false,
            },
        );
        let r = ImageConfig {
            architecture: base_config.architecture.clone(),
            os: base_config.os.clone(),
            config: Config {
                env,
                cmd: Some(vec![cmd_path]),
                working_dir: base_config.config.working_dir.clone(),
                user: base_config.config.user.clone(),
            },
            rootfs: RootFs { fs_type: String::from_str("layers"), diff_ids },
            history,
        };
        proof {
            let want = spec_layered_config(
                base_config@,
                app_diff_id@,
                created@,
                "/app/"@ + spec_basename(self.binary_path@),
            );
            assert(r@.config.env =~~= want.config.env);
            assert(r@.config.cmd->0 =~~= want.config.cmd->0);
            assert(r@.rootfs.diff_ids =~~= want.rootfs.diff_ids);
            assert(r@.history =~~= want.history);
            assert(r@ == want);
        }
        r
    }
}

/// One history entry rendered as JSON.
pub open spec fn spec_history_json(h: HistoryView) -> Seq<char> {
    "{\"created\":"@ + json_quote_seq(h.created) + ",\"created_by\":"@ + json_quote_seq(
        h.created_by,
    ) + ",\"comment\":"@ + json_quote_seq(h.comment) + ",\"empty_layer\":"@ + json_bool(
        h.empty_layer,
    ) + "}"@
}

/// The history entries joined by commas.
pub open spec fn spec_history_items(hs: Seq<HistoryView>) -> Seq<char>
    decreases hs.len(),
{
    if hs.len() == 0 {
        Seq::empty()
    } else if hs.len() == 1 {
        spec_history_json(hs[0])
    } else {
        spec_history_items(hs.drop_last()) + seq![','] + spec_history_json(hs.last())
    }
}

/// The canonical JSON of an image config: declaration key order, no
/// whitespace.  The config blob holds exactly these bytes, so its digest
/// is a function of the fields alone.
pub open spec fn spec_image_config_json(c: ImageConfigView) -> Seq<char> {
    "{\"architecture\":"@ + json_quote_seq(c.architecture) + ",\"os\":"@ + json_quote_seq(c.os)
        + ",\"config\":{\"Env\":"@ + json_string_array_seq(c.config.env) + ",\"Cmd\":"@ + (
    match c.config.cmd {
        Some(xs) => json_string_array_seq(xs),
        None => "null"@,
    }) + ",\"WorkingDir\":"@ + json_quote_seq(c.config.working_dir) + ",\"User\":"@
        + json_quote_seq(c.config.user) + "},\"rootfs\":{\"type\":"@ + json_quote_seq(
        c.rootfs.fs_type,
    ) + ",\"diff_ids\":"@ + json_string_array_seq(c.rootfs.diff_ids) + "},\"history\":["@
        + spec_history_items(c.history) + "]}"@
}

/// Append one history entry's JSON to `out`.
fn append_history_json(out: &mut String, h: &History)
    ensures
        final(out)@ == old(out)@ + spec_history_json(h@),
{
    out.append("{\"created\":");
    append_json_string(out, h.created.as_str());
    out.append(",\"created_by\":");
    append_json_string(out, h.created_by.as_str());
    out.append(",\"comment\":");
    append_json_string(out, h.comment.as_str());
    out.append(",\"empty_layer\":");
    append_json_bool(out, h.empty_layer);
    out.append("}");
    proof {
        assert(out@ =~= old(out)@ + spec_history_json(h@));
    }
}

/// Render an image config as its canonical JSON.
pub fn render_image_config(c: &ImageConfig) -> (r: String)
    ensures
        r@ == spec_image_config_json(c@),
{
    let mut out = String::new();
    out.append("{\"architecture\":");
    append_json_string(&mut out, c.architecture.as_str());
    out.append(",\"os\":");
    append_json_string(&mut out, c.os.as_str());
    out.append(",\"config\":{\"Env\":");
    append_json_string_array(&mut out, &c.config.env);
    out.append(",\"Cmd\":");
    match &c.config.cmd {
        Some(xs) => append_json_string_array(&mut out, xs),
        None => out.append("null"),
    }
    out.append(",\"WorkingDir\":");
    append_json_string(&mut out, c.config.working_dir.as_str());
    out.append(",\"User\":");
    append_json_string(&mut out, c.config.user.as_str());
    out.append("},\"rootfs\":{\"type\":");
    append_json_string(&mut out, c.rootfs.fs_type.as_str());
    out.append(",\"diff_ids\":");
    append_json_string_array(&mut out, &c.rootfs.diff_ids);
    out.append("},\"history\":[");
    let ghost pre = out@;
    let n = c.history.len();
    proof {
        reveal_strlit(",");
        assert(c@.history.take(0) =~= Seq::<HistoryView>::empty());
    }
    let mut i: usize = 0;
    while i < n
        invariant
            i <= n,
            n == c.history@.len(),
            n == c@.history.len(),
            forall|k: int| 0 <= k < n ==> c@.history[k] == #[trigger] c.history@[k]@,
            ","@ =~= seq![','],
            out@ == pre + spec_history_items(c@.history.take(i as int)),
        decreases n - i,
    {
        if i > 0 {
            out.append(",");
        }
        append_history_json(&mut out, &c.history[i]);
        proof {
            let hs = c@.history.take(i as int + 1);
            assert(hs.drop_last() =~= c@.history.take(i as int));
            assert(hs.last() == c@.history[i as int]);
            if i == 0 {
                assert(out@ =~= pre + spec_history_items(hs));
            } else {
                assert(out@ =~= pre + spec_history_items(hs));
            }
        }
        i = i + 1;
    }
    out.append("]}");
    proof {
        assert(c@.history.take(n as int) =~= c@.history);
        assert(out@ =~= spec_image_config_json(c@));
    }
    out
}

/// What the assembled blobs are, as functions of the inputs alone: the
/// layer is the gzip of the tar holding the executable, and the config
/// blob is the canonical JSON of the layered config derived from the base
/// config, the layer's diff id and the timestamp.
pub open spec fn assembled_from(
    config_bytes: Seq<u8>,
    layer_bytes: Seq<u8>,
    binary_path: Seq<char>,
    data: Seq<u8>,
    base_cfg: ImageConfigView,
    created: Seq<char>,
) -> bool {
    let tar = tar_file_of(app_path_of(binary_path), 0o755u32, data);
    &&& layer_bytes == gzip_of(tar)
    &&& config_bytes == vstd::utf8::encode_utf8(
        spec_image_config_json(
            spec_layered_config(
                base_cfg,
                "sha256:"@ + sha256_hex_of(tar),
                created,
                "/app/"@ + spec_basename(binary_path),
            ),
        ),
    )
}

/// Two assemblies from the same executable bytes, base config, binary
/// path and timestamp produce byte-identical config blobs and layer
/// blobs — and therefore identical digests and manifests.
pub proof fn lemma_assembly_reproducible(
    config_bytes1: Seq<u8>,
    layer_bytes1: Seq<u8>,
    config_bytes2: Seq<u8>,
    layer_bytes2: Seq<u8>,
    binary_path: Seq<char>,
    data: Seq<u8>,
    base_cfg: ImageConfigView,
    created: Seq<char>,
)
    requires
        assembled_from(config_bytes1, layer_bytes1, binary_path, data, base_cfg, created),
        assembled_from(config_bytes2, layer_bytes2, binary_path, data, base_cfg, created),
    ensures
        config_bytes1 == config_bytes2,
        layer_bytes1 == layer_bytes2,
{
}

impl ImageBuilder {
    /// Assemble the image for this builder's platform: build the
    /// application layer from the executable's bytes, derive the layered
    /// config, and compose the manifest whose layers are the base
    /// image's layers followed by exactly the one new layer.  Returns
    /// `(config_bytes, layer_bytes, manifest)`.
    pub fn build(
        &self,
        binary_data: &[u8],
        base_manifest: &OciImageManifest,
        base_config: &ImageConfig,
        created: &str,
    ) -> (r: Result<(Vec<u8>, Vec<u8>, Manifest), KrustError>)
        ensures
            match r {
                Ok(t) => {
                    &&& find_first(self.platform@, '/') >= 0
                    &&& !self.platform@.skip(find_first(self.platform@, '/') + 1).contains('/')
                    &&& valid_layer_entry_name(spec_basename(self.binary_path@))
                    &&& assembled_from(
                        t.0@,
                        t.1@,
                        self.binary_path@,
                        binary_data@,
                        base_config@,
                        created@,
                    )
                    &&& t.2.schema_version == 2
                    &&& t.2.media_type@ == "application/vnd.docker.distribution.manifest.v2+json"@
                    &&& t.2.config.media_type@ == "application/vnd.docker.container.image.v1+json"@
                    &&& t.2.config.digest@ == "sha256:"@ + sha256_hex_of(t.0@)
                    &&& t.2.config.size == t.0@.len() as i64
                    &&& t.2.layers@.len() == base_manifest.layers@.len() + 1
                    &&& forall|i: int|
                        0 <= i < base_manifest.layers@.len() ==> {
                            &&& (#[trigger] t.2.layers@[i]).media_type
                                == base_manifest.layers@[i].media_type
                            &&& t.2.layers@[i].digest == base_manifest.layers@[i].digest
                            &&& t.2.layers@[i].size == base_manifest.layers@[i].size
                        }
                    &&& t.2.layers@.last().media_type@
                        == "application/vnd.docker.image.rootfs.diff.tar.gzip"@
                    &&& t.2.layers@.last().digest@ == "sha256:"@ + sha256_hex_of(t.1@)
                    &&& t.2.layers@.last().size == t.1@.len() as i64
                },
                Err(e) => {
                    &&& if find_first(self.platform@, '/') < 0 || self.platform@.skip(
                        find_first(self.platform@, '/') + 1,
                    ).contains('/') {
                        e == KrustError::InvalidReference
                    } else {
                        e == KrustError::IoError && !valid_layer_entry_name(
                            spec_basename(self.binary_path@),
                        )
                    }
                },
            },
    {
        let (_os, _arch) = self.parse_platform()?;

        // Build the application layer and its diff id.
        let (layer_data, diff_id) = self.create_layer(binary_data)?;
        let layer_hex = sha256_hex(layer_data.as_slice());
        let layer_digest = concat2("sha256:", layer_hex.as_str());
        let layer_size = layer_data.len() as i64;

        // Base layers first, then exactly one new layer.
        let mut all_layers: Vec<Descriptor> = Vec::new();
        let nb = base_manifest.layers.len();
        let mut i: usize = 0;
        while i < nb
            invariant
                i <= nb,
                nb == base_manifest.layers@.len(),
                all_layers@.len() == i,
                forall|k: int|
                    0 <= k < i ==> {
                        &&& (#[trigger] all_layers@[k]).media_type
                            == base_manifest.layers@[k].media_type
                        &&& all_layers@[k].digest == base_manifest.layers@[k].digest
                        &&& all_layers@[k].size == base_manifest.layers@[k].size
                    },
            decreases nb - i,
        {
            all_layers.push(
                Descriptor {
                    media_type: base_manifest.layers[i].media_type.clone(),
                    size: base_manifest.layers[i].size,
                    digest: base_manifest.layers[i].digest.clone(),
                },
            );
            i = i + 1;
        }
        all_layers.push(
            Descriptor {
                media_type: String::from_str("application/vnd.docker.image.rootfs.diff.tar.gzip"),
                size: layer_size,
                digest: layer_digest,
            },
        );

        // Derive and render the layered config.
        let config = self.create_layered_config(base_config, diff_id.as_str(), created);
        let config_json = render_image_config(&config);
        let config_data = config_json.as_str().as_bytes_vec();
        let config_hex = sha256_hex(config_data.as_slice());
        let config_digest = concat2("sha256:", config_hex.as_str());
        let config_size = config_data.len() as i64;

        let manifest = Manifest {
            schema_version: 2,
            media_type: String::from_str("application/vnd.docker.distribution.manifest.v2+json"),
            config: Descriptor {
                media_type: String::from_str("application/vnd.docker.container.image.v1+json"),
                size: config_size,
                digest: config_digest,
            },
            layers: all_layers,
        };
        Ok((config_data, layer_data, manifest))
    }
}

} // verus!
