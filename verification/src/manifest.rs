//! Manifest and index composition, and their canonical JSON.  A pushed
//! manifest's digest is the digest of exactly these bytes; layer order is
//! what stacks the filesystem, so every composition here preserves it.

use vstd::prelude::*;

use crate::codec::{sha256_hex, sha256_hex_of};
use crate::image::Descriptor;
use crate::jsonout::{append_json_string, i64_to_dec, json_int, json_quote_seq};
use crate::reference::ImageReference;
use crate::registry::{ImageIndexEntry, OciDescriptor, OciImageIndex, OciImageManifest};
use crate::strutil::{concat2, concat3, str_eq};

verus! {

/// A multi-platform image index.
#[derive(Debug, Clone)]
pub struct ImageIndex {
    pub schema_version: i32,
    pub media_type: String,
    pub manifests: Vec<ManifestDescriptor>,
}

/// One per-platform manifest in an index.
#[derive(Debug, Clone)]
pub struct ManifestDescriptor {
    pub media_type: String,
    pub size: i64,
    pub digest: String,
    pub platform: Platform,
}

/// The platform a manifest serves.
#[derive(Debug, Clone)]
pub struct Platform {
    pub architecture: String,
    pub os: String,
    pub variant: Option<String>,
}

impl ImageIndex {
    /// An OCI image index over the given manifests.
    pub fn new(manifests: Vec<ManifestDescriptor>) -> (r: Self)
        ensures
            r.schema_version == 2,
            r.media_type@ == "application/vnd.oci.image.index.v1+json"@,
            r.manifests == manifests,
    {
        ImageIndex {
            schema_version: 2,
            media_type: String::from_str("application/vnd.oci.image.index.v1+json"),
            manifests,
        }
    }
}

/// A descriptor rendered as JSON.
pub open spec fn spec_oci_descriptor_json(d: OciDescriptor) -> Seq<char> {
    "{\"mediaType\":"@ + json_quote_seq(d.media_type@) + ",\"digest\":"@ + json_quote_seq(d.digest@)
        + ",\"size\":"@ + json_int(d.size as int) + "}"@
}

/// The layer descriptors joined by commas.
pub open spec fn spec_oci_layers_items(ds: Seq<OciDescriptor>) -> Seq<char>
    decreases ds.len(),
{
    if ds.len() == 0 {
        Seq::empty()
    } else if ds.len() == 1 {
        spec_oci_descriptor_json(ds[0])
    } else {
        spec_oci_layers_items(ds.drop_last()) + seq![','] + spec_oci_descriptor_json(ds.last())
    }
}

/// The canonical JSON of an image manifest; an absent config descriptor
/// is omitted entirely.
pub open spec fn spec_oci_manifest_json(m: OciImageManifest) -> Seq<char> {
    "{\"schemaVersion\":"@ + json_int(m.schema_version as int) + ",\"mediaType\":"@
        + json_quote_seq(m.media_type@) + (match m.config {
        Some(c) => ",\"config\":"@ + spec_oci_descriptor_json(c),
        None => Seq::empty(),
    }) + ",\"layers\":["@ + spec_oci_layers_items(m.layers@) + "]}"@
}

/// A platform rendered as JSON; an absent variant is omitted.
pub open spec fn spec_platform_json(p: crate::registry::Platform) -> Seq<char> {
    "{\"architecture\":"@ + json_quote_seq(p.architecture@) + ",\"os\":"@ + json_quote_seq(p.os@)
        + (match p.variant {
        Some(v) => ",\"variant\":"@ + json_quote_seq(v@),
        None => Seq::empty(),
    }) + "}"@
}

/// An index entry rendered as JSON; an absent platform is omitted.
pub open spec fn spec_index_entry_json(e: ImageIndexEntry) -> Seq<char> {
    "{\"mediaType\":"@ + json_quote_seq(e.media_type@) + ",\"digest\":"@ + json_quote_seq(e.digest@)
        + ",\"size\":"@ + json_int(e.size as int) + (match e.platform {
        Some(p) => ",\"platform\":"@ + spec_platform_json(p),
        None => Seq::empty(),
    }) + "}"@
}

/// The index entries joined by commas.
pub open spec fn spec_index_items(es: Seq<ImageIndexEntry>) -> Seq<char>
    decreases es.len(),
{
    if es.len() == 0 {
        Seq::empty()
    } else if es.len() == 1 {
        spec_index_entry_json(es[0])
    } else {
        spec_index_items(es.drop_last()) + seq![','] + spec_index_entry_json(es.last())
    }
}

/// The canonical JSON of an image index.
pub open spec fn spec_oci_index_json(ix: OciImageIndex) -> Seq<char> {
    "{\"schemaVersion\":"@ + json_int(ix.schema_version as int) + ",\"mediaType\":"@
        + json_quote_seq(ix.media_type@) + ",\"manifests\":["@ + spec_index_items(ix.manifests@)
        + "]}"@
}

/// Append a descriptor's JSON to `out`.
fn append_oci_descriptor(out: &mut String, d: &OciDescriptor)
    ensures
        final(out)@ == old(out)@ + spec_oci_descriptor_json(*d),
{
    out.append("{\"mediaType\":");
    append_json_string(out, d.media_type.as_str());
    out.append(",\"digest\":");
    append_json_string(out, d.digest.as_str());
    out.append(",\"size\":");
    let num = i64_to_dec(d.size);
    out.append(num.as_str());
    out.append("}");
    proof {
        assert(out@ =~= old(out)@ + spec_oci_descriptor_json(*d));
    }
}

/// Render an image manifest as its canonical JSON.
#[verifier::loop_isolation(false)]
pub fn render_oci_manifest(m: &OciImageManifest) -> (r: String)
    ensures
        r@ == spec_oci_manifest_json(*m),
{
    let mut out = String::new();
    out.append("{\"schemaVersion\":");
    let num = i64_to_dec(m.schema_version as i64);
    out.append(num.as_str());
    out.append(",\"mediaType\":");
    append_json_string(&mut out, m.media_type.as_str());
    match &m.config {
        Some(c) => {
            out.append(",\"config\":");
            append_oci_descriptor(&mut out, c);
        },
        None => {},
    }
    out.append(",\"layers\":[");
    let ghost pre = out@;
    let n = m.layers.len();
    proof {
        reveal_strlit(",");
        assert(m.layers@.take(0) =~= Seq::<OciDescriptor>::empty());
    }
    let mut i: usize = 0;
    while i < n
        invariant
            i <= n,
            n == m.layers@.len(),
            out@ == pre + spec_oci_layers_items(m.layers@.take(i as int)),
        decreases n - i,
    {
        if i > 0 {
            out.append(",");
        }
        append_oci_descriptor(&mut out, &m.layers[i]);
        proof {
            let xs = m.layers@.take(i as int + 1);
            assert(xs.drop_last() =~= m.layers@.take(i as int));
            assert(xs.last() == m.layers@[i as int]);
            assert(out@ =~= pre + spec_oci_layers_items(xs));
        }
        i = i + 1;
    }
    out.append("]}");
    proof {
        assert(m.layers@.take(n as int) =~= m.layers@);
        assert(out@ =~= spec_oci_manifest_json(*m));
    }
    out
}

/// Append an index entry's JSON to `out`.
fn append_index_entry(out: &mut String, e: &ImageIndexEntry)
    ensures
        final(out)@ == old(out)@ + spec_index_entry_json(*e),
{
    out.append("{\"mediaType\":");
    append_json_string(out, e.media_type.as_str());
    out.append(",\"digest\":");
    append_json_string(out, e.digest.as_str());
    out.append(",\"size\":");
    let num = i64_to_dec(e.size);
    out.append(num.as_str());
    match &e.platform {
        Some(p) => {
            out.append(",\"platform\":{\"architecture\":");
            append_json_string(out, p.architecture.as_str());
            out.append(",\"os\":");
            append_json_string(out, p.os.as_str());
            match &p.variant {
                Some(v) => {
                    out.append(",\"variant\":");
                    append_json_string(out, v.as_str());
                },
                None => {},
            }
            out.append("}");
            proof {
                reveal_strlit(",\"platform\":{\"architecture\":");
                reveal_strlit(",\"platform\":");
                reveal_strlit("{\"architecture\":");
                assert(",\"platform\":{\"architecture\":"@ =~= ",\"platform\":"@
                    + "{\"architecture\":"@);
            }
        },
        None => {},
    }
    out.append("}");
    proof {
        assert(out@ =~= old(out)@ + spec_index_entry_json(*e));
    }
}

/// Render an image index as its canonical JSON.
#[verifier::loop_isolation(false)]
pub fn render_oci_index(ix: &OciImageIndex) -> (r: String)
    ensures
        r@ == spec_oci_index_json(*ix),
{
    let mut out = String::new();
    out.append("{\"schemaVersion\":");
    let num = i64_to_dec(ix.schema_version as i64);
    out.append(num.as_str());
    out.append(",\"mediaType\":");
    append_json_string(&mut out, ix.media_type.as_str());
    out.append(",\"manifests\":[");
    let ghost pre = out@;
    let n = ix.manifests.len();
    proof {
        reveal_strlit(",");
        assert(ix.manifests@.take(0) =~= Seq::<ImageIndexEntry>::empty());
    }
    let mut i: usize = 0;
    while i < n
        invariant
            i <= n,
            n == ix.manifests@.len(),
            out@ == pre + spec_index_items(ix.manifests@.take(i as int)),
        decreases n - i,
    {
        if i > 0 {
            out.append(",");
        }
        append_index_entry(&mut out, &ix.manifests[i]);
        proof {
            let xs = ix.manifests@.take(i as int + 1);
            assert(xs.drop_last() =~= ix.manifests@.take(i as int));
            assert(xs.last() == ix.manifests@[i as int]);
            assert(out@ =~= pre + spec_index_items(xs));
        }
        i = i + 1;
    }
    out.append("]}");
    proof {
        assert(ix.manifests@.take(n as int) =~= ix.manifests@);
        assert(out@ =~= spec_oci_index_json(*ix));
    }
    out
}

/// Whether two descriptor lists agree element-wise at the view level.
pub open spec fn descriptors_match(ds1: Seq<OciDescriptor>, ds2: Seq<OciDescriptor>) -> bool {
    &&& ds1.len() == ds2.len()
    &&& forall|i: int|
        0 <= i < ds1.len() ==> {
            &&& (#[trigger] ds1[i]).media_type@ == ds2[i].media_type@
            &&& ds1[i].digest@ == ds2[i].digest@
            &&& ds1[i].size == ds2[i].size
        }
}

/// A rendered descriptor followed by arbitrary text determines the
/// descriptor's fields and the text.
proof fn lemma_descriptor_prefix_unambiguous(
    d1: OciDescriptor,
    d2: OciDescriptor,
    t1: Seq<char>,
    t2: Seq<char>,
)
    requires
        spec_oci_descriptor_json(d1) + t1 == spec_oci_descriptor_json(d2) + t2,
    ensures
        d1.media_type@ == d2.media_type@,
        d1.digest@ == d2.digest@,
        d1.size == d2.size,
        t1 == t2,
{
    reveal_strlit("{\"mediaType\":");
    reveal_strlit(",\"digest\":");
    reveal_strlit(",\"size\":");
    reveal_strlit("}");
    let a1 = json_quote_seq(d1.media_type@) + (",\"digest\":"@ + (json_quote_seq(d1.digest@) + (
    ",\"size\":"@ + (json_int(d1.size as int) + ("}"@ + t1)))));
    let a2 = json_quote_seq(d2.media_type@) + (",\"digest\":"@ + (json_quote_seq(d2.digest@) + (
    ",\"size\":"@ + (json_int(d2.size as int) + ("}"@ + t2)))));
    assert(spec_oci_descriptor_json(d1) + t1 =~= "{\"mediaType\":"@ + a1);
    assert(spec_oci_descriptor_json(d2) + t2 =~= "{\"mediaType\":"@ + a2);
    crate::jsonout::lemma_peel_literal("{\"mediaType\":"@, a1, a2);
    let b1 = ",\"digest\":"@ + (json_quote_seq(d1.digest@) + (",\"size\":"@ + (json_int(
        d1.size as int,
    ) + ("}"@ + t1))));
    let b2 = ",\"digest\":"@ + (json_quote_seq(d2.digest@) + (",\"size\":"@ + (json_int(
        d2.size as int,
    ) + ("}"@ + t2))));
    crate::jsonout::lemma_json_string_unambiguous(d1.media_type@, d2.media_type@, b1, b2);
    let c1 = json_quote_seq(d1.digest@) + (",\"size\":"@ + (json_int(d1.size as int) + ("}"@
        + t1)));
    let c2 = json_quote_seq(d2.digest@) + (",\"size\":"@ + (json_int(d2.size as int) + ("}"@
        + t2)));
    crate::jsonout::lemma_peel_literal(",\"digest\":"@, c1, c2);
    let e1 = ",\"size\":"@ + (json_int(d1.size as int) + ("}"@ + t1));
    let e2 = ",\"size\":"@ + (json_int(d2.size as int) + ("}"@ + t2));
    crate::jsonout::lemma_json_string_unambiguous(d1.digest@, d2.digest@, e1, e2);
    let f1 = json_int(d1.size as int) + ("}"@ + t1);
    let f2 = json_int(d2.size as int) + ("}"@ + t2);
    crate::jsonout::lemma_peel_literal(",\"size\":"@, f1, f2);
    assert(("}"@ + t1)[0] == '}');
    assert(("}"@ + t2)[0] == '}');
    crate::jsonout::lemma_json_int_unambiguous(
        d1.size as int,
        d2.size as int,
        "}"@ + t1,
        "}"@ + t2,
    );
    crate::jsonout::lemma_peel_literal("}"@, t1, t2);
}

/// The layer list rendered from the left: the first descriptor, then a
/// comma and the rest.
proof fn lemma_oci_layers_left(ds: Seq<OciDescriptor>)
    requires
        ds.len() > 0,
    ensures
        spec_oci_layers_items(ds) == spec_oci_descriptor_json(ds[0]) + (if ds.len() == 1 {
            Seq::<char>::empty()
        } else {
            seq![','] + spec_oci_layers_items(ds.drop_first())
        }),
    decreases ds.len(),
{
    if ds.len() == 1 {
        assert(spec_oci_layers_items(ds) =~= spec_oci_descriptor_json(ds[0])
            + Seq::<char>::empty());
    } else if ds.len() == 2 {
        assert(ds.drop_last()[0] == ds[0]);
        assert(ds.drop_last().len() == 1);
        assert(spec_oci_layers_items(ds.drop_last()) == spec_oci_descriptor_json(ds[0]));
        assert(ds.drop_first().len() == 1);
        assert(ds.drop_first()[0] == ds[1]);
        assert(spec_oci_layers_items(ds.drop_first()) == spec_oci_descriptor_json(ds[1]));
        assert(ds.last() == ds[1]);
        assert(spec_oci_layers_items(ds) =~= spec_oci_descriptor_json(ds[0]) + (seq![',']
            + spec_oci_layers_items(ds.drop_first())));
    } else {
        lemma_oci_layers_left(ds.drop_last());
        assert(ds.drop_last()[0] == ds[0]);
        assert(ds.drop_last().drop_first() =~= ds.drop_first().drop_last());
        assert(ds.drop_first().len() > 1);
        assert(ds.drop_first().last() == ds.last());
        assert(spec_oci_layers_items(ds.drop_first()) == spec_oci_layers_items(
            ds.drop_first().drop_last(),
        ) + seq![','] + spec_oci_descriptor_json(ds.last()));
        assert(spec_oci_layers_items(ds) =~= spec_oci_descriptor_json(ds[0]) + (seq![',']
            + spec_oci_layers_items(ds.drop_first())));
    }
}

/// A rendered layer list closed by `]` determines the descriptors and
/// what follows.
#[verifier::spinoff_prover]
#[verifier::rlimit(60)]
proof fn lemma_layers_unambiguous(
    ds1: Seq<OciDescriptor>,
    ds2: Seq<OciDescriptor>,
    r1: Seq<char>,
    r2: Seq<char>,
)
    requires
        spec_oci_layers_items(ds1) + seq![']'] + r1 == spec_oci_layers_items(ds2) + seq![']'] + r2,
    ensures
        descriptors_match(ds1, ds2),
        r1 == r2,
    decreases ds1.len(),
{
    reveal_strlit("{\"mediaType\":");
    let whole = spec_oci_layers_items(ds1) + seq![']'] + r1;
    if ds1.len() == 0 && ds2.len() == 0 {
        assert(spec_oci_layers_items(ds1) + seq![']'] =~= seq![']']);
        assert(spec_oci_layers_items(ds2) + seq![']'] =~= seq![']']);
        crate::jsonout::lemma_cancel_prefix(
            spec_oci_layers_items(ds1) + seq![']'],
            spec_oci_layers_items(ds2) + seq![']'],
            r1,
            r2,
        );
    } else if ds1.len() == 0 {
        lemma_oci_layers_left(ds2);
        assert(whole =~= seq![']'] + r1);
        assert(whole[0] == ']');
        assert(spec_oci_descriptor_json(ds2[0])[0] == '{');
        assert((spec_oci_layers_items(ds2) + seq![']'] + r2)[0] == '{');
        assert(false);
    } else if ds2.len() == 0 {
        lemma_oci_layers_left(ds1);
        assert(whole[0] == spec_oci_descriptor_json(ds1[0])[0]);
        assert(spec_oci_descriptor_json(ds1[0])[0] == '{');
        assert(spec_oci_layers_items(ds2) + seq![']'] + r2 =~= seq![']'] + r2);
        assert((spec_oci_layers_items(ds2) + seq![']'] + r2)[0] == ']');
        assert(false);
    } else {
        lemma_oci_layers_left(ds1);
        lemma_oci_layers_left(ds2);
        let tail1 = (if ds1.len() == 1 {
            Seq::<char>::empty()
        } else {
            seq![','] + spec_oci_layers_items(ds1.drop_first())
        }) + seq![']'] + r1;
        let tail2 = (if ds2.len() == 1 {
            Seq::<char>::empty()
        } else {
            seq![','] + spec_oci_layers_items(ds2.drop_first())
        }) + seq![']'] + r2;
        assert(spec_oci_descriptor_json(ds1[0]) + tail1 =~= whole);
        assert(spec_oci_descriptor_json(ds2[0]) + tail2 =~= spec_oci_layers_items(ds2) + seq![']']
            + r2);
        lemma_descriptor_prefix_unambiguous(ds1[0], ds2[0], tail1, tail2);
        if ds1.len() == 1 && ds2.len() == 1 {
            assert(tail1 =~= seq![']'] + r1);
            assert(tail2 =~= seq![']'] + r2);
            crate::jsonout::lemma_cancel_prefix(seq![']'], seq![']'], r1, r2);
            assert(descriptors_match(ds1, ds2));
        } else if ds1.len() == 1 {
            assert(tail1[0] == ']');
            assert(tail2[0] == ',');
            assert(false);
        } else if ds2.len() == 1 {
            assert(tail1[0] == ',');
            assert(tail2[0] == ']');
            assert(false);
        } else {
            assert(tail1 =~= seq![','] + (spec_oci_layers_items(ds1.drop_first()) + seq![']']
                + r1));
            assert(tail2 =~= seq![','] + (spec_oci_layers_items(ds2.drop_first()) + seq![']']
                + r2));
            crate::jsonout::lemma_cancel_prefix(
                seq![','],
                seq![','],
                spec_oci_layers_items(ds1.drop_first()) + seq![']'] + r1,
                spec_oci_layers_items(ds2.drop_first()) + seq![']'] + r2,
            );
            lemma_layers_unambiguous(ds1.drop_first(), ds2.drop_first(), r1, r2);
            assert(descriptors_match(ds1, ds2)) by {
                assert forall|i: int| 0 <= i < ds1.len() implies {
                    &&& (#[trigger] ds1[i]).media_type@ == ds2[i].media_type@
                    &&& ds1[i].digest@ == ds2[i].digest@
                    &&& ds1[i].size == ds2[i].size
                } by {
                    if i > 0 {
                        assert(ds1.drop_first()[i - 1] == ds1[i]);
                        assert(ds2.drop_first()[i - 1] == ds2[i]);
                    }
                }
            }
        }
    }
}

/// The canonical manifest JSON is injective: two manifests that render to
/// the same bytes agree in every field.  Exactly one manifest renders to
/// any given blob, so a manifest that is decoded from its rendering and
/// rendered again keeps its bytes — and with them its digest.
#[verifier::spinoff_prover]
#[verifier::rlimit(100)]
pub proof fn lemma_manifest_json_injective(m1: OciImageManifest, m2: OciImageManifest)
    requires
        spec_oci_manifest_json(m1) == spec_oci_manifest_json(m2),
    ensures
        m1.schema_version == m2.schema_version,
        m1.media_type@ == m2.media_type@,
        (m1.config is Some) == (m2.config is Some),
        m1.config matches Some(c1) ==> m2.config matches Some(c2) && c1.media_type@
            == c2.media_type@ && c1.digest@ == c2.digest@ && c1.size == c2.size,
        descriptors_match(m1.layers@, m2.layers@),
{
    reveal_strlit("{\"schemaVersion\":");
    reveal_strlit(",\"mediaType\":");
    reveal_strlit(",\"config\":");
    reveal_strlit(",\"layers\":[");
    reveal_strlit("]}");
    let cfg1 = match m1.config {
        Some(c) => ",\"config\":"@ + spec_oci_descriptor_json(c),
        None => Seq::<char>::empty(),
    };
    let cfg2 = match m2.config {
        Some(c) => ",\"config\":"@ + spec_oci_descriptor_json(c),
        None => Seq::<char>::empty(),
    };
    let a1 = json_int(m1.schema_version as int) + (",\"mediaType\":"@ + (json_quote_seq(
        m1.media_type@,
    ) + (cfg1 + (",\"layers\":["@ + (spec_oci_layers_items(m1.layers@) + "]}"@)))));
    let a2 = json_int(m2.schema_version as int) + (",\"mediaType\":"@ + (json_quote_seq(
        m2.media_type@,
    ) + (cfg2 + (",\"layers\":["@ + (spec_oci_layers_items(m2.layers@) + "]}"@)))));
    assert(spec_oci_manifest_json(m1) =~= "{\"schemaVersion\":"@ + a1);
    assert(spec_oci_manifest_json(m2) =~= "{\"schemaVersion\":"@ + a2);
    crate::jsonout::lemma_peel_literal("{\"schemaVersion\":"@, a1, a2);
    let b1 = ",\"mediaType\":"@ + (json_quote_seq(m1.media_type@) + (cfg1 + (",\"layers\":["@ + (
    spec_oci_layers_items(m1.layers@) + "]}"@))));
    let b2 = ",\"mediaType\":"@ + (json_quote_seq(m2.media_type@) + (cfg2 + (",\"layers\":["@ + (
    spec_oci_layers_items(m2.layers@) + "]}"@))));
    assert(b1[0] == ',' && b2[0] == ',');
    crate::jsonout::lemma_json_int_unambiguous(
        m1.schema_version as int,
        m2.schema_version as int,
        b1,
        b2,
    );
    let c1 = json_quote_seq(m1.media_type@) + (cfg1 + (",\"layers\":["@ + (spec_oci_layers_items(
        m1.layers@,
    ) + "]}"@)));
    let c2 = json_quote_seq(m2.media_type@) + (cfg2 + (",\"layers\":["@ + (spec_oci_layers_items(
        m2.layers@,
    ) + "]}"@)));
    crate::jsonout::lemma_peel_literal(",\"mediaType\":"@, c1, c2);
    let e1 = cfg1 + (",\"layers\":["@ + (spec_oci_layers_items(m1.layers@) + "]}"@));
    let e2 = cfg2 + (",\"layers\":["@ + (spec_oci_layers_items(m2.layers@) + "]}"@));
    crate::jsonout::lemma_json_string_unambiguous(m1.media_type@, m2.media_type@, e1, e2);

    // a present config starts `,"config":` whose third character differs
    // from `,"layers":[`
    if m1.config is Some && m2.config is None {
        assert(e1[2] == 'c');
        assert(e2[2] == 'l') by {
            assert(e2 =~= ",\"layers\":["@ + (spec_oci_layers_items(m2.layers@) + "]}"@));
        }
        assert(false);
    } else if m1.config is None && m2.config is Some {
        assert(e1[2] == 'l') by {
            assert(e1 =~= ",\"layers\":["@ + (spec_oci_layers_items(m1.layers@) + "]}"@));
        }
        assert(e2[2] == 'c');
        assert(false);
    } else if m1.config is Some && m2.config is Some {
        let d1 = m1.config->0;
        let d2 = m2.config->0;
        let f1 = spec_oci_descriptor_json(d1) + (",\"layers\":["@ + (spec_oci_layers_items(
            m1.layers@,
        ) + "]}"@));
        let f2 = spec_oci_descriptor_json(d2) + (",\"layers\":["@ + (spec_oci_layers_items(
            m2.layers@,
        ) + "]}"@));
        assert(e1 =~= ",\"config\":"@ + f1);
        assert(e2 =~= ",\"config\":"@ + f2);
        crate::jsonout::lemma_peel_literal(",\"config\":"@, f1, f2);
        lemma_descriptor_prefix_unambiguous(
            d1,
            d2,
            ",\"layers\":["@ + (spec_oci_layers_items(m1.layers@) + "]}"@),
            ",\"layers\":["@ + (spec_oci_layers_items(m2.layers@) + "]}"@),
        );
        crate::jsonout::lemma_peel_literal(
            ",\"layers\":["@,
            spec_oci_layers_items(m1.layers@) + "]}"@,
            spec_oci_layers_items(m2.layers@) + "]}"@,
        );
    } else {
        assert(e1 =~= ",\"layers\":["@ + (spec_oci_layers_items(m1.layers@) + "]}"@));
        assert(e2 =~= ",\"layers\":["@ + (spec_oci_layers_items(m2.layers@) + "]}"@));
        crate::jsonout::lemma_peel_literal(
            ",\"layers\":["@,
            spec_oci_layers_items(m1.layers@) + "]}"@,
            spec_oci_layers_items(m2.layers@) + "]}"@,
        );
    }
    assert(spec_oci_layers_items(m1.layers@) + "]}"@ == spec_oci_layers_items(m2.layers@)
        + "]}"@);
    assert(spec_oci_layers_items(m1.layers@) + "]}"@ =~= spec_oci_layers_items(m1.layers@)
        + seq![']'] + seq!['}']);
    assert(spec_oci_layers_items(m2.layers@) + "]}"@ =~= spec_oci_layers_items(m2.layers@)
        + seq![']'] + seq!['}']);
    lemma_layers_unambiguous(m1.layers@, m2.layers@, seq!['}'], seq!['}']);
}

/// Whether two optional platforms agree at the view level.
pub open spec fn platforms_match(
    p1: Option<crate::registry::Platform>,
    p2: Option<crate::registry::Platform>,
) -> bool {
    match (p1, p2) {
        (Some(a), Some(b)) => {
            &&& a.architecture@ == b.architecture@
            &&& a.os@ == b.os@
            &&& crate::strutil::opt_str_view(a.variant) == crate::strutil::opt_str_view(b.variant)
        },
        (None, None) => true,
        _ => false,
    }
}

/// Whether two index entry lists agree element-wise at the view level.
pub open spec fn index_entries_match(es1: Seq<ImageIndexEntry>, es2: Seq<ImageIndexEntry>) -> bool {
    &&& es1.len() == es2.len()
    &&& forall|i: int|
        0 <= i < es1.len() ==> {
            &&& (#[trigger] es1[i]).media_type@ == es2[i].media_type@
            &&& es1[i].digest@ == es2[i].digest@
            &&& es1[i].size == es2[i].size
            &&& platforms_match(es1[i].platform, es2[i].platform)
        }
}

/// A rendered platform closed by the entry's brace determines the
/// platform's fields and what follows.
#[verifier::spinoff_prover]
#[verifier::rlimit(100)]
proof fn lemma_platform_prefix_unambiguous(
    p1: crate::registry::Platform,
    p2: crate::registry::Platform,
    t1: Seq<char>,
    t2: Seq<char>,
)
    requires
        spec_platform_json(p1) + t1 == spec_platform_json(p2) + t2,
    ensures
        p1.architecture@ == p2.architecture@,
        p1.os@ == p2.os@,
        crate::strutil::opt_str_view(p1.variant) == crate::strutil::opt_str_view(p2.variant),
        t1 == t2,
{
    reveal_strlit("{\"architecture\":");
    reveal_strlit(",\"os\":");
    reveal_strlit(",\"variant\":");
    reveal_strlit("}");
    let v1 = match p1.variant {
        Some(v) => ",\"variant\":"@ + json_quote_seq(v@),
        None => Seq::<char>::empty(),
    };
    let v2 = match p2.variant {
        Some(v) => ",\"variant\":"@ + json_quote_seq(v@),
        None => Seq::<char>::empty(),
    };
    let a1 = json_quote_seq(p1.architecture@) + (",\"os\":"@ + (json_quote_seq(p1.os@) + (v1 + (
    "}"@ + t1))));
    let a2 = json_quote_seq(p2.architecture@) + (",\"os\":"@ + (json_quote_seq(p2.os@) + (v2 + (
    "}"@ + t2))));
    assert(spec_platform_json(p1) + t1 =~= "{\"architecture\":"@ + a1);
    assert(spec_platform_json(p2) + t2 =~= "{\"architecture\":"@ + a2);
    crate::jsonout::lemma_peel_literal("{\"architecture\":"@, a1, a2);
    let b1 = ",\"os\":"@ + (json_quote_seq(p1.os@) + (v1 + ("}"@ + t1)));
    let b2 = ",\"os\":"@ + (json_quote_seq(p2.os@) + (v2 + ("}"@ + t2)));
    crate::jsonout::lemma_json_string_unambiguous(p1.architecture@, p2.architecture@, b1, b2);
    let c1 = json_quote_seq(p1.os@) + (v1 + ("}"@ + t1));
    let c2 = json_quote_seq(p2.os@) + (v2 + ("}"@ + t2));
    crate::jsonout::lemma_peel_literal(",\"os\":"@, c1, c2);
    let e1 = v1 + ("}"@ + t1);
    let e2 = v2 + ("}"@ + t2);
    crate::jsonout::lemma_json_string_unambiguous(p1.os@, p2.os@, e1, e2);
    if p1.variant is Some && p2.variant is None {
        assert(e1[0] == ',');
        assert(e2 =~= "}"@ + t2);
        assert(e2[0] == '}');
        assert(false);
    } else if p1.variant is None && p2.variant is Some {
        assert(e1 =~= "}"@ + t1);
        assert(e1[0] == '}');
        assert(e2[0] == ',');
        assert(false);
    } else if p1.variant is Some && p2.variant is Some {
        let w1 = json_quote_seq(p1.variant->0@) + ("}"@ + t1);
        let w2 = json_quote_seq(p2.variant->0@) + ("}"@ + t2);
        assert(e1 =~= ",\"variant\":"@ + w1);
        assert(e2 =~= ",\"variant\":"@ + w2);
        crate::jsonout::lemma_peel_literal(",\"variant\":"@, w1, w2);
        crate::jsonout::lemma_json_string_unambiguous(
            p1.variant->0@,
            p2.variant->0@,
            "}"@ + t1,
            "}"@ + t2,
        );
        crate::jsonout::lemma_peel_literal("}"@, t1, t2);
    } else {
        assert(e1 =~= "}"@ + t1);
        assert(e2 =~= "}"@ + t2);
        crate::jsonout::lemma_peel_literal("}"@, t1, t2);
    }
}

/// A rendered index entry followed by arbitrary text determines the
/// entry's fields and the text.
#[verifier::spinoff_prover]
#[verifier::rlimit(100)]
proof fn lemma_index_entry_prefix_unambiguous(
    e1: ImageIndexEntry,
    e2: ImageIndexEntry,
    t1: Seq<char>,
    t2: Seq<char>,
)
    requires
        spec_index_entry_json(e1) + t1 == spec_index_entry_json(e2) + t2,
    ensures
        e1.media_type@ == e2.media_type@,
        e1.digest@ == e2.digest@,
        e1.size == e2.size,
        platforms_match(e1.platform, e2.platform),
        t1 == t2,
{
    reveal_strlit("{\"mediaType\":");
    reveal_strlit(",\"digest\":");
    reveal_strlit(",\"size\":");
    reveal_strlit(",\"platform\":");
    reveal_strlit("}");
    let p1 = match e1.platform {
        Some(p) => ",\"platform\":"@ + spec_platform_json(p),
        None => Seq::<char>::empty(),
    };
    let p2 = match e2.platform {
        Some(p) => ",\"platform\":"@ + spec_platform_json(p),
        None => Seq::<char>::empty(),
    };
    let a1 = json_quote_seq(e1.media_type@) + (",\"digest\":"@ + (json_quote_seq(e1.digest@) + (
    ",\"size\":"@ + (json_int(e1.size as int) + (p1 + ("}"@ + t1))))));
    let a2 = json_quote_seq(e2.media_type@) + (",\"digest\":"@ + (json_quote_seq(e2.digest@) + (
    ",\"size\":"@ + (json_int(e2.size as int) + (p2 + ("}"@ + t2))))));
    assert(spec_index_entry_json(e1) + t1 =~= "{\"mediaType\":"@ + a1);
    assert(spec_index_entry_json(e2) + t2 =~= "{\"mediaType\":"@ + a2);
    crate::jsonout::lemma_peel_literal("{\"mediaType\":"@, a1, a2);
    let b1 = ",\"digest\":"@ + (json_quote_seq(e1.digest@) + (",\"size\":"@ + (json_int(
        e1.size as int,
    ) + (p1 + ("}"@ + t1)))));
    let b2 = ",\"digest\":"@ + (json_quote_seq(e2.digest@) + (",\"size\":"@ + (json_int(
        e2.size as int,
    ) + (p2 + ("}"@ + t2)))));
    crate::jsonout::lemma_json_string_unambiguous(e1.media_type@, e2.media_type@, b1, b2);
    let c1 = json_quote_seq(e1.digest@) + (",\"size\":"@ + (json_int(e1.size as int) + (p1 + ("}"@
        + t1))));
    let c2 = json_quote_seq(e2.digest@) + (",\"size\":"@ + (json_int(e2.size as int) + (p2 + ("}"@
        + t2))));
    crate::jsonout::lemma_peel_literal(",\"digest\":"@, c1, c2);
    let f1 = ",\"size\":"@ + (json_int(e1.size as int) + (p1 + ("}"@ + t1)));
    let f2 = ",\"size\":"@ + (json_int(e2.size as int) + (p2 + ("}"@ + t2)));
    crate::jsonout::lemma_json_string_unambiguous(e1.digest@, e2.digest@, f1, f2);
    let g1 = json_int(e1.size as int) + (p1 + ("}"@ + t1));
    let g2 = json_int(e2.size as int) + (p2 + ("}"@ + t2));
    crate::jsonout::lemma_peel_literal(",\"size\":"@, g1, g2);
    assert((p1 + ("}"@ + t1))[0] == ',' || (p1 + ("}"@ + t1))[0] == '}') by {
        if e1.platform is Some {
            assert((p1 + ("}"@ + t1))[0] == p1[0]);
        }
    }
    assert((p2 + ("}"@ + t2))[0] == ',' || (p2 + ("}"@ + t2))[0] == '}') by {
        if e2.platform is Some {
            assert((p2 + ("}"@ + t2))[0] == p2[0]);
        }
    }
    crate::jsonout::lemma_json_int_unambiguous(
        e1.size as int,
        e2.size as int,
        p1 + ("}"@ + t1),
        p2 + ("}"@ + t2),
    );
    if e1.platform is Some && e2.platform is None {
        assert((p1 + ("}"@ + t1))[0] == ',');
        assert(p2 + ("}"@ + t2) =~= "}"@ + t2);
        assert((p2 + ("}"@ + t2))[0] == '}');
        assert(false);
    } else if e1.platform is None && e2.platform is Some {
        assert(p1 + ("}"@ + t1) =~= "}"@ + t1);
        assert((p1 + ("}"@ + t1))[0] == '}');
        assert((p2 + ("}"@ + t2))[0] == ',');
        assert(false);
    } else if e1.platform is Some && e2.platform is Some {
        let w1 = spec_platform_json(e1.platform->0) + ("}"@ + t1);
        let w2 = spec_platform_json(e2.platform->0) + ("}"@ + t2);
        assert(p1 + ("}"@ + t1) =~= ",\"platform\":"@ + w1);
        assert(p2 + ("}"@ + t2) =~= ",\"platform\":"@ + w2);
        crate::jsonout::lemma_peel_literal(",\"platform\":"@, w1, w2);
        lemma_platform_prefix_unambiguous(e1.platform->0, e2.platform->0, "}"@ + t1, "}"@ + t2);
        crate::jsonout::lemma_peel_literal("}"@, t1, t2);
    } else {
        assert(p1 + ("}"@ + t1) =~= "}"@ + t1);
        assert(p2 + ("}"@ + t2) =~= "}"@ + t2);
        crate::jsonout::lemma_peel_literal("}"@, t1, t2);
    }
}

/// The entry list rendered from the left.
proof fn lemma_index_items_left(es: Seq<ImageIndexEntry>)
    requires
        es.len() > 0,
    ensures
        spec_index_items(es) == spec_index_entry_json(es[0]) + (if es.len() == 1 {
            Seq::<char>::empty()
        } else {
            seq![','] + spec_index_items(es.drop_first())
        }),
    decreases es.len(),
{
    if es.len() == 1 {
        assert(spec_index_items(es) =~= spec_index_entry_json(es[0]) + Seq::<char>::empty());
    } else if es.len() == 2 {
        assert(es.drop_last()[0] == es[0]);
        assert(es.drop_last().len() == 1);
        assert(spec_index_items(es.drop_last()) == spec_index_entry_json(es[0]));
        assert(es.drop_first().len() == 1);
        assert(es.drop_first()[0] == es[1]);
        assert(spec_index_items(es.drop_first()) == spec_index_entry_json(es[1]));
        assert(es.last() == es[1]);
        assert(spec_index_items(es) =~= spec_index_entry_json(es[0]) + (seq![',']
            + spec_index_items(es.drop_first())));
    } else {
        lemma_index_items_left(es.drop_last());
        assert(es.drop_last()[0] == es[0]);
        assert(es.drop_last().drop_first() =~= es.drop_first().drop_last());
        assert(es.drop_first().len() > 1);
        assert(es.drop_first().last() == es.last());
        assert(spec_index_items(es.drop_first()) == spec_index_items(es.drop_first().drop_last())
            + seq![','] + spec_index_entry_json(es.last()));
        assert(spec_index_items(es) =~= spec_index_entry_json(es[0]) + (seq![',']
            + spec_index_items(es.drop_first())));
    }
}

/// A rendered entry list closed by `]` determines the entries and what
/// follows.
#[verifier::spinoff_prover]
#[verifier::rlimit(100)]
proof fn lemma_index_entries_unambiguous(
    es1: Seq<ImageIndexEntry>,
    es2: Seq<ImageIndexEntry>,
    r1: Seq<char>,
    r2: Seq<char>,
)
    requires
        spec_index_items(es1) + seq![']'] + r1 == spec_index_items(es2) + seq![']'] + r2,
    ensures
        index_entries_match(es1, es2),
        r1 == r2,
    decreases es1.len(),
{
    reveal_strlit("{\"mediaType\":");
    let whole = spec_index_items(es1) + seq![']'] + r1;
    if es1.len() == 0 && es2.len() == 0 {
        assert(spec_index_items(es1) + seq![']'] =~= seq![']']);
        assert(spec_index_items(es2) + seq![']'] =~= seq![']']);
        crate::jsonout::lemma_cancel_prefix(
            spec_index_items(es1) + seq![']'],
            spec_index_items(es2) + seq![']'],
            r1,
            r2,
        );
    } else if es1.len() == 0 {
        lemma_index_items_left(es2);
        assert(whole =~= seq![']'] + r1);
        assert(whole[0] == ']');
        assert(spec_index_entry_json(es2[0])[0] == '{');
        assert((spec_index_items(es2) + seq![']'] + r2)[0] == '{');
        assert(false);
    } else if es2.len() == 0 {
        lemma_index_items_left(es1);
        assert(whole[0] == spec_index_entry_json(es1[0])[0]);
        assert(spec_index_entry_json(es1[0])[0] == '{');
        assert(spec_index_items(es2) + seq![']'] + r2 =~= seq![']'] + r2);
        assert((spec_index_items(es2) + seq![']'] + r2)[0] == ']');
        assert(false);
    } else {
        lemma_index_items_left(es1);
        lemma_index_items_left(es2);
        let tail1 = (if es1.len() == 1 {
            Seq::<char>::empty()
        } else {
            seq![','] + spec_index_items(es1.drop_first())
        }) + seq![']'] + r1;
        let tail2 = (if es2.len() == 1 {
            Seq::<char>::empty()
        } else {
            seq![','] + spec_index_items(es2.drop_first())
        }) + seq![']'] + r2;
        assert(spec_index_entry_json(es1[0]) + tail1 =~= whole);
        assert(spec_index_entry_json(es2[0]) + tail2 =~= spec_index_items(es2) + seq![']'] + r2);
        lemma_index_entry_prefix_unambiguous(es1[0], es2[0], tail1, tail2);
        if es1.len() == 1 && es2.len() == 1 {
            assert(tail1 =~= seq![']'] + r1);
            assert(tail2 =~= seq![']'] + r2);
            crate::jsonout::lemma_cancel_prefix(seq![']'], seq![']'], r1, r2);
            assert(index_entries_match(es1, es2));
        } else if es1.len() == 1 {
            assert(tail1[0] == ']');
            assert(tail2[0] == ',');
            assert(false);
        } else if es2.len() == 1 {
            assert(tail1[0] == ',');
            assert(tail2[0] == ']');
            assert(false);
        } else {
            assert(tail1 =~= seq![','] + (spec_index_items(es1.drop_first()) + seq![']'] + r1));
            assert(tail2 =~= seq![','] + (spec_index_items(es2.drop_first()) + seq![']'] + r2));
            crate::jsonout::lemma_cancel_prefix(
                seq![','],
                seq![','],
                spec_index_items(es1.drop_first()) + seq![']'] + r1,
                spec_index_items(es2.drop_first()) + seq![']'] + r2,
            );
            lemma_index_entries_unambiguous(es1.drop_first(), es2.drop_first(), r1, r2);
            assert(index_entries_match(es1, es2)) by {
                assert forall|i: int| 0 <= i < es1.len() implies {
                    &&& (#[trigger] es1[i]).media_type@ == es2[i].media_type@
                    &&& es1[i].digest@ == es2[i].digest@
                    &&& es1[i].size == es2[i].size
                    &&& platforms_match(es1[i].platform, es2[i].platform)
                } by {
                    if i > 0 {
                        assert(es1.drop_first()[i - 1] == es1[i]);
                        assert(es2.drop_first()[i - 1] == es2[i]);
                    }
                }
            }
        }
    }
}

/// The canonical index JSON is injective: two indexes that render to the
/// same bytes agree in every field, so an index decoded from its
/// rendering and rendered again keeps its bytes — and with them its
/// digest.
#[verifier::spinoff_prover]
#[verifier::rlimit(100)]
pub proof fn lemma_index_json_injective(ix1: OciImageIndex, ix2: OciImageIndex)
    requires
        spec_oci_index_json(ix1) == spec_oci_index_json(ix2),
    ensures
        ix1.schema_version == ix2.schema_version,
        ix1.media_type@ == ix2.media_type@,
        index_entries_match(ix1.manifests@, ix2.manifests@),
{
    reveal_strlit("{\"schemaVersion\":");
    reveal_strlit(",\"mediaType\":");
    reveal_strlit(",\"manifests\":[");
    reveal_strlit("]}");
    let a1 = json_int(ix1.schema_version as int) + (",\"mediaType\":"@ + (json_quote_seq(
        ix1.media_type@,
    ) + (",\"manifests\":["@ + (spec_index_items(ix1.manifests@) + "]}"@))));
    let a2 = json_int(ix2.schema_version as int) + (",\"mediaType\":"@ + (json_quote_seq(
        ix2.media_type@,
    ) + (",\"manifests\":["@ + (spec_index_items(ix2.manifests@) + "]}"@))));
    assert(spec_oci_index_json(ix1) =~= "{\"schemaVersion\":"@ + a1);
    assert(spec_oci_index_json(ix2) =~= "{\"schemaVersion\":"@ + a2);
    crate::jsonout::lemma_peel_literal("{\"schemaVersion\":"@, a1, a2);
    let b1 = ",\"mediaType\":"@ + (json_quote_seq(ix1.media_type@) + (",\"manifests\":["@ + (
    spec_index_items(ix1.manifests@) + "]}"@)));
    let b2 = ",\"mediaType\":"@ + (json_quote_seq(ix2.media_type@) + (",\"manifests\":["@ + (
    spec_index_items(ix2.manifests@) + "]}"@)));
    assert(b1[0] == ',' && b2[0] == ',');
    crate::jsonout::lemma_json_int_unambiguous(
        ix1.schema_version as int,
        ix2.schema_version as int,
        b1,
        b2,
    );
    let c1 = json_quote_seq(ix1.media_type@) + (",\"manifests\":["@ + (spec_index_items(
        ix1.manifests@,
    ) + "]}"@));
    let c2 = json_quote_seq(ix2.media_type@) + (",\"manifests\":["@ + (spec_index_items(
        ix2.manifests@,
    ) + "]}"@));
    crate::jsonout::lemma_peel_literal(",\"mediaType\":"@, c1, c2);
    let e1 = ",\"manifests\":["@ + (spec_index_items(ix1.manifests@) + "]}"@);
    let e2 = ",\"manifests\":["@ + (spec_index_items(ix2.manifests@) + "]}"@);
    crate::jsonout::lemma_json_string_unambiguous(ix1.media_type@, ix2.media_type@, e1, e2);
    crate::jsonout::lemma_peel_literal(
        ",\"manifests\":["@,
        spec_index_items(ix1.manifests@) + "]}"@,
        spec_index_items(ix2.manifests@) + "]}"@,
    );
    assert(spec_index_items(ix1.manifests@) + "]}"@ =~= spec_index_items(ix1.manifests@)
        + seq![']'] + seq!['}']);
    assert(spec_index_items(ix2.manifests@) + "]}"@ =~= spec_index_items(ix2.manifests@)
        + seq![']'] + seq!['}']);
    lemma_index_entries_unambiguous(ix1.manifests@, ix2.manifests@, seq!['}'], seq!['}']);
}

/// A copy of a descriptor, equal in value to the original.
pub fn clone_oci_descriptor(d: &OciDescriptor) -> (r: OciDescriptor)
    ensures
        r == *d,
{
    OciDescriptor { media_type: d.media_type.clone(), digest: d.digest.clone(), size: d.size }
}

/// Compose the manifest for a set of freshly pushed blobs: the config
/// descriptor addresses the config bytes, and one layer descriptor
/// addresses each layer's bytes under its media type, in order.
pub fn build_image_manifest(config_data: &[u8], layers: &Vec<(Vec<u8>, String)>) -> (r:
    OciImageManifest)
    ensures
        r.schema_version == 2,
        r.media_type@ == "application/vnd.oci.image.manifest.v1+json"@,
        r.config matches Some(c) && c.media_type@ == "application/vnd.oci.image.config.v1+json"@
            && c.digest@ == "sha256:"@ + sha256_hex_of(config_data@) && c.size == config_data@.len()
            as i64,
        r.layers@.len() == layers@.len(),
        forall|i: int|
            0 <= i < layers@.len() ==> {
                &&& (#[trigger] r.layers@[i]).media_type == layers@[i].1
                &&& r.layers@[i].digest@ == "sha256:"@ + sha256_hex_of(layers@[i].0@)
                &&& r.layers@[i].size == layers@[i].0@.len() as i64
            },
{
    let config_hex = sha256_hex(config_data);
    let config_digest = concat2("sha256:", config_hex.as_str());
    let n = layers.len();
    let mut descriptors: Vec<OciDescriptor> = Vec::new();
    let mut i: usize = 0;
    while i < n
        invariant
            i <= n,
            n == layers@.len(),
            descriptors@.len() == i,
            forall|k: int|
                0 <= k < i ==> {
                    &&& (#[trigger] descriptors@[k]).media_type == layers@[k].1
                    &&& descriptors@[k].digest@ == "sha256:"@ + sha256_hex_of(layers@[k].0@)
                    &&& descriptors@[k].size == layers@[k].0@.len() as i64
                },
        decreases n - i,
    {
        let hex = sha256_hex(layers[i].0.as_slice());
        let digest = concat2("sha256:", hex.as_str());
        descriptors.push(
            OciDescriptor {
                media_type: layers[i].1.clone(),
                digest,
                size: layers[i].0.len() as i64,
            },
        );
        i = i + 1;
    }
    OciImageManifest {
        schema_version: 2,
        media_type: String::from_str("application/vnd.oci.image.manifest.v1+json"),
        config: Some(
            OciDescriptor {
                media_type: String::from_str("application/vnd.oci.image.config.v1+json"),
                digest: config_digest,
                size: config_data.len() as i64,
            },
        ),
        layers: descriptors,
    }
}

/// Compose the OCI manifest of a layered image from its assembled
/// manifest: the same layers in the same order, under the OCI media
/// types, with the config descriptor addressing the config bytes.
pub fn compose_layered_manifest(config_data: &[u8], manifest: &crate::image::Manifest) -> (r:
    OciImageManifest)
    ensures
        r.schema_version == 2,
        r.media_type@ == "application/vnd.oci.image.manifest.v1+json"@,
        r.config matches Some(c) && c.media_type@ == "application/vnd.oci.image.config.v1+json"@
            && c.digest@ == "sha256:"@ + sha256_hex_of(config_data@) && c.size == config_data@.len()
            as i64,
        r.layers@.len() == manifest.layers@.len(),
        forall|i: int|
            0 <= i < manifest.layers@.len() ==> {
                &&& (#[trigger] r.layers@[i]).media_type == manifest.layers@[i].media_type
                &&& r.layers@[i].digest == manifest.layers@[i].digest
                &&& r.layers@[i].size == manifest.layers@[i].size
            },
{
    let config_hex = sha256_hex(config_data);
    let config_digest = concat2("sha256:", config_hex.as_str());
    let n = manifest.layers.len();
    let mut descriptors: Vec<OciDescriptor> = Vec::new();
    let mut i: usize = 0;
    while i < n
        invariant
            i <= n,
            n == manifest.layers@.len(),
            descriptors@.len() == i,
            forall|k: int|
                0 <= k < i ==> {
                    &&& (#[trigger] descriptors@[k]).media_type == manifest.layers@[k].media_type
                    &&& descriptors@[k].digest == manifest.layers@[k].digest
                    &&& descriptors@[k].size == manifest.layers@[k].size
                },
        decreases n - i,
    {
        descriptors.push(
            OciDescriptor {
                media_type: manifest.layers[i].media_type.clone(),
                digest: manifest.layers[i].digest.clone(),
                size: manifest.layers[i].size,
            },
        );
        i = i + 1;
    }
    OciImageManifest {
        schema_version: 2,
        media_type: String::from_str("application/vnd.oci.image.manifest.v1+json"),
        config: Some(
            OciDescriptor {
                media_type: String::from_str("application/vnd.oci.image.config.v1+json"),
                digest: config_digest,
                size: config_data.len() as i64,
            },
        ),
        layers: descriptors,
    }
}

/// Base layers are copied only across registries.
pub fn needs_layer_copy(base: &ImageReference, target: &ImageReference) -> (r: bool)
    ensures
        r == (base.registry@ != target.registry@),
{
    !str_eq(base.registry.as_str(), target.registry.as_str())
}

/// The layers a cross-registry push copies from the base registry: every
/// layer but the last, which is the newly built application layer and is
/// always pushed fresh, never copied.  Within one registry nothing is
/// copied.
pub fn layers_to_copy(manifest: &crate::image::Manifest, cross_registry: bool) -> (r: Vec<
    Descriptor,
>)
    ensures
        !cross_registry ==> r@.len() == 0,
        cross_registry ==> r@ == manifest.layers@.take(
            if manifest.layers@.len() > 0 {
                manifest.layers@.len() - 1
            } else {
                0
            },
        ),
{
    let mut r: Vec<Descriptor> = Vec::new();
    if !cross_registry {
        return r;
    }
    let n = manifest.layers.len();
    if n == 0 {
        proof {
            assert(r@ =~= manifest.layers@.take(0));
        }
        return r;
    }
    let m = n - 1;
    let mut i: usize = 0;
    while i < m
        invariant
            i <= m,
            m + 1 == manifest.layers@.len(),
            r@ =~= manifest.layers@.take(i as int),
        decreases m - i,
    {
        r.push(
            Descriptor {
                media_type: manifest.layers[i].media_type.clone(),
                size: manifest.layers[i].size,
                digest: manifest.layers[i].digest.clone(),
            },
        );
        proof {
            assert(r@ =~= manifest.layers@.take(i as int + 1));
        }
        i = i + 1;
    }
    r
}

/// Convert an index into the OCI wire form, entry for entry, each with
/// its platform attached.
pub fn index_to_oci(index: &ImageIndex) -> (r: OciImageIndex)
    ensures
        r.schema_version == 2,
        r.media_type@ == "application/vnd.oci.image.index.v1+json"@,
        r.manifests@.len() == index.manifests@.len(),
        forall|i: int|
            0 <= i < index.manifests@.len() ==> {
                &&& (#[trigger] r.manifests@[i]).media_type == index.manifests@[i].media_type
                &&& r.manifests@[i].digest == index.manifests@[i].digest
                &&& r.manifests@[i].size == index.manifests@[i].size
                &&& r.manifests@[i].platform matches Some(p) && p.architecture
                    == index.manifests@[i].platform.architecture && p.os
                    == index.manifests@[i].platform.os && p.variant
                    == index.manifests@[i].platform.variant
            },
{
    let n = index.manifests.len();
    let mut entries: Vec<ImageIndexEntry> = Vec::new();
    let mut i: usize = 0;
    while i < n
        invariant
            i <= n,
            n == index.manifests@.len(),
            entries@.len() == i,
            forall|k: int|
                0 <= k < i ==> {
                    &&& (#[trigger] entries@[k]).media_type == index.manifests@[k].media_type
                    &&& entries@[k].digest == index.manifests@[k].digest
                    &&& entries@[k].size == index.manifests@[k].size
                    &&& entries@[k].platform matches Some(p) && p.architecture
                        == index.manifests@[k].platform.architecture && p.os
                        == index.manifests@[k].platform.os && p.variant
                        == index.manifests@[k].platform.variant
                },
        decreases n - i,
    {
        let m = &index.manifests[i];
        entries.push(
            ImageIndexEntry {
                media_type: m.media_type.clone(),
                digest: m.digest.clone(),
                size: m.size,
                platform: Some(
                    crate::registry::Platform {
                        architecture: m.platform.architecture.clone(),
                        os: m.platform.os.clone(),
                        variant: crate::strutil::clone_opt_string(&m.platform.variant),
                    },
                ),
            },
        );
        i = i + 1;
    }
    OciImageIndex {
        schema_version: 2,
        media_type: String::from_str("application/vnd.oci.image.index.v1+json"),
        manifests: entries,
    }
}

/// `registry/repository@digest`: the canonical pinned reference of a
/// pushed image.
pub fn digest_reference(registry: &str, repository: &str, digest: &str) -> (r: String)
    ensures
        r@ == registry@ + "/"@ + repository@ + "@"@ + digest@,
{
    let a = concat3(registry, "/", repository);
    a.concat(concat2("@", digest).as_str())
}

/// What a manifest pull answered: a single-platform manifest, or an index
/// to choose from.
#[derive(Debug, Clone)]
pub enum ManifestResponse {
    Manifest { manifest: OciImageManifest },
    Index { index: OciImageIndex },
}

/// What to do with a manifest pull's answer.
#[derive(Debug, Clone)]
pub enum ManifestResolution {
    /// The answer already is the image manifest: use it as it stands.
    Use { manifest: OciImageManifest },
    /// The answer was an index: fetch the matching entry's manifest by
    /// digest.
    FetchByDigest { digest: String },
    /// The answer was an index with no entry for the requested platform.
    NoMatch,
}

/// Whether an index entry serves the requested platform.
pub open spec fn spec_entry_matches(e: ImageIndexEntry, os: Seq<char>, arch: Seq<char>) -> bool {
    match e.platform {
        Some(p) => p.os@ == os && p.architecture@ == arch,
        None => false,
    }
}

/// The first index entry serving the requested platform.
pub open spec fn spec_first_matching_entry(
    es: Seq<ImageIndexEntry>,
    os: Seq<char>,
    arch: Seq<char>,
) -> Option<ImageIndexEntry>
    decreases es.len(),
{
    if es.len() == 0 {
        None
    } else if spec_entry_matches(es[0], os, arch) {
        Some(es[0])
    } else {
        spec_first_matching_entry(es.drop_first(), os, arch)
    }
}

/// Decide how to proceed from a manifest pull's answer for the requested
/// `(os, architecture)`.  A single-platform manifest needs no selection
/// at all — it is used exactly as it came.  An index defers to its first
/// entry matching the platform, fetched by digest; an index with no such
/// entry is unusable.
#[verifier::loop_isolation(false)]
pub fn resolve_manifest_response(response: ManifestResponse, os: &str, arch: &str) -> (r:
    ManifestResolution)
    ensures
        response matches ManifestResponse::Manifest { manifest } ==> {
            &&& r matches ManifestResolution::Use { manifest: m }
            &&& m == manifest
        },
        response matches ManifestResponse::Index { index } ==> match spec_first_matching_entry(
            index.manifests@,
            os@,
            arch@,
        ) {
            Some(e) => {
                &&& r matches ManifestResolution::FetchByDigest { digest }
                &&& digest == e.digest
            },
            None => r is NoMatch,
        },
{
    match response {
        ManifestResponse::Manifest { manifest } => ManifestResolution::Use { manifest },
        ManifestResponse::Index { index } => {
            let n = index.manifests.len();
            proof {
                assert(index.manifests@.skip(0) =~= index.manifests@);
            }
            let mut j: usize = 0;
            while j < n
                invariant
                    j <= n,
                    n == index.manifests@.len(),
                    spec_first_matching_entry(index.manifests@, os@, arch@)
                        == spec_first_matching_entry(
                        index.manifests@.skip(j as int),
                        os@,
                        arch@,
                    ),
                decreases n - j,
            {
                proof {
                    assert(index.manifests@.skip(j as int)[0] == index.manifests@[j as int]);
                }
                let matched = match &index.manifests[j].platform {
                    Some(p) => str_eq(p.os.as_str(), os) && str_eq(p.architecture.as_str(), arch),
                    None => false,
                };
                proof {
                    assert(matched == spec_entry_matches(index.manifests@[j as int], os@, arch@));
                }
                if matched {
                    proof {
                        assert(spec_first_matching_entry(index.manifests@, os@, arch@) == Some(
                            index.manifests@[j as int],
                        ));
                    }
                    return ManifestResolution::FetchByDigest {
                        digest: index.manifests[j].digest.clone(),
                    };
                }
                proof {
                    assert(index.manifests@.skip(j as int).drop_first()
                        =~= index.manifests@.skip(j as int + 1));
                }
                j = j + 1;
            }
            proof {
                assert(index.manifests@.skip(n as int) =~= Seq::<ImageIndexEntry>::empty());
            }
            ManifestResolution::NoMatch
        },
    }
}

} // verus!
