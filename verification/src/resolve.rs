//! Resolution of `krust://<path>` references inside parsed YAML
//! documents: finding the set of referenced project paths, and replacing
//! each reference with the image reference its build produced.  Reading
//! and emitting YAML text happens outside; the tree walk and the
//! replacement rules are decided here.

use vstd::prelude::*;

use crate::auth::lookup_str;
use crate::strutil::{has_prefix, str_has_prefix};

verus! {

/// A YAML value, as far as reference resolution reads it: strings,
/// sequences, mappings, and everything else opaque.
#[derive(Debug)]
pub enum YamlNode {
    Str(String),
    Array(Vec<YamlNode>),
    Hash(Vec<(YamlNode, YamlNode)>),
    Other,
}

/// Whether the tree under `n` holds a `krust://` reference to `path`.
/// Mapping keys are not searched, only their values.
pub open spec fn node_has_ref(n: YamlNode, path: Seq<char>) -> bool
    decreases n,
{
    match n {
        YamlNode::Str(s) => has_prefix(s@, "krust://"@) && path == s@.skip(8),
        YamlNode::Array(v) => exists|i: int|
            0 <= i < v@.len() && node_has_ref(#[trigger] v@[i], path),
        YamlNode::Hash(ps) => exists|i: int|
            0 <= i < ps@.len() && node_has_ref(#[trigger] ps@[i].1, path),
        YamlNode::Other => false,
    }
}

/// Whether some string in the list views as `path`.
pub open spec fn contains_str(v: Seq<String>, path: Seq<char>) -> bool {
    exists|k: int| 0 <= k < v.len() && #[trigger] v[k]@ == path
}

/// Whether the list holds no two equal strings.
pub open spec fn no_duplicate_strs(v: Seq<String>) -> bool {
    forall|k1: int, k2: int| 0 <= k1 < k2 < v.len() ==> #[trigger] v[k1]@ != #[trigger] v[k2]@
}

/// Whether the list holds a string viewing as `s`.
fn contains_string(v: &Vec<String>, s: &str) -> (b: bool)
    ensures
        b == contains_str(v@, s@),
{
    let n = v.len();
    let mut i: usize = 0;
    while i < n
        invariant
            i <= n,
            n == v@.len(),
            forall|k: int| 0 <= k < i ==> #[trigger] v@[k]@ != s@,
        decreases n - i,
    {
        if crate::strutil::str_eq(v[i].as_str(), s) {
            return true;
        }
        i = i + 1;
    }
    false
}

/// Collect into `out`, without duplicates, every path referenced under
/// `n`.
#[verifier::loop_isolation(false)]
fn collect_refs(n: &YamlNode, out: &mut Vec<String>)
    ensures
        forall|p: Seq<char>|
            #![all_triggers]
            contains_str(final(out)@, p) == (contains_str(old(out)@, p) || node_has_ref(*n, p)),
        no_duplicate_strs(old(out)@) ==> no_duplicate_strs(final(out)@),
    decreases *n,
{
    match n {
        YamlNode::Str(s) => {
            proof {
                reveal_strlit("krust://");
            }
            if str_has_prefix(s.as_str(), "krust://") {
                let m = s.as_str().unicode_len();
                let path = s.as_str().substring_char(8, m);
                if !contains_string(out, path) {
                    out.push(path.to_owned());
                    proof {
                        assert forall|p: Seq<char>|
                            #![all_triggers]
                            contains_str(out@, p) == (contains_str(old(out)@, p) || node_has_ref(
                                *n,
                                p,
                            )) by {
                            if contains_str(out@, p) {
                                let k = choose|k: int| 0 <= k < out@.len() && out@[k]@ == p;
                                if k < old(out)@.len() {
                                    assert(old(out)@[k]@ == p);
                                } else {
                                    assert(p == s@.skip(8));
                                }
                            }
                            if contains_str(old(out)@, p) {
                                let k = choose|k: int|
                                    0 <= k < old(out)@.len() && old(out)@[k]@ == p;
                                assert(out@[k]@ == p);
                            }
                            if node_has_ref(*n, p) {
                                assert(out@[out@.len() - 1]@ == p);
                            }
                        }
                    }
                } else {
                    proof {
                        assert forall|p: Seq<char>|
                            #![all_triggers]
                            contains_str(out@, p) == (contains_str(old(out)@, p) || node_has_ref(
                                *n,
                                p,
                            )) by {
                            if node_has_ref(*n, p) {
                                assert(p == s@.skip(8));
                                assert(contains_str(out@, p));
                            }
                        }
                    }
                }
            } else {
                proof {
                    assert(forall|p: Seq<char>| !node_has_ref(*n, p));
                }
            }
        },
        YamlNode::Array(v) => {
            let m = v.len();
            let mut i: usize = 0;
            while i < m
                invariant
                    i <= m,
                    m == v@.len(),
                    forall|p: Seq<char>|
                        #![all_triggers]
                        contains_str(out@, p) == (contains_str(old(out)@, p) || exists|j: int|
                            0 <= j < i && node_has_ref(#[trigger] v@[j], p)),
                    no_duplicate_strs(old(out)@) ==> no_duplicate_strs(out@),
                decreases m - i,
            {
                let ghost mid = out@;
                proof {
                    assert((*n)->Array_0 == *v);
                    assert(decreases_to!(*n => (*n)->Array_0));
                    assert(decreases_to!((*n)->Array_0 => (*n)->Array_0@));
                    assert(decreases_to!((*n)->Array_0@ => (*n)->Array_0@[i as int]));
                }
                collect_refs(&v[i], out);
                proof {
                    assert forall|p: Seq<char>|
                        #![all_triggers]
                        contains_str(out@, p) == (contains_str(old(out)@, p) || exists|j: int|
                            0 <= j < i + 1 && node_has_ref(#[trigger] v@[j], p)) by {
                        if contains_str(out@, p) {
                            assert(contains_str(mid, p) || node_has_ref(v@[i as int], p));
                        }
                        if exists|j: int| 0 <= j < i + 1 && node_has_ref(#[trigger] v@[j], p) {
                            let j = choose|j: int| 0 <= j < i + 1 && node_has_ref(v@[j], p);
                            if j < i {
                                assert(contains_str(mid, p));
                            } else {
                                assert(node_has_ref(v@[i as int], p));
                            }
                        }
                        if contains_str(mid, p) {
                            assert(contains_str(out@, p));
                        }
                    }
                }
                i = i + 1;
            }
            proof {
                assert forall|p: Seq<char>|
                    #![all_triggers]
                    contains_str(out@, p) == (contains_str(old(out)@, p) || node_has_ref(
                        *n,
                        p,
                    )) by {}
            }
        },
        YamlNode::Hash(ps) => {
            let m = ps.len();
            let mut i: usize = 0;
            while i < m
                invariant
                    i <= m,
                    m == ps@.len(),
                    forall|p: Seq<char>|
                        #![all_triggers]
                        contains_str(out@, p) == (contains_str(old(out)@, p) || exists|j: int|
                            0 <= j < i && node_has_ref(#[trigger] ps@[j].1, p)),
                    no_duplicate_strs(old(out)@) ==> no_duplicate_strs(out@),
                decreases m - i,
            {
                let ghost mid = out@;
                proof {
                    assert((*n)->Hash_0 == *ps);
                    assert(decreases_to!(*n => (*n)->Hash_0));
                    assert(decreases_to!((*n)->Hash_0 => (*n)->Hash_0@));
                    assert(decreases_to!((*n)->Hash_0@ => (*n)->Hash_0@[i as int]));
                    assert(decreases_to!((*n)->Hash_0@[i as int] => (*n)->Hash_0@[i as int].1));
                }
                collect_refs(&ps[i].1, out);
                proof {
                    assert forall|p: Seq<char>|
                        #![all_triggers]
                        contains_str(out@, p) == (contains_str(old(out)@, p) || exists|j: int|
                            0 <= j < i + 1 && node_has_ref(#[trigger] ps@[j].1, p)) by {
                        if contains_str(out@, p) {
                            assert(contains_str(mid, p) || node_has_ref(ps@[i as int].1, p));
                        }
                        if exists|j: int| 0 <= j < i + 1 && node_has_ref(#[trigger] ps@[j].1, p) {
                            let j = choose|j: int| 0 <= j < i + 1 && node_has_ref(ps@[j].1, p);
                            if j < i {
                                assert(contains_str(mid, p));
                            } else {
                                assert(node_has_ref(ps@[i as int].1, p));
                            }
                        }
                        if contains_str(mid, p) {
                            assert(contains_str(out@, p));
                        }
                    }
                }
                i = i + 1;
            }
            proof {
                assert forall|p: Seq<char>|
                    #![all_triggers]
                    contains_str(out@, p) == (contains_str(old(out)@, p) || node_has_ref(
                        *n,
                        p,
                    )) by {}
            }
        },
        YamlNode::Other => {},
    }
}

/// The distinct `krust://` paths referenced anywhere in the documents: a
/// path appears in the result exactly when some document references it,
/// and no path appears twice.
pub fn find_krust_references(docs: &Vec<YamlNode>) -> (r: Vec<String>)
    ensures
        forall|p: Seq<char>|
            #![all_triggers]
            contains_str(r@, p) == exists|d: int|
                0 <= d < docs@.len() && node_has_ref(#[trigger] docs@[d], p),
        no_duplicate_strs(r@),
{
    let mut out: Vec<String> = Vec::new();
    let n = docs.len();
    let mut i: usize = 0;
    while i < n
        invariant
            i <= n,
            n == docs@.len(),
            forall|p: Seq<char>|
                #![all_triggers]
                contains_str(out@, p) == exists|d: int|
                    0 <= d < i && node_has_ref(#[trigger] docs@[d], p),
            no_duplicate_strs(out@),
        decreases n - i,
    {
        let ghost mid = out@;
        collect_refs(&docs[i], &mut out);
        proof {
            assert forall|p: Seq<char>|
                #![all_triggers]
                contains_str(out@, p) == exists|d: int|
                    0 <= d < i + 1 && node_has_ref(#[trigger] docs@[d], p) by {
                if contains_str(out@, p) {
                    assert(contains_str(mid, p) || node_has_ref(docs@[i as int], p));
                    if contains_str(mid, p) {
                        let d = choose|d: int| 0 <= d < i && node_has_ref(docs@[d], p);
                        assert(node_has_ref(docs@[d], p));
                    }
                }
                if exists|d: int| 0 <= d < i + 1 && node_has_ref(#[trigger] docs@[d], p) {
                    let d = choose|d: int| 0 <= d < i + 1 && node_has_ref(docs@[d], p);
                    if d < i {
                        assert(contains_str(mid, p));
                        assert(contains_str(out@, p));
                    }
                }
            }
        }
        i = i + 1;
    }
    out
}

/// What one string becomes under replacement: a `krust://` reference
/// whose path the table maps is swapped for the mapped image reference;
/// everything else stays.
pub open spec fn spec_replaced_str(s: Seq<char>, reps: Seq<(String, String)>) -> Seq<char> {
    if has_prefix(s, "krust://"@) && lookup_str(reps, s.skip(8)) is Some {
        lookup_str(reps, s.skip(8))->0@
    } else {
        s
    }
}

/// Whether `res` is `orig` with every referenced string replaced and the
/// whole structure — lengths, ordering, mapping keys — kept.
pub open spec fn replaced_tree(orig: YamlNode, res: YamlNode, reps: Seq<(String, String)>) -> bool
    decreases orig,
{
    match orig {
        YamlNode::Str(s) => res matches YamlNode::Str(t) && t@ == spec_replaced_str(s@, reps),
        YamlNode::Array(v) => res matches YamlNode::Array(w) && v@.len() == w@.len() && forall|
            i: int,
        |
            0 <= i < v@.len() ==> replaced_tree(#[trigger] v@[i], w@[i], reps),
        YamlNode::Hash(ps) => res matches YamlNode::Hash(qs) && ps@.len() == qs@.len() && forall|
            i: int,
        |
            0 <= i < ps@.len() ==> node_equal(#[trigger] ps@[i].0, qs@[i].0) && replaced_tree(
                ps@[i].1,
                qs@[i].1,
                reps,
            ),
        YamlNode::Other => res is Other,
    }
}

/// Structural equality of two trees at the view level.
pub open spec fn node_equal(a: YamlNode, b: YamlNode) -> bool
    decreases a,
{
    match a {
        YamlNode::Str(s) => b matches YamlNode::Str(t) && t@ == s@,
        YamlNode::Array(v) => b matches YamlNode::Array(w) && v@.len() == w@.len() && forall|i: int|
            0 <= i < v@.len() ==> node_equal(#[trigger] v@[i], w@[i]),
        YamlNode::Hash(ps) => b matches YamlNode::Hash(qs) && ps@.len() == qs@.len() && forall|
            i: int,
        |
            0 <= i < ps@.len() ==> node_equal(#[trigger] ps@[i].0, qs@[i].0) && node_equal(
                ps@[i].1,
                qs@[i].1,
            ),
        YamlNode::Other => b is Other,
    }
}

/// A structural copy of a tree.
#[verifier::loop_isolation(false)]
fn clone_node(n: &YamlNode) -> (r: YamlNode)
    ensures
        node_equal(*n, r),
    decreases *n,
{
    match n {
        YamlNode::Str(s) => YamlNode::Str(s.clone()),
        YamlNode::Array(v) => {
            let m = v.len();
            let mut w: Vec<YamlNode> = Vec::new();
            let mut i: usize = 0;
            while i < m
                invariant
                    i <= m,
                    m == v@.len(),
                    w@.len() == i,
                    forall|k: int| 0 <= k < i ==> node_equal(#[trigger] v@[k], w@[k]),
                decreases m - i,
            {
                proof {
                    assert((*n)->Array_0 == *v);
                    assert(decreases_to!(*n => (*n)->Array_0));
                    assert(decreases_to!((*n)->Array_0 => (*n)->Array_0@));
                    assert(decreases_to!((*n)->Array_0@ => (*n)->Array_0@[i as int]));
                }
                w.push(clone_node(&v[i]));
                i = i + 1;
            }
            YamlNode::Array(w)
        },
        YamlNode::Hash(ps) => {
            let m = ps.len();
            let mut qs: Vec<(YamlNode, YamlNode)> = Vec::new();
            let mut i: usize = 0;
            while i < m
                invariant
                    i <= m,
                    m == ps@.len(),
                    qs@.len() == i,
                    forall|k: int|
                        0 <= k < i ==> node_equal(#[trigger] ps@[k].0, qs@[k].0) && node_equal(
                            ps@[k].1,
                            qs@[k].1,
                        ),
                decreases m - i,
            {
                proof {
                    assert((*n)->Hash_0 == *ps);
                    assert(decreases_to!(*n => (*n)->Hash_0));
                    assert(decreases_to!((*n)->Hash_0 => (*n)->Hash_0@));
                    assert(decreases_to!((*n)->Hash_0@ => (*n)->Hash_0@[i as int]));
                    assert(decreases_to!((*n)->Hash_0@[i as int] => (*n)->Hash_0@[i as int].0));
                    assert(decreases_to!((*n)->Hash_0@[i as int] => (*n)->Hash_0@[i as int].1));
                }
                let key = clone_node(&ps[i].0);
                let val = clone_node(&ps[i].1);
                qs.push((key, val));
                i = i + 1;
            }
            YamlNode::Hash(qs)
        },
        YamlNode::Other => YamlNode::Other,
    }
}

/// What one string becomes under replacement: a `krust://` reference
/// whose path the table maps is swapped for the mapped image reference;
/// every other string stays as it is.
pub fn resolve_reference_string(s: &String, replacements: &Vec<(String, String)>) -> (r: String)
    ensures
        r@ == spec_replaced_str(s@, replacements@),
{
    proof {
        reveal_strlit("krust://");
    }
    if str_has_prefix(s.as_str(), "krust://") {
        let m = s.as_str().unicode_len();
        let path = s.as_str().substring_char(8, m);
        match crate::auth::lookup_helper(replacements, path) {
            Some(rep) => rep,
            None => s.clone(),
        }
    } else {
        s.clone()
    }
}

/// A copy of the tree with every mapped `krust://` reference replaced by
/// its image reference; unmapped references and all structure stay as
/// they are.
#[verifier::loop_isolation(false)]
pub fn replace_krust_references(n: &YamlNode, replacements: &Vec<(String, String)>) -> (r: YamlNode)
    ensures
        replaced_tree(*n, r, replacements@),
    decreases *n,
{
    match n {
        YamlNode::Str(s) => YamlNode::Str(resolve_reference_string(s, replacements)),
        YamlNode::Array(v) => {
            let m = v.len();
            let mut w: Vec<YamlNode> = Vec::new();
            let mut i: usize = 0;
            while i < m
                invariant
                    i <= m,
                    m == v@.len(),
                    w@.len() == i,
                    forall|k: int|
                        0 <= k < i ==> replaced_tree(#[trigger] v@[k], w@[k], replacements@),
                decreases m - i,
            {
                proof {
                    assert((*n)->Array_0 == *v);
                    assert(decreases_to!(*n => (*n)->Array_0));
                    assert(decreases_to!((*n)->Array_0 => (*n)->Array_0@));
                    assert(decreases_to!((*n)->Array_0@ => (*n)->Array_0@[i as int]));
                }
                w.push(replace_krust_references(&v[i], replacements));
                i = i + 1;
            }
            YamlNode::Array(w)
        },
        YamlNode::Hash(ps) => {
            let m = ps.len();
            let mut qs: Vec<(YamlNode, YamlNode)> = Vec::new();
            let mut i: usize = 0;
            while i < m
                invariant
                    i <= m,
                    m == ps@.len(),
                    qs@.len() == i,
                    forall|k: int|
                        0 <= k < i ==> node_equal(#[trigger] ps@[k].0, qs@[k].0) && replaced_tree(
                            ps@[k].1,
                            qs@[k].1,
                            replacements@,
                        ),
                decreases m - i,
            {
                proof {
                    assert((*n)->Hash_0 == *ps);
                    assert(decreases_to!(*n => (*n)->Hash_0));
                    assert(decreases_to!((*n)->Hash_0 => (*n)->Hash_0@));
                    assert(decreases_to!((*n)->Hash_0@ => (*n)->Hash_0@[i as int]));
                    assert(decreases_to!((*n)->Hash_0@[i as int] => (*n)->Hash_0@[i as int].0));
                    assert(decreases_to!((*n)->Hash_0@[i as int] => (*n)->Hash_0@[i as int].1));
                }
                let key = clone_node(&ps[i].0);
                let val = replace_krust_references(&ps[i].1, replacements);
                qs.push((key, val));
                proof {
                    assert(node_equal(ps@[i as int].0, qs@[i as int].0));
                    assert(replaced_tree(ps@[i as int].1, qs@[i as int].1, replacements@));
                }
                i = i + 1;
            }
            YamlNode::Hash(qs)
        },
        YamlNode::Other => YamlNode::Other,
    }
}

} // verus!
