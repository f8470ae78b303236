//! The dotted-path indexes of a schema: which attribute paths are
//! unique, required, read-only, and in which return-visibility bucket
//! each path falls. A path is the `.`-joined sequence of normalized
//! names from the schema root, e.g. `name.familyname`.

use vstd::prelude::*;

use crate::attr::AttrModel;
use crate::attr::AttrType;
use crate::attr::attr_model;
use crate::attr::lemma_attr_models_index;
use crate::text::str_eq;

verus! {

/// Which index a walk of the tree collects.
#[derive(Clone, Copy)]
pub enum PathKind {
    Unique,
    Required,
    AlwaysReturned,
    NeverReturned,
    RequestReturned,
    DefaultReturned,
    ReadOnly,
}

/// Whether a node belongs to the given index.
pub open spec fn path_marked(a: AttrModel, k: PathKind) -> bool {
    match k {
        PathKind::Unique => a.is_unique,
        PathKind::Required => a.required,
        PathKind::AlwaysReturned => a.returned == "always"@,
        PathKind::NeverReturned => a.returned == "never"@,
        PathKind::RequestReturned => a.returned == "request"@,
        PathKind::DefaultReturned => a.returned == "default"@,
        PathKind::ReadOnly => a.is_read_only,
    }
}

pub open spec fn path_join(p: Seq<char>, n: Seq<char>) -> Seq<char> {
    p + "."@ + n
}

/// The paths a subtree contributes to an index when the node itself
/// stands at path `p`: for each child, the child's subtree first, then
/// the child's own path if it is marked; the node itself is registered
/// by its parent (or by the schema, for a top-level attribute).
pub open spec fn node_paths(a: AttrModel, p: Seq<char>, k: PathKind) -> Seq<Seq<char>>
    decreases a,
{
    seq_paths(a.sub_attributes, p, k)
}

pub open spec fn seq_paths(s: Seq<AttrModel>, p: Seq<char>, k: PathKind) -> Seq<Seq<char>>
    decreases s,
{
    if s.len() == 0 {
        Seq::empty()
    } else {
        let cp = path_join(p, s.last().normalized_name);
        seq_paths(s.drop_last(), p, k) + node_paths(s.last(), cp, k) + (if path_marked(
            s.last(),
            k,
        ) {
            seq![cp]
        } else {
            Seq::<Seq<char>>::empty()
        })
    }
}

/// One whole index of a schema: every top-level attribute contributes
/// its subtree's paths and then, if marked, its own name.
pub open spec fn schema_paths(s: Seq<AttrModel>, k: PathKind) -> Seq<Seq<char>>
    decreases s,
{
    if s.len() == 0 {
        Seq::empty()
    } else {
        schema_paths(s.drop_last(), k) + node_paths(s.last(), s.last().normalized_name, k) + (
        if path_marked(s.last(), k) {
            seq![s.last().normalized_name]
        } else {
            Seq::<Seq<char>>::empty()
        })
    }
}

pub proof fn lemma_seq_paths_push(t: Seq<AttrModel>, x: AttrModel, p: Seq<char>, k: PathKind)
    ensures
        seq_paths(t.push(x), p, k) == seq_paths(t, p, k) + node_paths(
            x,
            path_join(p, x.normalized_name),
            k,
        ) + (if path_marked(x, k) {
            seq![path_join(p, x.normalized_name)]
        } else {
            Seq::<Seq<char>>::empty()
        }),
{
    assert(t.push(x).drop_last() =~= t);
    assert(t.push(x).last() == x);
}

pub proof fn lemma_schema_paths_push(t: Seq<AttrModel>, x: AttrModel, k: PathKind)
    ensures
        schema_paths(t.push(x), k) == schema_paths(t, k) + node_paths(x, x.normalized_name, k) + (
        if path_marked(x, k) {
            seq![x.normalized_name]
        } else {
            Seq::<Seq<char>>::empty()
        }),
{
    assert(t.push(x).drop_last() =~= t);
    assert(t.push(x).last() == x);
}

/// Whether the node belongs to the given index.
pub(crate) fn marked_node(a: &AttrType, k: PathKind) -> (r: bool)
    ensures
        r == path_marked(a@, k),
{
    match k {
        PathKind::Unique => a.is_unique,
        PathKind::Required => a.required,
        PathKind::AlwaysReturned => str_eq(a.returned.as_str(), "always"),
        PathKind::NeverReturned => str_eq(a.returned.as_str(), "never"),
        PathKind::RequestReturned => str_eq(a.returned.as_str(), "request"),
        PathKind::DefaultReturned => str_eq(a.returned.as_str(), "default"),
        PathKind::ReadOnly => a.is_read_only,
    }
}

/// `p` extended by `.` and the node's normalized name.
fn join_path(p: &String, n: &str) -> (r: String)
    ensures
        r@ == path_join(p@, n@),
{
    let mut r = p.clone();
    r.append(".");
    r.append(n);
    proof {
        assert(r@ =~= path_join(p@, n@));
    }
    r
}

/// Collects into `out` the paths the subtree under `a` (standing at path
/// `p`) contributes to the index `k`.
#[verifier::loop_isolation(false)]
#[verifier::rlimit(100)]
pub fn collect_paths(a: &AttrType, p: &String, k: PathKind, out: &mut Vec<String>)
    ensures
        final(out).deep_view() == old(out).deep_view() + node_paths(a@, p@, k),
    decreases *a,
{
    let ghost g0 = out.deep_view();
    let ghost subs_m = a@.sub_attributes;
    let mut i: usize = 0;
    while i < a.sub_attributes.len()
        invariant
            i <= a.sub_attributes@.len(),
            out.deep_view() == g0 + seq_paths(subs_m.take(i as int), p@, k),
        decreases a.sub_attributes@.len() - i,
    {
        proof {
            assert(decreases_to!(*a => a.sub_attributes));
            assert(decreases_to!(a.sub_attributes => a.sub_attributes@));
            assert(decreases_to!(a.sub_attributes@ => a.sub_attributes@[i as int]));
            assert(decreases_to!(*a => a.sub_attributes@[i as int]));
        }
        let sa = &a.sub_attributes[i];
        let cp = join_path(p, sa.normalized_name.as_str());
        collect_paths(sa, &cp, k, out);
        if marked_node(sa, k) {
            let ghost pre = out.deep_view();
            out.push(cp);
            proof {
                assert(out.deep_view() =~= pre.push(out@.last()@));
            }
        }
        proof {
            lemma_attr_models_index(a.sub_attributes@);
            assert(attr_model(a.sub_attributes@[i as int]) == subs_m[i as int]);
            assert(subs_m.take(i + 1 as int) =~= subs_m.take(i as int).push(subs_m[i as int]));
            lemma_seq_paths_push(subs_m.take(i as int), subs_m[i as int], p@, k);
            assert(out.deep_view() =~= g0 + seq_paths(subs_m.take(i + 1 as int), p@, k));
        }
        i += 1;
    }
    proof {
        lemma_attr_models_index(a.sub_attributes@);
        assert(subs_m.take(a.sub_attributes@.len() as int) =~= subs_m);
    }
}

} // verus!
