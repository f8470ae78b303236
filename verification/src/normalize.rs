//! The attribute-tree normalizer: fills in the RFC-mandated defaults on
//! the enumerated fields and recomputes every cached classification flag,
//! recursively over the whole tree. Normalization never fails.

use vstd::prelude::*;

use crate::attr::AttrModel;
use crate::attr::AttrType;
use crate::attr::attr_model;
use crate::attr::attr_models;
use crate::attr::lemma_attr_models_index;
use crate::attr::new_attr_type;
use crate::text::str_eq;

verus! {

pub open spec fn default_if_empty(s: Seq<char>, d: Seq<char>) -> Seq<char> {
    if s.len() == 0 {
        d
    } else {
        s
    }
}

/// Recomputes the cached classification flags from the current field
/// values, leaving every other field unchanged.
pub open spec fn with_flags(a: AttrModel) -> AttrModel {
    let c = a.data_type == "complex"@;
    let r = a.data_type == "reference"@;
    AttrModel {
        is_unique: a.uniqueness == "server"@ || a.uniqueness == "global"@,
        is_complex: c,
        is_reference: r,
        is_simple: !c && !r,
        is_read_only: a.mutability == "readonly"@,
        is_immutable: a.mutability == "immutable"@,
        is_string_type: a.data_type == "string"@ || r,
        ..a
    }
}

/// Normalization of one node: default the absent (empty) enumerated
/// fields, normalize every child, then recompute the cached flags.
pub open spec fn norm_attr(a: AttrModel) -> AttrModel
    decreases a,
{
    with_flags(
        AttrModel {
            mutability: default_if_empty(a.mutability, "readWrite"@),
            returned: default_if_empty(a.returned, "default"@),
            uniqueness: default_if_empty(a.uniqueness, "none"@),
            data_type: default_if_empty(a.data_type, "string"@),
            sub_attributes: norm_attrs(a.sub_attributes),
            ..a
        },
    )
}

pub open spec fn norm_attrs(s: Seq<AttrModel>) -> Seq<AttrModel>
    decreases s,
{
    if s.len() == 0 {
        Seq::empty()
    } else {
        norm_attrs(s.drop_last()).push(norm_attr(s.last()))
    }
}

pub proof fn lemma_norm_attrs_index(s: Seq<AttrModel>)
    ensures
        norm_attrs(s).len() == s.len(),
        forall|i: int| 0 <= i < s.len() ==> norm_attrs(s)[i] == norm_attr(s[i]),
    decreases s,
{
    if s.len() > 0 {
        lemma_norm_attrs_index(s.drop_last());
    }
}

/// Recomputes the cached classification flags of one node in place.
pub(crate) fn recompute_flags(a: &mut AttrType)
    ensures
        final(a)@ == with_flags(old(a)@),
        final(a).sub_attributes == old(a).sub_attributes,
{
    a.is_unique = str_eq(a.uniqueness.as_str(), "server") || str_eq(a.uniqueness.as_str(), "global");
    a.is_complex = str_eq(a.data_type.as_str(), "complex");
    a.is_reference = str_eq(a.data_type.as_str(), "reference");
    a.is_simple = !a.is_complex && !a.is_reference;
    a.is_read_only = str_eq(a.mutability.as_str(), "readonly");
    a.is_immutable = str_eq(a.mutability.as_str(), "immutable");
    a.is_string_type = str_eq(a.data_type.as_str(), "string") || a.is_reference;
    proof {
        assert(a@ =~~= with_flags(old(a)@));
    }
}

/// Normalization of one owned node, recursively.
#[verifier::loop_isolation(false)]
#[verifier::rlimit(60)]
fn normalize_node(a: AttrType) -> (r: AttrType)
    ensures
        r@ == norm_attr(a@),
    decreases a,
{
    let ghost a0 = a;
    let mut a = a;
    let mut pending = a.sub_attributes;
    a.sub_attributes = Vec::new();
    let ghost p0 = pending@;
    let mut donev: Vec<AttrType> = Vec::new();
    while pending.len() > 0
        invariant
            donev@.len() + pending@.len() == p0.len(),
            pending@ == p0.skip(donev@.len() as int),
            forall|j: int|
                0 <= j < donev@.len() ==> attr_model(#[trigger] donev@[j]) == norm_attr(
                    attr_model(p0[j]),
                ),
            p0 == a0.sub_attributes@,
        decreases pending@.len(),
    {
        let ghost k = donev@.len() as int;
        let sa = pending.remove(0);
        proof {
            assert(sa == p0[k]);
            assert(decreases_to!(a0 => a0.sub_attributes));
            assert(decreases_to!(a0.sub_attributes => a0.sub_attributes@));
            assert(decreases_to!(a0.sub_attributes@ => a0.sub_attributes@[k]));
            assert(decreases_to!(a0 => sa));
        }
        let nsa = normalize_node(sa);
        donev.push(nsa);
    }
    a.sub_attributes = donev;
    if a.mutability.as_str().is_empty() {
        a.mutability = String::from_str("readWrite");
    }
    if a.returned.as_str().is_empty() {
        a.returned = String::from_str("default");
    }
    if a.uniqueness.as_str().is_empty() {
        a.uniqueness = String::from_str("none");
    }
    if a.data_type.as_str().is_empty() {
        a.data_type = String::from_str("string");
    }
    recompute_flags(&mut a);
    proof {
        lemma_attr_models_index(a.sub_attributes@);
        lemma_norm_attrs_index(attr_models(p0));
        lemma_attr_models_index(p0);
        assert(a.sub_attributes@.len() == p0.len());
        assert(attr_models(p0).len() == p0.len());
        assert(norm_attrs(attr_models(p0)).len() == p0.len());
        assert forall|i: int| 0 <= i < a.sub_attributes@.len() implies attr_models(
            a.sub_attributes@,
        )[i] == norm_attrs(attr_models(p0))[i] by {
            assert(attr_models(a.sub_attributes@)[i] == attr_model(a.sub_attributes@[i]));
            assert(norm_attrs(attr_models(p0))[i] == norm_attr(attr_models(p0)[i]));
            assert(attr_models(p0)[i] == attr_model(p0[i]));
        }
        assert(attr_models(a.sub_attributes@) =~= norm_attrs(attr_models(p0)));
        assert(a@ =~~= norm_attr(a0@));
    }
    a
}

/// Sets the defaults on the missing common fields of an attribute
/// definition and recomputes the cached flags, recursively (pre-order),
/// as the RFC's defaulting rules demand.
#[allow(non_snake_case)]
pub fn setAttrDefaults(attr: &mut AttrType)
    ensures
        final(attr)@ == norm_attr(old(attr)@),
{
    let mut tmp = new_attr_type();
    core::mem::swap(attr, &mut tmp);
    *attr = normalize_node(tmp);
}

/// Defaulting idempotence: normalizing an already-normalized attribute
/// yields no further changes.
pub proof fn lemma_norm_idempotent(a: AttrModel)
    ensures
        norm_attr(norm_attr(a)) == norm_attr(a),
    decreases a,
{
    reveal_strlit("readWrite");
    reveal_strlit("default");
    reveal_strlit("none");
    reveal_strlit("string");
    lemma_norms_idempotent(a.sub_attributes);
    assert(norm_attr(norm_attr(a)) =~~= norm_attr(a));
}

/// Defaulting idempotence over a sequence of attributes.
pub proof fn lemma_norms_idempotent(s: Seq<AttrModel>)
    ensures
        norm_attrs(norm_attrs(s)) == norm_attrs(s),
    decreases s,
{
    if s.len() > 0 {
        lemma_norms_idempotent(s.drop_last());
        lemma_norm_idempotent(s.last());
        assert(norm_attrs(s).drop_last() =~= norm_attrs(s.drop_last()));
        assert(norm_attrs(norm_attrs(s)) =~= norm_attrs(s));
    }
}

/// Exactly one of the three classification flags is set.
pub open spec fn exactly_one_class(a: AttrModel) -> bool {
    &&& a.is_complex || a.is_reference || a.is_simple
    &&& !(a.is_complex && a.is_reference)
    &&& !(a.is_complex && a.is_simple)
    &&& !(a.is_reference && a.is_simple)
}

/// The cached classification flags agree with the resolved field values.
pub open spec fn class_matches_fields(a: AttrModel) -> bool {
    &&& a.is_complex == (a.data_type == "complex"@)
    &&& a.is_reference == (a.data_type == "reference"@)
    &&& a.is_simple == (!a.is_complex && !a.is_reference)
    &&& a.is_unique == (a.uniqueness == "server"@ || a.uniqueness == "global"@)
    &&& a.is_read_only == (a.mutability == "readonly"@)
    &&& a.is_immutable == (a.mutability == "immutable"@)
    &&& a.is_string_type == (a.data_type == "string"@ || a.is_reference)
}

/// Classification consistency over the whole tree.
pub open spec fn class_consistent_tree(a: AttrModel) -> bool
    decreases a,
{
    &&& exactly_one_class(a)
    &&& class_matches_fields(a)
    &&& class_consistent_trees(a.sub_attributes)
}

pub open spec fn class_consistent_trees(s: Seq<AttrModel>) -> bool
    decreases s,
{
    forall|i: int| 0 <= i < s.len() ==> class_consistent_tree(#[trigger] s[i])
}

/// Classification consistency: after normalization exactly one of
/// `is_complex`, `is_reference`, `is_simple` holds, and every cached flag
/// agrees with its source field, at every node of the tree.
pub proof fn lemma_norm_classification(a: AttrModel)
    ensures
        class_consistent_tree(norm_attr(a)),
    decreases a,
{
    reveal_strlit("complex");
    reveal_strlit("reference");
    lemma_norms_classification(a.sub_attributes);
    let n = norm_attr(a);
    assert("complex"@.len() == 7);
    assert("reference"@.len() == 9);
    assert("complex"@ != "reference"@);
    assert(exactly_one_class(n));
    assert(class_matches_fields(n));
    assert(class_consistent_trees(n.sub_attributes));
}

pub proof fn lemma_norms_classification(s: Seq<AttrModel>)
    ensures
        class_consistent_trees(norm_attrs(s)),
    decreases s,
{
    if s.len() > 0 {
        lemma_norms_classification(s.drop_last());
        lemma_norm_classification(s.last());
        assert forall|i: int| 0 <= i < norm_attrs(s).len() implies class_consistent_tree(
            #[trigger] norm_attrs(s)[i],
        ) by {
            lemma_norm_attrs_index(s);
            if i < s.len() - 1 {
                lemma_norm_attrs_index(s.drop_last());
                assert(norm_attrs(s.drop_last())[i] == norm_attr(s.drop_last()[i]));
                assert(class_consistent_tree(norm_attrs(s.drop_last())[i]));
            }
        }
    }
}

} // verus!
