//! The finalize step of a load: lowercase the enumerated fields, stamp
//! the owning schema's id and the normalized name on every node,
//! recompute the cached flags from the resolved values, and synthesize
//! the standard sub-attributes of multi-valued complex attributes.

use vstd::prelude::*;

use crate::attr::AttrModel;
use crate::attr::AttrType;
use crate::attr::attr_model;
use crate::attr::attr_models;
use crate::attr::default_attr_model;
use crate::attr::lemma_attr_models_index;
use crate::attr::new_attr_type;
use crate::normalize::recompute_flags;
use crate::normalize::with_flags;
use crate::text::lower;
use crate::text::str_eq;
use crate::text::to_lower;

verus! {

/// A standard sub-attribute as it is synthesized: a fresh node with the
/// given name (already in lowercase), data type and mutability, stamped
/// with the owning schema's id, its flags resolved.
pub open spec fn std_sub_attr(name: Seq<char>, dt: Seq<char>, mu: Seq<char>, sid: Seq<
    char,
>) -> AttrModel {
    with_flags(
        AttrModel {
            name: name,
            normalized_name: name,
            data_type: dt,
            mutability: mu,
            owning_schema_id: sid,
            ..default_attr_model()
        },
    )
}

/// Whether some sub-attribute already carries the normalized name `n`.
pub open spec fn has_sub_named(subs: Seq<AttrModel>, n: Seq<char>) -> bool {
    exists|i: int| 0 <= i < subs.len() && subs[i].normalized_name == n
}

/// The standard sub-attributes that are absent from `subs`, in the fixed
/// order `type`, `primary`, `display`, `value`, `$ref`. `primary` is a
/// boolean, `display` is immutable, the others are plain strings.
pub open spec fn synth_subs(subs: Seq<AttrModel>, sid: Seq<char>) -> Seq<AttrModel> {
    let s1: Seq<AttrModel> = if has_sub_named(subs, "type"@) {
        Seq::empty()
    } else {
        seq![std_sub_attr("type"@, "string"@, "readWrite"@, sid)]
    };
    let s2: Seq<AttrModel> = if has_sub_named(subs, "primary"@) {
        Seq::empty()
    } else {
        seq![std_sub_attr("primary"@, "boolean"@, "readWrite"@, sid)]
    };
    let s3: Seq<AttrModel> = if has_sub_named(subs, "display"@) {
        Seq::empty()
    } else {
        seq![std_sub_attr("display"@, "string"@, "immutable"@, sid)]
    };
    let s4: Seq<AttrModel> = if has_sub_named(subs, "value"@) {
        Seq::empty()
    } else {
        seq![std_sub_attr("value"@, "string"@, "readWrite"@, sid)]
    };
    let s5: Seq<AttrModel> = if has_sub_named(subs, "$ref"@) {
        Seq::empty()
    } else {
        seq![std_sub_attr("$ref"@, "string"@, "readWrite"@, sid)]
    };
    s1 + s2 + s3 + s4 + s5
}

/// The finalize transform of one node: children first, then the node's
/// own fields, then — for a multi-valued complex attribute — the missing
/// standard sub-attributes, appended after the declared ones.
pub open spec fn fin_attr(a: AttrModel, sid: Seq<char>) -> AttrModel
    decreases a,
{
    let subs = fin_attrs(a.sub_attributes, sid);
    let base = with_flags(
        AttrModel {
            data_type: lower(a.data_type),
            mutability: lower(a.mutability),
            returned: lower(a.returned),
            uniqueness: lower(a.uniqueness),
            normalized_name: lower(a.name),
            owning_schema_id: sid,
            sub_attributes: subs,
            ..a
        },
    );
    if base.is_complex && base.multi_valued {
        AttrModel { sub_attributes: subs + synth_subs(subs, sid), ..base }
    } else {
        base
    }
}

pub open spec fn fin_attrs(s: Seq<AttrModel>, sid: Seq<char>) -> Seq<AttrModel>
    decreases s,
{
    if s.len() == 0 {
        Seq::empty()
    } else {
        fin_attrs(s.drop_last(), sid).push(fin_attr(s.last(), sid))
    }
}

pub proof fn lemma_fin_attrs_index(s: Seq<AttrModel>, sid: Seq<char>)
    ensures
        fin_attrs(s, sid).len() == s.len(),
        forall|i: int| 0 <= i < s.len() ==> fin_attrs(s, sid)[i] == fin_attr(s[i], sid),
    decreases s,
{
    if s.len() > 0 {
        lemma_fin_attrs_index(s.drop_last(), sid);
    }
}

pub proof fn lemma_attr_models_push(s: Seq<AttrType>, x: AttrType)
    ensures
        attr_models(s.push(x)) == attr_models(s).push(attr_model(x)),
{
    assert(s.push(x).drop_last() =~= s);
    assert(s.push(x).last() == x);
}

pub proof fn lemma_attr_models_concat(s: Seq<AttrType>, t: Seq<AttrType>)
    ensures
        attr_models(s + t) == attr_models(s) + attr_models(t),
    decreases t,
{
    if t.len() == 0 {
        assert(s + t =~= s);
        assert(attr_models(s) + attr_models(t) =~= attr_models(s));
    } else {
        lemma_attr_models_concat(s, t.drop_last());
        assert((s + t).drop_last() =~= s + t.drop_last());
        assert((s + t).last() == t.last());
        assert((attr_models(s) + attr_models(t.drop_last())).push(attr_model(t.last())) =~= attr_models(
            s,
        ) + attr_models(t.drop_last()).push(attr_model(t.last())));
        assert(attr_models(t) == attr_models(t.drop_last()).push(attr_model(t.last())));
    }
}

/// Whether one of the nodes carries the normalized name `n`.
fn has_sub(subs: &Vec<AttrType>, n: &str) -> (r: bool)
    ensures
        r == has_sub_named(attr_models(subs@), n@),
{
    proof {
        lemma_attr_models_index(subs@);
    }
    let mut i: usize = 0;
    while i < subs.len()
        invariant
            i <= subs@.len(),
            forall|j: int|
                0 <= j < i ==> attr_models(subs@)[j].normalized_name != n@,
        decreases subs@.len() - i,
    {
        if str_eq(subs[i].normalized_name.as_str(), n) {
            proof {
                lemma_attr_models_index(subs@);
                assert(attr_models(subs@)[i as int].normalized_name == n@);
            }
            return true;
        }
        proof {
            lemma_attr_models_index(subs@);
        }
        i += 1;
    }
    false
}

/// One standard sub-attribute, built and stamped.
fn make_std_sub(name: &str, dt: &str, mu: &str, sid: &String) -> (r: AttrType)
    ensures
        r@ == std_sub_attr(name@, dt@, mu@, sid@),
{
    let mut r = new_attr_type();
    r.name = String::from_str(name);
    r.normalized_name = String::from_str(name);
    r.data_type = String::from_str(dt);
    r.mutability = String::from_str(mu);
    r.owning_schema_id = sid.clone();
    recompute_flags(&mut r);
    proof {
        assert(r@ =~~= std_sub_attr(name@, dt@, mu@, sid@));
    }
    r
}

/// Appends the standard sub-attributes of a multi-valued complex
/// attribute that are not already declared, matched by normalized name,
/// each stamped with the attribute's owning schema id. See RFC 7643's
/// common multi-valued sub-attributes.
#[allow(non_snake_case)]
#[verifier::rlimit(100)]
pub fn addDefSubAttrs(attr: &mut AttrType)
    ensures
        final(attr)@ == (AttrModel {
            sub_attributes: old(attr)@.sub_attributes + synth_subs(
                old(attr)@.sub_attributes,
                old(attr)@.owning_schema_id,
            ),
            ..old(attr)@
        }),
{
    let ghost subs0 = attr@.sub_attributes;
    let ghost sid0 = attr@.owning_schema_id;
    let ghost e1: Seq<AttrModel> = if has_sub_named(subs0, "type"@) {
        Seq::empty()
    } else {
        seq![std_sub_attr("type"@, "string"@, "readWrite"@, sid0)]
    };
    let ghost e2: Seq<AttrModel> = if has_sub_named(subs0, "primary"@) {
        Seq::empty()
    } else {
        seq![std_sub_attr("primary"@, "boolean"@, "readWrite"@, sid0)]
    };
    let ghost e3: Seq<AttrModel> = if has_sub_named(subs0, "display"@) {
        Seq::empty()
    } else {
        seq![std_sub_attr("display"@, "string"@, "immutable"@, sid0)]
    };
    let ghost e4: Seq<AttrModel> = if has_sub_named(subs0, "value"@) {
        Seq::empty()
    } else {
        seq![std_sub_attr("value"@, "string"@, "readWrite"@, sid0)]
    };
    let ghost e5: Seq<AttrModel> = if has_sub_named(subs0, "$ref"@) {
        Seq::empty()
    } else {
        seq![std_sub_attr("$ref"@, "string"@, "readWrite"@, sid0)]
    };
    let mut extra: Vec<AttrType> = Vec::new();
    if !has_sub(&attr.sub_attributes, "type") {
        let ghost p = extra@;
        let node = make_std_sub("type", "string", "readWrite", &attr.owning_schema_id);
        extra.push(node);
        proof {
            lemma_attr_models_push(p, extra@.last());
        }
    }
    proof {
        assert(attr_models(extra@) =~= e1);
    }
    let ghost x1 = attr_models(extra@);
    if !has_sub(&attr.sub_attributes, "primary") {
        let ghost p = extra@;
        let node = make_std_sub("primary", "boolean", "readWrite", &attr.owning_schema_id);
        extra.push(node);
        proof {
            lemma_attr_models_push(p, extra@.last());
        }
    }
    proof {
        assert(attr_models(extra@) =~= x1 + e2);
    }
    let ghost x2 = attr_models(extra@);
    if !has_sub(&attr.sub_attributes, "display") {
        let ghost p = extra@;
        let node = make_std_sub("display", "string", "immutable", &attr.owning_schema_id);
        extra.push(node);
        proof {
            lemma_attr_models_push(p, extra@.last());
        }
    }
    proof {
        assert(attr_models(extra@) =~= x2 + e3);
    }
    let ghost x3 = attr_models(extra@);
    if !has_sub(&attr.sub_attributes, "value") {
        let ghost p = extra@;
        let node = make_std_sub("value", "string", "readWrite", &attr.owning_schema_id);
        extra.push(node);
        proof {
            lemma_attr_models_push(p, extra@.last());
        }
    }
    proof {
        assert(attr_models(extra@) =~= x3 + e4);
    }
    let ghost x4 = attr_models(extra@);
    if !has_sub(&attr.sub_attributes, "$ref") {
        let ghost p = extra@;
        let node = make_std_sub("$ref", "string", "readWrite", &attr.owning_schema_id);
        extra.push(node);
        proof {
            lemma_attr_models_push(p, extra@.last());
        }
    }
    proof {
        assert(attr_models(extra@) =~= x4 + e5);
        assert(attr_models(extra@) =~= synth_subs(subs0, sid0));
    }
    let ghost pre = attr.sub_attributes@;
    let ghost extra_pre = extra@;
    attr.sub_attributes.append(&mut extra);
    proof {
        assert(attr.sub_attributes@ == pre + extra_pre);
        lemma_attr_models_concat(pre, extra_pre);
        assert(attr@ =~~= (AttrModel {
            sub_attributes: subs0 + synth_subs(subs0, sid0),
            ..old(attr)@
        }));
    }
}

/// Required sub-attribute synthesis: a multi-valued complex attribute
/// declared with zero sub-attributes ends up, after the finalize step,
/// with exactly the five standard sub-attributes — `primary` a boolean,
/// `display` immutable, the others plain strings.
pub proof fn lemma_synthesized_sub_attrs(a: AttrModel, sid: Seq<char>)
    requires
        lower(a.data_type) == "complex"@,
        a.multi_valued,
        a.sub_attributes.len() == 0,
    ensures
        fin_attr(a, sid).sub_attributes.len() == 5,
        fin_attr(a, sid).sub_attributes[0] == std_sub_attr("type"@, "string"@, "readWrite"@, sid),
        fin_attr(a, sid).sub_attributes[1] == std_sub_attr(
            "primary"@,
            "boolean"@,
            "readWrite"@,
            sid,
        ),
        fin_attr(a, sid).sub_attributes[2] == std_sub_attr(
            "display"@,
            "string"@,
            "immutable"@,
            sid,
        ),
        fin_attr(a, sid).sub_attributes[3] == std_sub_attr("value"@, "string"@, "readWrite"@, sid),
        fin_attr(a, sid).sub_attributes[4] == std_sub_attr("$ref"@, "string"@, "readWrite"@, sid),
{
    assert(a.sub_attributes =~= Seq::<AttrModel>::empty());
    let subs = fin_attrs(a.sub_attributes, sid);
    assert(subs =~= Seq::<AttrModel>::empty());
    assert(!has_sub_named(subs, "type"@));
    assert(!has_sub_named(subs, "primary"@));
    assert(!has_sub_named(subs, "display"@));
    assert(!has_sub_named(subs, "value"@));
    assert(!has_sub_named(subs, "$ref"@));
    assert(fin_attr(a, sid).sub_attributes =~= synth_subs(subs, sid));
}

/// Synthesis non-duplication: a multi-valued complex attribute that
/// already declares a `value` sub-attribute (and none of the other four
/// standard names) keeps its declared sub-attributes first, in order and
/// with their name and description untouched, and only the remaining
/// four standard sub-attributes are synthesized after them.
pub proof fn lemma_synthesis_non_duplication(a: AttrModel, sid: Seq<char>)
    requires
        lower(a.data_type) == "complex"@,
        a.multi_valued,
        exists|i: int|
            0 <= i < a.sub_attributes.len() && lower(#[trigger] a.sub_attributes[i].name)
                == "value"@,
        forall|i: int|
            0 <= i < a.sub_attributes.len() ==> lower(#[trigger] a.sub_attributes[i].name)
                != "type"@,
        forall|i: int|
            0 <= i < a.sub_attributes.len() ==> lower(#[trigger] a.sub_attributes[i].name)
                != "primary"@,
        forall|i: int|
            0 <= i < a.sub_attributes.len() ==> lower(#[trigger] a.sub_attributes[i].name)
                != "display"@,
        forall|i: int|
            0 <= i < a.sub_attributes.len() ==> lower(#[trigger] a.sub_attributes[i].name)
                != "$ref"@,
    ensures
        fin_attr(a, sid).sub_attributes.len() == a.sub_attributes.len() + 4,
        fin_attr(a, sid).sub_attributes.take(a.sub_attributes.len() as int) == fin_attrs(
            a.sub_attributes,
            sid,
        ),
        forall|i: int|
            0 <= i < a.sub_attributes.len() ==> #[trigger] fin_attr(a, sid).sub_attributes[i].name
                == a.sub_attributes[i].name && fin_attr(a, sid).sub_attributes[i].description
                == a.sub_attributes[i].description,
        fin_attr(a, sid).sub_attributes[a.sub_attributes.len() as int] == std_sub_attr(
            "type"@,
            "string"@,
            "readWrite"@,
            sid,
        ),
        fin_attr(a, sid).sub_attributes[a.sub_attributes.len() + 1 as int] == std_sub_attr(
            "primary"@,
            "boolean"@,
            "readWrite"@,
            sid,
        ),
        fin_attr(a, sid).sub_attributes[a.sub_attributes.len() + 2 as int] == std_sub_attr(
            "display"@,
            "string"@,
            "immutable"@,
            sid,
        ),
        fin_attr(a, sid).sub_attributes[a.sub_attributes.len() + 3 as int] == std_sub_attr(
            "$ref"@,
            "string"@,
            "readWrite"@,
            sid,
        ),
{
    let subs = fin_attrs(a.sub_attributes, sid);
    lemma_fin_attrs_index(a.sub_attributes, sid);
    assert forall|i: int| 0 <= i < subs.len() implies #[trigger] subs[i].normalized_name == lower(
        a.sub_attributes[i].name,
    ) by {
        assert(subs[i] == fin_attr(a.sub_attributes[i], sid));
    }
    let w = choose|i: int|
        0 <= i < a.sub_attributes.len() && lower(#[trigger] a.sub_attributes[i].name) == "value"@;
    assert(subs[w].normalized_name == "value"@);
    assert(has_sub_named(subs, "value"@));
    assert(!has_sub_named(subs, "type"@));
    assert(!has_sub_named(subs, "primary"@));
    assert(!has_sub_named(subs, "display"@));
    assert(!has_sub_named(subs, "$ref"@));
    let fs = fin_attr(a, sid).sub_attributes;
    assert(fs == subs + synth_subs(subs, sid));
    assert(fs.take(a.sub_attributes.len() as int) =~= subs);
    assert forall|i: int| 0 <= i < a.sub_attributes.len() implies #[trigger] fin_attr(
        a,
        sid,
    ).sub_attributes[i].name == a.sub_attributes[i].name && fin_attr(
        a,
        sid,
    ).sub_attributes[i].description == a.sub_attributes[i].description by {
        assert(fs[i] == subs[i]);
        assert(subs[i] == fin_attr(a.sub_attributes[i], sid));
    }
}

/// The finalize transform of one owned node, recursively: children
/// first, then the node's own stamps and flags, then the synthesis of
/// the standard sub-attributes where the node is multi-valued complex.
#[verifier::loop_isolation(false)]
#[verifier::rlimit(100)]
pub(crate) fn finalize_node(a: AttrType, sid: &String) -> (r: AttrType)
    ensures
        r@ == fin_attr(a@, sid@),
    decreases a,
{
    let ghost a0 = a;
    let mut a = a;
    let mut pending = a.sub_attributes;
    a.sub_attributes = Vec::new();
    let ghost p0 = pending@;
    let mut donev: Vec<AttrType> = Vec::new();
    while pending.len() > 0
        invariant
            donev@.len() + pending@.len() == p0.len(),
            pending@ == p0.skip(donev@.len() as int),
            forall|j: int|
                0 <= j < donev@.len() ==> attr_model(#[trigger] donev@[j]) == fin_attr(
                    attr_model(p0[j]),
                    sid@,
                ),
            p0 == a0.sub_attributes@,
        decreases pending@.len(),
    {
        let ghost k = donev@.len() as int;
        let sa = pending.remove(0);
        proof {
            assert(sa == p0[k]);
            assert(decreases_to!(a0 => a0.sub_attributes));
            assert(decreases_to!(a0.sub_attributes => a0.sub_attributes@));
            assert(decreases_to!(a0.sub_attributes@ => a0.sub_attributes@[k]));
            assert(decreases_to!(a0 => sa));
        }
        let nsa = finalize_node(sa, sid);
        donev.push(nsa);
    }
    a.sub_attributes = donev;
    a.data_type = to_lower(a.data_type.as_str());
    a.mutability = to_lower(a.mutability.as_str());
    a.returned = to_lower(a.returned.as_str());
    a.uniqueness = to_lower(a.uniqueness.as_str());
    a.normalized_name = to_lower(a.name.as_str());
    a.owning_schema_id = sid.clone();
    recompute_flags(&mut a);
    proof {
        lemma_attr_models_index(a.sub_attributes@);
        lemma_fin_attrs_index(attr_models(p0), sid@);
        lemma_attr_models_index(p0);
        assert forall|i: int| 0 <= i < a.sub_attributes@.len() implies attr_models(
            a.sub_attributes@,
        )[i] == fin_attrs(attr_models(p0), sid@)[i] by {
            assert(attr_models(a.sub_attributes@)[i] == attr_model(a.sub_attributes@[i]));
            assert(fin_attrs(attr_models(p0), sid@)[i] == fin_attr(attr_models(p0)[i], sid@));
            assert(attr_models(p0)[i] == attr_model(p0[i]));
        }
        assert(attr_models(a.sub_attributes@) =~= fin_attrs(attr_models(p0), sid@));
        assert(a@ =~~= with_flags(
            AttrModel {
                data_type: lower(a0@.data_type),
                mutability: lower(a0@.mutability),
                returned: lower(a0@.returned),
                uniqueness: lower(a0@.uniqueness),
                normalized_name: lower(a0@.name),
                owning_schema_id: sid@,
                sub_attributes: fin_attrs(a0@.sub_attributes, sid@),
                ..a0@
            },
        ));
    }
    if a.is_complex && a.multi_valued {
        addDefSubAttrs(&mut a);
        proof {
            assert(a@ =~~= fin_attr(a0@, sid@));
        }
    } else {
        proof {
            assert(a@ =~~= fin_attr(a0@, sid@));
        }
    }
    a
}

} // verus!
