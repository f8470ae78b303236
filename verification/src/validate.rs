//! Per-attribute validation: the lexical name rule, the enumerated-field
//! token checks, and the structural checks on reference and complex
//! attributes. Validation is pure: it only collects error messages, in
//! pre-order, and never stops at the first violation.

use vstd::prelude::*;

use crate::attr::AttrModel;
use crate::attr::AttrType;
use crate::attr::attr_model;
use crate::attr::attr_models;
use crate::attr::lemma_attr_models_index;
use crate::text::is_valid_mutability;
use crate::text::is_valid_mutability_name;
use crate::text::is_valid_name;
use crate::text::is_valid_returned;
use crate::text::is_valid_returned_name;
use crate::text::is_valid_type;
use crate::text::is_valid_type_name;
use crate::text::is_valid_uniqueness;
use crate::text::is_valid_uniqueness_name;
use crate::text::lower;
use crate::text::str_eq;
use crate::text::to_lower;
use crate::text::valid_name;

verus! {

pub open spec fn msg_invalid_name(name: Seq<char>) -> Seq<char> {
    "invalid attribute name '"@ + name + "'"@
}

/// The message for an enumerated field whose (lowercased) value is not in
/// its token set; `what` names the field.
pub open spec fn msg_invalid_field(what: Seq<char>, value: Seq<char>, name: Seq<char>) -> Seq<
    char,
> {
    "invalid "@ + what + " '"@ + value + "' for attribute '"@ + name + "'"@
}

pub open spec fn msg_no_reference_types(name: Seq<char>) -> Seq<char> {
    "No referenceTypes set for attribute '"@ + name + "'"@
}

pub open spec fn msg_no_sub_attributes(name: Seq<char>) -> Seq<char> {
    "No subattributes set for attribute '"@ + name + "'"@
}

/// The violations of one node itself, in reporting order: name, type,
/// mutability, returned, uniqueness, reference types, sub-attributes.
/// A multi-valued complex attribute without declared sub-attributes is
/// not a violation: the standard sub-attributes are synthesized for it.
pub open spec fn own_error_msgs(a: AttrModel) -> Seq<Seq<char>> {
    let e1: Seq<Seq<char>> = if !valid_name(a.name) {
        seq![msg_invalid_name(a.name)]
    } else {
        Seq::empty()
    };
    let e2: Seq<Seq<char>> = if !is_valid_type_name(lower(a.data_type)) {
        seq![msg_invalid_field("type"@, lower(a.data_type), a.name)]
    } else {
        Seq::empty()
    };
    let e3: Seq<Seq<char>> = if !is_valid_mutability_name(lower(a.mutability)) {
        seq![msg_invalid_field("mutability"@, lower(a.mutability), a.name)]
    } else {
        Seq::empty()
    };
    let e4: Seq<Seq<char>> = if !is_valid_returned_name(lower(a.returned)) {
        seq![msg_invalid_field("returned"@, lower(a.returned), a.name)]
    } else {
        Seq::empty()
    };
    let e5: Seq<Seq<char>> = if !is_valid_uniqueness_name(lower(a.uniqueness)) {
        seq![msg_invalid_field("uniqueness"@, lower(a.uniqueness), a.name)]
    } else {
        Seq::empty()
    };
    let e6: Seq<Seq<char>> = if lower(a.data_type) == "reference"@ && a.reference_types.len()
        == 0 {
        seq![msg_no_reference_types(a.name)]
    } else {
        Seq::empty()
    };
    let e7: Seq<Seq<char>> = if lower(a.data_type) == "complex"@ && a.sub_attributes.len() == 0
        && !a.multi_valued {
        seq![msg_no_sub_attributes(a.name)]
    } else {
        Seq::empty()
    };
    e1 + e2 + e3 + e4 + e5 + e6 + e7
}

/// All violations of a subtree, pre-order: the node's own, then those of
/// its children, left to right.
pub open spec fn attr_error_msgs(a: AttrModel) -> Seq<Seq<char>>
    decreases a,
{
    own_error_msgs(a) + attrs_error_msgs(a.sub_attributes)
}

pub open spec fn attrs_error_msgs(s: Seq<AttrModel>) -> Seq<Seq<char>>
    decreases s,
{
    if s.len() == 0 {
        Seq::empty()
    } else {
        attrs_error_msgs(s.drop_last()) + attr_error_msgs(s.last())
    }
}

pub proof fn lemma_attrs_errors_push(t: Seq<AttrModel>, x: AttrModel)
    ensures
        attrs_error_msgs(t.push(x)) == attrs_error_msgs(t) + attr_error_msgs(x),
{
    assert(t.push(x).drop_last() =~= t);
    assert(t.push(x).last() == x);
}

/// The messages joined into one human-readable string, one per line.
pub open spec fn join_msgs(ms: Seq<Seq<char>>) -> Seq<char>
    decreases ms,
{
    if ms.len() == 0 {
        Seq::empty()
    } else if ms.len() == 1 {
        ms[0]
    } else {
        join_msgs(ms.drop_last()) + "\n"@ + ms.last()
    }
}

pub proof fn lemma_join_push(t: Seq<Seq<char>>, x: Seq<char>)
    ensures
        join_msgs(t.push(x)) == (if t.len() == 0 {
            x
        } else {
            join_msgs(t) + "\n"@ + x
        }),
{
    assert(t.push(x).drop_last() =~= t);
    assert(t.push(x).last() == x);
}

/// Joins the collected messages, one per line.
pub(crate) fn join_all(ms: &Vec<String>) -> (r: String)
    ensures
        r@ == join_msgs(ms.deep_view()),
{
    let mut r = String::new();
    let mut i: usize = 0;
    while i < ms.len()
        invariant
            i <= ms@.len(),
            r@ == join_msgs(ms.deep_view().take(i as int)),
        decreases ms@.len() - i,
    {
        if i > 0 {
            r.append("\n");
        }
        r.append(ms[i].as_str());
        proof {
            let ghost t = ms.deep_view().take(i as int);
            assert(ms.deep_view().take(i + 1 as int) =~= t.push(ms.deep_view()[i as int]));
            lemma_join_push(t, ms.deep_view()[i as int]);
            assert(r@ =~= join_msgs(ms.deep_view().take(i + 1 as int)));
        }
        i += 1;
    }
    proof {
        assert(ms.deep_view().take(ms@.len() as int) =~= ms.deep_view());
    }
    r
}

/// Appends one message, as a value the model of the list can track.
pub(crate) fn push_msg(ve: &mut Vec<String>, m: String)
    ensures
        final(ve).deep_view() == old(ve).deep_view().push(m@),
{
    let ghost m0 = m@;
    ve.push(m);
    proof {
        assert(ve.deep_view() =~= old(ve).deep_view().push(m0));
    }
}

/// Builds `msg_invalid_field(what, value, name)`.
fn build_invalid_field(what: &str, value: &str, name: &str) -> (r: String)
    ensures
        r@ == msg_invalid_field(what@, value@, name@),
{
    let mut r = String::from_str("invalid ");
    r.append(what);
    r.append(" '");
    r.append(value);
    r.append("' for attribute '");
    r.append(name);
    r.append("'");
    proof {
        assert(r@ =~= msg_invalid_field(what@, value@, name@));
    }
    r
}

/// Builds a message of the shape `<prefix><name>'`.
fn build_name_msg(prefix: &str, name: &str) -> (r: String)
    ensures
        r@ == prefix@ + name@ + "'"@,
{
    let mut r = String::from_str(prefix);
    r.append(name);
    r.append("'");
    proof {
        assert(r@ =~= prefix@ + name@ + "'"@);
    }
    r
}

/// Checks one node itself (not its children), appending its violation
/// messages in reporting order.
#[verifier::rlimit(100)]
fn validate_own(a: &AttrType, ve: &mut Vec<String>)
    ensures
        final(ve).deep_view() == old(ve).deep_view() + own_error_msgs(a@),
{
    let ghost g0 = ve.deep_view();
    if !is_valid_name(a.name.as_str()) {
        let m = build_name_msg("invalid attribute name '", a.name.as_str());
        push_msg(ve, m);
    }
    let t_low = to_lower(a.data_type.as_str());
    if !is_valid_type(t_low.as_str()) {
        let m = build_invalid_field("type", t_low.as_str(), a.name.as_str());
        push_msg(ve, m);
    }
    let m_low = to_lower(a.mutability.as_str());
    if !is_valid_mutability(m_low.as_str()) {
        let m = build_invalid_field("mutability", m_low.as_str(), a.name.as_str());
        push_msg(ve, m);
    }
    let r_low = to_lower(a.returned.as_str());
    if !is_valid_returned(r_low.as_str()) {
        let m = build_invalid_field("returned", r_low.as_str(), a.name.as_str());
        push_msg(ve, m);
    }
    let u_low = to_lower(a.uniqueness.as_str());
    if !is_valid_uniqueness(u_low.as_str()) {
        let m = build_invalid_field("uniqueness", u_low.as_str(), a.name.as_str());
        push_msg(ve, m);
    }
    if str_eq(t_low.as_str(), "reference") && a.reference_types.len() == 0 {
        let m = build_name_msg("No referenceTypes set for attribute '", a.name.as_str());
        push_msg(ve, m);
    }
    if str_eq(t_low.as_str(), "complex") && a.sub_attributes.len() == 0 && !a.multi_valued {
        let m = build_name_msg("No subattributes set for attribute '", a.name.as_str());
        push_msg(ve, m);
    }
    proof {
        assert(a.reference_types.len() == a@.reference_types.len());
        assert(a@.sub_attributes.len() == a.sub_attributes@.len()) by {
            lemma_attr_models_index(a.sub_attributes@);
        }
        assert(ve.deep_view() =~= g0 + own_error_msgs(a@));
    }
}

/// Checks one node and its subtree, appending every violation message in
/// pre-order.
#[verifier::loop_isolation(false)]
#[verifier::rlimit(100)]
pub fn validate_attr(a: &AttrType, ve: &mut Vec<String>)
    ensures
        final(ve).deep_view() == old(ve).deep_view() + attr_error_msgs(a@),
    decreases *a,
{
    validate_own(a, ve);
    let ghost g7 = ve.deep_view();
    let ghost subs_m = a@.sub_attributes;
    let mut i: usize = 0;
    while i < a.sub_attributes.len()
        invariant
            i <= a.sub_attributes@.len(),
            ve.deep_view() == g7 + attrs_error_msgs(subs_m.take(i as int)),
        decreases a.sub_attributes@.len() - i,
    {
        proof {
            assert(decreases_to!(*a => a.sub_attributes));
            assert(decreases_to!(a.sub_attributes => a.sub_attributes@));
            assert(decreases_to!(a.sub_attributes@ => a.sub_attributes@[i as int]));
            assert(decreases_to!(*a => a.sub_attributes@[i as int]));
        }
        let ghost pre = ve.deep_view();
        validate_attr(&a.sub_attributes[i], ve);
        proof {
            lemma_attr_models_index(a.sub_attributes@);
            assert(attr_model(a.sub_attributes@[i as int]) == subs_m[i as int]);
            assert(subs_m.take(i + 1 as int) =~= subs_m.take(i as int).push(subs_m[i as int]));
            lemma_attrs_errors_push(subs_m.take(i as int), subs_m[i as int]);
            assert(ve.deep_view() =~= g7 + attrs_error_msgs(subs_m.take(i + 1 as int)));
        }
        i += 1;
    }
    proof {
        lemma_attr_models_index(a.sub_attributes@);
        assert(subs_m.take(a.sub_attributes@.len() as int) =~= subs_m);
        assert(ve.deep_view() =~= old(ve).deep_view() + attr_error_msgs(a@));
    }
}

} // verus!
