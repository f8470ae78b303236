//! The schema root: the load operation that normalizes, validates and
//! indexes an attribute tree, the flattened name lookups, and the
//! derived path indexes.

use vstd::prelude::*;

use crate::attr::AttrModel;
use crate::attr::AttrType;
use crate::attr::Meta;
use crate::attr::MetaModel;
use crate::attr::SchemaError;
use crate::attr::attr_model;
use crate::attr::attr_models;
use crate::attr::lemma_attr_models_index;
use crate::finalize::fin_attr;
use crate::finalize::fin_attrs;
use crate::finalize::has_sub_named;
use crate::finalize::lemma_fin_attrs_index;
use crate::finalize::std_sub_attr;
use crate::finalize::synth_subs;
use crate::normalize::norm_attr;
use crate::normalize::norm_attrs;
use crate::normalize::lemma_norm_attrs_index;
use crate::normalize::setAttrDefaults;
use crate::paths::PathKind;
use crate::paths::collect_paths;
use crate::paths::schema_paths;
use crate::paths::lemma_schema_paths_push;
use crate::text::str_eq;
use crate::validate::attr_error_msgs;
use crate::validate::attrs_error_msgs;
use crate::validate::join_all;
use crate::validate::join_msgs;
use crate::validate::lemma_attrs_errors_push;
use crate::validate::push_msg;
use crate::validate::validate_attr;

verus! {

/// The root container: the declared fields of a schema document and the
/// derived indexes that a successful load fills in.
pub struct Schema {
    pub id: String,
    pub name: String,
    pub description: String,
    pub attributes: Vec<AttrType>,
    pub meta: Meta,
    pub unique_attribute_paths: Vec<String>,
    pub required_attribute_paths: Vec<String>,
    pub always_returned_paths: Vec<String>,
    pub never_returned_paths: Vec<String>,
    pub request_returned_paths: Vec<String>,
    pub default_returned_paths: Vec<String>,
    pub read_only_paths: Vec<String>,
}

/// Mathematical model of a schema.
#[verifier::ext_equal]
pub struct SchemaModel {
    pub id: Seq<char>,
    pub name: Seq<char>,
    pub description: Seq<char>,
    pub attributes: Seq<AttrModel>,
    pub meta: MetaModel,
    pub unique_attribute_paths: Seq<Seq<char>>,
    pub required_attribute_paths: Seq<Seq<char>>,
    pub always_returned_paths: Seq<Seq<char>>,
    pub never_returned_paths: Seq<Seq<char>>,
    pub request_returned_paths: Seq<Seq<char>>,
    pub default_returned_paths: Seq<Seq<char>>,
    pub read_only_paths: Seq<Seq<char>>,
}

impl View for Schema {
    type V = SchemaModel;

    open spec fn view(&self) -> SchemaModel {
        SchemaModel {
            id: self.id@,
            name: self.name@,
            description: self.description@,
            attributes: attr_models(self.attributes@),
            meta: self.meta@,
            unique_attribute_paths: self.unique_attribute_paths.deep_view(),
            required_attribute_paths: self.required_attribute_paths.deep_view(),
            always_returned_paths: self.always_returned_paths.deep_view(),
            never_returned_paths: self.never_returned_paths.deep_view(),
            request_returned_paths: self.request_returned_paths.deep_view(),
            default_returned_paths: self.default_returned_paths.deep_view(),
            read_only_paths: self.read_only_paths.deep_view(),
        }
    }
}

/// The schema-level violations: a missing id, then either the fatal
/// empty-attribute-list error (which short-circuits every per-attribute
/// check) or the per-attribute violations in pre-order.
pub open spec fn schema_error_msgs(s: SchemaModel) -> Seq<Seq<char>> {
    let head: Seq<Seq<char>> = if s.id.len() == 0 {
        seq!["Schema id is required"@]
    } else {
        Seq::empty()
    };
    if s.attributes.len() == 0 {
        head.push("A schema should contain at least one attribute"@)
    } else {
        head + attrs_error_msgs(s.attributes)
    }
}

/// The normalize phase of a load, on the model.
pub open spec fn norm_schema(s: SchemaModel) -> SchemaModel {
    SchemaModel { attributes: norm_attrs(s.attributes), ..s }
}

/// The finalize-and-index phase of a load, on the model.
pub open spec fn fin_schema(s: SchemaModel) -> SchemaModel {
    let fats = fin_attrs(s.attributes, s.id);
    SchemaModel {
        attributes: fats,
        unique_attribute_paths: schema_paths(fats, PathKind::Unique),
        required_attribute_paths: schema_paths(fats, PathKind::Required),
        always_returned_paths: schema_paths(fats, PathKind::AlwaysReturned),
        never_returned_paths: schema_paths(fats, PathKind::NeverReturned),
        request_returned_paths: schema_paths(fats, PathKind::RequestReturned),
        default_returned_paths: schema_paths(fats, PathKind::DefaultReturned),
        read_only_paths: schema_paths(fats, PathKind::ReadOnly),
        ..s
    }
}

/// What a successful load returns, as a function of the input document.
pub open spec fn load_result(s: SchemaModel) -> SchemaModel {
    fin_schema(norm_schema(s))
}

/// Checks the whole schema, returning every violation message in order.
#[verifier::loop_isolation(false)]
#[verifier::rlimit(100)]
pub fn validate(sc: &Schema) -> (ve: Vec<String>)
    ensures
        ve.deep_view() == schema_error_msgs(sc@),
{
    let mut ve: Vec<String> = Vec::new();
    if sc.id.as_str().is_empty() {
        push_msg(&mut ve, String::from_str("Schema id is required"));
    }
    let ghost head = ve.deep_view();
    proof {
        lemma_attr_models_index(sc.attributes@);
    }
    if sc.attributes.len() == 0 {
        push_msg(&mut ve, String::from_str("A schema should contain at least one attribute"));
        return ve;
    }
    let ghost attrs_m = sc@.attributes;
    let mut i: usize = 0;
    while i < sc.attributes.len()
        invariant
            i <= sc.attributes@.len(),
            ve.deep_view() == head + attrs_error_msgs(attrs_m.take(i as int)),
        decreases sc.attributes@.len() - i,
    {
        validate_attr(&sc.attributes[i], &mut ve);
        proof {
            lemma_attr_models_index(sc.attributes@);
            assert(attr_model(sc.attributes@[i as int]) == attrs_m[i as int]);
            assert(attrs_m.take(i + 1 as int) =~= attrs_m.take(i as int).push(attrs_m[i as int]));
            lemma_attrs_errors_push(attrs_m.take(i as int), attrs_m[i as int]);
            assert(ve.deep_view() =~= head + attrs_error_msgs(attrs_m.take(i + 1 as int)));
        }
        i += 1;
    }
    proof {
        assert(attrs_m.take(sc.attributes@.len() as int) =~= attrs_m);
    }
    ve
}

/// One index of a finalized attribute list.
#[verifier::loop_isolation(false)]
#[verifier::rlimit(100)]
fn collect_schema_paths(attrs: &Vec<AttrType>, k: PathKind) -> (out: Vec<String>)
    ensures
        out.deep_view() == schema_paths(attr_models(attrs@), k),
{
    let ghost attrs_m = attr_models(attrs@);
    let mut out: Vec<String> = Vec::new();
    let mut i: usize = 0;
    while i < attrs.len()
        invariant
            i <= attrs@.len(),
            out.deep_view() == schema_paths(attrs_m.take(i as int), k),
        decreases attrs@.len() - i,
    {
        proof {
            lemma_attr_models_index(attrs@);
        }
        let a = &attrs[i];
        collect_paths(a, &a.normalized_name, k, &mut out);
        if crate::paths::marked_node(a, k) {
            let ghost pre = out.deep_view();
            out.push(a.normalized_name.clone());
            proof {
                assert(out.deep_view() =~= pre.push(a.normalized_name@));
            }
        }
        proof {
            assert(attr_model(attrs@[i as int]) == attrs_m[i as int]);
            assert(attrs_m.take(i + 1 as int) =~= attrs_m.take(i as int).push(attrs_m[i as int]));
            lemma_schema_paths_push(attrs_m.take(i as int), attrs_m[i as int], k);
            assert(out.deep_view() =~= schema_paths(attrs_m.take(i + 1 as int), k));
        }
        i += 1;
    }
    proof {
        lemma_attr_models_index(attrs@);
        assert(attrs_m.take(attrs@.len() as int) =~= attrs_m);
    }
    out
}

/// The load operation: normalize the attribute tree, validate it, and on
/// success finalize it and build every derived index. The result is `Ok`
/// exactly when validation finds no violation; on failure the error
/// carries the full ordered list of messages.
#[verifier::loop_isolation(false)]
#[verifier::rlimit(100)]
pub fn load_schema(sc: Schema) -> (r: Result<Schema, SchemaError>)
    ensures
        (match r {
            Ok(out) => schema_error_msgs(norm_schema(sc@)).len() == 0 && out@ == load_result(sc@),
            Err(e) => schema_error_msgs(norm_schema(sc@)).len() > 0 && e.messages.deep_view()
                == schema_error_msgs(norm_schema(sc@)) && e.details@ == join_msgs(
                schema_error_msgs(norm_schema(sc@)),
            ),
        }),
{
    let ghost in0 = sc@;
    let mut sc = sc;
    let mut pending = sc.attributes;
    sc.attributes = Vec::new();
    let ghost p0 = pending@;
    let mut donev: Vec<AttrType> = Vec::new();
    while pending.len() > 0
        invariant
            donev@.len() + pending@.len() == p0.len(),
            pending@ == p0.skip(donev@.len() as int),
            forall|j: int|
                0 <= j < donev@.len() ==> attr_model(#[trigger] donev@[j]) == norm_attr(
                    attr_model(p0[j]),
                ),
        decreases pending@.len(),
    {
        let ghost k = donev@.len() as int;
        let mut sa = pending.remove(0);
        proof {
            assert(sa == p0[k]);
        }
        setAttrDefaults(&mut sa);
        donev.push(sa);
    }
    sc.attributes = donev;
    proof {
        lemma_attr_models_index(sc.attributes@);
        lemma_norm_attrs_index(attr_models(p0));
        lemma_attr_models_index(p0);
        assert forall|i: int| 0 <= i < sc.attributes@.len() implies attr_models(
            sc.attributes@,
        )[i] == norm_attrs(attr_models(p0))[i] by {
            assert(attr_models(sc.attributes@)[i] == attr_model(sc.attributes@[i]));
            assert(norm_attrs(attr_models(p0))[i] == norm_attr(attr_models(p0)[i]));
            assert(attr_models(p0)[i] == attr_model(p0[i]));
        }
        assert(attr_models(sc.attributes@) =~= norm_attrs(attr_models(p0)));
        assert(sc@ =~~= norm_schema(in0));
    }
    let ghost normed = sc@;
    let ve = validate(&sc);
    if ve.len() > 0 {
        proof {
            assert(ve.deep_view().len() == ve@.len());
        }
        let details = join_all(&ve);
        return Err(SchemaError { details, messages: ve });
    }
    proof {
        assert(ve.deep_view().len() == ve@.len());
        assert(schema_error_msgs(normed).len() == 0);
    }
    let mut pending = sc.attributes;
    sc.attributes = Vec::new();
    let ghost q0 = pending@;
    let mut donev: Vec<AttrType> = Vec::new();
    while pending.len() > 0
        invariant
            donev@.len() + pending@.len() == q0.len(),
            pending@ == q0.skip(donev@.len() as int),
            forall|j: int|
                0 <= j < donev@.len() ==> attr_model(#[trigger] donev@[j]) == fin_attr(
                    attr_model(q0[j]),
                    sc.id@,
                ),
        decreases pending@.len(),
    {
        let ghost k = donev@.len() as int;
        let sa = pending.remove(0);
        proof {
            assert(sa == q0[k]);
        }
        let nsa = crate::finalize::finalize_node(sa, &sc.id);
        donev.push(nsa);
    }
    sc.attributes = donev;
    proof {
        lemma_attr_models_index(sc.attributes@);
        lemma_fin_attrs_index(attr_models(q0), sc.id@);
        lemma_attr_models_index(q0);
        assert forall|i: int| 0 <= i < sc.attributes@.len() implies attr_models(
            sc.attributes@,
        )[i] == fin_attrs(attr_models(q0), sc.id@)[i] by {
            assert(attr_models(sc.attributes@)[i] == attr_model(sc.attributes@[i]));
            assert(fin_attrs(attr_models(q0), sc.id@)[i] == fin_attr(attr_models(q0)[i], sc.id@));
            assert(attr_models(q0)[i] == attr_model(q0[i]));
        }
        assert(attr_models(sc.attributes@) =~= fin_attrs(attr_models(q0), sc.id@));
    }
    sc.unique_attribute_paths = collect_schema_paths(&sc.attributes, PathKind::Unique);
    sc.required_attribute_paths = collect_schema_paths(&sc.attributes, PathKind::Required);
    sc.always_returned_paths = collect_schema_paths(&sc.attributes, PathKind::AlwaysReturned);
    sc.never_returned_paths = collect_schema_paths(&sc.attributes, PathKind::NeverReturned);
    sc.request_returned_paths = collect_schema_paths(&sc.attributes, PathKind::RequestReturned);
    sc.default_returned_paths = collect_schema_paths(&sc.attributes, PathKind::DefaultReturned);
    sc.read_only_paths = collect_schema_paths(&sc.attributes, PathKind::ReadOnly);
    proof {
        assert(sc@ =~~= fin_schema(normed));
    }
    Ok(sc)
}

/// Loading the same document twice gives the same schema: the load
/// result, its derived indexes included, is a function of the input
/// alone.
pub proof fn lemma_load_deterministic(s1: SchemaModel, s2: SchemaModel)
    requires
        s1 == s2,
    ensures
        load_result(s1) == load_result(s2),
        load_result(s1).unique_attribute_paths == load_result(s2).unique_attribute_paths,
        load_result(s1).required_attribute_paths == load_result(s2).required_attribute_paths,
        load_result(s1).always_returned_paths == load_result(s2).always_returned_paths,
        load_result(s1).never_returned_paths == load_result(s2).never_returned_paths,
        load_result(s1).request_returned_paths == load_result(s2).request_returned_paths,
        load_result(s1).default_returned_paths == load_result(s2).default_returned_paths,
        load_result(s1).read_only_paths == load_result(s2).read_only_paths,
{
}

/// The structural invariant of one loaded node: a complex node has at
/// least one sub-attribute, a reference node at least one reference
/// type, recursively.
pub open spec fn structurally_sound(a: AttrModel) -> bool
    decreases a,
{
    &&& a.is_complex ==> a.sub_attributes.len() > 0
    &&& a.is_reference ==> a.reference_types.len() > 0
    &&& sound_attrs(a.sub_attributes)
}

pub open spec fn sound_attrs(s: Seq<AttrModel>) -> bool
    decreases s,
{
    forall|i: int| 0 <= i < s.len() ==> structurally_sound(#[trigger] s[i])
}

proof fn lemma_sound_attrs_concat(x: Seq<AttrModel>, y: Seq<AttrModel>)
    requires
        sound_attrs(x),
        sound_attrs(y),
    ensures
        sound_attrs(x + y),
{
    assert forall|i: int| 0 <= i < (x + y).len() implies structurally_sound(
        #[trigger] (x + y)[i],
    ) by {
        if i < x.len() {
            assert((x + y)[i] == x[i]);
        } else {
            assert((x + y)[i] == y[i - x.len()]);
        }
    }
}

proof fn lemma_std_sub_sound(n: Seq<char>, dt: Seq<char>, mu: Seq<char>, sid: Seq<char>)
    requires
        dt != "complex"@,
        dt != "reference"@,
    ensures
        structurally_sound(std_sub_attr(n, dt, mu, sid)),
{
}

proof fn lemma_synth_subs_sound(subs: Seq<AttrModel>, sid: Seq<char>)
    ensures
        sound_attrs(synth_subs(subs, sid)),
{
    reveal_strlit("string");
    reveal_strlit("boolean");
    reveal_strlit("complex");
    reveal_strlit("reference");
    assert("string"@.len() == 6 && "complex"@.len() == 7 && "reference"@.len() == 9
        && "boolean"@.len() == 7);
    assert("string"@ != "complex"@ && "string"@ != "reference"@);
    assert("boolean"@ != "complex"@) by {
        assert("boolean"@[0] != "complex"@[0]);
    }
    assert("boolean"@ != "reference"@);
    lemma_std_sub_sound("type"@, "string"@, "readWrite"@, sid);
    lemma_std_sub_sound("primary"@, "boolean"@, "readWrite"@, sid);
    lemma_std_sub_sound("display"@, "string"@, "immutable"@, sid);
    lemma_std_sub_sound("value"@, "string"@, "readWrite"@, sid);
    lemma_std_sub_sound("$ref"@, "string"@, "readWrite"@, sid);
    let s1: Seq<AttrModel> = if has_sub_named(subs, "type"@) {
        Seq::empty()
    } else {
        seq![std_sub_attr("type"@, "string"@, "readWrite"@, sid)]
    };
    let s2: Seq<AttrModel> = if has_sub_named(subs, "primary"@) {
        Seq::empty()
    } else {
        seq![std_sub_attr("primary"@, "boolean"@, "readWrite"@, sid)]
    };
    let s3: Seq<AttrModel> = if has_sub_named(subs, "display"@) {
        Seq::empty()
    } else {
        seq![std_sub_attr("display"@, "string"@, "immutable"@, sid)]
    };
    let s4: Seq<AttrModel> = if has_sub_named(subs, "value"@) {
        Seq::empty()
    } else {
        seq![std_sub_attr("value"@, "string"@, "readWrite"@, sid)]
    };
    let s5: Seq<AttrModel> = if has_sub_named(subs, "$ref"@) {
        Seq::empty()
    } else {
        seq![std_sub_attr("$ref"@, "string"@, "readWrite"@, sid)]
    };
    assert(sound_attrs(s1));
    assert(sound_attrs(s2));
    assert(sound_attrs(s3));
    assert(sound_attrs(s4));
    assert(sound_attrs(s5));
    lemma_sound_attrs_concat(s1, s2);
    lemma_sound_attrs_concat(s1 + s2, s3);
    lemma_sound_attrs_concat(s1 + s2 + s3, s4);
    lemma_sound_attrs_concat(s1 + s2 + s3 + s4, s5);
}

proof fn lemma_errors_split(s: Seq<AttrModel>)
    requires
        attrs_error_msgs(s).len() == 0,
    ensures
        forall|i: int| 0 <= i < s.len() ==> attr_error_msgs(#[trigger] s[i]).len() == 0,
    decreases s,
{
    if s.len() > 0 {
        lemma_errors_split(s.drop_last());
        assert forall|i: int| 0 <= i < s.len() implies attr_error_msgs(#[trigger] s[i]).len()
            == 0 by {
            if i < s.len() - 1 {
                assert(s.drop_last()[i] == s[i]);
            } else {
                assert(s[i] == s.last());
            }
        }
    }
}

/// A node that passed validation finalizes into a structurally sound
/// node.
#[verifier::rlimit(100)]
proof fn lemma_validated_attr_sound(n: AttrModel, sid: Seq<char>)
    requires
        attr_error_msgs(n).len() == 0,
    ensures
        structurally_sound(fin_attr(n, sid)),
    decreases n,
{
    assert(attrs_error_msgs(n.sub_attributes).len() == 0);
    lemma_errors_split(n.sub_attributes);
    lemma_fin_attrs_index(n.sub_attributes, sid);
    let subs = fin_attrs(n.sub_attributes, sid);
    assert forall|i: int| 0 <= i < subs.len() implies structurally_sound(#[trigger] subs[i]) by {
        lemma_validated_attr_sound(n.sub_attributes[i], sid);
    }
    assert(sound_attrs(subs));
    lemma_synth_subs_sound(subs, sid);
    let f = fin_attr(n, sid);
    if f.is_complex && n.sub_attributes.len() == 0 {
        assert(n.multi_valued);
        assert(!has_sub_named(subs, "type"@));
        assert(synth_subs(subs, sid).len() > 0);
    }
    lemma_sound_attrs_concat(subs, synth_subs(subs, sid));
}

/// What §7 of RFC-style load semantics owes the caller: a schema that
/// passes validation is returned with its structural invariants intact —
/// a non-empty id, at least one attribute, and every complex or
/// reference node carrying the children or reference types its
/// classification demands.
pub proof fn lemma_load_upholds_invariants(s: SchemaModel)
    requires
        schema_error_msgs(norm_schema(s)).len() == 0,
    ensures
        load_result(s).id.len() > 0,
        load_result(s).attributes.len() > 0,
        sound_attrs(load_result(s).attributes),
{
    let n = norm_schema(s);
    lemma_errors_split(n.attributes);
    lemma_fin_attrs_index(n.attributes, n.id);
    let fats = fin_attrs(n.attributes, n.id);
    assert forall|i: int| 0 <= i < fats.len() implies structurally_sound(#[trigger] fats[i]) by {
        lemma_validated_attr_sound(n.attributes[i], n.id);
    }
}

/// The first node of `s` carrying the normalized name `n`.
pub open spec fn find_by_norm_name(s: Seq<AttrModel>, n: Seq<char>) -> Option<AttrModel>
    decreases s,
{
    if s.len() == 0 {
        Option::None
    } else if s.first().normalized_name == n {
        Option::Some(s.first())
    } else {
        find_by_norm_name(s.drop_first(), n)
    }
}

/// The first node of `attrs` whose normalized name equals `name`.
#[verifier::loop_isolation(false)]
fn find_attr_in<'a>(attrs: &'a Vec<AttrType>, name: &str) -> (r: Option<&'a AttrType>)
    ensures
        (match r {
            Some(a) => find_by_norm_name(attr_models(attrs@), name@) == Option::Some(a@),
            None => find_by_norm_name(attr_models(attrs@), name@) is None,
        }),
{
    let ghost attrs_m = attr_models(attrs@);
    proof {
        lemma_attr_models_index(attrs@);
        assert(attrs_m.skip(0) =~= attrs_m);
    }
    let mut i: usize = 0;
    while i < attrs.len()
        invariant
            i <= attrs@.len(),
            find_by_norm_name(attrs_m, name@) == find_by_norm_name(
                attrs_m.skip(i as int),
                name@,
            ),
        decreases attrs@.len() - i,
    {
        proof {
            assert(attrs_m.skip(i as int).first() == attrs_m[i as int]);
        }
        if str_eq(attrs[i].normalized_name.as_str(), name) {
            proof {
                assert(attrs_m[i as int].normalized_name == name@);
            }
            return Some(&attrs[i]);
        }
        proof {
            assert(attrs_m.skip(i as int).drop_first() =~= attrs_m.skip(i + 1 as int));
        }
        i += 1;
    }
    proof {
        assert(attrs_m.skip(attrs@.len() as int) =~= Seq::<AttrModel>::empty());
    }
    None
}

impl Schema {
    /// The flattened top-level lookup: the first attribute whose
    /// normalized name equals `name`.
    pub fn attribute_by_normalized_name(&self, name: &str) -> (r: Option<&AttrType>)
        ensures
            (match r {
                Some(a) => find_by_norm_name(self@.attributes, name@) == Option::Some(a@),
                None => find_by_norm_name(self@.attributes, name@) is None,
            }),
    {
        find_attr_in(&self.attributes, name)
    }
}

impl AttrType {
    /// The lookup of a sub-attribute by normalized name.
    pub fn sub_attr(&self, name: &str) -> (r: Option<&AttrType>)
        ensures
            (match r {
                Some(a) => find_by_norm_name(self@.sub_attributes, name@) == Option::Some(a@),
                None => find_by_norm_name(self@.sub_attributes, name@) is None,
            }),
    {
        find_attr_in(&self.sub_attributes, name)
    }
}

} // verus!
