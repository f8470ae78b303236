//! The data model: attribute-tree nodes, their mathematical models, and
//! the error container of the load operation.

use vstd::prelude::*;

verus! {

/// One node of the attribute tree, with the fields of an RFC 7643
/// attribute definition plus the cached classification flags.
pub struct AttrType {
    pub name: String,
    pub data_type: String,
    pub description: String,
    pub case_exact: bool,
    pub multi_valued: bool,
    pub mutability: String,
    pub required: bool,
    pub returned: String,
    pub uniqueness: String,
    pub sub_attributes: Vec<AttrType>,
    pub reference_types: Vec<String>,
    pub canonical_values: Vec<String>,
    pub owning_schema_id: String,
    pub normalized_name: String,
    pub is_unique: bool,
    pub is_complex: bool,
    pub is_reference: bool,
    pub is_simple: bool,
    pub is_read_only: bool,
    pub is_immutable: bool,
    pub is_string_type: bool,
}

/// Mathematical model of an attribute node: every string is a `Seq<char>`
/// and the children form a `Seq` of models.
#[verifier::ext_equal]
pub struct AttrModel {
    pub name: Seq<char>,
    pub data_type: Seq<char>,
    pub description: Seq<char>,
    pub case_exact: bool,
    pub multi_valued: bool,
    pub mutability: Seq<char>,
    pub required: bool,
    pub returned: Seq<char>,
    pub uniqueness: Seq<char>,
    pub sub_attributes: Seq<AttrModel>,
    pub reference_types: Seq<Seq<char>>,
    pub canonical_values: Seq<Seq<char>>,
    pub owning_schema_id: Seq<char>,
    pub normalized_name: Seq<char>,
    pub is_unique: bool,
    pub is_complex: bool,
    pub is_reference: bool,
    pub is_simple: bool,
    pub is_read_only: bool,
    pub is_immutable: bool,
    pub is_string_type: bool,
}

/// Model of a sequence of attribute nodes, elementwise.
pub open spec fn attr_models(s: Seq<AttrType>) -> Seq<AttrModel>
    decreases s,
{
    if s.len() == 0 {
        Seq::empty()
    } else {
        attr_models(s.drop_last()).push(attr_model(s.last()))
    }
}

pub open spec fn attr_model(a: AttrType) -> AttrModel
    decreases a,
{
    AttrModel {
        name: a.name@,
        data_type: a.data_type@,
        description: a.description@,
        case_exact: a.case_exact,
        multi_valued: a.multi_valued,
        mutability: a.mutability@,
        required: a.required,
        returned: a.returned@,
        uniqueness: a.uniqueness@,
        sub_attributes: attr_models(a.sub_attributes@),
        reference_types: a.reference_types.deep_view(),
        canonical_values: a.canonical_values.deep_view(),
        owning_schema_id: a.owning_schema_id@,
        normalized_name: a.normalized_name@,
        is_unique: a.is_unique,
        is_complex: a.is_complex,
        is_reference: a.is_reference,
        is_simple: a.is_simple,
        is_read_only: a.is_read_only,
        is_immutable: a.is_immutable,
        is_string_type: a.is_string_type,
    }
}

impl View for AttrType {
    type V = AttrModel;

    open spec fn view(&self) -> AttrModel {
        attr_model(*self)
    }
}

/// The model of a sequence of nodes has the same length and is the model
/// of each node.
pub proof fn lemma_attr_models_index(s: Seq<AttrType>)
    ensures
        attr_models(s).len() == s.len(),
        forall|i: int| 0 <= i < s.len() ==> attr_models(s)[i] == attr_model(s[i]),
    decreases s,
{
    if s.len() > 0 {
        lemma_attr_models_index(s.drop_last());
    }
}

/// The `meta` block of a schema document.
pub struct Meta {
    pub location: String,
    pub resource_type: String,
}

#[verifier::ext_equal]
pub struct MetaModel {
    pub location: Seq<char>,
    pub resource_type: Seq<char>,
}

impl View for Meta {
    type V = MetaModel;

    open spec fn view(&self) -> MetaModel {
        MetaModel { location: self.location@, resource_type: self.resource_type@ }
    }
}

/// The error of a failed load: the ordered list of violation messages,
/// and the same list joined into one human-readable string.
pub struct SchemaError {
    pub details: String,
    pub messages: Vec<String>,
}

/// The field values of a freshly constructed attribute node, with the
/// RFC 7643 defaults on the enumerated fields and every flag unset.
pub open spec fn default_attr_model() -> AttrModel {
    AttrModel {
        name: Seq::empty(),
        data_type: "string"@,
        description: Seq::empty(),
        case_exact: false,
        multi_valued: false,
        mutability: "readWrite"@,
        required: false,
        returned: "default"@,
        uniqueness: "none"@,
        sub_attributes: Seq::empty(),
        reference_types: Seq::empty(),
        canonical_values: Seq::empty(),
        owning_schema_id: Seq::empty(),
        normalized_name: Seq::empty(),
        is_unique: false,
        is_complex: false,
        is_reference: false,
        is_simple: false,
        is_read_only: false,
        is_immutable: false,
        is_string_type: false,
    }
}

/// A fresh attribute node carrying the RFC 7643 defaults.
pub fn new_attr_type() -> (r: AttrType)
    ensures
        r@ == default_attr_model(),
{
    let r = AttrType {
        name: String::new(),
        data_type: String::from_str("string"),
        description: String::new(),
        case_exact: false,
        multi_valued: false,
        mutability: String::from_str("readWrite"),
        required: false,
        returned: String::from_str("default"),
        uniqueness: String::from_str("none"),
        sub_attributes: Vec::new(),
        reference_types: Vec::new(),
        canonical_values: Vec::new(),
        owning_schema_id: String::new(),
        normalized_name: String::new(),
        is_unique: false,
        is_complex: false,
        is_reference: false,
        is_simple: false,
        is_read_only: false,
        is_immutable: false,
        is_string_type: false,
    };
    proof {
        assert(r@ =~~= default_attr_model());
    }
    r
}

} // verus!
