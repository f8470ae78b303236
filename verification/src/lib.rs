//! Loader for SCIM-style resource-schema definitions (RFC 7643 shape):
//! fills in protocol-mandated defaults on the attribute tree, validates
//! lexical and structural constraints, and builds the derived indexes
//! (name lookups, unique/required paths, return-visibility buckets).

mod attr;
mod finalize;
mod normalize;
mod paths;
mod schema;
mod text;
mod validate;

pub use attr::AttrModel;
pub use attr::AttrType;
pub use attr::Meta;
pub use attr::MetaModel;
pub use attr::SchemaError;
pub use attr::attr_model;
pub use attr::attr_models;
pub use attr::default_attr_model;
pub use attr::lemma_attr_models_index;
pub use attr::new_attr_type;
pub use normalize::default_if_empty;
pub use normalize::lemma_norm_attrs_index;
pub use normalize::norm_attr;
pub use normalize::norm_attrs;
pub use normalize::setAttrDefaults;
pub use normalize::with_flags;
pub use finalize::addDefSubAttrs;
pub use finalize::fin_attr;
pub use finalize::fin_attrs;
pub use finalize::has_sub_named;
pub use finalize::lemma_fin_attrs_index;
pub use finalize::lemma_synthesis_non_duplication;
pub use finalize::lemma_synthesized_sub_attrs;
pub use finalize::std_sub_attr;
pub use finalize::synth_subs;
pub use normalize::class_consistent_tree;
pub use normalize::class_matches_fields;
pub use normalize::exactly_one_class;
pub use normalize::lemma_norm_classification;
pub use normalize::lemma_norm_idempotent;
pub use paths::PathKind;
pub use paths::collect_paths;
pub use paths::node_paths;
pub use paths::path_join;
pub use paths::path_marked;
pub use paths::schema_paths;
pub use paths::seq_paths;
pub use schema::Schema;
pub use schema::SchemaModel;
pub use schema::fin_schema;
pub use schema::find_by_norm_name;
pub use schema::lemma_load_deterministic;
pub use schema::lemma_load_upholds_invariants;
pub use schema::sound_attrs;
pub use schema::structurally_sound;
pub use schema::load_result;
pub use schema::load_schema;
pub use schema::norm_schema;
pub use schema::schema_error_msgs;
pub use schema::validate;
pub use text::exists_in;
pub use text::is_valid_mutability;
pub use text::is_valid_name;
pub use text::is_valid_returned;
pub use text::is_valid_type;
pub use text::is_valid_uniqueness;
pub use text::lower;
pub use text::lower_char;
pub use text::str_eq;
pub use text::to_lower;
pub use text::valid_name;
pub use validate::attr_error_msgs;
pub use validate::join_msgs;
pub use validate::attrs_error_msgs;
pub use validate::msg_invalid_field;
pub use validate::msg_invalid_name;
pub use validate::msg_no_reference_types;
pub use validate::msg_no_sub_attributes;
pub use validate::own_error_msgs;
pub use validate::validate_attr;
