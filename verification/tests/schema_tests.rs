use schema::AttrType;
use schema::Meta;
use schema::Schema;
use schema::SchemaError;
use schema::addDefSubAttrs;
use schema::exists_in;
use schema::is_valid_mutability;
use schema::is_valid_name;
use schema::is_valid_returned;
use schema::is_valid_type;
use schema::is_valid_uniqueness;
use schema::load_schema;
use schema::new_attr_type;
use schema::setAttrDefaults;
use schema::str_eq;
use schema::to_lower;
use schema::validate;

fn named_attr(name: &str) -> AttrType {
    let mut a = new_attr_type();
    a.name = String::from(name);
    a
}

fn empty_meta() -> Meta {
    Meta {
        location: String::from("/Schemas/test"),
        resource_type: String::from("Schema"),
    }
}

fn schema_with(attrs: Vec<AttrType>) -> Schema {
    Schema {
        id: String::from("urn:test:schema"),
        name: String::from("Test"),
        description: String::from("a test schema"),
        attributes: attrs,
        meta: empty_meta(),
        unique_attribute_paths: Vec::new(),
        required_attribute_paths: Vec::new(),
        always_returned_paths: Vec::new(),
        never_returned_paths: Vec::new(),
        request_returned_paths: Vec::new(),
        default_returned_paths: Vec::new(),
        read_only_paths: Vec::new(),
    }
}

fn load_ok(s: Schema) -> Schema {
    match load_schema(s) {
        Ok(sc) => sc,
        Err(e) => panic!("expected a successful load, got: {}", e.details),
    }
}

fn load_err(s: Schema) -> SchemaError {
    match load_schema(s) {
        Ok(_) => panic!("expected the load to fail"),
        Err(e) => e,
    }
}

#[test]
fn new_attr_type_carries_rfc_defaults() {
    let a = new_attr_type();
    assert_eq!(a.mutability, "readWrite");
    assert_eq!(a.returned, "default");
    assert_eq!(a.uniqueness, "none");
    assert_eq!(a.data_type, "string");
    assert_eq!(a.name, "");
    assert!(!a.required);
    assert!(!a.case_exact);
    assert!(!a.multi_valued);
    assert!(a.sub_attributes.is_empty());
    assert!(a.reference_types.is_empty());
    assert!(!a.is_unique && !a.is_complex && !a.is_reference && !a.is_simple);
}

#[test]
fn defaults_fill_only_missing_fields() {
    let mut a = named_attr("x");
    a.mutability = String::new();
    a.returned = String::new();
    a.uniqueness = String::from("server");
    a.data_type = String::new();
    setAttrDefaults(&mut a);
    assert_eq!(a.mutability, "readWrite");
    assert_eq!(a.returned, "default");
    assert_eq!(a.uniqueness, "server");
    assert_eq!(a.data_type, "string");
    assert!(a.is_unique);
    assert!(a.is_simple);
    assert!(a.is_string_type);
}

#[test]
fn defaults_are_idempotent() {
    let mut child = named_attr("inner");
    child.data_type = String::new();
    let mut a = named_attr("outer");
    a.data_type = String::from("complex");
    a.mutability = String::new();
    a.sub_attributes.push(child);
    setAttrDefaults(&mut a);
    let fields = (
        a.mutability.clone(),
        a.returned.clone(),
        a.uniqueness.clone(),
        a.data_type.clone(),
        a.sub_attributes[0].data_type.clone(),
        a.sub_attributes[0].mutability.clone(),
    );
    let flags = (
        a.is_unique,
        a.is_complex,
        a.is_reference,
        a.is_simple,
        a.is_read_only,
        a.is_immutable,
        a.is_string_type,
    );
    setAttrDefaults(&mut a);
    let fields_again = (
        a.mutability.clone(),
        a.returned.clone(),
        a.uniqueness.clone(),
        a.data_type.clone(),
        a.sub_attributes[0].data_type.clone(),
        a.sub_attributes[0].mutability.clone(),
    );
    let flags_again = (
        a.is_unique,
        a.is_complex,
        a.is_reference,
        a.is_simple,
        a.is_read_only,
        a.is_immutable,
        a.is_string_type,
    );
    assert_eq!(fields, fields_again);
    assert_eq!(flags, flags_again);
    assert_eq!(a.sub_attributes.len(), 1);
}

#[test]
fn classification_is_exclusive_and_matches_type() {
    let cases = [
        ("string", false, false, true),
        ("boolean", false, false, true),
        ("decimal", false, false, true),
        ("integer", false, false, true),
        ("datetime", false, false, true),
        ("binary", false, false, true),
        ("reference", false, true, false),
        ("complex", true, false, false),
    ];
    for (dt, complex, reference, simple) in cases {
        let mut a = named_attr("x");
        a.data_type = String::from(dt);
        setAttrDefaults(&mut a);
        assert_eq!(a.is_complex, complex, "type {}", dt);
        assert_eq!(a.is_reference, reference, "type {}", dt);
        assert_eq!(a.is_simple, simple, "type {}", dt);
        let count = [a.is_complex, a.is_reference, a.is_simple]
            .iter()
            .filter(|b| **b)
            .count();
        assert_eq!(count, 1, "type {}", dt);
    }
}

#[test]
fn name_rule_accepts_and_rejects() {
    assert!(is_valid_name("validName1"));
    assert!(is_valid_name("valid_name"));
    assert!(is_valid_name("valid-name"));
    assert!(is_valid_name("valid$name"));
    assert!(!is_valid_name("1invalid"));
    assert!(!is_valid_name("invalid name"));
    assert!(!is_valid_name(""));
}

#[test]
fn lowercasing_and_string_equality() {
    assert_eq!(to_lower("AbC$-Z9"), "abc$-z9");
    assert_eq!(to_lower(""), "");
    assert!(str_eq("same", "same"));
    assert!(!str_eq("same", "same "));
    assert!(!str_eq("Same", "same"));
}

#[test]
fn token_sets_match_the_specification() {
    for t in ["string", "boolean", "decimal", "integer", "datetime", "binary", "reference",
        "complex"] {
        assert!(is_valid_type(t));
    }
    assert!(!is_valid_type("varchar"));
    for m in ["readonly", "readwrite", "immutable", "writeonly"] {
        assert!(is_valid_mutability(m));
    }
    assert!(!is_valid_mutability("readWrite"));
    for r in ["always", "never", "default", "request"] {
        assert!(is_valid_returned(r));
    }
    assert!(!is_valid_returned("sometimes"));
    for u in ["none", "server", "global"] {
        assert!(is_valid_uniqueness(u));
    }
    assert!(!is_valid_uniqueness("universe"));
}

#[test]
fn exists_in_compares_contents() {
    let list = vec![String::from("alpha"), String::from("beta")];
    assert!(exists_in(&String::from("beta"), &list));
    assert!(!exists_in(&String::from("gamma"), &list));
}

#[test]
fn synthesized_sub_attributes_for_multi_valued_complex() {
    let mut emails = named_attr("emails");
    emails.data_type = String::from("complex");
    emails.multi_valued = true;
    let sc = load_ok(schema_with(vec![emails]));
    let at = &sc.attributes[0];
    assert_eq!(at.sub_attributes.len(), 5);
    let names: Vec<&str> = at.sub_attributes.iter().map(|s| s.name.as_str()).collect();
    assert_eq!(names, vec!["type", "primary", "display", "value", "$ref"]);
    for sub in &at.sub_attributes {
        assert_eq!(sub.owning_schema_id, "urn:test:schema");
        match sub.name.as_str() {
            "primary" => assert_eq!(sub.data_type, "boolean"),
            _ => assert_eq!(sub.data_type, "string"),
        }
        match sub.name.as_str() {
            "display" => {
                assert_eq!(sub.mutability, "immutable");
                assert!(sub.is_immutable);
            }
            _ => assert_eq!(sub.mutability, "readWrite"),
        }
    }
}

#[test]
fn synthesis_skips_declared_value_sub_attribute() {
    let mut value = named_attr("value");
    value.description = String::from("a custom value description");
    let mut emails = named_attr("emails");
    emails.data_type = String::from("complex");
    emails.multi_valued = true;
    emails.sub_attributes.push(value);
    let sc = load_ok(schema_with(vec![emails]));
    let at = &sc.attributes[0];
    assert_eq!(at.sub_attributes.len(), 5);
    assert_eq!(at.sub_attributes[0].name, "value");
    assert_eq!(at.sub_attributes[0].description, "a custom value description");
    let rest: Vec<&str> = at.sub_attributes[1..].iter().map(|s| s.name.as_str()).collect();
    assert_eq!(rest, vec!["type", "primary", "display", "$ref"]);
}

#[test]
fn add_def_sub_attrs_appends_only_missing() {
    let mut primary = named_attr("primary");
    primary.normalized_name = String::from("primary");
    let mut a = named_attr("emails");
    a.data_type = String::from("complex");
    a.owning_schema_id = String::from("urn:test:schema");
    a.sub_attributes.push(primary);
    addDefSubAttrs(&mut a);
    let names: Vec<&str> = a.sub_attributes.iter().map(|s| s.name.as_str()).collect();
    assert_eq!(names, vec!["primary", "type", "display", "value", "$ref"]);
    assert_eq!(a.sub_attributes[1].owning_schema_id, "urn:test:schema");
}

#[test]
fn path_indexing_collects_required_and_unique() {
    let mut id = named_attr("id");
    id.required = true;
    id.uniqueness = String::from("global");
    let mut family = named_attr("familyName");
    family.required = true;
    let mut name = named_attr("name");
    name.data_type = String::from("complex");
    name.sub_attributes.push(family);
    let sc = load_ok(schema_with(vec![id, name]));
    assert_eq!(
        sc.required_attribute_paths,
        vec![String::from("id"), String::from("name.familyname")]
    );
    assert_eq!(sc.unique_attribute_paths, vec![String::from("id")]);
}

#[test]
fn return_visibility_buckets_and_read_only_paths() {
    let mut id = named_attr("id");
    id.returned = String::from("always");
    id.mutability = String::from("readOnly");
    let mut password = named_attr("password");
    password.returned = String::from("never");
    let mut groups = named_attr("groups");
    groups.returned = String::from("request");
    let plain = named_attr("nickName");
    let sc = load_ok(schema_with(vec![id, password, groups, plain]));
    assert_eq!(sc.always_returned_paths, vec![String::from("id")]);
    assert_eq!(sc.never_returned_paths, vec![String::from("password")]);
    assert_eq!(sc.request_returned_paths, vec![String::from("groups")]);
    assert_eq!(sc.default_returned_paths, vec![String::from("nickname")]);
    assert_eq!(sc.read_only_paths, vec![String::from("id")]);
}

#[test]
fn loaded_attributes_are_stamped_and_lowercased() {
    let mut a = named_attr("userName");
    a.data_type = String::from("String");
    a.mutability = String::from("readWrite");
    a.uniqueness = String::from("Server");
    let sc = load_ok(schema_with(vec![a]));
    let at = &sc.attributes[0];
    assert_eq!(at.name, "userName");
    assert_eq!(at.normalized_name, "username");
    assert_eq!(at.data_type, "string");
    assert_eq!(at.mutability, "readwrite");
    assert_eq!(at.uniqueness, "server");
    assert_eq!(at.owning_schema_id, "urn:test:schema");
    assert!(at.is_unique);
    assert!(at.is_string_type);
    assert!(at.is_simple);
}

#[test]
fn fatal_short_circuit_on_empty_attribute_list() {
    let e = load_err(schema_with(Vec::new()));
    assert_eq!(e.messages.len(), 1);
    assert_eq!(e.messages[0], "A schema should contain at least one attribute");
    assert_eq!(e.details, "A schema should contain at least one attribute");
}

#[test]
fn missing_id_is_reported() {
    let mut s = schema_with(vec![named_attr("ok")]);
    s.id = String::new();
    let e = load_err(s);
    assert_eq!(e.messages, vec![String::from("Schema id is required")]);
}

#[test]
fn multi_error_aggregation_names_each_attribute() {
    let mut a1 = named_attr("first");
    a1.mutability = String::from("sometimes");
    let mut a2 = named_attr("second");
    a2.mutability = String::from("often");
    let e = load_err(schema_with(vec![a1, a2]));
    assert_eq!(e.messages.len(), 2);
    assert_eq!(e.messages[0], "invalid mutability 'sometimes' for attribute 'first'");
    assert_eq!(e.messages[1], "invalid mutability 'often' for attribute 'second'");
    assert_eq!(
        e.details,
        "invalid mutability 'sometimes' for attribute 'first'\ninvalid mutability 'often' for attribute 'second'"
    );
}

#[test]
fn each_violation_has_its_own_message() {
    let mut bad_name = named_attr("1bad");
    bad_name.data_type = String::from("varchar");
    bad_name.returned = String::from("sometimes");
    bad_name.uniqueness = String::from("universe");
    let e = load_err(schema_with(vec![bad_name]));
    assert_eq!(
        e.messages,
        vec![
            String::from("invalid attribute name '1bad'"),
            String::from("invalid type 'varchar' for attribute '1bad'"),
            String::from("invalid returned 'sometimes' for attribute '1bad'"),
            String::from("invalid uniqueness 'universe' for attribute '1bad'"),
        ]
    );
}

#[test]
fn reference_needs_reference_types() {
    let mut r = named_attr("manager");
    r.data_type = String::from("reference");
    let e = load_err(schema_with(vec![r]));
    assert_eq!(
        e.messages,
        vec![String::from("No referenceTypes set for attribute 'manager'")]
    );
    let mut ok = named_attr("manager");
    ok.data_type = String::from("reference");
    ok.reference_types.push(String::from("User"));
    let sc = load_ok(schema_with(vec![ok]));
    assert!(sc.attributes[0].is_reference);
    assert!(sc.attributes[0].is_string_type);
}

#[test]
fn single_valued_complex_needs_sub_attributes() {
    let mut c = named_attr("name");
    c.data_type = String::from("complex");
    let e = load_err(schema_with(vec![c]));
    assert_eq!(
        e.messages,
        vec![String::from("No subattributes set for attribute 'name'")]
    );
}

#[test]
fn validate_is_pure_and_reports_in_order() {
    let mut a = named_attr("ok");
    setAttrDefaults(&mut a);
    let sc = schema_with(vec![a]);
    let ve = validate(&sc);
    assert!(ve.is_empty());
    let mut s2 = schema_with(vec![]);
    s2.id = String::new();
    let ve2 = validate(&s2);
    assert_eq!(
        ve2,
        vec![
            String::from("Schema id is required"),
            String::from("A schema should contain at least one attribute"),
        ]
    );
}

#[test]
fn round_trip_classification_indexes_agree() {
    let build = || {
        let mut id = named_attr("id");
        id.required = true;
        id.uniqueness = String::from("global");
        id.returned = String::from("always");
        let mut family = named_attr("familyName");
        family.required = true;
        let mut name = named_attr("name");
        name.data_type = String::from("complex");
        name.sub_attributes.push(family);
        let mut emails = named_attr("emails");
        emails.data_type = String::from("complex");
        emails.multi_valued = true;
        schema_with(vec![id, name, emails])
    };
    let s1 = load_ok(build());
    let s2 = load_ok(build());
    assert_eq!(s1.unique_attribute_paths, s2.unique_attribute_paths);
    assert_eq!(s1.required_attribute_paths, s2.required_attribute_paths);
    assert_eq!(s1.always_returned_paths, s2.always_returned_paths);
    assert_eq!(s1.never_returned_paths, s2.never_returned_paths);
    assert_eq!(s1.request_returned_paths, s2.request_returned_paths);
    assert_eq!(s1.default_returned_paths, s2.default_returned_paths);
    assert_eq!(s1.read_only_paths, s2.read_only_paths);
    assert_eq!(s1.attributes.len(), s2.attributes.len());
}

#[test]
fn lookup_by_normalized_name() {
    let mut user = named_attr("userName");
    user.uniqueness = String::from("server");
    let mut family = named_attr("familyName");
    family.required = true;
    let mut name = named_attr("name");
    name.data_type = String::from("complex");
    name.sub_attributes.push(family);
    let sc = load_ok(schema_with(vec![user, name]));
    let found = match sc.attribute_by_normalized_name("username") {
        Some(a) => a,
        None => panic!("userName should be found"),
    };
    assert_eq!(found.name, "userName");
    assert!(sc.attribute_by_normalized_name("userName").is_none());
    assert!(sc.attribute_by_normalized_name("missing").is_none());
    let name_attr = match sc.attribute_by_normalized_name("name") {
        Some(a) => a,
        None => panic!("name should be found"),
    };
    let sub = match name_attr.sub_attr("familyname") {
        Some(s) => s,
        None => panic!("familyname should be found"),
    };
    assert_eq!(sub.name, "familyName");
    assert!(sub.required);
}

#[test]
fn mixed_case_type_is_classified_after_lowercasing() {
    let mut r = named_attr("manager");
    r.data_type = String::from("Reference");
    let e = load_err(schema_with(vec![r]));
    assert_eq!(
        e.messages,
        vec![String::from("No referenceTypes set for attribute 'manager'")]
    );
    let mut c = named_attr("emails");
    c.data_type = String::from("COMPLEX");
    c.multi_valued = true;
    let sc = load_ok(schema_with(vec![c]));
    let at = &sc.attributes[0];
    assert_eq!(at.data_type, "complex");
    assert!(at.is_complex);
    assert_eq!(at.sub_attributes.len(), 5);
}
