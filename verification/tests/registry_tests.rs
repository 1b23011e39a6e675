use mwparser_utils::registry::{
    compile, AttributeDefinition, Format, Predicate, Priority, SpecError, TemplateDefinition,
};

fn attr(identifier: &str, names: &[&str], priority: Priority) -> AttributeDefinition {
    AttributeDefinition {
        identifier: identifier.to_string(),
        names: names.iter().map(|n| n.to_string()).collect(),
        priority,
        predicate: Predicate::EverythingAllowed,
        description: String::new(),
    }
}

fn def(identifier: &str, names: &[&str], format: Format, attributes: Vec<AttributeDefinition>) -> TemplateDefinition {
    TemplateDefinition {
        identifier: identifier.to_string(),
        names: names.iter().map(|n| n.to_string()).collect(),
        description: String::new(),
        format,
        attributes,
    }
}

#[test]
fn compile_succeeds_on_well_formed_definitions() {
    let defs = vec![
        def("Math", &["math", "formel"], Format::Inline, vec![
            attr("formula", &["formula", "1"], Priority::Required),
        ]),
        def("Liste", &["liste", "list"], Format::Block, vec![]),
    ];
    let registry = compile(&defs).unwrap();
    assert_eq!(registry.all_specs().len(), defs.len());
}

#[test]
fn compile_rejects_lowercase_template_identifier() {
    let defs = vec![def("math", &["math"], Format::Inline, vec![])];
    let err = compile(&defs).unwrap_err();
    assert_eq!(
        err,
        SpecError::TemplateIdentifierNotUppercase { identifier: "math".to_string() }
    );
}

#[test]
fn compile_rejects_template_without_names() {
    let defs = vec![def("Math", &[], Format::Inline, vec![])];
    let err = compile(&defs).unwrap_err();
    assert_eq!(err, SpecError::TemplateWithoutNames { identifier: "Math".to_string() });
}

#[test]
fn compile_rejects_uppercase_attribute_identifier() {
    let defs = vec![def("Math", &["math"], Format::Inline, vec![
        attr("Formula", &["formula"], Priority::Required),
    ])];
    let err = compile(&defs).unwrap_err();
    assert_eq!(
        err,
        SpecError::AttributeIdentifierNotLowercase { identifier: "Formula".to_string() }
    );
}

#[test]
fn compile_rejects_attribute_without_names() {
    let defs = vec![def("Math", &["math"], Format::Inline, vec![
        attr("formula", &[], Priority::Required),
    ])];
    let err = compile(&defs).unwrap_err();
    assert_eq!(err, SpecError::AttributeWithoutNames { identifier: "formula".to_string() });
}

#[test]
fn compile_reports_first_defect_in_order() {
    let defs = vec![
        def("Math", &["math"], Format::Inline, vec![]),
        def("bad", &["bad"], Format::Block, vec![]),
        def("Worse", &[], Format::Block, vec![]),
    ];
    let err = compile(&defs).unwrap_err();
    assert_eq!(
        err,
        SpecError::TemplateIdentifierNotUppercase { identifier: "bad".to_string() }
    );
}

#[test]
fn spec_by_name_is_case_insensitive_and_trims() {
    let defs = vec![def("Math", &["math", "formel"], Format::Inline, vec![])];
    let registry = compile(&defs).unwrap();
    let a = registry.spec_by_name(" MATH ");
    let b = registry.spec_by_name("math");
    assert!(a.is_some());
    assert_eq!(a, b);
    assert_eq!(a.unwrap().identifier, "Math");
}

#[test]
fn spec_by_name_normalizes_stored_aliases() {
    // The aliases themselves are trimmed and lowercased at compile time.
    let defs = vec![def("Liste", &[" LiStE ", "list"], Format::Block, vec![])];
    let registry = compile(&defs).unwrap();
    assert!(registry.spec_by_name("LISTE").is_some());
    assert_eq!(registry.all_specs()[0].names[0], "liste");
}

#[test]
fn spec_by_name_misses_unknown_names() {
    let defs = vec![def("Math", &["math"], Format::Inline, vec![])];
    let registry = compile(&defs).unwrap();
    assert!(registry.spec_by_name("anchor").is_none());
}

#[test]
fn spec_by_name_takes_first_matching_schema() {
    let defs = vec![
        def("First", &["shared"], Format::Inline, vec![]),
        def("Second", &["shared"], Format::Block, vec![]),
    ];
    let registry = compile(&defs).unwrap();
    assert_eq!(registry.spec_by_name("shared").unwrap().identifier, "First");
}

#[test]
fn default_name_is_the_first_alias() {
    let defs = vec![def("Math", &["math", "formel"], Format::Inline, vec![
        attr("formula", &["formula", "1"], Priority::Required),
    ])];
    let registry = compile(&defs).unwrap();
    let spec = registry.spec_by_name("formel").unwrap();
    assert_eq!(spec.default_name(), "math");
    assert_eq!(spec.attributes[0].default_name(), "formula");
    assert_eq!(spec.attributes[0].predicate_name, "everything_is_allowed");
}
