use mwparser_utils::ast::{Element, Position, Span};
use mwparser_utils::matcher::parse_template;
use mwparser_utils::registry::{
    compile, AttributeDefinition, Format, Predicate, Priority, Registry, TemplateDefinition,
};

fn sp() -> Span {
    Span {
        start: Position { offset: 0, line: 0, col: 0 },
        end: Position { offset: 0, line: 0, col: 0 },
    }
}

fn text(s: &str) -> Element {
    Element::Text { position: sp(), text: s.to_string() }
}

fn arg(name: &str, value: &str) -> Element {
    Element::TemplateArgument { position: sp(), name: name.to_string(), value: vec![text(value)] }
}

fn template(name: &str, content: Vec<Element>) -> Element {
    Element::Template { position: sp(), name: vec![text(name)], content }
}

fn math_registry() -> Registry {
    let defs = vec![TemplateDefinition {
        identifier: "Math".to_string(),
        names: vec!["math".to_string(), "formel".to_string()],
        description: String::new(),
        format: Format::Inline,
        attributes: vec![
            AttributeDefinition {
                identifier: "text".to_string(),
                names: vec!["text".to_string(), "1".to_string()],
                priority: Priority::Required,
                predicate: Predicate::MathTag,
                description: String::new(),
            },
            AttributeDefinition {
                identifier: "note".to_string(),
                names: vec!["note".to_string()],
                priority: Priority::Optional,
                predicate: Predicate::EverythingAllowed,
                description: String::new(),
            },
        ],
    }];
    compile(&defs).unwrap()
}

#[test]
fn missing_required_attribute_yields_no_match() {
    let registry = math_registry();
    let t = template("math", vec![arg("other", "x")]);
    assert!(parse_template(&t, &registry).is_none());
}

#[test]
fn supplied_required_attribute_yields_its_content() {
    let registry = math_registry();
    let t = template("math", vec![arg("text", "x^2")]);
    let parsed = parse_template(&t, &registry).unwrap();
    assert_eq!(parsed.identifier(), "Math");
    assert_eq!(parsed.present().len(), 1);
    let found = parsed.find("text").unwrap();
    assert_eq!(found.priority, Priority::Required);
    assert_eq!(found.value, vec![text("x^2")]);
    assert!(parsed.find("note").is_none());
}

#[test]
fn optional_attribute_is_recorded_when_present() {
    let registry = math_registry();
    let t = template("math", vec![arg("note", "n"), arg("text", "x")]);
    let parsed = parse_template(&t, &registry).unwrap();
    // present keeps schema attribute order, not argument order
    assert_eq!(parsed.present()[0].name, "text");
    assert_eq!(parsed.present()[1].name, "note");
    assert_eq!(parsed.find("note").unwrap().value, vec![text("n")]);
}

#[test]
fn template_name_and_argument_names_are_normalized() {
    let registry = math_registry();
    let t = template(" ForMel ", vec![arg(" TEXT ", "x")]);
    let parsed = parse_template(&t, &registry).unwrap();
    assert_eq!(parsed.identifier(), "Math");
    assert_eq!(parsed.find("text").unwrap().value, vec![text("x")]);
}

#[test]
fn attribute_aliases_match_in_order_of_arguments() {
    let registry = math_registry();
    // the first argument matching any alias of "text" wins
    let t = template("math", vec![arg("1", "first"), arg("text", "second")]);
    let parsed = parse_template(&t, &registry).unwrap();
    assert_eq!(parsed.find("text").unwrap().value, vec![text("first")]);
}

#[test]
fn unknown_template_name_yields_no_match() {
    let registry = math_registry();
    let t = template("anchor", vec![]);
    assert!(parse_template(&t, &registry).is_none());
}

#[test]
fn non_template_node_yields_no_match() {
    let registry = math_registry();
    assert!(parse_template(&text("math"), &registry).is_none());
}
