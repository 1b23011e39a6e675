use mwparser_utils::ast::{Element, MarkupType, Position, Span};
use mwparser_utils::predicates::{
    apply_predicate, check_always, everything_is_allowed, is_math_tag, is_navigation_spec,
    is_negative_switch, is_plain_text, is_theorem_paragraph, is_text_only_paragraph,
};
use mwparser_utils::registry::{
    compile, AttributeDefinition, Format, Predicate, Priority, Registry, TemplateDefinition,
};
use mwparser_utils::util::{extract_plain_text, find_arg};

fn sp() -> Span {
    Span {
        start: Position { offset: 0, line: 0, col: 0 },
        end: Position { offset: 0, line: 0, col: 0 },
    }
}

fn text(s: &str) -> Element {
    Element::Text { position: sp(), text: s.to_string() }
}

fn paragraph(content: Vec<Element>) -> Element {
    Element::Paragraph { position: sp(), content }
}

fn formatted(markup: MarkupType, content: Vec<Element>) -> Element {
    Element::Formatted { position: sp(), markup, content }
}

fn template(name: &str, content: Vec<Element>) -> Element {
    Element::Template { position: sp(), name: vec![text(name)], content }
}

fn registry() -> Registry {
    let defs = vec![
        TemplateDefinition {
            identifier: "Formula".to_string(),
            names: vec!["formel".to_string()],
            description: String::new(),
            format: Format::Inline,
            attributes: vec![],
        },
        TemplateDefinition {
            identifier: "Theorem".to_string(),
            names: vec!["satz".to_string()],
            description: String::new(),
            format: Format::Box,
            attributes: vec![],
        },
        TemplateDefinition {
            identifier: "ProofStep".to_string(),
            names: vec!["beweisschritt".to_string()],
            description: String::new(),
            format: Format::Block,
            attributes: vec![AttributeDefinition {
                identifier: "goal".to_string(),
                names: vec!["ziel".to_string()],
                priority: Priority::Optional,
                predicate: Predicate::EverythingAllowed,
                description: String::new(),
            }],
        },
    ];
    compile(&defs).unwrap()
}

#[test]
fn math_tag_accepts_one_math_node() {
    let nodes = vec![formatted(MarkupType::Math, vec![text("x".into())])];
    assert!(is_math_tag(&nodes).is_ok());
}

#[test]
fn math_tag_counts_the_outer_list() {
    let nodes = vec![
        formatted(MarkupType::Math, vec![text("a")]),
        formatted(MarkupType::Math, vec![text("b")]),
    ];
    let err = is_math_tag(&nodes).unwrap_err();
    assert_eq!(err.cause, "There is none or more than one element in this math tag!");
    assert!(err.tree.is_none());
    assert!(is_math_tag(&[]).is_err());
}

#[test]
fn math_tag_rejects_other_markup_and_other_nodes() {
    let bold = vec![formatted(MarkupType::Bold, vec![text("a")])];
    let err = is_math_tag(&bold).unwrap_err();
    assert_eq!(err.cause, "This is not math-formatted!");
    assert_eq!(err.tree, Some(formatted(MarkupType::Bold, vec![text("a")])));

    let plain = vec![text("a")];
    let err = is_math_tag(&plain).unwrap_err();
    assert_eq!(err.cause, "This is not math-formatted text!");
}

#[test]
fn plain_text_accepts_nested_paragraphs_and_text() {
    let nodes = vec![paragraph(vec![text("a"), paragraph(vec![text("b")])])];
    assert!(is_plain_text(&nodes).is_ok());
}

#[test]
fn plain_text_rejects_formatting_at_depth() {
    let nodes = vec![paragraph(vec![formatted(MarkupType::Bold, vec![text("b")])])];
    let err = is_plain_text(&nodes).unwrap_err();
    assert_eq!(err.cause, "This markup is not allowed in plain text!");
}

#[test]
fn first_failure_references_the_second_sibling_list() {
    // both top nodes are paragraphs; only the second one's content fails
    let offender = formatted(MarkupType::Bold, vec![text("b")]);
    let nodes = vec![
        paragraph(vec![text("fine")]),
        paragraph(vec![formatted(MarkupType::Bold, vec![text("b")])]),
    ];
    let err = is_plain_text(&nodes).unwrap_err();
    assert_eq!(err.tree, Some(offender));
}

#[test]
fn negative_switch_accepts_exactly_nein_after_trim() {
    assert!(is_negative_switch(&[text("nein")]).is_ok());
    assert!(is_negative_switch(&[text("  nein \n")]).is_ok());
    assert!(is_negative_switch(&[paragraph(vec![text("nein")])]).is_ok());
}

#[test]
fn negative_switch_is_case_sensitive() {
    let err = is_negative_switch(&[text("Nein")]).unwrap_err();
    assert_eq!(err.cause, "The content of this argument is only allowed to be \"nein\".");
    assert_eq!(err.tree, Some(text("Nein")));
    assert!(is_negative_switch(&[]).is_err());
    assert!(is_negative_switch(&[formatted(MarkupType::Bold, vec![text("nein")])]).is_err());
}

#[test]
fn navigation_spec_allows_only_oben_and_unten() {
    assert!(is_navigation_spec(&[text("oben")]).is_ok());
    assert!(is_navigation_spec(&[text("unten")]).is_ok());
    assert!(is_navigation_spec(&[text("oben ")]).is_err());
    assert!(is_navigation_spec(&[text("oben"), text("unten")]).is_err());
    assert!(is_navigation_spec(&[]).is_err());
}

#[test]
fn check_always_is_vacuously_true_on_an_empty_list() {
    let reg = registry();
    assert!(check_always(&[], Predicate::EverythingAllowed, &reg).is_ok());
    assert!(check_always(&[], Predicate::PlainText, &reg).is_ok());
}

#[test]
fn check_always_with_total_rule_accepts_any_tree() {
    let reg = registry();
    let nodes = vec![paragraph(vec![formatted(MarkupType::Math, vec![text("x")])])];
    assert!(check_always(&nodes, Predicate::EverythingAllowed, &reg).is_ok());
    assert!(everything_is_allowed(&nodes).is_ok());
}

#[test]
fn theorem_paragraph_allows_proof_steps_and_inline_templates() {
    let reg = registry();
    let nodes = vec![
        template("beweisschritt", vec![]),
        template("formel", vec![]),
        text("prose"),
    ];
    assert!(is_theorem_paragraph(&nodes, &reg).is_ok());
}

#[test]
fn theorem_paragraph_rejects_block_templates() {
    let reg = registry();
    let nodes = vec![template("satz", vec![])];
    let err = is_theorem_paragraph(&nodes, &reg).unwrap_err();
    assert_eq!(err.cause, "\"satz\" is not an inline template!");
}

#[test]
fn theorem_paragraph_reports_missing_specification() {
    let reg = registry();
    let nodes = vec![template("anchor", vec![])];
    let err = is_theorem_paragraph(&nodes, &reg).unwrap_err();
    assert_eq!(err.cause, "\"anchor\" has no specification!");
    assert!(err.tree.is_none());
}

#[test]
fn theorem_paragraph_rejects_headings() {
    let reg = registry();
    let nodes = vec![Element::Heading {
        position: sp(),
        depth: 1,
        caption: vec![],
        content: vec![],
    }];
    let err = is_theorem_paragraph(&nodes, &reg).unwrap_err();
    assert_eq!(err.cause, "This markup is not allowed in proofs!");
}

#[test]
fn text_only_paragraph_has_no_proof_step_exemption() {
    let reg = registry();
    assert!(is_text_only_paragraph(&[template("formel", vec![])], &reg).is_ok());
    let err = is_text_only_paragraph(&[template("beweisschritt", vec![])], &reg).unwrap_err();
    assert_eq!(err.cause, "\"beweisschritt\" is not an inline template!");
}

#[test]
fn text_only_paragraph_rejects_references_and_galleries() {
    let reg = registry();
    let reference = Element::InternalReference {
        position: sp(),
        target: vec![],
        options: vec![],
        caption: vec![],
    };
    let err = is_text_only_paragraph(&[reference], &reg).unwrap_err();
    assert_eq!(err.cause, "This markup is not text-only!");
    let gallery = Element::Gallery { position: sp(), content: vec![] };
    assert!(is_text_only_paragraph(&[gallery], &reg).is_err());
}

#[test]
fn extract_plain_text_concatenates_in_document_order() {
    let nodes = vec![
        text("a"),
        paragraph(vec![text("b"), formatted(MarkupType::Bold, vec![text("c")])]),
        Element::Comment { position: sp(), text: "ignored".to_string() },
        Element::TemplateArgument {
            position: sp(),
            name: "x".to_string(),
            value: vec![text("d")],
        },
    ];
    assert_eq!(extract_plain_text(&nodes), "abcd");
}

#[test]
fn find_arg_normalizes_both_sides() {
    let nodes = vec![
        text("noise"),
        Element::TemplateArgument {
            position: sp(),
            name: " Item1 ".to_string(),
            value: vec![text("v")],
        },
    ];
    let found = find_arg(&nodes, "ITEM1").unwrap();
    match found {
        Element::TemplateArgument { name, .. } => assert_eq!(name, " Item1 "),
        _ => panic!("expected a template argument"),
    }
    assert!(find_arg(&nodes, "item2").is_none());
}

#[test]
fn apply_predicate_dispatches_each_named_rule() {
    let reg = registry();
    assert!(apply_predicate(&[text("oben")], Predicate::NavigationSpec, &reg).is_ok());
    assert!(apply_predicate(&[text("nein")], Predicate::NegativeSwitch, &reg).is_ok());
    assert!(apply_predicate(&[text("x")], Predicate::PlainText, &reg).is_ok());
    assert!(apply_predicate(&[text("x")], Predicate::EverythingAllowed, &reg).is_ok());
    let block = [template("satz", vec![])];
    assert!(apply_predicate(&block, Predicate::TheoremParagraph, &reg).is_err());
    assert!(apply_predicate(&block, Predicate::TextOnlyParagraph, &reg).is_err());
    assert!(apply_predicate(&block, Predicate::MathTag, &reg).is_err());
}

#[test]
fn predicates_look_inside_reference_options() {
    let reg = registry();
    let table = Element::Table { position: sp(), caption: vec![], rows: vec![] };
    let reference = Element::InternalReference {
        position: sp(),
        target: vec![text("file")],
        options: vec![vec![text("thumb")], vec![table]],
        caption: vec![text("caption")],
    };
    let err = is_theorem_paragraph(&[reference], &reg).unwrap_err();
    assert_eq!(err.cause, "This markup is not allowed in proofs!");
}
