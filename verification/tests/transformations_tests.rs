use mwparser_utils::ast::{Element, ListItemKind, MarkupType, Position, Span};
use mwparser_utils::transformations::{
    convert_template_list, normalize_math_formulas, FormulaChecker, TexResult,
};

fn sp() -> Span {
    Span {
        start: Position { offset: 0, line: 0, col: 0 },
        end: Position { offset: 0, line: 0, col: 0 },
    }
}

fn text(s: &str) -> Element {
    Element::Text { position: sp(), text: s.to_string() }
}

fn arg(name: &str, value: Vec<Element>) -> Element {
    Element::TemplateArgument { position: sp(), name: name.to_string(), value }
}

fn template(name: &str, content: Vec<Element>) -> Element {
    Element::Template { position: sp(), name: vec![text(name)], content }
}

fn math(content: Vec<Element>) -> Element {
    Element::Formatted { position: sp(), markup: MarkupType::Math, content }
}

fn list_item(kind: ListItemKind, content: Vec<Element>) -> Element {
    Element::ListItem { position: sp(), depth: 1, kind, content }
}

struct PrefixChecker;

impl FormulaChecker for PrefixChecker {
    fn check(&self, formula: &str) -> TexResult {
        TexResult::Normalized(format!("norm:{}", formula))
    }
}

struct FailingChecker(TexResult);

impl FormulaChecker for FailingChecker {
    fn check(&self, _formula: &str) -> TexResult {
        match &self.0 {
            TexResult::Normalized(t) => TexResult::Normalized(t.clone()),
            TexResult::UnknownFunction(f) => TexResult::UnknownFunction(f.clone()),
            TexResult::SyntaxError => TexResult::SyntaxError,
            TexResult::LexingError => TexResult::LexingError,
            TexResult::UnknownError => TexResult::UnknownError,
        }
    }
}

#[test]
fn list_template_becomes_unordered_list() {
    let t = template("Liste", vec![arg("item1", vec![text("a")]), arg("item2", vec![text("b")])]);
    let converted = convert_template_list(&t);
    assert_eq!(
        converted,
        Element::List {
            position: sp(),
            content: vec![
                list_item(ListItemKind::Unordered, vec![text("a")]),
                list_item(ListItemKind::Unordered, vec![text("b")]),
            ],
        }
    );
}

#[test]
fn list_template_with_type_ol_becomes_ordered() {
    let t = template("Liste", vec![arg("type", vec![text("ol")]), arg("item1", vec![text("a")])]);
    let converted = convert_template_list(&t);
    assert_eq!(
        converted,
        Element::List {
            position: sp(),
            content: vec![list_item(ListItemKind::Ordered, vec![text("a")])],
        }
    );
}

#[test]
fn list_template_type_is_normalized() {
    let t = template("list", vec![arg("type", vec![text(" ORDERED ")]), arg("item1", vec![text("a")])]);
    let converted = convert_template_list(&t);
    match &converted {
        Element::List { content, .. } => match &content[0] {
            Element::ListItem { kind, .. } => assert_eq!(*kind, ListItemKind::Ordered),
            other => panic!("expected a list item, got {:?}", other),
        },
        other => panic!("expected a list, got {:?}", other),
    }
}

#[test]
fn list_template_without_items_becomes_empty_list() {
    let t = template("liste", vec![text("stray")]);
    assert_eq!(convert_template_list(&t), Element::List { position: sp(), content: vec![] });
}

fn inner_list() -> Element {
    Element::List {
        position: sp(),
        content: vec![list_item(ListItemKind::Unordered, vec![text("x")])],
    }
}

#[test]
fn wrapped_sublist_replaces_the_template() {
    let t = template("liste", vec![
        arg("item1", vec![text("ignored")]),
        arg("list1", vec![inner_list(), text("tail")]),
    ]);
    assert_eq!(convert_template_list(&t), inner_list());
}

#[test]
fn empty_list_argument_is_skipped() {
    let t = template("liste", vec![arg("list1", vec![]), arg("item1", vec![text("a")])]);
    assert_eq!(
        convert_template_list(&t),
        Element::List {
            position: sp(),
            content: vec![list_item(ListItemKind::Unordered, vec![text("a")])],
        }
    );
}

#[test]
fn other_templates_are_kept_but_children_are_rewritten() {
    let t = template("formel", vec![arg(
        "text",
        vec![template("liste", vec![arg("item1", vec![text("a")])])],
    )]);
    let converted = convert_template_list(&t);
    assert_eq!(
        converted,
        template("formel", vec![arg(
            "text",
            vec![Element::List {
                position: sp(),
                content: vec![list_item(ListItemKind::Unordered, vec![text("a")])],
            }],
        )])
    );
}

#[test]
fn normalized_formula_replaces_the_content_text() {
    let node = math(vec![text("x^2")]);
    let normalized = normalize_math_formulas(&node, &PrefixChecker);
    assert_eq!(normalized, math(vec![text("norm:x^2")]));
}

#[test]
fn formula_with_two_content_elements_becomes_an_error() {
    let node = math(vec![text("a"), text("b")]);
    let normalized = normalize_math_formulas(&node, &PrefixChecker);
    assert_eq!(
        normalized,
        Element::Error {
            position: sp(),
            message: "A formula must have exactly one content element!".to_string(),
        }
    );
}

#[test]
fn formula_with_non_text_content_becomes_an_error() {
    let node = math(vec![template("x", vec![])]);
    let normalized = normalize_math_formulas(&node, &PrefixChecker);
    assert_eq!(
        normalized,
        Element::Error {
            position: sp(),
            message: "A formula must only have text as content!".to_string(),
        }
    );
}

#[test]
fn checker_failures_replace_the_whole_node() {
    let node = math(vec![text("x")]);
    assert_eq!(
        normalize_math_formulas(&node, &FailingChecker(TexResult::UnknownFunction("foo".into()))),
        Element::Error { position: sp(), message: "unknown latex function `foo`!".to_string() }
    );
    assert_eq!(
        normalize_math_formulas(&node, &FailingChecker(TexResult::SyntaxError)),
        Element::Error { position: sp(), message: "latex syntax error!".to_string() }
    );
    assert_eq!(
        normalize_math_formulas(&node, &FailingChecker(TexResult::LexingError)),
        Element::Error { position: sp(), message: "latex lexer error!".to_string() }
    );
    assert_eq!(
        normalize_math_formulas(&node, &FailingChecker(TexResult::UnknownError)),
        Element::Error { position: sp(), message: "unknown latex error!".to_string() }
    );
}

#[test]
fn formulas_are_normalized_at_depth() {
    let doc = Element::Paragraph { position: sp(), content: vec![math(vec![text("y")])] };
    let normalized = normalize_math_formulas(&doc, &PrefixChecker);
    assert_eq!(
        normalized,
        Element::Paragraph { position: sp(), content: vec![math(vec![text("norm:y")])] }
    );
}

#[test]
fn non_math_nodes_are_left_intact() {
    let node = Element::Formatted {
        position: sp(),
        markup: MarkupType::Bold,
        content: vec![text("x")],
    };
    assert_eq!(normalize_math_formulas(&node, &PrefixChecker), node);
}

#[test]
fn rewrites_reach_reference_options() {
    let reference = Element::InternalReference {
        position: sp(),
        target: vec![text("file")],
        options: vec![
            vec![math(vec![text("x")])],
            vec![template("liste", vec![arg("item1", vec![text("a")])])],
        ],
        caption: vec![],
    };
    let normalized = normalize_math_formulas(&reference, &PrefixChecker);
    assert_eq!(
        normalized,
        Element::InternalReference {
            position: sp(),
            target: vec![text("file")],
            options: vec![
                vec![math(vec![text("norm:x")])],
                vec![template("liste", vec![arg("item1", vec![text("a")])])],
            ],
            caption: vec![],
        }
    );
    let converted = convert_template_list(&reference);
    assert_eq!(
        converted,
        Element::InternalReference {
            position: sp(),
            target: vec![text("file")],
            options: vec![
                vec![math(vec![text("x")])],
                vec![Element::List {
                    position: sp(),
                    content: vec![list_item(ListItemKind::Unordered, vec![text("a")])],
                }],
            ],
            caption: vec![],
        }
    );
}
