//! Tree rewrites: list-template canonicalization and math-formula
//! normalization. Both walk the tree bottom-up — children are rewritten
//! before a node's own rule is applied — and a node may replace itself.

use vstd::prelude::*;
use crate::ast::{
    Element, ElementModel, MarkupType, ListItemKind, Span, elems_model, options_model,
    lemma_elems_model, lemma_options_model, copy_element, copy_elements,
};
use crate::strutil::{
    normal_of, lower_of, trim_of, has_prefix, normalize_name, str_lower, str_trim, str_eq,
    str_starts_with,
};
use crate::util::{extract_plain_text, plain_text_of, find_arg, find_arg_model};
use vstd::string::StringExecFns;

verus! {

broadcast use vstd::std_specs::vec::group_vec_axioms;

/// What the external formula checker can answer.
#[derive(Debug, PartialEq)]
pub enum TexResult {
    Normalized(String),
    UnknownFunction(String),
    SyntaxError,
    LexingError,
    UnknownError,
}

/// The model of a `TexResult`.
#[verifier::ext_equal]
pub enum TexResultModel {
    Normalized(Seq<char>),
    UnknownFunction(Seq<char>),
    SyntaxError,
    LexingError,
    UnknownError,
}

impl View for TexResult {
    type V = TexResultModel;

    open spec fn view(&self) -> TexResultModel {
        match self {
            TexResult::Normalized(t) => TexResultModel::Normalized(t@),
            TexResult::UnknownFunction(f) => TexResultModel::UnknownFunction(f@),
            TexResult::SyntaxError => TexResultModel::SyntaxError,
            TexResult::LexingError => TexResultModel::LexingError,
            TexResult::UnknownError => TexResultModel::UnknownError,
        }
    }
}

/// The external formula checker: hands back a normalized formula text or a
/// classified failure. Implementations live outside this library; nothing is
/// assumed of what they answer.
pub trait FormulaChecker {
    fn check(&self, formula: &str) -> TexResult;
}

/// The element a checker's answer turns into: the normalized text, or an
/// error node describing the failure.
pub open spec fn formula_outcome_model(outcome: TexResultModel, position: Span) -> ElementModel {
    match outcome {
        TexResultModel::Normalized(text) => ElementModel::Text { position, text },
        TexResultModel::UnknownFunction(f) => ElementModel::Error {
            position,
            message: "unknown latex function `"@ + f + "`!"@,
        },
        TexResultModel::SyntaxError => ElementModel::Error {
            position,
            message: "latex syntax error!"@,
        },
        TexResultModel::LexingError => ElementModel::Error {
            position,
            message: "latex lexer error!"@,
        },
        TexResultModel::UnknownError => ElementModel::Error {
            position,
            message: "unknown latex error!"@,
        },
    }
}

/// What checking a formula's content yields: a fixed error unless the content
/// is exactly one Text node, else whatever the checker's outcome turns into.
pub open spec fn check_formula_model(
    content: Seq<ElementModel>,
    position: Span,
    outcome: TexResultModel,
) -> ElementModel {
    if content.len() != 1 {
        ElementModel::Error {
            position,
            message: "A formula must have exactly one content element!"@,
        }
    } else if !(content[0] is Text) {
        ElementModel::Error { position, message: "A formula must only have text as content!"@ }
    } else {
        formula_outcome_model(outcome, position)
    }
}

/// Build the element a checker's answer turns into.
pub fn formula_result_element(outcome: TexResult, position: Span) -> (r: Element)
    ensures
        r@ == formula_outcome_model(outcome@, position),
{
    match outcome {
        TexResult::Normalized(text) => Element::Text { position, text },
        TexResult::UnknownFunction(f) => {
            let mut message = String::from_str("unknown latex function `");
            message.append(f.as_str());
            message.append("`!");
            Element::Error { position, message }
        },
        TexResult::SyntaxError => Element::Error {
            position,
            message: String::from_str("latex syntax error!"),
        },
        TexResult::LexingError => Element::Error {
            position,
            message: String::from_str("latex lexer error!"),
        },
        TexResult::UnknownError => Element::Error {
            position,
            message: String::from_str("unknown latex error!"),
        },
    }
}

/// Check a formula's content: a fixed error node unless it is exactly one
/// Text node; otherwise the checker decides, and its answer is turned into
/// the replacement element.
pub fn check_formula<C: FormulaChecker>(content: &[Element], position: Span, checker: &C) -> (r:
    Element)
    ensures
        exists|o: TexResultModel| r@ == check_formula_model(elems_model(content@), position, o),
{
    proof {
        lemma_elems_model(content@);
    }
    if content.len() != 1 {
        let r = Element::Error {
            position,
            message: String::from_str("A formula must have exactly one content element!"),
        };
        proof {
            assert(r@ == check_formula_model(
                elems_model(content@),
                position,
                TexResultModel::SyntaxError,
            ));
        }
        return r;
    }
    match &content[0] {
        Element::Text { text, .. } => {
            let outcome = checker.check(text.as_str());
            let ghost o = outcome@;
            let r = formula_result_element(outcome, position);
            proof {
                assert(elems_model(content@)[0] == content@[0]@);
                assert(r@ == check_formula_model(elems_model(content@), position, o));
            }
            r
        },
        _ => {
            let r = Element::Error {
                position,
                message: String::from_str("A formula must only have text as content!"),
            };
            proof {
                assert(elems_model(content@)[0] == content@[0]@);
                assert(r@ == check_formula_model(
                    elems_model(content@),
                    position,
                    TexResultModel::SyntaxError,
                ));
            }
            r
        },
    }
}

/// The rule applied at a Math node whose content (already rewritten) is
/// `content2` and for which the checker answered `o`: a normalized formula
/// keeps the node with the new text as content; any error replaces the node.
pub open spec fn math_rule(position: Span, content2: Seq<ElementModel>, o: TexResultModel)
    -> ElementModel {
    let checked = check_formula_model(content2, position, o);
    if checked is Text {
        ElementModel::Formatted { position, markup: MarkupType::Math, content: seq![checked] }
    } else {
        checked
    }
}

/// How the normalization relates an output node to an input node: children
/// first, then a Math node is replaced by the math rule under some checker
/// outcome; every other node keeps its kind and scalar fields.
pub open spec fn math_normalized_elem(old: ElementModel, new: ElementModel) -> bool
    decreases old,
{
    match old {
        ElementModel::Document { position, content } => new matches ElementModel::Document {
            position: p2,
            content: c2,
        } && p2 == position && math_normalized_seq(content, c2),
        ElementModel::Heading { position, depth, caption, content } => new matches ElementModel::Heading {
            position: p2,
            depth: d2,
            caption: cap2,
            content: c2,
        } && p2 == position && d2 == depth && math_normalized_seq(caption, cap2)
            && math_normalized_seq(content, c2),
        ElementModel::Text { .. } => new == old,
        ElementModel::Formatted { position, markup, content } => {
            if markup is Math {
                exists|content2: Seq<ElementModel>, o: TexResultModel|
                    math_normalized_seq(content, content2) && new == #[trigger] math_rule(
                        position,
                        content2,
                        o,
                    )
            } else {
                new matches ElementModel::Formatted { position: p2, markup: m2, content: c2 }
                    && p2 == position && m2 == markup && math_normalized_seq(content, c2)
            }
        },
        ElementModel::Paragraph { position, content } => new matches ElementModel::Paragraph {
            position: p2,
            content: c2,
        } && p2 == position && math_normalized_seq(content, c2),
        ElementModel::Template { position, name, content } => new matches ElementModel::Template {
            position: p2,
            name: n2,
            content: c2,
        } && p2 == position && math_normalized_seq(name, n2) && math_normalized_seq(content, c2),
        ElementModel::TemplateArgument { position, name, value } => new matches ElementModel::TemplateArgument {
            position: p2,
            name: n2,
            value: v2,
        } && p2 == position && n2 == name && math_normalized_seq(value, v2),
        ElementModel::InternalReference { position, target, options, caption } => new matches ElementModel::InternalReference {
            position: p2,
            target: t2,
            options: o2,
            caption: c2,
        } && p2 == position && math_normalized_seq(target, t2) && math_normalized_opts(options, o2)
            && math_normalized_seq(caption, c2),
        ElementModel::ExternalReference { position, target, caption } => new matches ElementModel::ExternalReference {
            position: p2,
            target: t2,
            caption: c2,
        } && p2 == position && t2 == target && math_normalized_seq(caption, c2),
        ElementModel::ListItem { position, depth, kind, content } => new matches ElementModel::ListItem {
            position: p2,
            depth: d2,
            kind: k2,
            content: c2,
        } && p2 == position && d2 == depth && k2 == kind && math_normalized_seq(content, c2),
        ElementModel::List { position, content } => new matches ElementModel::List {
            position: p2,
            content: c2,
        } && p2 == position && math_normalized_seq(content, c2),
        ElementModel::Table { position, caption, rows } => new matches ElementModel::Table {
            position: p2,
            caption: cap2,
            rows: r2,
        } && p2 == position && math_normalized_seq(caption, cap2) && math_normalized_seq(rows, r2),
        ElementModel::TableRow { position, cells } => new matches ElementModel::TableRow {
            position: p2,
            cells: c2,
        } && p2 == position && math_normalized_seq(cells, c2),
        ElementModel::TableCell { position, header, content } => new matches ElementModel::TableCell {
            position: p2,
            header: h2,
            content: c2,
        } && p2 == position && h2 == header && math_normalized_seq(content, c2),
        ElementModel::Comment { .. } => new == old,
        ElementModel::HtmlTag { position, name, content } => new matches ElementModel::HtmlTag {
            position: p2,
            name: n2,
            content: c2,
        } && p2 == position && n2 == name && math_normalized_seq(content, c2),
        ElementModel::Gallery { position, content } => new matches ElementModel::Gallery {
            position: p2,
            content: c2,
        } && p2 == position && math_normalized_seq(content, c2),
        ElementModel::Error { .. } => new == old,
    }
}

/// The normalization relation on lists: pointwise, keeping the length.
pub open spec fn math_normalized_seq(old: Seq<ElementModel>, new: Seq<ElementModel>) -> bool
    decreases old,
{
    new.len() == old.len() && forall|i: int|
        0 <= i < old.len() ==> math_normalized_elem(#[trigger] old[i], new[i])
}

/// The normalization relation on the option lists of an internal reference:
/// pointwise, keeping the count of lists.
pub open spec fn math_normalized_opts(old: Seq<Seq<ElementModel>>, new: Seq<Seq<ElementModel>>)
    -> bool
    decreases old,
{
    new.len() == old.len() && forall|i: int|
        0 <= i < old.len() ==> math_normalized_seq(#[trigger] old[i], new[i])
}

/// Normalize math formulas: every Math node's content must be exactly one
/// Text node, whose text the external checker normalizes; the node is then
/// kept with the normalized text, or replaced by an error node. Children are
/// rewritten before their parent's rule applies.
pub fn normalize_math_formulas<C: FormulaChecker>(root: &Element, checker: &C) -> (r: Element)
    ensures
        math_normalized_elem(root@, r@),
    decreases root,
{
    match root {
        Element::Document { position, content } => Element::Document {
            position: *position,
            content: normalize_vec(content, checker),
        },
        Element::Heading { position, depth, caption, content } => Element::Heading {
            position: *position,
            depth: *depth,
            caption: normalize_vec(caption, checker),
            content: normalize_vec(content, checker),
        },
        Element::Text { .. } => copy_element(root),
        Element::Formatted { position, markup, content } => {
            let new_content = normalize_vec(content, checker);
            if *markup == MarkupType::Math {
                let ghost cm2 = elems_model(new_content@);
                let checked = check_formula(new_content.as_slice(), *position, checker);
                let ghost o = choose|o: TexResultModel|
                    checked@ == check_formula_model(cm2, *position, o);
                let is_text = match &checked {
                    Element::Text { .. } => true,
                    _ => false,
                };
                if is_text {
                    let mut c: Vec<Element> = Vec::new();
                    c.push(checked);
                    let r = Element::Formatted {
                        position: *position,
                        markup: MarkupType::Math,
                        content: c,
                    };
                    proof {
                        lemma_elems_model(c@);
                        assert(elems_model(c@) =~= seq![check_formula_model(cm2, *position, o)]);
                        assert(r@ == math_rule(*position, cm2, o));
                    }
                    r
                } else {
                    proof {
                        assert(checked@ == math_rule(*position, cm2, o));
                    }
                    checked
                }
            } else {
                Element::Formatted {
                    position: *position,
                    markup: *markup,
                    content: new_content,
                }
            }
        },
        Element::Paragraph { position, content } => Element::Paragraph {
            position: *position,
            content: normalize_vec(content, checker),
        },
        Element::Template { position, name, content } => Element::Template {
            position: *position,
            name: normalize_vec(name, checker),
            content: normalize_vec(content, checker),
        },
        Element::TemplateArgument { position, name, value } => Element::TemplateArgument {
            position: *position,
            name: name.clone(),
            value: normalize_vec(value, checker),
        },
        Element::InternalReference { position, target, options, caption } => Element::InternalReference {
            position: *position,
            target: normalize_vec(target, checker),
            options: normalize_opts(options, checker),
            caption: normalize_vec(caption, checker),
        },
        Element::ExternalReference { position, target, caption } => Element::ExternalReference {
            position: *position,
            target: target.clone(),
            caption: normalize_vec(caption, checker),
        },
        Element::ListItem { position, depth, kind, content } => Element::ListItem {
            position: *position,
            depth: *depth,
            kind: *kind,
            content: normalize_vec(content, checker),
        },
        Element::List { position, content } => Element::List {
            position: *position,
            content: normalize_vec(content, checker),
        },
        Element::Table { position, caption, rows } => Element::Table {
            position: *position,
            caption: normalize_vec(caption, checker),
            rows: normalize_vec(rows, checker),
        },
        Element::TableRow { position, cells } => Element::TableRow {
            position: *position,
            cells: normalize_vec(cells, checker),
        },
        Element::TableCell { position, header, content } => Element::TableCell {
            position: *position,
            header: *header,
            content: normalize_vec(content, checker),
        },
        Element::Comment { .. } => copy_element(root),
        Element::HtmlTag { position, name, content } => Element::HtmlTag {
            position: *position,
            name: name.clone(),
            content: normalize_vec(content, checker),
        },
        Element::Gallery { position, content } => Element::Gallery {
            position: *position,
            content: normalize_vec(content, checker),
        },
        Element::Error { .. } => copy_element(root),
    }
}

/// Normalize math formulas in every node of a list.
fn normalize_vec<C: FormulaChecker>(v: &Vec<Element>, checker: &C) -> (r: Vec<Element>)
    ensures
        math_normalized_seq(elems_model(v@), elems_model(r@)),
    decreases v,
{
    let mut out: Vec<Element> = Vec::new();
    let mut i: usize = 0;
    proof {
        lemma_elems_model(v@);
    }
    while i < v.len()
        invariant
            i <= v@.len(),
            elems_model(v@).len() == v@.len(),
            forall|j: int| 0 <= j < v@.len() ==> elems_model(v@)[j] == #[trigger] v@[j]@,
            out@.len() == i,
            forall|j: int|
                0 <= j < i ==> math_normalized_elem(elems_model(v@)[j], #[trigger] out@[j]@),
        decreases v@.len() - i,
    {
        out.push(normalize_math_formulas(&v[i], checker));
        i = i + 1;
    }
    proof {
        lemma_elems_model(out@);
        assert forall|j: int| 0 <= j < elems_model(v@).len() implies math_normalized_elem(
            #[trigger] elems_model(v@)[j],
            elems_model(out@)[j],
        ) by {
            assert(math_normalized_elem(elems_model(v@)[j], out@[j]@));
        }
    }
    out
}

/// Normalize math formulas in each option list of an internal reference.
fn normalize_opts<C: FormulaChecker>(v: &Vec<Vec<Element>>, checker: &C) -> (r: Vec<Vec<Element>>)
    ensures
        math_normalized_opts(options_model(v@), options_model(r@)),
    decreases v,
{
    let mut out: Vec<Vec<Element>> = Vec::new();
    let mut i: usize = 0;
    proof {
        lemma_options_model(v@);
    }
    while i < v.len()
        invariant
            i <= v@.len(),
            options_model(v@).len() == v@.len(),
            forall|j: int| 0 <= j < v@.len() ==> options_model(v@)[j] == elems_model(
                #[trigger] v@[j]@,
            ),
            out@.len() == i,
            forall|j: int|
                0 <= j < i ==> math_normalized_seq(
                    options_model(v@)[j],
                    elems_model(#[trigger] out@[j]@),
                ),
        decreases v@.len() - i,
    {
        proof {
            assert(decreases_to!(v => v@[i as int]));
        }
        out.push(normalize_vec(&v[i], checker));
        i = i + 1;
    }
    proof {
        lemma_options_model(out@);
        assert forall|j: int| 0 <= j < options_model(v@).len() implies math_normalized_seq(
            #[trigger] options_model(v@)[j],
            options_model(out@)[j],
        ) by {
            assert(math_normalized_seq(options_model(v@)[j], elems_model(out@[j]@)));
        }
    }
    out
}

/// Whether the (already rewritten) name of a template reads, normalized,
/// "list" or "liste".
pub open spec fn is_list_template_name(name: Seq<ElementModel>) -> bool {
    normal_of(plain_text_of(name)) == "list"@ || normal_of(plain_text_of(name)) == "liste"@
}

/// The item kind a list template asks for: a "type" argument reading,
/// lowercased and trimmed, "ol" or "ordered" makes the items ordered;
/// anything else, or no such argument, makes them unordered.
pub open spec fn list_kind_of(content: Seq<ElementModel>) -> ListItemKind {
    match find_arg_model(content, normal_of("type"@)) {
        Some(arg) => {
            let t = trim_of(lower_of(plain_text_of(arg->value)));
            if t == "ol"@ || t == "ordered"@ {
                ListItemKind::Ordered
            } else {
                ListItemKind::Unordered
            }
        },
        None => ListItemKind::Unordered,
    }
}

/// The first element of the value of the first "list"-named argument with a
/// non-empty value: a whole sublist only wrapped by the template.
pub open spec fn first_sublist(content: Seq<ElementModel>) -> Option<ElementModel>
    decreases content,
{
    if content.len() == 0 {
        None
    } else if (content[0] matches ElementModel::TemplateArgument { name, value, .. } && has_prefix(
        name,
        "list"@,
    ) && value.len() > 0) {
        Some(content[0]->value[0])
    } else {
        first_sublist(content.subrange(1, content.len() as int))
    }
}

/// One list item per "item"-named argument, in order, each of depth one and
/// of the given kind, holding the argument's value.
pub open spec fn list_items(content: Seq<ElementModel>, kind: ListItemKind) -> Seq<ElementModel>
    decreases content,
{
    if content.len() == 0 {
        Seq::empty()
    } else {
        let rest = list_items(content.subrange(1, content.len() as int), kind);
        if (content[0] matches ElementModel::TemplateArgument { name, .. } && has_prefix(
            name,
            "item"@,
        )) {
            seq![
                ElementModel::ListItem {
                    position: content[0]->TemplateArgument_position,
                    depth: 1,
                    kind,
                    content: content[0]->value,
                },
            ] + rest
        } else {
            rest
        }
    }
}

/// The rule applied at a list template whose (already rewritten) arguments
/// are `content2`: a wrapped sublist replaces the whole template; otherwise
/// the template becomes a List of its item arguments.
pub open spec fn list_rule(position: Span, content2: Seq<ElementModel>) -> ElementModel {
    match first_sublist(content2) {
        Some(sub) => sub,
        None => ElementModel::List {
            position,
            content: list_items(content2, list_kind_of(content2)),
        },
    }
}

/// What `convert_template_list` returns for one node: children first, then a
/// template named "list" or "liste" is replaced by the list rule; every other
/// node keeps its kind and scalar fields.
pub open spec fn convert_elem(e: ElementModel) -> ElementModel
    decreases e,
{
    match e {
        ElementModel::Document { position, content } => ElementModel::Document {
            position,
            content: convert_seq(content),
        },
        ElementModel::Heading { position, depth, caption, content } => ElementModel::Heading {
            position,
            depth,
            caption: convert_seq(caption),
            content: convert_seq(content),
        },
        ElementModel::Text { .. } => e,
        ElementModel::Formatted { position, markup, content } => ElementModel::Formatted {
            position,
            markup,
            content: convert_seq(content),
        },
        ElementModel::Paragraph { position, content } => ElementModel::Paragraph {
            position,
            content: convert_seq(content),
        },
        ElementModel::Template { position, name, content } => {
            let name2 = convert_seq(name);
            let content2 = convert_seq(content);
            if is_list_template_name(name2) {
                list_rule(position, content2)
            } else {
                ElementModel::Template { position, name: name2, content: content2 }
            }
        },
        ElementModel::TemplateArgument { position, name, value } => ElementModel::TemplateArgument {
            position,
            name,
            value: convert_seq(value),
        },
        ElementModel::InternalReference { position, target, options, caption } => ElementModel::InternalReference {
            position,
            target: convert_seq(target),
            options: convert_opts(options),
            caption: convert_seq(caption),
        },
        ElementModel::ExternalReference { position, target, caption } => ElementModel::ExternalReference {
            position,
            target,
            caption: convert_seq(caption),
        },
        ElementModel::ListItem { position, depth, kind, content } => ElementModel::ListItem {
            position,
            depth,
            kind,
            content: convert_seq(content),
        },
        ElementModel::List { position, content } => ElementModel::List {
            position,
            content: convert_seq(content),
        },
        ElementModel::Table { position, caption, rows } => ElementModel::Table {
            position,
            caption: convert_seq(caption),
            rows: convert_seq(rows),
        },
        ElementModel::TableRow { position, cells } => ElementModel::TableRow {
            position,
            cells: convert_seq(cells),
        },
        ElementModel::TableCell { position, header, content } => ElementModel::TableCell {
            position,
            header,
            content: convert_seq(content),
        },
        ElementModel::Comment { .. } => e,
        ElementModel::HtmlTag { position, name, content } => ElementModel::HtmlTag {
            position,
            name,
            content: convert_seq(content),
        },
        ElementModel::Gallery { position, content } => ElementModel::Gallery {
            position,
            content: convert_seq(content),
        },
        ElementModel::Error { .. } => e,
    }
}

/// The conversion applied to each node of a list, in order.
pub open spec fn convert_seq(s: Seq<ElementModel>) -> Seq<ElementModel>
    decreases s,
{
    if s.len() == 0 {
        Seq::empty()
    } else {
        seq![convert_elem(s[0])] + convert_seq(s.subrange(1, s.len() as int))
    }
}

/// The converted list is the pointwise conversion of its members.
pub proof fn lemma_convert_seq(s: Seq<ElementModel>)
    ensures
        convert_seq(s).len() == s.len(),
        forall|i: int| 0 <= i < s.len() ==> convert_seq(s)[i] == convert_elem(#[trigger] s[i]),
    decreases s,
{
    if s.len() > 0 {
        let rest = s.subrange(1, s.len() as int);
        lemma_convert_seq(rest);
        assert(convert_seq(s) == seq![convert_elem(s[0])] + convert_seq(rest));
        assert forall|i: int| 0 <= i < s.len() implies convert_seq(s)[i] == convert_elem(
            #[trigger] s[i],
        ) by {
            if i > 0 {
                assert(rest[i - 1] == s[i]);
                assert((seq![convert_elem(s[0])] + convert_seq(rest))[i] == convert_seq(rest)[i
                    - 1]);
            }
        }
    }
}

/// The conversion applied to each option list of an internal reference.
pub open spec fn convert_opts(s: Seq<Seq<ElementModel>>) -> Seq<Seq<ElementModel>>
    decreases s,
{
    if s.len() == 0 {
        Seq::empty()
    } else {
        seq![convert_seq(s[0])] + convert_opts(s.subrange(1, s.len() as int))
    }
}

/// The converted option lists are the pointwise conversion of the given ones.
pub proof fn lemma_convert_opts(s: Seq<Seq<ElementModel>>)
    ensures
        convert_opts(s).len() == s.len(),
        forall|i: int| 0 <= i < s.len() ==> convert_opts(s)[i] == convert_seq(#[trigger] s[i]),
    decreases s,
{
    if s.len() > 0 {
        let rest = s.subrange(1, s.len() as int);
        lemma_convert_opts(rest);
        assert(convert_opts(s) == seq![convert_seq(s[0])] + convert_opts(rest));
        assert forall|i: int| 0 <= i < s.len() implies convert_opts(s)[i] == convert_seq(
            #[trigger] s[i],
        ) by {
            if i > 0 {
                assert(rest[i - 1] == s[i]);
                assert((seq![convert_seq(s[0])] + convert_opts(rest))[i] == convert_opts(rest)[i
                    - 1]);
            }
        }
    }
}

/// Convert list templates to lists: a template named "list" or "liste"
/// becomes a List of its "item" arguments — ordered if a "type" argument asks
/// for it — or is replaced outright by the sublist wrapped in its first
/// "list" argument. Children are rewritten before their parent's rule.
pub fn convert_template_list(root: &Element) -> (r: Element)
    ensures
        r@ == convert_elem(root@),
    decreases root,
{
    match root {
        Element::Document { position, content } => Element::Document {
            position: *position,
            content: convert_vec(content),
        },
        Element::Heading { position, depth, caption, content } => Element::Heading {
            position: *position,
            depth: *depth,
            caption: convert_vec(caption),
            content: convert_vec(content),
        },
        Element::Text { .. } => copy_element(root),
        Element::Formatted { position, markup, content } => Element::Formatted {
            position: *position,
            markup: *markup,
            content: convert_vec(content),
        },
        Element::Paragraph { position, content } => Element::Paragraph {
            position: *position,
            content: convert_vec(content),
        },
        Element::Template { position, name, content } => {
            let name2 = convert_vec(name);
            let content2 = convert_vec(content);
            let name_text = extract_plain_text(name2.as_slice());
            let norm = normalize_name(name_text.as_str());
            if str_eq(norm.as_str(), "list") || str_eq(norm.as_str(), "liste") {
                convert_list_template(*position, &content2)
            } else {
                Element::Template { position: *position, name: name2, content: content2 }
            }
        },
        Element::TemplateArgument { position, name, value } => Element::TemplateArgument {
            position: *position,
            name: name.clone(),
            value: convert_vec(value),
        },
        Element::InternalReference { position, target, options, caption } => Element::InternalReference {
            position: *position,
            target: convert_vec(target),
            options: convert_opts_vec(options),
            caption: convert_vec(caption),
        },
        Element::ExternalReference { position, target, caption } => Element::ExternalReference {
            position: *position,
            target: target.clone(),
            caption: convert_vec(caption),
        },
        Element::ListItem { position, depth, kind, content } => Element::ListItem {
            position: *position,
            depth: *depth,
            kind: *kind,
            content: convert_vec(content),
        },
        Element::List { position, content } => Element::List {
            position: *position,
            content: convert_vec(content),
        },
        Element::Table { position, caption, rows } => Element::Table {
            position: *position,
            caption: convert_vec(caption),
            rows: convert_vec(rows),
        },
        Element::TableRow { position, cells } => Element::TableRow {
            position: *position,
            cells: convert_vec(cells),
        },
        Element::TableCell { position, header, content } => Element::TableCell {
            position: *position,
            header: *header,
            content: convert_vec(content),
        },
        Element::Comment { .. } => copy_element(root),
        Element::HtmlTag { position, name, content } => Element::HtmlTag {
            position: *position,
            name: name.clone(),
            content: convert_vec(content),
        },
        Element::Gallery { position, content } => Element::Gallery {
            position: *position,
            content: convert_vec(content),
        },
        Element::Error { .. } => copy_element(root),
    }
}

/// Convert list templates in every node of a list.
fn convert_vec(v: &Vec<Element>) -> (r: Vec<Element>)
    ensures
        elems_model(r@) == convert_seq(elems_model(v@)),
    decreases v,
{
    let mut out: Vec<Element> = Vec::new();
    let mut i: usize = 0;
    proof {
        lemma_elems_model(v@);
    }
    while i < v.len()
        invariant
            i <= v@.len(),
            elems_model(v@).len() == v@.len(),
            forall|j: int| 0 <= j < v@.len() ==> elems_model(v@)[j] == #[trigger] v@[j]@,
            out@.len() == i,
            forall|j: int| 0 <= j < i ==> #[trigger] out@[j]@ == convert_elem(elems_model(v@)[j]),
        decreases v@.len() - i,
    {
        out.push(convert_template_list(&v[i]));
        i = i + 1;
    }
    proof {
        lemma_elems_model(out@);
        lemma_convert_seq(elems_model(v@));
        assert forall|j: int| 0 <= j < v@.len() implies elems_model(out@)[j] == convert_seq(
            elems_model(v@),
        )[j] by {
            assert(out@[j]@ == convert_elem(elems_model(v@)[j]));
        }
        assert(elems_model(out@) =~= convert_seq(elems_model(v@)));
    }
    out
}

/// Convert list templates in each option list of an internal reference.
fn convert_opts_vec(v: &Vec<Vec<Element>>) -> (r: Vec<Vec<Element>>)
    ensures
        options_model(r@) == convert_opts(options_model(v@)),
    decreases v,
{
    let mut out: Vec<Vec<Element>> = Vec::new();
    let mut i: usize = 0;
    proof {
        lemma_options_model(v@);
    }
    while i < v.len()
        invariant
            i <= v@.len(),
            options_model(v@).len() == v@.len(),
            forall|j: int| 0 <= j < v@.len() ==> options_model(v@)[j] == elems_model(
                #[trigger] v@[j]@,
            ),
            out@.len() == i,
            forall|j: int| 0 <= j < i ==> elems_model(#[trigger] out@[j]@) == convert_seq(
                options_model(v@)[j],
            ),
        decreases v@.len() - i,
    {
        proof {
            assert(decreases_to!(v => v@[i as int]));
        }
        out.push(convert_vec(&v[i]));
        i = i + 1;
    }
    proof {
        lemma_options_model(out@);
        lemma_convert_opts(options_model(v@));
        assert forall|j: int| 0 <= j < v@.len() implies options_model(out@)[j] == convert_opts(
            options_model(v@),
        )[j] by {
            assert(elems_model(out@[j]@) == convert_seq(options_model(v@)[j]));
        }
        assert(options_model(out@) =~= convert_opts(options_model(v@)));
    }
    out
}

/// Apply the list rule to a list template's (already converted) arguments.
fn convert_list_template(position: Span, content2: &Vec<Element>) -> (r: Element)
    ensures
        r@ == list_rule(position, elems_model(content2@)),
{
    let ghost cm = elems_model(content2@);
    proof {
        lemma_elems_model(content2@);
    }
    let kind = match find_arg(content2.as_slice(), "type") {
        Some(arg) => {
            match arg {
                Element::TemplateArgument { value, .. } => {
                    let text = extract_plain_text(value.as_slice());
                    let lowered = str_lower(text.as_str());
                    let t = str_trim(lowered.as_str());
                    if str_eq(t, "ol") || str_eq(t, "ordered") {
                        ListItemKind::Ordered
                    } else {
                        ListItemKind::Unordered
                    }
                },
                _ => {
                    proof {
                        assert(false);
                    }
                    ListItemKind::Unordered
                },
            }
        },
        None => ListItemKind::Unordered,
    };
    proof {
        assert(kind == list_kind_of(cm));
        assert(cm.subrange(0, cm.len() as int) =~= cm);
    }
    // A non-empty "list" argument wraps a whole sublist: the first one found
    // replaces the template.
    let mut i: usize = 0;
    while i < content2.len()
        invariant
            i <= content2@.len(),
            cm == elems_model(content2@),
            cm.len() == content2@.len(),
            forall|j: int| 0 <= j < cm.len() ==> #[trigger] cm[j] == content2@[j]@,
            first_sublist(cm) == first_sublist(cm.subrange(i as int, cm.len() as int)),
        decreases content2@.len() - i,
    {
        let ghost suffix = cm.subrange(i as int, cm.len() as int);
        proof {
            assert(suffix[0] == cm[i as int]);
        }
        if let Element::TemplateArgument { name, value, .. } = &content2[i] {
            if str_starts_with(name.as_str(), "list") && value.len() > 0 {
                let sub = copy_element(&value[0]);
                proof {
                    lemma_elems_model(value@);
                    assert(elems_model(value@)[0] == value@[0]@);
                }
                return sub;
            }
        }
        proof {
            assert(suffix.subrange(1, suffix.len() as int) =~= cm.subrange(
                i + 1 as int,
                cm.len() as int,
            ));
        }
        i = i + 1;
    }
    proof {
        assert(cm.subrange(cm.len() as int, cm.len() as int) =~= Seq::<ElementModel>::empty());
        assert(first_sublist(cm) is None);
    }
    // No sublist: the "item" arguments become the items of a new list.
    let mut items: Vec<Element> = Vec::new();
    let mut k: usize = 0;
    proof {
        assert(Seq::<ElementModel>::empty() + list_items(cm, kind) =~= list_items(cm, kind));
    }
    while k < content2.len()
        invariant
            k <= content2@.len(),
            cm == elems_model(content2@),
            cm.len() == content2@.len(),
            kind == list_kind_of(cm),
            forall|j: int| 0 <= j < cm.len() ==> #[trigger] cm[j] == content2@[j]@,
            elems_model(items@) + list_items(cm.subrange(k as int, cm.len() as int), kind)
                == list_items(cm, kind),
        decreases content2@.len() - k,
    {
        let ghost suffix = cm.subrange(k as int, cm.len() as int);
        proof {
            assert(suffix[0] == cm[k as int]);
            assert(suffix.subrange(1, suffix.len() as int) =~= cm.subrange(
                k + 1 as int,
                cm.len() as int,
            ));
        }
        let ghost old_vec = items@;
        let ghost old_items = elems_model(items@);
        proof {
            lemma_elems_model(items@);
        }
        if let Element::TemplateArgument { position: apos, name, value } = &content2[k] {
            if str_starts_with(name.as_str(), "item") {
                let item = Element::ListItem {
                    position: *apos,
                    depth: 1,
                    kind,
                    content: copy_elements(value),
                };
                let ghost im = item@;
                items.push(item);
                proof {
                    lemma_elems_model(items@);
                    assert(im == (ElementModel::ListItem {
                        position: cm[k as int]->TemplateArgument_position,
                        depth: 1,
                        kind,
                        content: cm[k as int]->value,
                    }));
                    assert(elems_model(items@).len() == old_items.len() + 1);
                    assert(items@[old_items.len() as int]@ == im);
                    assert(elems_model(items@)[old_items.len() as int] == im);
                    assert forall|j: int| 0 <= j < old_items.len() implies elems_model(items@)[j]
                        == #[trigger] old_items[j] by {
                        assert(items@[j] == old_vec[j]);
                        assert(items@[j]@ == old_vec[j]@);
                    }
                    assert(elems_model(items@) =~= old_items + seq![
                        ElementModel::ListItem {
                            position: cm[k as int]->TemplateArgument_position,
                            depth: 1,
                            kind,
                            content: cm[k as int]->value,
                        },
                    ]);
                    assert(elems_model(items@) + list_items(
                        cm.subrange(k + 1 as int, cm.len() as int),
                        kind,
                    ) =~= list_items(cm, kind));
                }
            }
        }
        k = k + 1;
    }
    proof {
        assert(cm.subrange(cm.len() as int, cm.len() as int) =~= Seq::<ElementModel>::empty());
        assert(elems_model(items@) + Seq::<ElementModel>::empty() =~= elems_model(items@));
    }
    Element::List { position, content: items }
}

/// A math formula with two text children is replaced by an error node with
/// the exact message about the content count, whatever the checker answers.
pub proof fn lemma_two_texts_formula_error(
    position: Span,
    a: ElementModel,
    b: ElementModel,
    new: ElementModel,
)
    requires
        a is Text,
        b is Text,
        math_normalized_elem(
            ElementModel::Formatted {
                position,
                markup: MarkupType::Math,
                content: seq![a, b],
            },
            new,
        ),
    ensures
        new == (ElementModel::Error {
            position,
            message: "A formula must have exactly one content element!"@,
        }),
{
    let content = seq![a, b];
    let (content2, o) = choose|content2: Seq<ElementModel>, o: TexResultModel|
        math_normalized_seq(content, content2) && new == #[trigger] math_rule(
            position,
            content2,
            o,
        );
    assert(content2.len() == 2);
    assert(check_formula_model(content2, position, o) == (ElementModel::Error {
        position,
        message: "A formula must have exactly one content element!"@,
    }));
}

} // verus!
