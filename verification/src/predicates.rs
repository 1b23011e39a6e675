//! The predicate engine and the library of structural rules. `check_always`
//! applies a rule to a node list and, recursively, to every node list at any
//! depth below it, in document order, stopping at the first failure.

use vstd::prelude::*;
use crate::ast::{Element, ElementModel, MarkupType, elems_model, options_model, lemma_elems_model, lemma_options_model, copy_element};
use crate::registry::{Registry, TemplateSpec, TemplateSpecModel, Format, Predicate, find_spec_model};
use crate::matcher::{parse_template, parse_template_model};
use crate::strutil::{normal_of, trim_of, str_trim, str_eq};
use crate::util::{extract_plain_text, plain_text_of};
use vstd::string::StringExecFns;

verus! {

broadcast use vstd::std_specs::vec::group_vec_axioms;

/// A failed structural check: the offending node, where one can be named,
/// and a readable cause.
#[derive(Debug, PartialEq)]
pub struct PredError {
    pub tree: Option<Element>,
    pub cause: String,
}

/// The model of a `PredError`.
#[verifier::ext_equal]
pub struct PredErrorModel {
    pub tree: Option<ElementModel>,
    pub cause: Seq<char>,
}

impl View for PredError {
    type V = PredErrorModel;

    open spec fn view(&self) -> PredErrorModel {
        PredErrorModel {
            tree: match self.tree {
                Some(e) => Some(e@),
                None => None,
            },
            cause: self.cause@,
        }
    }
}

/// The outcome of a structural check.
pub type PredResult = Result<(), PredError>;

/// The model of a `PredResult`.
pub open spec fn pred_result_model(r: PredResult) -> Result<(), PredErrorModel> {
    match r {
        Ok(_) => Ok(()),
        Err(e) => Err(e@),
    }
}

/// Rules built on the engine recurse through it once; the node rules do not.
pub open spec fn pred_rank(p: Predicate) -> int {
    match p {
        Predicate::PlainText => 1,
        Predicate::NegativeSwitch => 1,
        Predicate::TheoremParagraph => 1,
        Predicate::TextOnlyParagraph => 1,
        _ => 0,
    }
}

/// What `is_math_tag` decides: the list must hold exactly one node, and it
/// must be a Formatted node with Math markup.
pub open spec fn math_tag_model(s: Seq<ElementModel>) -> Result<(), PredErrorModel> {
    if s.len() != 1 {
        Err(
            PredErrorModel {
                tree: None,
                cause: "There is none or more than one element in this math tag!"@,
            },
        )
    } else {
        match s[0] {
            ElementModel::Formatted { markup, .. } => {
                if markup is Math {
                    Ok(())
                } else {
                    Err(PredErrorModel { tree: Some(s[0]), cause: "This is not math-formatted!"@ })
                }
            },
            _ => Err(
                PredErrorModel { tree: Some(s[0]), cause: "This is not math-formatted text!"@ },
            ),
        }
    }
}

/// What the plain-text node rule decides of one list: the first node that is
/// neither a Paragraph nor Text fails.
pub open spec fn plain_node_model(s: Seq<ElementModel>) -> Result<(), PredErrorModel>
    decreases s,
{
    if s.len() == 0 {
        Ok(())
    } else if !(s[0] is Paragraph || s[0] is Text) {
        Err(PredErrorModel { tree: Some(s[0]), cause: "This markup is not allowed in plain text!"@ })
    } else {
        plain_node_model(s.subrange(1, s.len() as int))
    }
}

/// What `is_navigation_spec` decides: exactly one Text node reading exactly
/// "oben" or exactly "unten".
pub open spec fn navigation_model(s: Seq<ElementModel>) -> Result<(), PredErrorModel> {
    if s.len() == 1 && (s[0] matches ElementModel::Text { text, .. } && (text == "oben"@ || text
        == "unten"@)) {
        Ok(())
    } else {
        Err(
            PredErrorModel {
                tree: None,
                cause: "Wrong formatting for the navigation. For the header only the variant \"{{#invoke:Mathe für Nicht-Freaks/Seite|oben}}\" is allowed. The footer only admits the code \"{{#invoke:Mathe für Nicht-Freaks/Seite|unten}}\"."@,
            },
        )
    }
}

/// The cause reported for a template name that has no schema.
pub open spec fn no_spec_cause(name: Seq<char>) -> Seq<char> {
    "\""@ + name + "\" has no specification!"@
}

/// The cause reported for a template that may not stand here because its
/// schema is not Inline.
pub open spec fn not_inline_cause(name: Seq<char>) -> Seq<char> {
    "\""@ + name + "\" is not an inline template!"@
}

/// What the theorem-paragraph node rule decides of one node. A template must
/// have a schema; one that parses to the ProofStep template is allowed
/// unconditionally; any other must be Inline by its schema. Headings and
/// table parts are never allowed. Everything else passes.
pub open spec fn theorem_node_elem_model(reg: Seq<TemplateSpecModel>, e: ElementModel) -> Result<
    (),
    PredErrorModel,
> {
    match e {
        ElementModel::Template { name, .. } => {
            match find_spec_model(reg, normal_of(plain_text_of(name))) {
                None => Err(
                    PredErrorModel { tree: None, cause: no_spec_cause(plain_text_of(name)) },
                ),
                Some(sp) => {
                    if (parse_template_model(e, reg) matches Some(kt) && kt.identifier
                        == "ProofStep"@) {
                        Ok(())
                    } else if sp.format != Format::Inline {
                        Err(
                            PredErrorModel {
                                tree: Some(e),
                                cause: not_inline_cause(plain_text_of(name)),
                            },
                        )
                    } else {
                        Ok(())
                    }
                },
            }
        },
        ElementModel::Heading { .. } => Err(
            PredErrorModel { tree: Some(e), cause: "This markup is not allowed in proofs!"@ },
        ),
        ElementModel::Table { .. } => Err(
            PredErrorModel { tree: Some(e), cause: "This markup is not allowed in proofs!"@ },
        ),
        ElementModel::TableRow { .. } => Err(
            PredErrorModel { tree: Some(e), cause: "This markup is not allowed in proofs!"@ },
        ),
        ElementModel::TableCell { .. } => Err(
            PredErrorModel { tree: Some(e), cause: "This markup is not allowed in proofs!"@ },
        ),
        _ => Ok(()),
    }
}

/// The theorem-paragraph node rule over one list: the first offender fails.
pub open spec fn theorem_node_model(reg: Seq<TemplateSpecModel>, s: Seq<ElementModel>) -> Result<
    (),
    PredErrorModel,
>
    decreases s,
{
    if s.len() == 0 {
        Ok(())
    } else {
        match theorem_node_elem_model(reg, s[0]) {
            Err(e) => Err(e),
            Ok(_) => theorem_node_model(reg, s.subrange(1, s.len() as int)),
        }
    }
}

/// What the text-only node rule decides of one node: as the theorem rule,
/// but with no exemption for any template kind, and also rejecting galleries
/// and internal references.
pub open spec fn textonly_node_elem_model(reg: Seq<TemplateSpecModel>, e: ElementModel) -> Result<
    (),
    PredErrorModel,
> {
    match e {
        ElementModel::Template { name, .. } => {
            match find_spec_model(reg, normal_of(plain_text_of(name))) {
                None => Err(
                    PredErrorModel { tree: None, cause: no_spec_cause(plain_text_of(name)) },
                ),
                Some(sp) => {
                    if sp.format != Format::Inline {
                        Err(
                            PredErrorModel {
                                tree: Some(e),
                                cause: not_inline_cause(plain_text_of(name)),
                            },
                        )
                    } else {
                        Ok(())
                    }
                },
            }
        },
        ElementModel::Gallery { .. } => Err(
            PredErrorModel { tree: Some(e), cause: "This markup is not text-only!"@ },
        ),
        ElementModel::Heading { .. } => Err(
            PredErrorModel { tree: Some(e), cause: "This markup is not text-only!"@ },
        ),
        ElementModel::Table { .. } => Err(
            PredErrorModel { tree: Some(e), cause: "This markup is not text-only!"@ },
        ),
        ElementModel::TableRow { .. } => Err(
            PredErrorModel { tree: Some(e), cause: "This markup is not text-only!"@ },
        ),
        ElementModel::TableCell { .. } => Err(
            PredErrorModel { tree: Some(e), cause: "This markup is not text-only!"@ },
        ),
        ElementModel::InternalReference { .. } => Err(
            PredErrorModel { tree: Some(e), cause: "This markup is not text-only!"@ },
        ),
        _ => Ok(()),
    }
}

/// The text-only node rule over one list: the first offender fails.
pub open spec fn textonly_node_model(reg: Seq<TemplateSpecModel>, s: Seq<ElementModel>) -> Result<
    (),
    PredErrorModel,
>
    decreases s,
{
    if s.len() == 0 {
        Ok(())
    } else {
        match textonly_node_elem_model(reg, s[0]) {
            Err(e) => Err(e),
            Ok(_) => textonly_node_model(reg, s.subrange(1, s.len() as int)),
        }
    }
}

/// What `is_negative_switch` decides: the list must be plain text whose
/// extracted text, trimmed, is exactly "nein".
pub open spec fn negative_switch_model(s: Seq<ElementModel>) -> Result<(), PredErrorModel>
    decreases s, 1int, 1int,
{
    if check_always_model(Predicate::PlainTextNode, Seq::empty(), s) is Ok && trim_of(
        plain_text_of(s),
    ) == "nein"@ {
        Ok(())
    } else {
        Err(
            PredErrorModel {
                tree: if s.len() > 0 {
                    Some(s[0])
                } else {
                    None
                },
                cause: "The content of this argument is only allowed to be \"nein\"."@,
            },
        )
    }
}

/// What one application of a rule to one node list decides.
pub open spec fn apply_pred_model(
    p: Predicate,
    reg: Seq<TemplateSpecModel>,
    s: Seq<ElementModel>,
) -> Result<(), PredErrorModel>
    decreases s, pred_rank(p), 2int,
{
    match p {
        Predicate::MathTag => math_tag_model(s),
        Predicate::PlainTextNode => plain_node_model(s),
        Predicate::PlainText => check_always_model(Predicate::PlainTextNode, Seq::empty(), s),
        Predicate::NegativeSwitch => negative_switch_model(s),
        Predicate::NavigationSpec => navigation_model(s),
        Predicate::TheoremParagraphNode => theorem_node_model(reg, s),
        Predicate::TheoremParagraph => check_always_model(Predicate::TheoremParagraphNode, reg, s),
        Predicate::TextOnlyParagraphNode => textonly_node_model(reg, s),
        Predicate::TextOnlyParagraph => check_always_model(Predicate::TextOnlyParagraphNode, reg, s),
        Predicate::EverythingAllowed => Ok(()),
    }
}

/// What the engine decides: the rule applied to the list itself, then,
/// node by node in order, to every list below, first failure first.
pub open spec fn check_always_model(
    p: Predicate,
    reg: Seq<TemplateSpecModel>,
    s: Seq<ElementModel>,
) -> Result<(), PredErrorModel>
    decreases s, pred_rank(p), 3int,
{
    match apply_pred_model(p, reg, s) {
        Err(e) => Err(e),
        Ok(_) => check_children_model(p, reg, s),
    }
}

/// The engine's walk over the nodes of one list, after the list itself
/// passed: each node's own lists are checked in document order.
pub open spec fn check_children_model(
    p: Predicate,
    reg: Seq<TemplateSpecModel>,
    s: Seq<ElementModel>,
) -> Result<(), PredErrorModel>
    decreases s, pred_rank(p), 1int,
{
    if s.len() == 0 {
        Ok(())
    } else {
        match check_elem_model(p, reg, s[0]) {
            Err(e) => Err(e),
            Ok(_) => check_children_model(p, reg, s.subrange(1, s.len() as int)),
        }
    }
}

/// The engine below one node: every node list it holds, in document order.
pub open spec fn check_elem_model(
    p: Predicate,
    reg: Seq<TemplateSpecModel>,
    e: ElementModel,
) -> Result<(), PredErrorModel>
    decreases e, pred_rank(p), 0int,
{
    match e {
        ElementModel::Document { content, .. } => check_always_model(p, reg, content),
        ElementModel::Heading { caption, content, .. } => {
            match check_always_model(p, reg, caption) {
                Err(er) => Err(er),
                Ok(_) => check_always_model(p, reg, content),
            }
        },
        ElementModel::Text { .. } => Ok(()),
        ElementModel::Formatted { content, .. } => check_always_model(p, reg, content),
        ElementModel::Paragraph { content, .. } => check_always_model(p, reg, content),
        ElementModel::Template { name, content, .. } => {
            match check_always_model(p, reg, name) {
                Err(er) => Err(er),
                Ok(_) => check_always_model(p, reg, content),
            }
        },
        ElementModel::TemplateArgument { value, .. } => check_always_model(p, reg, value),
        ElementModel::InternalReference { target, options, caption, .. } => {
            match check_always_model(p, reg, target) {
                Err(er) => Err(er),
                Ok(_) => match check_options_model(p, reg, options) {
                    Err(er) => Err(er),
                    Ok(_) => check_always_model(p, reg, caption),
                },
            }
        },
        ElementModel::ExternalReference { caption, .. } => check_always_model(p, reg, caption),
        ElementModel::ListItem { content, .. } => check_always_model(p, reg, content),
        ElementModel::List { content, .. } => check_always_model(p, reg, content),
        ElementModel::Table { caption, rows, .. } => {
            match check_always_model(p, reg, caption) {
                Err(er) => Err(er),
                Ok(_) => check_always_model(p, reg, rows),
            }
        },
        ElementModel::TableRow { cells, .. } => check_always_model(p, reg, cells),
        ElementModel::TableCell { content, .. } => check_always_model(p, reg, content),
        ElementModel::Comment { .. } => Ok(()),
        ElementModel::HtmlTag { content, .. } => check_always_model(p, reg, content),
        ElementModel::Gallery { content, .. } => check_always_model(p, reg, content),
        ElementModel::Error { .. } => Ok(()),
    }
}

/// The engine over the option lists of an internal reference, in order.
pub open spec fn check_options_model(
    p: Predicate,
    reg: Seq<TemplateSpecModel>,
    options: Seq<Seq<ElementModel>>,
) -> Result<(), PredErrorModel>
    decreases options, pred_rank(p), 1int,
{
    if options.len() == 0 {
        Ok(())
    } else {
        match check_always_model(p, reg, options[0]) {
            Err(e) => Err(e),
            Ok(_) => check_options_model(p, reg, options.subrange(1, options.len() as int)),
        }
    }
}

/// Check a rule on a node list and recursively on every node list below it,
/// in document order, reporting the first failure.
pub fn check_always(elems: &[Element], predicate: Predicate, registry: &Registry) -> (r: PredResult)
    ensures
        pred_result_model(r) == check_always_model(predicate, registry@, elems_model(elems@)),
    decreases elems@, pred_rank(predicate), 3int,
{
    let ghost em = elems_model(elems@);
    match apply_predicate(elems, predicate, registry) {
        Err(e) => {
            return Err(e);
        },
        Ok(_) => {},
    }
    let mut i: usize = 0;
    proof {
        lemma_elems_model(elems@);
        assert(em.subrange(0, em.len() as int) =~= em);
    }
    while i < elems.len()
        invariant
            i <= elems@.len(),
            em == elems_model(elems@),
            em.len() == elems@.len(),
            forall|j: int| 0 <= j < em.len() ==> #[trigger] em[j] == elems@[j]@,
            check_always_model(predicate, registry@, em) == check_children_model(
                predicate,
                registry@,
                em.subrange(i as int, em.len() as int),
            ),
        decreases elems@.len() - i,
    {
        let ghost suffix = em.subrange(i as int, em.len() as int);
        proof {
            assert(suffix[0] == em[i as int]);
        }
        match check_element(&elems[i], predicate, registry) {
            Err(e) => {
                return Err(e);
            },
            Ok(_) => {},
        }
        proof {
            assert(suffix.subrange(1, suffix.len() as int) =~= em.subrange(
                i + 1 as int,
                em.len() as int,
            ));
        }
        i = i + 1;
    }
    proof {
        assert(em.subrange(em.len() as int, em.len() as int) =~= Seq::<ElementModel>::empty());
    }
    Ok(())
}

/// Check a rule on every node list inside one node.
fn check_element(e: &Element, predicate: Predicate, registry: &Registry) -> (r: PredResult)
    ensures
        pred_result_model(r) == check_elem_model(predicate, registry@, e@),
    decreases e, pred_rank(predicate), 0int,
{
    match e {
        Element::Document { content, .. } => check_always(content.as_slice(), predicate, registry),
        Element::Heading { caption, content, .. } => {
            match check_always(caption.as_slice(), predicate, registry) {
                Err(er) => Err(er),
                Ok(_) => check_always(content.as_slice(), predicate, registry),
            }
        },
        Element::Text { .. } => Ok(()),
        Element::Formatted { content, .. } => check_always(content.as_slice(), predicate, registry),
        Element::Paragraph { content, .. } => check_always(content.as_slice(), predicate, registry),
        Element::Template { name, content, .. } => {
            match check_always(name.as_slice(), predicate, registry) {
                Err(er) => Err(er),
                Ok(_) => check_always(content.as_slice(), predicate, registry),
            }
        },
        Element::TemplateArgument { value, .. } => check_always(
            value.as_slice(),
            predicate,
            registry,
        ),
        Element::InternalReference { target, options, caption, .. } => {
            match check_always(target.as_slice(), predicate, registry) {
                Err(er) => Err(er),
                Ok(_) => match check_option_lists(options, predicate, registry) {
                    Err(er) => Err(er),
                    Ok(_) => check_always(caption.as_slice(), predicate, registry),
                },
            }
        },
        Element::ExternalReference { caption, .. } => check_always(
            caption.as_slice(),
            predicate,
            registry,
        ),
        Element::ListItem { content, .. } => check_always(content.as_slice(), predicate, registry),
        Element::List { content, .. } => check_always(content.as_slice(), predicate, registry),
        Element::Table { caption, rows, .. } => {
            match check_always(caption.as_slice(), predicate, registry) {
                Err(er) => Err(er),
                Ok(_) => check_always(rows.as_slice(), predicate, registry),
            }
        },
        Element::TableRow { cells, .. } => check_always(cells.as_slice(), predicate, registry),
        Element::TableCell { content, .. } => check_always(content.as_slice(), predicate, registry),
        Element::Comment { .. } => Ok(()),
        Element::HtmlTag { content, .. } => check_always(content.as_slice(), predicate, registry),
        Element::Gallery { content, .. } => check_always(content.as_slice(), predicate, registry),
        Element::Error { .. } => Ok(()),
    }
}

/// Check a rule below each option list of an internal reference, in order.
fn check_option_lists(options: &Vec<Vec<Element>>, predicate: Predicate, registry: &Registry) -> (r:
    PredResult)
    ensures
        pred_result_model(r) == check_options_model(
            predicate,
            registry@,
            options_model(options@),
        ),
    decreases options, pred_rank(predicate), 1int,
{
    let ghost om = options_model(options@);
    let mut i: usize = 0;
    proof {
        lemma_options_model(options@);
        assert(om.subrange(0, om.len() as int) =~= om);
    }
    while i < options.len()
        invariant
            i <= options@.len(),
            om == options_model(options@),
            om.len() == options@.len(),
            forall|j: int| 0 <= j < om.len() ==> #[trigger] om[j] == elems_model(options@[j]@),
            check_options_model(predicate, registry@, om) == check_options_model(
                predicate,
                registry@,
                om.subrange(i as int, om.len() as int),
            ),
        decreases options@.len() - i,
    {
        let ghost suffix = om.subrange(i as int, om.len() as int);
        proof {
            assert(suffix[0] == om[i as int]);
            assert(decreases_to!(options => options@[i as int]));
            assert(decreases_to!(options@[i as int] => options@[i as int]@));
        }
        match check_always(options[i].as_slice(), predicate, registry) {
            Err(e) => {
                return Err(e);
            },
            Ok(_) => {},
        }
        proof {
            assert(suffix.subrange(1, suffix.len() as int) =~= om.subrange(
                i + 1 as int,
                om.len() as int,
            ));
        }
        i = i + 1;
    }
    proof {
        assert(om.subrange(om.len() as int, om.len() as int) =~= Seq::<Seq<ElementModel>>::empty());
    }
    Ok(())
}

/// Apply one rule once, to one node list.
pub fn apply_predicate(elems: &[Element], predicate: Predicate, registry: &Registry) -> (r:
    PredResult)
    ensures
        pred_result_model(r) == apply_pred_model(predicate, registry@, elems_model(elems@)),
    decreases elems@, pred_rank(predicate), 2int,
{
    match predicate {
        Predicate::MathTag => is_math_tag(elems),
        Predicate::PlainTextNode => plain_text_node(elems),
        Predicate::PlainText => is_plain_text(elems),
        Predicate::NegativeSwitch => is_negative_switch(elems),
        Predicate::NavigationSpec => is_navigation_spec(elems),
        Predicate::TheoremParagraphNode => theorem_paragraph_node(elems, registry),
        Predicate::TheoremParagraph => is_theorem_paragraph(elems, registry),
        Predicate::TextOnlyParagraphNode => text_only_paragraph_node(elems, registry),
        Predicate::TextOnlyParagraph => is_text_only_paragraph(elems, registry),
        Predicate::EverythingAllowed => everything_is_allowed(elems),
    }
}

/// A list of elements only contains one math tag.
pub fn is_math_tag(elems: &[Element]) -> (r: PredResult)
    ensures
        pred_result_model(r) == math_tag_model(elems_model(elems@)),
{
    proof {
        lemma_elems_model(elems@);
        if elems@.len() > 0 {
            assert(elems_model(elems@)[0] == elems@[0]@);
        }
    }
    if elems.len() != 1 {
        return Err(
            PredError {
                tree: None,
                cause: String::from_str("There is none or more than one element in this math tag!"),
            },
        );
    }
    match &elems[0] {
        Element::Formatted { markup, .. } => {
            if *markup == MarkupType::Math {
                Ok(())
            } else {
                Err(
                    PredError {
                        tree: Some(copy_element(&elems[0])),
                        cause: String::from_str("This is not math-formatted!"),
                    },
                )
            }
        },
        _ => Err(
            PredError {
                tree: Some(copy_element(&elems[0])),
                cause: String::from_str("This is not math-formatted text!"),
            },
        ),
    }
}

/// One list holds only Paragraph or Text nodes.
fn plain_text_node(elems: &[Element]) -> (r: PredResult)
    ensures
        pred_result_model(r) == plain_node_model(elems_model(elems@)),
{
    let ghost em = elems_model(elems@);
    let mut i: usize = 0;
    proof {
        lemma_elems_model(elems@);
        assert(em.subrange(0, em.len() as int) =~= em);
    }
    while i < elems.len()
        invariant
            i <= elems@.len(),
            em == elems_model(elems@),
            em.len() == elems@.len(),
            forall|j: int| 0 <= j < em.len() ==> #[trigger] em[j] == elems@[j]@,
            plain_node_model(em) == plain_node_model(em.subrange(i as int, em.len() as int)),
        decreases elems@.len() - i,
    {
        let ghost suffix = em.subrange(i as int, em.len() as int);
        proof {
            assert(suffix[0] == em[i as int]);
        }
        let allowed = match &elems[i] {
            Element::Paragraph { .. } => true,
            Element::Text { .. } => true,
            _ => false,
        };
        if !allowed {
            return Err(
                PredError {
                    tree: Some(copy_element(&elems[i])),
                    cause: String::from_str("This markup is not allowed in plain text!"),
                },
            );
        }
        proof {
            assert(suffix.subrange(1, suffix.len() as int) =~= em.subrange(
                i + 1 as int,
                em.len() as int,
            ));
        }
        i = i + 1;
    }
    proof {
        assert(em.subrange(em.len() as int, em.len() as int) =~= Seq::<ElementModel>::empty());
    }
    Ok(())
}

/// Paragraphs or text without any formatting or special contents, at every
/// depth.
pub fn is_plain_text(elems: &[Element]) -> (r: PredResult)
    ensures
        pred_result_model(r) == check_always_model(
            Predicate::PlainTextNode,
            Seq::empty(),
            elems_model(elems@),
        ),
    decreases elems@, 1int, 0int,
{
    let registry = Registry::new();
    check_always(elems, Predicate::PlainTextNode, &registry)
}

/// The argument is a switch whose content can only be "nein".
pub fn is_negative_switch(elems: &[Element]) -> (r: PredResult)
    ensures
        pred_result_model(r) == negative_switch_model(elems_model(elems@)),
    decreases elems@, 1int, 1int,
{
    proof {
        lemma_elems_model(elems@);
        if elems@.len() > 0 {
            assert(elems_model(elems@)[0] == elems@[0]@);
        }
    }
    let plain = is_plain_text(elems);
    let text = extract_plain_text(elems);
    let trimmed = str_trim(text.as_str());
    if plain.is_ok() && str_eq(trimmed, "nein") {
        Ok(())
    } else {
        let tree = if elems.len() > 0 {
            Some(copy_element(&elems[0]))
        } else {
            None
        };
        Err(
            PredError {
                tree,
                cause: String::from_str(
                    "The content of this argument is only allowed to be \"nein\".",
                ),
            },
        )
    }
}

/// Only the two navigation variants "oben" and "unten" are allowed.
pub fn is_navigation_spec(elems: &[Element]) -> (r: PredResult)
    ensures
        pred_result_model(r) == navigation_model(elems_model(elems@)),
{
    proof {
        lemma_elems_model(elems@);
        if elems@.len() > 0 {
            assert(elems_model(elems@)[0] == elems@[0]@);
        }
    }
    let mut ok = false;
    if elems.len() == 1 {
        if let Element::Text { text, .. } = &elems[0] {
            ok = str_eq(text.as_str(), "oben") || str_eq(text.as_str(), "unten");
        }
    }
    if ok {
        Ok(())
    } else {
        Err(
            PredError {
                tree: None,
                cause: String::from_str(
                    "Wrong formatting for the navigation. For the header only the variant \"{{#invoke:Mathe für Nicht-Freaks/Seite|oben}}\" is allowed. The footer only admits the code \"{{#invoke:Mathe für Nicht-Freaks/Seite|unten}}\".",
                ),
            },
        )
    }
}

/// Find the schema of a template node, or the error naming it.
fn get_template_spec<'a>(template: &Element, registry: &'a Registry) -> (r: Result<
    &'a TemplateSpec,
    PredError,
>)
    requires
        template@ is Template,
    ensures
        match r {
            Ok(s) => find_spec_model(
                registry@,
                normal_of(plain_text_of(template@->Template_name)),
            ) == Some(s@),
            Err(e) => find_spec_model(
                registry@,
                normal_of(plain_text_of(template@->Template_name)),
            ) is None && e@ == (PredErrorModel {
                tree: None,
                cause: no_spec_cause(plain_text_of(template@->Template_name)),
            }),
        },
{
    match template {
        Element::Template { name, .. } => {
            let name_text = extract_plain_text(name.as_slice());
            match registry.spec_by_name(name_text.as_str()) {
                Some(s) => Ok(s),
                None => {
                    let mut cause = String::from_str("\"");
                    cause.append(name_text.as_str());
                    cause.append("\" has no specification!");
                    Err(PredError { tree: None, cause })
                },
            }
        },
        _ => {
            proof {
                assert(false);
            }
            Err(PredError { tree: None, cause: String::new() })
        },
    }
}

/// The theorem-paragraph rule on one list.
fn theorem_paragraph_node(elems: &[Element], registry: &Registry) -> (r: PredResult)
    ensures
        pred_result_model(r) == theorem_node_model(registry@, elems_model(elems@)),
{
    let ghost em = elems_model(elems@);
    let mut i: usize = 0;
    proof {
        lemma_elems_model(elems@);
        assert(em.subrange(0, em.len() as int) =~= em);
    }
    while i < elems.len()
        invariant
            i <= elems@.len(),
            em == elems_model(elems@),
            em.len() == elems@.len(),
            forall|j: int| 0 <= j < em.len() ==> #[trigger] em[j] == elems@[j]@,
            theorem_node_model(registry@, em) == theorem_node_model(
                registry@,
                em.subrange(i as int, em.len() as int),
            ),
        decreases elems@.len() - i,
    {
        let ghost suffix = em.subrange(i as int, em.len() as int);
        proof {
            assert(suffix[0] == em[i as int]);
        }
        let child = &elems[i];
        match child {
            Element::Template { name, .. } => {
                let sp = match get_template_spec(child, registry) {
                    Ok(s) => s,
                    Err(e) => {
                        return Err(e);
                    },
                };
                let mut allowed = false;
                let parsed = parse_template(child, registry);
                if let Some(kt) = &parsed {
                    allowed = str_eq(kt.identifier.as_str(), "ProofStep");
                }
                if !allowed && !(sp.format == Format::Inline) {
                    let name_text = extract_plain_text(name.as_slice());
                    let mut cause = String::from_str("\"");
                    cause.append(name_text.as_str());
                    cause.append("\" is not an inline template!");
                    return Err(PredError { tree: Some(copy_element(child)), cause });
                }
            },
            Element::Heading { .. } => {
                return Err(
                    PredError {
                        tree: Some(copy_element(child)),
                        cause: String::from_str("This markup is not allowed in proofs!"),
                    },
                );
            },
            Element::Table { .. } => {
                return Err(
                    PredError {
                        tree: Some(copy_element(child)),
                        cause: String::from_str("This markup is not allowed in proofs!"),
                    },
                );
            },
            Element::TableRow { .. } => {
                return Err(
                    PredError {
                        tree: Some(copy_element(child)),
                        cause: String::from_str("This markup is not allowed in proofs!"),
                    },
                );
            },
            Element::TableCell { .. } => {
                return Err(
                    PredError {
                        tree: Some(copy_element(child)),
                        cause: String::from_str("This markup is not allowed in proofs!"),
                    },
                );
            },
            _ => {},
        }
        proof {
            assert(suffix.subrange(1, suffix.len() as int) =~= em.subrange(
                i + 1 as int,
                em.len() as int,
            ));
        }
        i = i + 1;
    }
    proof {
        assert(em.subrange(em.len() as int, em.len() as int) =~= Seq::<ElementModel>::empty());
    }
    Ok(())
}

/// Certain block elements are allowed in theorems: a ProofStep template, any
/// inline template, and everything but headings and table parts; checked at
/// every depth.
pub fn is_theorem_paragraph(elems: &[Element], registry: &Registry) -> (r: PredResult)
    ensures
        pred_result_model(r) == check_always_model(
            Predicate::TheoremParagraphNode,
            registry@,
            elems_model(elems@),
        ),
    decreases elems@, 1int, 0int,
{
    check_always(elems, Predicate::TheoremParagraphNode, registry)
}

/// The text-only rule on one list.
fn text_only_paragraph_node(elems: &[Element], registry: &Registry) -> (r: PredResult)
    ensures
        pred_result_model(r) == textonly_node_model(registry@, elems_model(elems@)),
{
    let ghost em = elems_model(elems@);
    let mut i: usize = 0;
    proof {
        lemma_elems_model(elems@);
        assert(em.subrange(0, em.len() as int) =~= em);
    }
    while i < elems.len()
        invariant
            i <= elems@.len(),
            em == elems_model(elems@),
            em.len() == elems@.len(),
            forall|j: int| 0 <= j < em.len() ==> #[trigger] em[j] == elems@[j]@,
            textonly_node_model(registry@, em) == textonly_node_model(
                registry@,
                em.subrange(i as int, em.len() as int),
            ),
        decreases elems@.len() - i,
    {
        let ghost suffix = em.subrange(i as int, em.len() as int);
        proof {
            assert(suffix[0] == em[i as int]);
        }
        let child = &elems[i];
        match child {
            Element::Template { name, .. } => {
                let sp = match get_template_spec(child, registry) {
                    Ok(s) => s,
                    Err(e) => {
                        return Err(e);
                    },
                };
                if !(sp.format == Format::Inline) {
                    let name_text = extract_plain_text(name.as_slice());
                    let mut cause = String::from_str("\"");
                    cause.append(name_text.as_str());
                    cause.append("\" is not an inline template!");
                    return Err(PredError { tree: Some(copy_element(child)), cause });
                }
            },
            Element::Gallery { .. } => {
                return Err(
                    PredError {
                        tree: Some(copy_element(child)),
                        cause: String::from_str("This markup is not text-only!"),
                    },
                );
            },
            Element::Heading { .. } => {
                return Err(
                    PredError {
                        tree: Some(copy_element(child)),
                        cause: String::from_str("This markup is not text-only!"),
                    },
                );
            },
            Element::Table { .. } => {
                return Err(
                    PredError {
                        tree: Some(copy_element(child)),
                        cause: String::from_str("This markup is not text-only!"),
                    },
                );
            },
            Element::TableRow { .. } => {
                return Err(
                    PredError {
                        tree: Some(copy_element(child)),
                        cause: String::from_str("This markup is not text-only!"),
                    },
                );
            },
            Element::TableCell { .. } => {
                return Err(
                    PredError {
                        tree: Some(copy_element(child)),
                        cause: String::from_str("This markup is not text-only!"),
                    },
                );
            },
            Element::InternalReference { .. } => {
                return Err(
                    PredError {
                        tree: Some(copy_element(child)),
                        cause: String::from_str("This markup is not text-only!"),
                    },
                );
            },
            _ => {},
        }
        proof {
            assert(suffix.subrange(1, suffix.len() as int) =~= em.subrange(
                i + 1 as int,
                em.len() as int,
            ));
        }
        i = i + 1;
    }
    proof {
        assert(em.subrange(em.len() as int, em.len() as int) =~= Seq::<ElementModel>::empty());
    }
    Ok(())
}

/// Paragraphs with only formatted text content (no block content), checked
/// at every depth.
pub fn is_text_only_paragraph(elems: &[Element], registry: &Registry) -> (r: PredResult)
    ensures
        pred_result_model(r) == check_always_model(
            Predicate::TextOnlyParagraphNode,
            registry@,
            elems_model(elems@),
        ),
    decreases elems@, 1int, 0int,
{
    check_always(elems, Predicate::TextOnlyParagraphNode, registry)
}

/// Admits anything.
pub fn everything_is_allowed(elems: &[Element]) -> (r: PredResult)
    ensures
        pred_result_model(r) == Ok::<(), PredErrorModel>(()),
{
    Ok(())
}

/// On an empty node list the engine decides exactly what the rule itself
/// decides of the empty list: there is nothing below to walk into.
pub proof fn lemma_check_always_empty(p: Predicate, reg: Seq<TemplateSpecModel>)
    ensures
        check_always_model(p, reg, Seq::empty()) == apply_pred_model(p, reg, Seq::empty()),
{
    assert(check_children_model(p, reg, Seq::empty()) == Ok::<(), PredErrorModel>(()));
    if apply_pred_model(p, reg, Seq::empty()) is Ok {
        assert(apply_pred_model(p, reg, Seq::empty())->Ok_0 == ());
        assert(apply_pred_model(p, reg, Seq::empty()) == Ok::<(), PredErrorModel>(()));
        assert(check_always_model(p, reg, Seq::empty()) == Ok::<(), PredErrorModel>(()));
    } else {
        let e = apply_pred_model(p, reg, Seq::empty())->Err_0;
        assert(check_always_model(p, reg, Seq::empty()) == Err::<(), PredErrorModel>(e));
    }
}

/// A rule that accepts every node list makes the engine accept every tree.
pub proof fn lemma_check_always_of_total_rule(
    p: Predicate,
    reg: Seq<TemplateSpecModel>,
    s: Seq<ElementModel>,
)
    requires
        forall|t: Seq<ElementModel>| apply_pred_model(p, reg, t) is Ok,
    ensures
        check_always_model(p, reg, s) is Ok,
    decreases s, 2int,
{
    assert(apply_pred_model(p, reg, s) is Ok);
    lemma_check_children_of_total_rule(p, reg, s);
}

proof fn lemma_check_children_of_total_rule(
    p: Predicate,
    reg: Seq<TemplateSpecModel>,
    s: Seq<ElementModel>,
)
    requires
        forall|t: Seq<ElementModel>| apply_pred_model(p, reg, t) is Ok,
    ensures
        check_children_model(p, reg, s) is Ok,
    decreases s, 1int,
{
    if s.len() > 0 {
        lemma_check_elem_of_total_rule(p, reg, s[0]);
        lemma_check_children_of_total_rule(p, reg, s.subrange(1, s.len() as int));
    }
}

proof fn lemma_check_elem_of_total_rule(
    p: Predicate,
    reg: Seq<TemplateSpecModel>,
    e: ElementModel,
)
    requires
        forall|t: Seq<ElementModel>| apply_pred_model(p, reg, t) is Ok,
    ensures
        check_elem_model(p, reg, e) is Ok,
    decreases e, 3int,
{
    match e {
        ElementModel::Document { content, .. } => lemma_check_always_of_total_rule(p, reg, content),
        ElementModel::Heading { caption, content, .. } => {
            lemma_check_always_of_total_rule(p, reg, caption);
            lemma_check_always_of_total_rule(p, reg, content);
        },
        ElementModel::Text { .. } => {},
        ElementModel::Formatted { content, .. } => lemma_check_always_of_total_rule(
            p,
            reg,
            content,
        ),
        ElementModel::Paragraph { content, .. } => lemma_check_always_of_total_rule(
            p,
            reg,
            content,
        ),
        ElementModel::Template { name, content, .. } => {
            lemma_check_always_of_total_rule(p, reg, name);
            lemma_check_always_of_total_rule(p, reg, content);
        },
        ElementModel::TemplateArgument { value, .. } => lemma_check_always_of_total_rule(
            p,
            reg,
            value,
        ),
        ElementModel::InternalReference { target, options, caption, .. } => {
            lemma_check_always_of_total_rule(p, reg, target);
            lemma_check_options_of_total_rule(p, reg, options);
            lemma_check_always_of_total_rule(p, reg, caption);
        },
        ElementModel::ExternalReference { caption, .. } => lemma_check_always_of_total_rule(
            p,
            reg,
            caption,
        ),
        ElementModel::ListItem { content, .. } => lemma_check_always_of_total_rule(p, reg, content),
        ElementModel::List { content, .. } => lemma_check_always_of_total_rule(p, reg, content),
        ElementModel::Table { caption, rows, .. } => {
            lemma_check_always_of_total_rule(p, reg, caption);
            lemma_check_always_of_total_rule(p, reg, rows);
        },
        ElementModel::TableRow { cells, .. } => lemma_check_always_of_total_rule(p, reg, cells),
        ElementModel::TableCell { content, .. } => lemma_check_always_of_total_rule(
            p,
            reg,
            content,
        ),
        ElementModel::Comment { .. } => {},
        ElementModel::HtmlTag { content, .. } => lemma_check_always_of_total_rule(p, reg, content),
        ElementModel::Gallery { content, .. } => lemma_check_always_of_total_rule(p, reg, content),
        ElementModel::Error { .. } => {},
    }
}

proof fn lemma_check_options_of_total_rule(
    p: Predicate,
    reg: Seq<TemplateSpecModel>,
    options: Seq<Seq<ElementModel>>,
)
    requires
        forall|t: Seq<ElementModel>| apply_pred_model(p, reg, t) is Ok,
    ensures
        check_options_model(p, reg, options) is Ok,
    decreases options, 0int,
{
    if options.len() > 0 {
        lemma_check_always_of_total_rule(p, reg, options[0]);
        lemma_check_options_of_total_rule(p, reg, options.subrange(1, options.len() as int));
    }
}

/// The rule that admits anything makes the engine succeed on any tree.
pub proof fn lemma_everything_allowed_check_always_ok(
    reg: Seq<TemplateSpecModel>,
    s: Seq<ElementModel>,
)
    ensures
        check_always_model(Predicate::EverythingAllowed, reg, s) is Ok,
{
    lemma_check_always_of_total_rule(Predicate::EverythingAllowed, reg, s);
}

/// The engine reports the first failure in document order: with two sibling
/// nodes whose own lists pass the rule at the top, a failure below the second
/// sibling only is exactly what comes back.
pub proof fn lemma_check_always_first_failure(
    p: Predicate,
    reg: Seq<TemplateSpecModel>,
    a: ElementModel,
    b: ElementModel,
    e: PredErrorModel,
)
    requires
        apply_pred_model(p, reg, seq![a, b]) is Ok,
        check_elem_model(p, reg, a) is Ok,
        check_elem_model(p, reg, b) == Err::<(), PredErrorModel>(e),
    ensures
        check_always_model(p, reg, seq![a, b]) == Err::<(), PredErrorModel>(e),
{
    let s = seq![a, b];
    assert(s.len() == 2);
    assert(s[0] == a);
    let rest = s.subrange(1, 2);
    assert(rest.len() == 1);
    assert(rest[0] == b);
    assert(check_children_model(p, reg, rest) == Err::<(), PredErrorModel>(e));
    assert(check_children_model(p, reg, s) == Err::<(), PredErrorModel>(e));
}

} // verus!
