//! The document tree that all checks and rewrites operate on, together with
//! its mathematical model (`ElementModel`), in which every string is a
//! `Seq<char>` and every child list is a `Seq<ElementModel>`.

use vstd::prelude::*;

verus! {

broadcast use vstd::std_specs::vec::group_vec_axioms;

/// A position in the source document.
#[derive(Debug, Clone, Copy, PartialEq, Eq, Structural)]
pub struct Position {
    pub offset: usize,
    pub line: usize,
    pub col: usize,
}

/// The source range (start and end position) of one element.
#[derive(Debug, Clone, Copy, PartialEq, Eq, Structural)]
pub struct Span {
    pub start: Position,
    pub end: Position,
}

/// The kinds of markup a formatted section of text may have.
#[derive(Debug, Clone, Copy, PartialEq, Eq, Structural)]
pub enum MarkupType {
    NoWiki,
    Bold,
    Italic,
    Math,
    StrikeThrough,
    Underline,
    Code,
    Blockquote,
    Preformatted,
}

/// The kind of a list item.
#[derive(Debug, Clone, Copy, PartialEq, Eq, Structural)]
pub enum ListItemKind {
    Unordered,
    Definition,
    DefinitionTerm,
    Ordered,
}

/// A node of the document tree.
#[derive(Debug, PartialEq)]
pub enum Element {
    Document { position: Span, content: Vec<Element> },
    Heading { position: Span, depth: usize, caption: Vec<Element>, content: Vec<Element> },
    Text { position: Span, text: String },
    Formatted { position: Span, markup: MarkupType, content: Vec<Element> },
    Paragraph { position: Span, content: Vec<Element> },
    Template { position: Span, name: Vec<Element>, content: Vec<Element> },
    TemplateArgument { position: Span, name: String, value: Vec<Element> },
    InternalReference { position: Span, target: Vec<Element>, options: Vec<Vec<Element>>, caption: Vec<Element> },
    ExternalReference { position: Span, target: String, caption: Vec<Element> },
    ListItem { position: Span, depth: usize, kind: ListItemKind, content: Vec<Element> },
    List { position: Span, content: Vec<Element> },
    Table { position: Span, caption: Vec<Element>, rows: Vec<Element> },
    TableRow { position: Span, cells: Vec<Element> },
    TableCell { position: Span, header: bool, content: Vec<Element> },
    Comment { position: Span, text: String },
    HtmlTag { position: Span, name: String, content: Vec<Element> },
    Gallery { position: Span, content: Vec<Element> },
    Error { position: Span, message: String },
}

/// The mathematical model of an `Element`.
#[verifier::ext_equal]
pub enum ElementModel {
    Document { position: Span, content: Seq<ElementModel> },
    Heading { position: Span, depth: usize, caption: Seq<ElementModel>, content: Seq<ElementModel> },
    Text { position: Span, text: Seq<char> },
    Formatted { position: Span, markup: MarkupType, content: Seq<ElementModel> },
    Paragraph { position: Span, content: Seq<ElementModel> },
    Template { position: Span, name: Seq<ElementModel>, content: Seq<ElementModel> },
    TemplateArgument { position: Span, name: Seq<char>, value: Seq<ElementModel> },
    InternalReference { position: Span, target: Seq<ElementModel>, options: Seq<Seq<ElementModel>>, caption: Seq<ElementModel> },
    ExternalReference { position: Span, target: Seq<char>, caption: Seq<ElementModel> },
    ListItem { position: Span, depth: usize, kind: ListItemKind, content: Seq<ElementModel> },
    List { position: Span, content: Seq<ElementModel> },
    Table { position: Span, caption: Seq<ElementModel>, rows: Seq<ElementModel> },
    TableRow { position: Span, cells: Seq<ElementModel> },
    TableCell { position: Span, header: bool, content: Seq<ElementModel> },
    Comment { position: Span, text: Seq<char> },
    HtmlTag { position: Span, name: Seq<char>, content: Seq<ElementModel> },
    Gallery { position: Span, content: Seq<ElementModel> },
    Error { position: Span, message: Seq<char> },
}

/// The models of the option lists of an internal reference, in order.
pub open spec fn options_model(s: Seq<Vec<Element>>) -> Seq<Seq<ElementModel>>
    decreases s,
{
    if s.len() == 0 {
        Seq::empty()
    } else {
        seq![elems_model(s[0]@)] + options_model(s.subrange(1, s.len() as int))
    }
}

/// The models of the elements of a list, in order.
pub open spec fn elems_model(s: Seq<Element>) -> Seq<ElementModel>
    decreases s,
{
    if s.len() == 0 {
        Seq::empty()
    } else {
        seq![s[0]@] + elems_model(s.subrange(1, s.len() as int))
    }
}

impl View for Element {
    type V = ElementModel;

    open spec fn view(&self) -> ElementModel
        decreases self,
    {
        match self {
            Element::Document { position, content } => ElementModel::Document {
                position: *position,
                content: elems_model(content@),
            },
            Element::Heading { position, depth, caption, content } => ElementModel::Heading {
                position: *position,
                depth: *depth,
                caption: elems_model(caption@),
                content: elems_model(content@),
            },
            Element::Text { position, text } => ElementModel::Text {
                position: *position,
                text: text@,
            },
            Element::Formatted { position, markup, content } => ElementModel::Formatted {
                position: *position,
                markup: *markup,
                content: elems_model(content@),
            },
            Element::Paragraph { position, content } => ElementModel::Paragraph {
                position: *position,
                content: elems_model(content@),
            },
            Element::Template { position, name, content } => ElementModel::Template {
                position: *position,
                name: elems_model(name@),
                content: elems_model(content@),
            },
            Element::TemplateArgument { position, name, value } => ElementModel::TemplateArgument {
                position: *position,
                name: name@,
                value: elems_model(value@),
            },
            Element::InternalReference { position, target, options, caption } => ElementModel::InternalReference {
                position: *position,
                target: elems_model(target@),
                options: options_model(options@),
                caption: elems_model(caption@),
            },
            Element::ExternalReference { position, target, caption } => ElementModel::ExternalReference {
                position: *position,
                target: target@,
                caption: elems_model(caption@),
            },
            Element::ListItem { position, depth, kind, content } => ElementModel::ListItem {
                position: *position,
                depth: *depth,
                kind: *kind,
                content: elems_model(content@),
            },
            Element::List { position, content } => ElementModel::List {
                position: *position,
                content: elems_model(content@),
            },
            Element::Table { position, caption, rows } => ElementModel::Table {
                position: *position,
                caption: elems_model(caption@),
                rows: elems_model(rows@),
            },
            Element::TableRow { position, cells } => ElementModel::TableRow {
                position: *position,
                cells: elems_model(cells@),
            },
            Element::TableCell { position, header, content } => ElementModel::TableCell {
                position: *position,
                header: *header,
                content: elems_model(content@),
            },
            Element::Comment { position, text } => ElementModel::Comment {
                position: *position,
                text: text@,
            },
            Element::HtmlTag { position, name, content } => ElementModel::HtmlTag {
                position: *position,
                name: name@,
                content: elems_model(content@),
            },
            Element::Gallery { position, content } => ElementModel::Gallery {
                position: *position,
                content: elems_model(content@),
            },
            Element::Error { position, message } => ElementModel::Error {
                position: *position,
                message: message@,
            },
        }
    }
}

/// The model of a list of elements is the pointwise model of its members.
pub proof fn lemma_elems_model(s: Seq<Element>)
    ensures
        elems_model(s).len() == s.len(),
        forall|i: int| 0 <= i < s.len() ==> elems_model(s)[i] == #[trigger] s[i]@,
    decreases s,
{
    if s.len() == 0 {
        assert(elems_model(s).len() == 0);
    } else {
        let rest = s.subrange(1, s.len() as int);
        lemma_elems_model(rest);
        assert(elems_model(s) == seq![s[0]@] + elems_model(rest));
        assert(elems_model(s).len() == 1 + elems_model(rest).len());
        assert forall|i: int| 0 <= i < s.len() implies elems_model(s)[i] == #[trigger] s[i]@ by {
            assert(elems_model(s) == seq![s[0]@] + elems_model(rest));
            if i > 0 {
                assert(rest[i - 1] == s[i]);
                assert((seq![s[0]@] + elems_model(rest))[i] == elems_model(rest)[i - 1]);
            }
        }
    }
}

/// Build a fresh element with the same model as the given one.
pub fn copy_element(e: &Element) -> (r: Element)
    ensures
        r@ == e@,
    decreases e,
{
    match e {
        Element::Document { position, content } => Element::Document {
            position: *position,
            content: copy_elements(content),
        },
        Element::Heading { position, depth, caption, content } => Element::Heading {
            position: *position,
            depth: *depth,
            caption: copy_elements(caption),
            content: copy_elements(content),
        },
        Element::Text { position, text } => Element::Text {
            position: *position,
            text: text.clone(),
        },
        Element::Formatted { position, markup, content } => Element::Formatted {
            position: *position,
            markup: *markup,
            content: copy_elements(content),
        },
        Element::Paragraph { position, content } => Element::Paragraph {
            position: *position,
            content: copy_elements(content),
        },
        Element::Template { position, name, content } => Element::Template {
            position: *position,
            name: copy_elements(name),
            content: copy_elements(content),
        },
        Element::TemplateArgument { position, name, value } => Element::TemplateArgument {
            position: *position,
            name: name.clone(),
            value: copy_elements(value),
        },
        Element::InternalReference { position, target, options, caption } => Element::InternalReference {
            position: *position,
            target: copy_elements(target),
            options: copy_options(options),
            caption: copy_elements(caption),
        },
        Element::ExternalReference { position, target, caption } => Element::ExternalReference {
            position: *position,
            target: target.clone(),
            caption: copy_elements(caption),
        },
        Element::ListItem { position, depth, kind, content } => Element::ListItem {
            position: *position,
            depth: *depth,
            kind: *kind,
            content: copy_elements(content),
        },
        Element::List { position, content } => Element::List {
            position: *position,
            content: copy_elements(content),
        },
        Element::Table { position, caption, rows } => Element::Table {
            position: *position,
            caption: copy_elements(caption),
            rows: copy_elements(rows),
        },
        Element::TableRow { position, cells } => Element::TableRow {
            position: *position,
            cells: copy_elements(cells),
        },
        Element::TableCell { position, header, content } => Element::TableCell {
            position: *position,
            header: *header,
            content: copy_elements(content),
        },
        Element::Comment { position, text } => Element::Comment {
            position: *position,
            text: text.clone(),
        },
        Element::HtmlTag { position, name, content } => Element::HtmlTag {
            position: *position,
            name: name.clone(),
            content: copy_elements(content),
        },
        Element::Gallery { position, content } => Element::Gallery {
            position: *position,
            content: copy_elements(content),
        },
        Element::Error { position, message } => Element::Error {
            position: *position,
            message: message.clone(),
        },
    }
}

/// The model of a list of option lists is the pointwise model of its members.
pub proof fn lemma_options_model(s: Seq<Vec<Element>>)
    ensures
        options_model(s).len() == s.len(),
        forall|i: int| 0 <= i < s.len() ==> options_model(s)[i] == elems_model(
            #[trigger] s[i]@,
        ),
    decreases s,
{
    if s.len() == 0 {
        assert(options_model(s).len() == 0);
    } else {
        let rest = s.subrange(1, s.len() as int);
        lemma_options_model(rest);
        assert(options_model(s) == seq![elems_model(s[0]@)] + options_model(rest));
        assert(options_model(s).len() == 1 + options_model(rest).len());
        assert forall|i: int| 0 <= i < s.len() implies options_model(s)[i] == elems_model(
            #[trigger] s[i]@,
        ) by {
            if i > 0 {
                assert(rest[i - 1] == s[i]);
                assert((seq![elems_model(s[0]@)] + options_model(rest))[i] == options_model(
                    rest,
                )[i - 1]);
            }
        }
    }
}

/// Build fresh option lists with the same models as the given ones.
pub fn copy_options(v: &Vec<Vec<Element>>) -> (r: Vec<Vec<Element>>)
    ensures
        options_model(r@) == options_model(v@),
    decreases v,
{
    let mut out: Vec<Vec<Element>> = Vec::new();
    let mut i: usize = 0;
    while i < v.len()
        invariant
            i <= v.len(),
            out@.len() == i,
            forall|j: int| 0 <= j < i ==> elems_model(out@[j]@) == elems_model(#[trigger] v@[j]@),
        decreases v@.len() - i,
    {
        out.push(copy_elements(&v[i]));
        i = i + 1;
    }
    proof {
        lemma_options_model(out@);
        lemma_options_model(v@);
        assert forall|j: int| 0 <= j < v@.len() implies options_model(out@)[j] == options_model(
            v@,
        )[j] by {
            assert(elems_model(out@[j]@) == elems_model(v@[j]@));
        }
        assert(options_model(out@) =~= options_model(v@));
    }
    out
}

/// Build a fresh list of elements with the same models as the given ones.
pub fn copy_elements(v: &Vec<Element>) -> (r: Vec<Element>)
    ensures
        elems_model(r@) == elems_model(v@),
    decreases v,
{
    let mut out: Vec<Element> = Vec::new();
    let mut i: usize = 0;
    while i < v.len()
        invariant
            i <= v.len(),
            out@.len() == i,
            forall|j: int| 0 <= j < i ==> out@[j]@ == #[trigger] v@[j]@,
        decreases v@.len() - i,
    {
        out.push(copy_element(&v[i]));
        i = i + 1;
    }
    proof {
        lemma_elems_model(out@);
        lemma_elems_model(v@);
        assert forall|j: int| 0 <= j < v@.len() implies elems_model(out@)[j] == elems_model(
            v@,
        )[j] by {
            assert(out@[j]@ == v@[j]@);
        }
        assert(elems_model(out@) =~= elems_model(v@));
    }
    out
}

} // verus!
