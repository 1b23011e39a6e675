//! Plain-text extraction and template-argument lookup.

use vstd::prelude::*;
use crate::ast::{Element, ElementModel, elems_model, lemma_elems_model};
use crate::strutil::{normal_of, normalize_name};
use vstd::string::StringExecFns;

verus! {

broadcast use vstd::std_specs::vec::group_vec_axioms;

/// The plain text of one node: the text of a Text node, and the plain text
/// of the children of Formatted, Paragraph and TemplateArgument nodes;
/// structural nodes contribute nothing.
pub open spec fn elem_plain_text(e: ElementModel) -> Seq<char>
    decreases e,
{
    match e {
        ElementModel::Text { text, .. } => text,
        ElementModel::Formatted { content, .. } => plain_text_of(content),
        ElementModel::Paragraph { content, .. } => plain_text_of(content),
        ElementModel::TemplateArgument { value, .. } => plain_text_of(value),
        _ => Seq::empty(),
    }
}

/// The concatenated plain text of a list of nodes, in order.
pub open spec fn plain_text_of(s: Seq<ElementModel>) -> Seq<char>
    decreases s,
{
    if s.len() == 0 {
        Seq::empty()
    } else {
        plain_text_of(s.subrange(0, s.len() - 1)) + elem_plain_text(s.last())
    }
}

/// Extract the plain text of a list of nodes and concatenate it.
pub fn extract_plain_text(content: &[Element]) -> (r: String)
    ensures
        r@ == plain_text_of(elems_model(content@)),
{
    let mut out = String::new();
    let mut i: usize = 0;
    proof {
        lemma_elems_model(content@);
    }
    while i < content.len()
        invariant
            i <= content@.len(),
            elems_model(content@).len() == content@.len(),
            forall|j: int| 0 <= j < content@.len() ==> elems_model(content@)[j] == #[trigger] content@[j]@,
            out@ == plain_text_of(elems_model(content@).subrange(0, i as int)),
        decreases content@.len() - i,
    {
        let ghost prefix = elems_model(content@).subrange(0, i as int);
        push_plain_text(&content[i], &mut out);
        proof {
            let next = elems_model(content@).subrange(0, i + 1 as int);
            assert(next.subrange(0, next.len() - 1) =~= prefix);
            assert(next.last() == content@[i as int]@);
        }
        i = i + 1;
    }
    proof {
        assert(elems_model(content@).subrange(0, content@.len() as int) =~= elems_model(
            content@,
        ));
    }
    out
}

/// Append the plain text of one node to the accumulator.
fn push_plain_text(e: &Element, out: &mut String)
    ensures
        final(out)@ == old(out)@ + elem_plain_text(e@),
    decreases e,
{
    match e {
        Element::Text { text, .. } => {
            out.append(text.as_str());
        },
        Element::Formatted { content, .. } => {
            push_plain_text_list(content, out);
        },
        Element::Paragraph { content, .. } => {
            push_plain_text_list(content, out);
        },
        Element::TemplateArgument { value, .. } => {
            push_plain_text_list(value, out);
        },
        _ => {
            proof {
                assert(old(out)@ + elem_plain_text(e@) =~= old(out)@);
            }
        },
    }
}

/// Append the plain text of a list of nodes to the accumulator.
fn push_plain_text_list(v: &Vec<Element>, out: &mut String)
    ensures
        final(out)@ == old(out)@ + plain_text_of(elems_model(v@)),
    decreases v,
{
    let mut i: usize = 0;
    proof {
        lemma_elems_model(v@);
        assert(old(out)@ + plain_text_of(elems_model(v@).subrange(0, 0)) =~= old(out)@);
    }
    while i < v.len()
        invariant
            i <= v@.len(),
            elems_model(v@).len() == v@.len(),
            forall|j: int| 0 <= j < v@.len() ==> elems_model(v@)[j] == #[trigger] v@[j]@,
            out@ == old(out)@ + plain_text_of(elems_model(v@).subrange(0, i as int)),
        decreases v@.len() - i,
    {
        let ghost prefix = elems_model(v@).subrange(0, i as int);
        push_plain_text(&v[i], out);
        proof {
            let next = elems_model(v@).subrange(0, i + 1 as int);
            assert(next.subrange(0, next.len() - 1) =~= prefix);
            assert(next.last() == v@[i as int]@);
        }
        i = i + 1;
    }
    proof {
        assert(elems_model(v@).subrange(0, v@.len() as int) =~= elems_model(v@));
    }
}

/// The first template argument in the list whose normalized name equals the
/// (already normalized) name sought, if any.
pub open spec fn find_arg_model(s: Seq<ElementModel>, name: Seq<char>) -> Option<ElementModel>
    decreases s,
{
    if s.len() == 0 {
        None
    } else if (s[0] matches ElementModel::TemplateArgument { name: n, .. } && normal_of(n)
        == name) {
        Some(s[0])
    } else {
        find_arg_model(s.subrange(1, s.len() as int), name)
    }
}

/// Return the template argument with the given name from a list, comparing
/// names case-insensitively after trimming.
pub fn find_arg<'a>(content: &'a [Element], arg_name: &str) -> (r: Option<&'a Element>)
    ensures
        match r {
            Some(e) => find_arg_model(elems_model(content@), normal_of(arg_name@)) == Some(e@)
                && e@ is TemplateArgument,
            None => find_arg_model(elems_model(content@), normal_of(arg_name@)) is None,
        },
{
    let sought = normalize_name(arg_name);
    let mut i: usize = 0;
    proof {
        lemma_elems_model(content@);
        assert(elems_model(content@).subrange(0, content@.len() as int) =~= elems_model(
            content@,
        ));
    }
    while i < content.len()
        invariant
            i <= content@.len(),
            elems_model(content@).len() == content@.len(),
            forall|j: int| 0 <= j < content@.len() ==> elems_model(content@)[j]
                == #[trigger] content@[j]@,
            sought@ == normal_of(arg_name@),
            find_arg_model(elems_model(content@), normal_of(arg_name@)) == find_arg_model(
                elems_model(content@).subrange(i as int, content@.len() as int),
                normal_of(arg_name@),
            ),
        decreases content@.len() - i,
    {
        let ghost suffix = elems_model(content@).subrange(i as int, content@.len() as int);
        let child = &content[i];
        let mut matched = false;
        if let Element::TemplateArgument { name, .. } = child {
            let norm = normalize_name(name.as_str());
            matched = norm.eq(&sought);
        }
        proof {
            assert(suffix[0] == content@[i as int]@);
        }
        if matched {
            return Some(child);
        }
        proof {
            assert(suffix.subrange(1, suffix.len() as int) =~= elems_model(content@).subrange(
                i + 1 as int,
                content@.len() as int,
            ));
        }
        i = i + 1;
    }
    proof {
        assert(elems_model(content@).subrange(
            content@.len() as int,
            content@.len() as int,
        ) =~= Seq::<ElementModel>::empty());
    }
    None
}

} // verus!
