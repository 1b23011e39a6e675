//! The template matcher: given a template node and the compiled registry,
//! find the schema matching the template's name and extract its declared
//! attributes, or report "no recognized match".

use vstd::prelude::*;
use crate::ast::{Element, ElementModel, elems_model, lemma_elems_model, copy_elements};
use crate::registry::{
    Registry, TemplateSpecModel, AttributeSpecModel, Priority, Format, find_spec_model,
    names_contain,
};
use crate::strutil::{normal_of, normalize_name, str_eq};
use crate::util::{extract_plain_text, plain_text_of};

verus! {

broadcast use vstd::std_specs::vec::group_vec_axioms;

/// A concrete value found for a declared template attribute.
#[derive(Debug, PartialEq)]
pub struct Attribute {
    pub name: String,
    pub priority: Priority,
    pub value: Vec<Element>,
}

/// The model of an `Attribute`.
#[verifier::ext_equal]
pub struct AttributeModel {
    pub name: Seq<char>,
    pub priority: Priority,
    pub value: Seq<ElementModel>,
}

impl View for Attribute {
    type V = AttributeModel;

    open spec fn view(&self) -> AttributeModel {
        AttributeModel {
            name: self.name@,
            priority: self.priority,
            value: elems_model(self.value@),
        }
    }
}

impl DeepView for Attribute {
    type V = AttributeModel;

    open spec fn deep_view(&self) -> AttributeModel {
        self.view()
    }
}

/// A recognized template invocation: the schema it matched and the declared
/// attributes that were present, in schema order.
#[derive(Debug, PartialEq)]
pub struct KnownTemplate {
    pub identifier: String,
    pub names: Vec<String>,
    pub description: String,
    pub format: Format,
    pub present: Vec<Attribute>,
}

/// The model of a `KnownTemplate`.
#[verifier::ext_equal]
pub struct KnownTemplateModel {
    pub identifier: Seq<char>,
    pub names: Seq<Seq<char>>,
    pub description: Seq<char>,
    pub format: Format,
    pub present: Seq<AttributeModel>,
}

impl View for KnownTemplate {
    type V = KnownTemplateModel;

    open spec fn view(&self) -> KnownTemplateModel {
        KnownTemplateModel {
            identifier: self.identifier@,
            names: self.names.deep_view(),
            description: self.description@,
            format: self.format,
            present: self.present.deep_view(),
        }
    }
}

/// The first attribute value of `present` carrying the given name, exactly.
pub open spec fn find_attr_model(present: Seq<AttributeModel>, name: Seq<char>) -> Option<
    AttributeModel,
>
    decreases present,
{
    if present.len() == 0 {
        None
    } else if present[0].name == name {
        Some(present[0])
    } else {
        find_attr_model(present.subrange(1, present.len() as int), name)
    }
}

impl KnownTemplate {
    /// The identifier of the schema this template matched.
    pub fn identifier(&self) -> (r: &String)
        ensures
            r@ == self@.identifier,
    {
        &self.identifier
    }

    /// The description of the schema this template matched.
    pub fn description(&self) -> (r: &String)
        ensures
            r@ == self@.description,
    {
        &self.description
    }

    /// The names of the schema this template matched.
    pub fn names(&self) -> (r: &Vec<String>)
        ensures
            r.deep_view() == self@.names,
    {
        &self.names
    }

    /// The attributes found, in schema order.
    pub fn present(&self) -> (r: &Vec<Attribute>)
        ensures
            r.deep_view() == self@.present,
    {
        &self.present
    }

    /// The first found attribute with the given name, compared exactly.
    pub fn find(&self, name: &str) -> (r: Option<&Attribute>)
        ensures
            match r {
                Some(a) => find_attr_model(self@.present, name@) == Some(a@),
                None => find_attr_model(self@.present, name@) is None,
            },
    {
        let ghost present = self@.present;
        let mut i: usize = 0;
        proof {
            assert(present.len() == self.present@.len());
            assert(forall|j: int| 0 <= j < present.len() ==> #[trigger] present[j]
                == self.present@[j]@);
            assert(present.subrange(0, present.len() as int) =~= present);
        }
        while i < self.present.len()
            invariant
                i <= self.present@.len(),
                present == self@.present,
                present.len() == self.present@.len(),
                forall|j: int| 0 <= j < present.len() ==> #[trigger] present[j]
                    == self.present@[j]@,
                find_attr_model(present, name@) == find_attr_model(
                    present.subrange(i as int, present.len() as int),
                    name@,
                ),
            decreases self.present@.len() - i,
        {
            let ghost suffix = present.subrange(i as int, present.len() as int);
            proof {
                assert(suffix[0] == present[i as int]);
            }
            if str_eq(self.present[i].name.as_str(), name) {
                return Some(&self.present[i]);
            }
            proof {
                assert(suffix.subrange(1, suffix.len() as int) =~= present.subrange(
                    i + 1 as int,
                    present.len() as int,
                ));
            }
            i = i + 1;
        }
        proof {
            assert(present.subrange(present.len() as int, present.len() as int)
                =~= Seq::<AttributeModel>::empty());
        }
        None
    }
}

/// The first template argument among `args` whose normalized name is one of
/// the (already normalized) names given, if any.
pub open spec fn find_arg_any_model(args: Seq<ElementModel>, names: Seq<Seq<char>>) -> Option<
    ElementModel,
>
    decreases args,
{
    if args.len() == 0 {
        None
    } else if (args[0] matches ElementModel::TemplateArgument { name: n, .. } && names.contains(
        normal_of(n),
    )) {
        Some(args[0])
    } else {
        find_arg_any_model(args.subrange(1, args.len() as int), names)
    }
}

/// Whether some required attribute of the schema has no matching argument.
pub open spec fn required_missing(attrs: Seq<AttributeSpecModel>, args: Seq<ElementModel>) -> bool {
    exists|i: int|
        0 <= i < attrs.len() && (#[trigger] attrs[i]).priority is Required && find_arg_any_model(
            args,
            attrs[i].names,
        ) is None
}

/// The attributes found among `args`, in schema order, each carrying its
/// attribute identifier, priority and the argument's value.
pub open spec fn present_of(attrs: Seq<AttributeSpecModel>, args: Seq<ElementModel>) -> Seq<
    AttributeModel,
>
    decreases attrs,
{
    if attrs.len() == 0 {
        Seq::empty()
    } else {
        let rest = present_of(attrs.subrange(1, attrs.len() as int), args);
        match find_arg_any_model(args, attrs[0].names) {
            Some(arg) => seq![
                AttributeModel {
                    name: attrs[0].identifier,
                    priority: attrs[0].priority,
                    value: arg->value,
                },
            ] + rest,
            None => rest,
        }
    }
}

/// The parsed form of a template invocation against one schema: nothing if a
/// required attribute is missing, else the typed representation.
pub open spec fn build_known_model(s: TemplateSpecModel, args: Seq<ElementModel>) -> Option<
    KnownTemplateModel,
> {
    if required_missing(s.attributes, args) {
        None
    } else {
        Some(
            KnownTemplateModel {
                identifier: s.identifier,
                names: s.names,
                description: s.description,
                format: s.format,
                present: present_of(s.attributes, args),
            },
        )
    }
}

/// What `parse_template` returns: nothing unless the node is a template whose
/// name matches a schema and every required attribute of that schema has a
/// matching argument.
pub open spec fn parse_template_model(t: ElementModel, reg: Seq<TemplateSpecModel>) -> Option<
    KnownTemplateModel,
> {
    match t {
        ElementModel::Template { name, content, .. } => {
            match find_spec_model(reg, normal_of(plain_text_of(name))) {
                Some(s) => build_known_model(s, content),
                None => None,
            }
        },
        _ => None,
    }
}

/// The first template argument whose normalized name is one of the given
/// (already normalized) names.
fn find_arg_any<'a>(args: &'a Vec<Element>, names: &Vec<String>) -> (r: Option<&'a Element>)
    ensures
        match r {
            Some(e) => find_arg_any_model(elems_model(args@), names.deep_view()) == Some(e@)
                && e@ is TemplateArgument,
            None => find_arg_any_model(elems_model(args@), names.deep_view()) is None,
        },
{
    let ghost am = elems_model(args@);
    let ghost nm = names.deep_view();
    let mut i: usize = 0;
    proof {
        lemma_elems_model(args@);
        assert(am.subrange(0, am.len() as int) =~= am);
    }
    while i < args.len()
        invariant
            i <= args@.len(),
            am == elems_model(args@),
            nm == names.deep_view(),
            am.len() == args@.len(),
            forall|j: int| 0 <= j < am.len() ==> #[trigger] am[j] == args@[j]@,
            find_arg_any_model(am, nm) == find_arg_any_model(
                am.subrange(i as int, am.len() as int),
                nm,
            ),
        decreases args@.len() - i,
    {
        let ghost suffix = am.subrange(i as int, am.len() as int);
        let child = &args[i];
        let mut matched = false;
        if let Element::TemplateArgument { name, .. } = child {
            let norm = normalize_name(name.as_str());
            matched = names_contain(names, &norm);
        }
        proof {
            assert(suffix[0] == am[i as int]);
        }
        if matched {
            return Some(child);
        }
        proof {
            assert(suffix.subrange(1, suffix.len() as int) =~= am.subrange(
                i + 1 as int,
                am.len() as int,
            ));
        }
        i = i + 1;
    }
    proof {
        assert(am.subrange(am.len() as int, am.len() as int) =~= Seq::<ElementModel>::empty());
    }
    None
}

/// Fresh copies of a list of strings.
fn copy_strings(v: &Vec<String>) -> (r: Vec<String>)
    ensures
        r.deep_view() == v.deep_view(),
{
    let mut out: Vec<String> = Vec::new();
    let mut i: usize = 0;
    while i < v.len()
        invariant
            i <= v@.len(),
            out@.len() == i,
            forall|j: int| 0 <= j < i ==> out@[j]@ == #[trigger] v@[j]@,
        decreases v@.len() - i,
    {
        out.push(v[i].clone());
        i = i + 1;
    }
    proof {
        assert(out.deep_view() =~= v.deep_view());
    }
    out
}

/// Try to recognize a template invocation, using the registry: normalize the
/// template's name, take the first schema carrying that name, and extract its
/// declared attributes from the template's arguments. An unknown name and a
/// missing required attribute both yield "no match".
pub fn parse_template(template: &Element, registry: &Registry) -> (r: Option<KnownTemplate>)
    ensures
        match r {
            Some(kt) => parse_template_model(template@, registry@) == Some(kt@),
            None => parse_template_model(template@, registry@) is None,
        },
{
    let (name, content) = match template {
        Element::Template { name, content, .. } => (name, content),
        _ => {
            return None;
        },
    };
    let name_text = extract_plain_text(name.as_slice());
    let spec_found = match registry.spec_by_name(name_text.as_str()) {
        Some(s) => s,
        None => {
            return None;
        },
    };
    let ghost s = spec_found@;
    let ghost args = elems_model(content@);
    let ghost attrs = s.attributes;
    let mut present: Vec<Attribute> = Vec::new();
    let mut i: usize = 0;
    proof {
        assert(attrs.subrange(0, attrs.len() as int) =~= attrs);
        assert(Seq::<AttributeModel>::empty() + present_of(attrs, args) =~= present_of(
            attrs,
            args,
        ));
    }
    while i < spec_found.attributes.len()
        invariant
            i <= spec_found.attributes@.len(),
            s == spec_found@,
            attrs == s.attributes,
            args == elems_model(content@),
            attrs.len() == spec_found.attributes@.len(),
            forall|j: int| 0 <= j < attrs.len() ==> #[trigger] attrs[j]
                == spec_found.attributes@[j]@,
            parse_template_model(template@, registry@) == build_known_model(s, args),
            forall|j: int|
                0 <= j < i ==> !((#[trigger] attrs[j]).priority is Required && find_arg_any_model(
                    args,
                    attrs[j].names,
                ) is None),
            present.deep_view() + present_of(attrs.subrange(i as int, attrs.len() as int), args)
                == present_of(attrs, args),
        decreases spec_found.attributes@.len() - i,
    {
        let ghost suffix = attrs.subrange(i as int, attrs.len() as int);
        let a = &spec_found.attributes[i];
        proof {
            assert(suffix[0] == attrs[i as int]);
            assert(suffix.subrange(1, suffix.len() as int) =~= attrs.subrange(
                i + 1 as int,
                attrs.len() as int,
            ));
        }
        let ghost old_present = present.deep_view();
        match find_arg_any(content, &a.names) {
            Some(arg) => {
                if let Element::TemplateArgument { value, .. } = arg {
                    present.push(Attribute {
                        name: a.identifier.clone(),
                        priority: a.priority,
                        value: copy_elements(value),
                    });
                    proof {
                        assert(present.deep_view() =~= old_present + seq![
                            AttributeModel {
                                name: attrs[i as int].identifier,
                                priority: attrs[i as int].priority,
                                value: (arg@)->value,
                            },
                        ]);
                        assert(present_of(suffix, args) == seq![
                            AttributeModel {
                                name: attrs[i as int].identifier,
                                priority: attrs[i as int].priority,
                                value: (arg@)->value,
                            },
                        ] + present_of(suffix.subrange(1, suffix.len() as int), args));
                        assert(present.deep_view() + present_of(
                            attrs.subrange(i + 1 as int, attrs.len() as int),
                            args,
                        ) =~= present_of(attrs, args));
                    }
                } else {
                    proof {
                        assert(arg@ is TemplateArgument);
                        assert(false);
                    }
                }
            },
            None => {
                match a.priority {
                    Priority::Required => {
                        proof {
                            assert(attrs[i as int].priority is Required && find_arg_any_model(
                                args,
                                attrs[i as int].names,
                            ) is None);
                            assert(required_missing(s.attributes, args));
                        }
                        return None;
                    },
                    Priority::Optional => {
                        proof {
                            assert(present_of(suffix, args) == present_of(
                                suffix.subrange(1, suffix.len() as int),
                                args,
                            ));
                        }
                    },
                }
            },
        }
        i = i + 1;
    }
    proof {
        assert(attrs.subrange(attrs.len() as int, attrs.len() as int)
            =~= Seq::<AttributeSpecModel>::empty());
        assert(present.deep_view() =~= present_of(attrs, args));
        assert(!required_missing(s.attributes, args));
    }
    let kt = KnownTemplate {
        identifier: spec_found.identifier.clone(),
        names: copy_strings(&spec_found.names),
        description: spec_found.description.clone(),
        format: spec_found.format,
        present,
    };
    proof {
        assert(kt@ =~= build_known_model(s, args)->Some_0);
    }
    Some(kt)
}

/// A required attribute pins the match: if the schema found for a template's
/// name declares a required attribute, an invocation without a matching
/// argument is not recognized; one with every required argument is, and the
/// parsed template then carries that argument's content among its attributes.
pub proof fn lemma_required_attribute_round_trip(
    reg: Seq<TemplateSpecModel>,
    t: ElementModel,
    s: TemplateSpecModel,
    i: int,
)
    requires
        t is Template,
        find_spec_model(reg, normal_of(plain_text_of(t->Template_name))) == Some(s),
        0 <= i < s.attributes.len(),
        s.attributes[i].priority is Required,
    ensures
        find_arg_any_model(t->Template_content, s.attributes[i].names) is None
            ==> parse_template_model(t, reg) is None,
        !required_missing(s.attributes, t->Template_content) ==> parse_template_model(t, reg)
            is Some,
        parse_template_model(t, reg) matches Some(kt) ==> find_arg_any_model(
            t->Template_content,
            s.attributes[i].names,
        ) matches Some(arg) && kt.present.contains(
            AttributeModel {
                name: s.attributes[i].identifier,
                priority: s.attributes[i].priority,
                value: arg->value,
            },
        ),
{
    let args = t->Template_content;
    if find_arg_any_model(args, s.attributes[i].names) is None {
        assert(required_missing(s.attributes, args));
    }
    if parse_template_model(t, reg) is Some {
        assert(!required_missing(s.attributes, args));
        if find_arg_any_model(args, s.attributes[i].names) is None {
            assert(required_missing(s.attributes, args));
        }
        let arg = find_arg_any_model(args, s.attributes[i].names)->Some_0;
        lemma_present_of_contains(s.attributes, args, i);
    }
}

/// If the `i`th attribute of a schema has a matching argument, the extracted
/// attribute list holds its value.
proof fn lemma_present_of_contains(attrs: Seq<AttributeSpecModel>, args: Seq<ElementModel>, i: int)
    requires
        0 <= i < attrs.len(),
        find_arg_any_model(args, attrs[i].names) is Some,
    ensures
        present_of(attrs, args).contains(
            AttributeModel {
                name: attrs[i].identifier,
                priority: attrs[i].priority,
                value: (find_arg_any_model(args, attrs[i].names)->Some_0)->value,
            },
        ),
    decreases attrs,
{
    let a = AttributeModel {
        name: attrs[i].identifier,
        priority: attrs[i].priority,
        value: (find_arg_any_model(args, attrs[i].names)->Some_0)->value,
    };
    let rest = attrs.subrange(1, attrs.len() as int);
    if i == 0 {
        assert(present_of(attrs, args)[0] == a);
    } else {
        lemma_present_of_contains(rest, args, i - 1);
        assert(rest[i - 1] == attrs[i]);
        let k = choose|k: int|
            0 <= k < present_of(rest, args).len() && present_of(rest, args)[k] == a;
        match find_arg_any_model(args, attrs[0].names) {
            Some(_) => {
                assert(present_of(attrs, args)[k + 1] == a);
            },
            None => {
                assert(present_of(attrs, args)[k] == a);
            },
        }
    }
}

} // verus!
