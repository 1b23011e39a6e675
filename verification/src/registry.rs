//! The template specification registry: declarative template definitions are
//! compiled once, at startup, into an immutable catalog of template schemas
//! that can be queried by any of a template's names.

use vstd::prelude::*;
use crate::strutil::{normal_of, normalize_name, uppercase_char, char_is_uppercase};
use vstd::string::StringExecFns;
use vstd::string::StrSliceExecFns;

verus! {

broadcast use vstd::std_specs::vec::group_vec_axioms;

/// Whether a template stands as a logical unit of its own (`Block`), a
/// highlighted box (`Box`), or may be embedded in running text (`Inline`).
#[derive(Debug, Clone, Copy, PartialEq, Eq, Structural)]
pub enum Format {
    Block,
    Box,
    Inline,
}

/// How strongly a template attribute is wanted.
#[derive(Debug, Clone, Copy, PartialEq, Eq, Structural)]
pub enum Priority {
    Required,
    Optional,
}

/// The structural rules a template attribute's content can be held to.
/// The `*Node` rules check a single node list; the rules built on them apply
/// the node rule recursively to every list in a subtree.
#[derive(Debug, Clone, Copy, PartialEq, Eq, Structural)]
pub enum Predicate {
    MathTag,
    PlainTextNode,
    PlainText,
    NegativeSwitch,
    NavigationSpec,
    TheoremParagraphNode,
    TheoremParagraph,
    TextOnlyParagraphNode,
    TextOnlyParagraph,
    EverythingAllowed,
}

/// The display label of each structural rule.
pub open spec fn predicate_name_of(p: Predicate) -> Seq<char> {
    match p {
        Predicate::MathTag => "is_math_tag"@,
        Predicate::PlainTextNode => "is_plain_text_node"@,
        Predicate::PlainText => "is_plain_text"@,
        Predicate::NegativeSwitch => "is_negative_switch"@,
        Predicate::NavigationSpec => "is_navigation_spec"@,
        Predicate::TheoremParagraphNode => "is_theorem_paragraph_node"@,
        Predicate::TheoremParagraph => "is_theorem_paragraph"@,
        Predicate::TextOnlyParagraphNode => "is_text_only_paragraph_node"@,
        Predicate::TextOnlyParagraph => "is_text_only_paragraph"@,
        Predicate::EverythingAllowed => "everything_is_allowed"@,
    }
}

/// The display label of a structural rule.
pub fn predicate_name(p: Predicate) -> (r: String)
    ensures
        r@ == predicate_name_of(p),
{
    match p {
        Predicate::MathTag => String::from_str("is_math_tag"),
        Predicate::PlainTextNode => String::from_str("is_plain_text_node"),
        Predicate::PlainText => String::from_str("is_plain_text"),
        Predicate::NegativeSwitch => String::from_str("is_negative_switch"),
        Predicate::NavigationSpec => String::from_str("is_navigation_spec"),
        Predicate::TheoremParagraphNode => String::from_str("is_theorem_paragraph_node"),
        Predicate::TheoremParagraph => String::from_str("is_theorem_paragraph"),
        Predicate::TextOnlyParagraphNode => String::from_str("is_text_only_paragraph_node"),
        Predicate::TextOnlyParagraph => String::from_str("is_text_only_paragraph"),
        Predicate::EverythingAllowed => String::from_str("everything_is_allowed"),
    }
}

/// A declared attribute of a template kind.
#[derive(Debug, PartialEq)]
pub struct AttributeDefinition {
    pub identifier: String,
    pub names: Vec<String>,
    pub priority: Priority,
    pub predicate: Predicate,
    pub description: String,
}

/// The model of an `AttributeDefinition`.
#[verifier::ext_equal]
pub struct AttributeDefinitionModel {
    pub identifier: Seq<char>,
    pub names: Seq<Seq<char>>,
    pub priority: Priority,
    pub predicate: Predicate,
    pub description: Seq<char>,
}

impl View for AttributeDefinition {
    type V = AttributeDefinitionModel;

    open spec fn view(&self) -> AttributeDefinitionModel {
        AttributeDefinitionModel {
            identifier: self.identifier@,
            names: self.names.deep_view(),
            priority: self.priority,
            predicate: self.predicate,
            description: self.description@,
        }
    }
}

impl DeepView for AttributeDefinition {
    type V = AttributeDefinitionModel;

    open spec fn deep_view(&self) -> AttributeDefinitionModel {
        self.view()
    }
}

/// A declared template kind, as read from the specification list.
#[derive(Debug, PartialEq)]
pub struct TemplateDefinition {
    pub identifier: String,
    pub names: Vec<String>,
    pub description: String,
    pub format: Format,
    pub attributes: Vec<AttributeDefinition>,
}

/// The model of a `TemplateDefinition`.
#[verifier::ext_equal]
pub struct TemplateDefinitionModel {
    pub identifier: Seq<char>,
    pub names: Seq<Seq<char>>,
    pub description: Seq<char>,
    pub format: Format,
    pub attributes: Seq<AttributeDefinitionModel>,
}

impl View for TemplateDefinition {
    type V = TemplateDefinitionModel;

    open spec fn view(&self) -> TemplateDefinitionModel {
        TemplateDefinitionModel {
            identifier: self.identifier@,
            names: self.names.deep_view(),
            description: self.description@,
            format: self.format,
            attributes: self.attributes.deep_view(),
        }
    }
}

impl DeepView for TemplateDefinition {
    type V = TemplateDefinitionModel;

    open spec fn deep_view(&self) -> TemplateDefinitionModel {
        self.view()
    }
}

/// The compiled schema of one template attribute.
#[derive(Debug, PartialEq)]
pub struct AttributeSpec {
    pub identifier: String,
    pub names: Vec<String>,
    pub priority: Priority,
    pub predicate: Predicate,
    pub predicate_name: String,
    pub description: String,
}

/// The model of an `AttributeSpec`.
#[verifier::ext_equal]
pub struct AttributeSpecModel {
    pub identifier: Seq<char>,
    pub names: Seq<Seq<char>>,
    pub priority: Priority,
    pub predicate: Predicate,
    pub predicate_name: Seq<char>,
    pub description: Seq<char>,
}

impl View for AttributeSpec {
    type V = AttributeSpecModel;

    open spec fn view(&self) -> AttributeSpecModel {
        AttributeSpecModel {
            identifier: self.identifier@,
            names: self.names.deep_view(),
            priority: self.priority,
            predicate: self.predicate,
            predicate_name: self.predicate_name@,
            description: self.description@,
        }
    }
}

impl DeepView for AttributeSpec {
    type V = AttributeSpecModel;

    open spec fn deep_view(&self) -> AttributeSpecModel {
        self.view()
    }
}

/// The compiled schema of one template kind. Its names are stored trimmed
/// and lowercased, so queries compare normalized names for equality.
#[derive(Debug, PartialEq)]
pub struct TemplateSpec {
    pub identifier: String,
    pub names: Vec<String>,
    pub description: String,
    pub format: Format,
    pub attributes: Vec<AttributeSpec>,
}

/// The model of a `TemplateSpec`.
#[verifier::ext_equal]
pub struct TemplateSpecModel {
    pub identifier: Seq<char>,
    pub names: Seq<Seq<char>>,
    pub description: Seq<char>,
    pub format: Format,
    pub attributes: Seq<AttributeSpecModel>,
}

impl View for TemplateSpec {
    type V = TemplateSpecModel;

    open spec fn view(&self) -> TemplateSpecModel {
        TemplateSpecModel {
            identifier: self.identifier@,
            names: self.names.deep_view(),
            description: self.description@,
            format: self.format,
            attributes: self.attributes.deep_view(),
        }
    }
}

impl DeepView for TemplateSpec {
    type V = TemplateSpecModel;

    open spec fn deep_view(&self) -> TemplateSpecModel {
        self.view()
    }
}

impl TemplateSpec {
    /// The preferred name of this template: the first of its names.
    pub fn default_name(&self) -> (r: &String)
        requires
            self@.names.len() > 0,
        ensures
            r@ == self@.names[0],
    {
        &self.names[0]
    }
}

impl AttributeSpec {
    /// The preferred name of this attribute: the first of its names.
    pub fn default_name(&self) -> (r: &String)
        requires
            self@.names.len() > 0,
        ensures
            r@ == self@.names[0],
    {
        &self.names[0]
    }
}

/// A configuration defect found while compiling the specification list.
#[derive(Debug, PartialEq)]
pub enum SpecError {
    TemplateIdentifierNotUppercase { identifier: String },
    TemplateWithoutNames { identifier: String },
    AttributeIdentifierNotLowercase { identifier: String },
    AttributeWithoutNames { identifier: String },
}

/// The model of a `SpecError`.
#[verifier::ext_equal]
pub enum SpecErrorModel {
    TemplateIdentifierNotUppercase { identifier: Seq<char> },
    TemplateWithoutNames { identifier: Seq<char> },
    AttributeIdentifierNotLowercase { identifier: Seq<char> },
    AttributeWithoutNames { identifier: Seq<char> },
}

impl View for SpecError {
    type V = SpecErrorModel;

    open spec fn view(&self) -> SpecErrorModel {
        match self {
            SpecError::TemplateIdentifierNotUppercase { identifier } =>
                SpecErrorModel::TemplateIdentifierNotUppercase { identifier: identifier@ },
            SpecError::TemplateWithoutNames { identifier } =>
                SpecErrorModel::TemplateWithoutNames { identifier: identifier@ },
            SpecError::AttributeIdentifierNotLowercase { identifier } =>
                SpecErrorModel::AttributeIdentifierNotLowercase { identifier: identifier@ },
            SpecError::AttributeWithoutNames { identifier } =>
                SpecErrorModel::AttributeWithoutNames { identifier: identifier@ },
        }
    }
}

/// A template identifier is well formed when its first character is uppercase.
pub open spec fn identifier_wf(id: Seq<char>) -> bool {
    id.len() > 0 && uppercase_char(id[0])
}

/// An attribute identifier is well formed when no character is uppercase.
pub open spec fn attr_identifier_wf(id: Seq<char>) -> bool {
    forall|i: int| 0 <= i < id.len() ==> !uppercase_char(#[trigger] id[i])
}

/// One attribute definition passes the fail-fast checks.
pub open spec fn attr_def_wf(a: AttributeDefinitionModel) -> bool {
    attr_identifier_wf(a.identifier) && a.names.len() > 0
}

/// One template definition passes the fail-fast checks.
pub open spec fn template_def_wf(t: TemplateDefinitionModel) -> bool {
    &&& identifier_wf(t.identifier)
    &&& t.names.len() > 0
    &&& forall|i: int| 0 <= i < t.attributes.len() ==> attr_def_wf(#[trigger] t.attributes[i])
}

/// A whole specification list passes the fail-fast checks.
pub open spec fn defs_wf(defs: Seq<TemplateDefinitionModel>) -> bool {
    forall|i: int| 0 <= i < defs.len() ==> template_def_wf(#[trigger] defs[i])
}

/// The first defect among a template's attributes, in order.
pub open spec fn check_attrs_model(attrs: Seq<AttributeDefinitionModel>) -> Option<SpecErrorModel>
    decreases attrs,
{
    if attrs.len() == 0 {
        None
    } else if !attr_identifier_wf(attrs[0].identifier) {
        Some(SpecErrorModel::AttributeIdentifierNotLowercase { identifier: attrs[0].identifier })
    } else if attrs[0].names.len() == 0 {
        Some(SpecErrorModel::AttributeWithoutNames { identifier: attrs[0].identifier })
    } else {
        check_attrs_model(attrs.subrange(1, attrs.len() as int))
    }
}

/// The first defect of one template definition, in check order.
pub open spec fn check_template_model(t: TemplateDefinitionModel) -> Option<SpecErrorModel> {
    if !identifier_wf(t.identifier) {
        Some(SpecErrorModel::TemplateIdentifierNotUppercase { identifier: t.identifier })
    } else if t.names.len() == 0 {
        Some(SpecErrorModel::TemplateWithoutNames { identifier: t.identifier })
    } else {
        check_attrs_model(t.attributes)
    }
}

/// Names as stored in the registry: each trimmed and lowercased.
pub open spec fn normalize_names_model(names: Seq<Seq<char>>) -> Seq<Seq<char>> {
    names.map_values(|n: Seq<char>| normal_of(n))
}

/// The compiled schema of one attribute definition.
pub open spec fn build_attribute_model(a: AttributeDefinitionModel) -> AttributeSpecModel {
    AttributeSpecModel {
        identifier: a.identifier,
        names: normalize_names_model(a.names),
        priority: a.priority,
        predicate: a.predicate,
        predicate_name: predicate_name_of(a.predicate),
        description: a.description,
    }
}

/// The compiled schema of one template definition.
pub open spec fn build_template_model(t: TemplateDefinitionModel) -> TemplateSpecModel {
    TemplateSpecModel {
        identifier: t.identifier,
        names: normalize_names_model(t.names),
        description: t.description,
        format: t.format,
        attributes: t.attributes.map_values(|a: AttributeDefinitionModel| build_attribute_model(a)),
    }
}

/// The whole compilation: the compiled catalog in definition order, or the
/// first defect found.
pub open spec fn compile_model(defs: Seq<TemplateDefinitionModel>) -> Result<
    Seq<TemplateSpecModel>,
    SpecErrorModel,
>
    decreases defs,
{
    if defs.len() == 0 {
        Ok(Seq::empty())
    } else {
        match check_template_model(defs[0]) {
            Some(e) => Err(e),
            None => match compile_model(defs.subrange(1, defs.len() as int)) {
                Ok(rest) => Ok(seq![build_template_model(defs[0])] + rest),
                Err(e) => Err(e),
            },
        }
    }
}

/// The compiled, immutable catalog of template schemas.
#[derive(Debug, PartialEq)]
pub struct Registry {
    specs: Vec<TemplateSpec>,
}

impl View for Registry {
    type V = Seq<TemplateSpecModel>;

    closed spec fn view(&self) -> Seq<TemplateSpecModel> {
        self.specs.deep_view()
    }
}

/// Every compiled schema keeps a non-empty name list, for itself and for
/// each of its attributes.
pub open spec fn registry_wf(reg: Seq<TemplateSpecModel>) -> bool {
    forall|i: int| 0 <= i < reg.len() ==> {
        &&& (#[trigger] reg[i]).names.len() > 0
        &&& forall|j: int| 0 <= j < reg[i].attributes.len() ==> (
        #[trigger] reg[i].attributes[j]).names.len() > 0
    }
}

/// The first schema whose name list holds the (already normalized) name.
pub open spec fn find_spec_model(reg: Seq<TemplateSpecModel>, name: Seq<char>) -> Option<
    TemplateSpecModel,
>
    decreases reg,
{
    if reg.len() == 0 {
        None
    } else if reg[0].names.contains(name) {
        Some(reg[0])
    } else {
        find_spec_model(reg.subrange(1, reg.len() as int), name)
    }
}

/// Whether the identifier of `s` (a template identifier) has an uppercase
/// first character, as the fail-fast check asks.
fn first_char_uppercase(s: &str) -> (r: bool)
    ensures
        r == identifier_wf(s@),
{
    if s.unicode_len() == 0 {
        false
    } else {
        char_is_uppercase(s.get_char(0))
    }
}

/// Whether any character of `s` is uppercase.
fn has_uppercase_char(s: &str) -> (r: bool)
    ensures
        r == !attr_identifier_wf(s@),
{
    let n = s.unicode_len();
    let mut i: usize = 0;
    while i < n
        invariant
            i <= n,
            n == s@.len(),
            forall|j: int| 0 <= j < i ==> !uppercase_char(#[trigger] s@[j]),
        decreases n - i,
    {
        if char_is_uppercase(s.get_char(i)) {
            return true;
        }
        i = i + 1;
    }
    false
}

/// The fail-fast checks of one template definition; the first defect if any.
fn check_template(t: &TemplateDefinition) -> (r: Option<SpecError>)
    ensures
        match r {
            Some(e) => check_template_model(t@) == Some(e@),
            None => check_template_model(t@) is None,
        },
{
    if !first_char_uppercase(t.identifier.as_str()) {
        return Some(SpecError::TemplateIdentifierNotUppercase { identifier: t.identifier.clone() });
    }
    if t.names.len() == 0 {
        return Some(SpecError::TemplateWithoutNames { identifier: t.identifier.clone() });
    }
    let ghost attrs = t@.attributes;
    let mut i: usize = 0;
    proof {
        assert(attrs.subrange(0, attrs.len() as int) =~= attrs);
    }
    while i < t.attributes.len()
        invariant
            i <= t.attributes@.len(),
            attrs == t@.attributes,
            attrs.len() == t.attributes@.len(),
            check_template_model(t@) == check_attrs_model(attrs),
            forall|j: int| 0 <= j < attrs.len() ==> attrs[j] == #[trigger] t.attributes@[j]@,
            check_attrs_model(attrs) == check_attrs_model(
                attrs.subrange(i as int, attrs.len() as int),
            ),
        decreases t.attributes@.len() - i,
    {
        let ghost suffix = attrs.subrange(i as int, attrs.len() as int);
        let a = &t.attributes[i];
        proof {
            assert(suffix[0] == attrs[i as int]);
        }
        if has_uppercase_char(a.identifier.as_str()) {
            return Some(SpecError::AttributeIdentifierNotLowercase {
                identifier: a.identifier.clone(),
            });
        }
        if a.names.len() == 0 {
            return Some(SpecError::AttributeWithoutNames { identifier: a.identifier.clone() });
        }
        proof {
            assert(suffix.subrange(1, suffix.len() as int) =~= attrs.subrange(
                i + 1 as int,
                attrs.len() as int,
            ));
        }
        i = i + 1;
    }
    proof {
        assert(attrs.subrange(attrs.len() as int, attrs.len() as int)
            =~= Seq::<AttributeDefinitionModel>::empty());
    }
    None
}

/// Trim and lowercase each name of a list.
fn normalize_names(names: &Vec<String>) -> (r: Vec<String>)
    ensures
        r.deep_view() == normalize_names_model(names.deep_view()),
{
    let mut out: Vec<String> = Vec::new();
    let mut i: usize = 0;
    while i < names.len()
        invariant
            i <= names@.len(),
            out@.len() == i,
            forall|j: int| 0 <= j < i ==> out@[j]@ == normal_of(#[trigger] names@[j]@),
        decreases names@.len() - i,
    {
        out.push(normalize_name(names[i].as_str()));
        i = i + 1;
    }
    proof {
        assert(out.deep_view() =~= normalize_names_model(names.deep_view()));
    }
    out
}

/// Compile one template definition, assumed already checked.
fn build_template_spec(t: &TemplateDefinition) -> (r: TemplateSpec)
    ensures
        r@ == build_template_model(t@),
{
    let names = normalize_names(&t.names);
    let mut attributes: Vec<AttributeSpec> = Vec::new();
    let mut i: usize = 0;
    while i < t.attributes.len()
        invariant
            i <= t.attributes@.len(),
            attributes@.len() == i,
            forall|j: int| 0 <= j < i ==> attributes@[j]@ == build_attribute_model(
                #[trigger] t.attributes@[j]@,
            ),
        decreases t.attributes@.len() - i,
    {
        let a = &t.attributes[i];
        attributes.push(AttributeSpec {
            identifier: a.identifier.clone(),
            names: normalize_names(&a.names),
            priority: a.priority,
            predicate: a.predicate,
            predicate_name: predicate_name(a.predicate),
            description: a.description.clone(),
        });
        i = i + 1;
    }
    let r = TemplateSpec {
        identifier: t.identifier.clone(),
        names,
        description: t.description.clone(),
        format: t.format,
        attributes,
    };
    proof {
        assert(r@.attributes =~= build_template_model(t@).attributes);
        assert(r@ =~= build_template_model(t@));
    }
    r
}

/// `compile_model` succeeds with the catalog of compiled definitions exactly
/// when every definition is well formed; the catalog then has one schema per
/// definition, in order.
pub proof fn lemma_compile_succeeds_iff_wf(defs: Seq<TemplateDefinitionModel>)
    ensures
        compile_model(defs) is Ok <==> defs_wf(defs),
        compile_model(defs) matches Ok(specs) ==> specs == defs.map_values(
            |t: TemplateDefinitionModel| build_template_model(t),
        ),
    decreases defs,
{
    lemma_check_template_iff_wf(defs);
    if defs.len() == 0 {
        assert(defs_wf(defs));
        assert(compile_model(defs) matches Ok(specs) ==> specs =~= defs.map_values(
            |t: TemplateDefinitionModel| build_template_model(t),
        ));
    } else {
        let rest = defs.subrange(1, defs.len() as int);
        lemma_compile_succeeds_iff_wf(rest);
        assert(defs[0] == defs[0]);
        if defs_wf(defs) {
            assert(template_def_wf(defs[0]));
            assert forall|i: int| 0 <= i < rest.len() implies template_def_wf(
                #[trigger] rest[i],
            ) by {
                assert(rest[i] == defs[i + 1]);
            }
            assert(defs_wf(rest));
        }
        if compile_model(defs) is Ok {
            assert(compile_model(rest) is Ok);
            assert forall|i: int| 0 <= i < defs.len() implies template_def_wf(
                #[trigger] defs[i],
            ) by {
                if i == 0 {
                } else {
                    assert(rest[i - 1] == defs[i]);
                }
            }
        }
        if compile_model(defs) is Ok {
            let specs = compile_model(defs)->Ok_0;
            let m = |t: TemplateDefinitionModel| build_template_model(t);
            let restm = compile_model(rest)->Ok_0;
            assert(restm == rest.map_values(m));
            assert(specs == seq![build_template_model(defs[0])] + restm);
            assert forall|i: int| 0 <= i < defs.len() implies specs[i] == #[trigger] defs.map_values(
                m,
            )[i] by {
                if i > 0 {
                    assert(restm[i - 1] == rest.map_values(m)[i - 1]);
                    assert(rest[i - 1] == defs[i]);
                }
            }
            assert(specs =~= defs.map_values(m));
        }
    }
}

/// A template definition passes its checks exactly when it is well formed.
proof fn lemma_check_template_iff_wf(defs: Seq<TemplateDefinitionModel>)
    ensures
        forall|i: int| 0 <= i < defs.len() ==> (check_template_model(#[trigger] defs[i]) is None
            <==> template_def_wf(defs[i])),
{
    assert forall|i: int| 0 <= i < defs.len() implies (check_template_model(
        #[trigger] defs[i],
    ) is None <==> template_def_wf(defs[i])) by {
        lemma_check_attrs_iff_wf(defs[i].attributes);
    }
}

/// The attribute checks pass exactly when every attribute is well formed.
proof fn lemma_check_attrs_iff_wf(attrs: Seq<AttributeDefinitionModel>)
    ensures
        check_attrs_model(attrs) is None <==> forall|i: int|
            0 <= i < attrs.len() ==> attr_def_wf(#[trigger] attrs[i]),
    decreases attrs,
{
    if attrs.len() > 0 {
        let rest = attrs.subrange(1, attrs.len() as int);
        lemma_check_attrs_iff_wf(rest);
        if check_attrs_model(attrs) is None {
            assert forall|i: int| 0 <= i < attrs.len() implies attr_def_wf(
                #[trigger] attrs[i],
            ) by {
                if i > 0 {
                    assert(rest[i - 1] == attrs[i]);
                }
            }
        } else {
            if attr_def_wf(attrs[0]) {
                assert(forall|i: int| 0 <= i < rest.len() ==> #[trigger] rest[i] == attrs[i + 1]);
            }
        }
    }
}

/// Compile a specification list into a registry. Fails, with the first
/// defect found, exactly when some definition breaks a fail-fast check:
/// a template identifier that does not start uppercase, an uppercase
/// character in an attribute identifier, or an empty name list.
pub fn compile(defs: &Vec<TemplateDefinition>) -> (r: Result<Registry, SpecError>)
    ensures
        match r {
            Ok(reg) => compile_model(defs.deep_view()) == Ok::<
                Seq<TemplateSpecModel>,
                SpecErrorModel,
            >(reg@) && reg@.len() == defs@.len() && registry_wf(reg@),
            Err(e) => compile_model(defs.deep_view()) == Err::<
                Seq<TemplateSpecModel>,
                SpecErrorModel,
            >(e@),
        },
{
    let ghost dm = defs.deep_view();
    let mut specs: Vec<TemplateSpec> = Vec::new();
    let mut i: usize = 0;
    proof {
        assert(dm.len() == defs@.len());
        assert(forall|j: int| 0 <= j < dm.len() ==> #[trigger] dm[j] == defs@[j]@);
        assert(dm.subrange(0, dm.len() as int) =~= dm);
    }
    while i < defs.len()
        invariant
            i <= defs@.len(),
            dm == defs.deep_view(),
            dm.len() == defs@.len(),
            forall|j: int| 0 <= j < dm.len() ==> #[trigger] dm[j] == defs@[j]@,
            specs@.len() == i,
            forall|j: int| 0 <= j < i ==> #[trigger] specs@[j]@ == build_template_model(dm[j]),
            compile_model(dm) == compile_result_from(dm, i as int, specs.deep_view()),
        decreases defs@.len() - i,
    {
        let t = &defs[i];
        if let Some(e) = check_template(t) {
            proof {
                lemma_compile_result_from_err(dm, i as int, specs.deep_view(), e@);
            }
            return Err(e);
        }
        let built = build_template_spec(t);
        let ghost old_specs = specs.deep_view();
        specs.push(built);
        proof {
            assert(specs.deep_view() =~= old_specs + seq![build_template_model(dm[i as int])]);
            lemma_compile_result_from_step(dm, i as int, old_specs);
        }
        i = i + 1;
    }
    let reg = Registry { specs };
    proof {
        lemma_compile_result_from_done(dm, reg@);
        lemma_compile_succeeds_iff_wf(dm);
        lemma_registry_wf(dm);
    }
    Ok(reg)
}

/// What the whole compilation returns, given that the first `i` definitions
/// have already compiled to `built` without a defect.
spec fn compile_result_from(
    defs: Seq<TemplateDefinitionModel>,
    i: int,
    built: Seq<TemplateSpecModel>,
) -> Result<Seq<TemplateSpecModel>, SpecErrorModel> {
    match compile_model(defs.subrange(i, defs.len() as int)) {
        Ok(rest) => Ok(built + rest),
        Err(e) => Err(e),
    }
}

proof fn lemma_compile_result_from_err(
    defs: Seq<TemplateDefinitionModel>,
    i: int,
    built: Seq<TemplateSpecModel>,
    e: SpecErrorModel,
)
    requires
        0 <= i < defs.len(),
        compile_model(defs) == compile_result_from(defs, i, built),
        check_template_model(defs[i]) == Some(e),
    ensures
        compile_model(defs) == Err::<Seq<TemplateSpecModel>, SpecErrorModel>(e),
{
    let suffix = defs.subrange(i, defs.len() as int);
    assert(suffix[0] == defs[i]);
}

proof fn lemma_compile_result_from_step(
    defs: Seq<TemplateDefinitionModel>,
    i: int,
    built: Seq<TemplateSpecModel>,
)
    requires
        0 <= i < defs.len(),
        compile_model(defs) == compile_result_from(defs, i, built),
        check_template_model(defs[i]) is None,
    ensures
        compile_model(defs) == compile_result_from(
            defs,
            i + 1,
            built + seq![build_template_model(defs[i])],
        ),
{
    let suffix = defs.subrange(i, defs.len() as int);
    assert(suffix[0] == defs[i]);
    assert(suffix.subrange(1, suffix.len() as int) =~= defs.subrange(i + 1, defs.len() as int));
    match compile_model(defs.subrange(i + 1, defs.len() as int)) {
        Ok(rest) => {
            assert(compile_model(suffix) == Ok::<Seq<TemplateSpecModel>, SpecErrorModel>(
                seq![build_template_model(defs[i])] + rest,
            ));
            assert(built + (seq![build_template_model(defs[i])] + rest) =~= (built + seq![
                build_template_model(defs[i]),
            ]) + rest);
        },
        Err(_) => {},
    }
}

proof fn lemma_compile_result_from_done(defs: Seq<TemplateDefinitionModel>, built: Seq<TemplateSpecModel>)
    requires
        compile_model(defs) == compile_result_from(defs, defs.len() as int, built),
    ensures
        compile_model(defs) == Ok::<Seq<TemplateSpecModel>, SpecErrorModel>(built),
{
    assert(defs.subrange(defs.len() as int, defs.len() as int)
        =~= Seq::<TemplateDefinitionModel>::empty());
    assert(built + Seq::<TemplateSpecModel>::empty() =~= built);
}

/// A catalog compiled from well-formed definitions keeps non-empty name lists.
proof fn lemma_registry_wf(defs: Seq<TemplateDefinitionModel>)
    requires
        compile_model(defs) is Ok,
    ensures
        compile_model(defs) matches Ok(specs) ==> registry_wf(specs),
{
    lemma_compile_succeeds_iff_wf(defs);
    let specs = compile_model(defs)->Ok_0;
    let m = |t: TemplateDefinitionModel| build_template_model(t);
    assert forall|i: int| 0 <= i < specs.len() implies (#[trigger] specs[i]).names.len() > 0
        && forall|j: int| 0 <= j < specs[i].attributes.len() ==> (
    #[trigger] specs[i].attributes[j]).names.len() > 0 by {
        assert(specs[i] == defs.map_values(m)[i]);
        assert(template_def_wf(defs[i]));
        assert forall|j: int| 0 <= j < specs[i].attributes.len() implies (
        #[trigger] specs[i].attributes[j]).names.len() > 0 by {
            assert(attr_def_wf(defs[i].attributes[j]));
        }
    }
}

impl Registry {
    /// An empty registry, holding no template schema.
    pub fn new() -> (r: Registry)
        ensures
            r@ == Seq::<TemplateSpecModel>::empty(),
    {
        let r = Registry { specs: Vec::new() };
        proof {
            assert(r@ =~= Seq::<TemplateSpecModel>::empty());
        }
        r
    }

    /// The full catalog, in definition order.
    pub fn all_specs(&self) -> (r: &Vec<TemplateSpec>)
        ensures
            r.deep_view() == self@,
    {
        &self.specs
    }

    /// Find the schema matching a name: case-insensitive, whitespace-
    /// trimming, matching any name of any template; the first match wins.
    pub fn spec_by_name<'a>(&'a self, name: &str) -> (r: Option<&'a TemplateSpec>)
        ensures
            match r {
                Some(s) => find_spec_model(self@, normal_of(name@)) == Some(s@),
                None => find_spec_model(self@, normal_of(name@)) is None,
            },
    {
        let sought = normalize_name(name);
        let ghost reg = self@;
        let mut i: usize = 0;
        proof {
            assert(reg.len() == self.specs@.len());
            assert(forall|j: int| 0 <= j < reg.len() ==> #[trigger] reg[j] == self.specs@[j]@);
            assert(reg.subrange(0, reg.len() as int) =~= reg);
        }
        while i < self.specs.len()
            invariant
                i <= self.specs@.len(),
                reg == self@,
                reg.len() == self.specs@.len(),
                forall|j: int| 0 <= j < reg.len() ==> #[trigger] reg[j] == self.specs@[j]@,
                sought@ == normal_of(name@),
                find_spec_model(reg, normal_of(name@)) == find_spec_model(
                    reg.subrange(i as int, reg.len() as int),
                    normal_of(name@),
                ),
            decreases self.specs@.len() - i,
        {
            let ghost suffix = reg.subrange(i as int, reg.len() as int);
            proof {
                assert(suffix[0] == reg[i as int]);
            }
            if names_contain(&self.specs[i].names, &sought) {
                return Some(&self.specs[i]);
            }
            proof {
                assert(suffix.subrange(1, suffix.len() as int) =~= reg.subrange(
                    i + 1 as int,
                    reg.len() as int,
                ));
            }
            i = i + 1;
        }
        proof {
            assert(reg.subrange(reg.len() as int, reg.len() as int)
                =~= Seq::<TemplateSpecModel>::empty());
        }
        None
    }
}

/// Whether a list of names holds the name sought, compared exactly.
pub(crate) fn names_contain(names: &Vec<String>, sought: &String) -> (r: bool)
    ensures
        r == names.deep_view().contains(sought@),
{
    let mut i: usize = 0;
    while i < names.len()
        invariant
            i <= names@.len(),
            forall|j: int| 0 <= j < i ==> #[trigger] names@[j]@ != sought@,
        decreases names@.len() - i,
    {
        if names[i].eq(sought) {
            assert(names.deep_view()[i as int] == sought@);
            return true;
        }
        i = i + 1;
    }
    proof {
        assert forall|j: int| 0 <= j < names.deep_view().len() implies #[trigger] names.deep_view()[j]
            != sought@ by {
            assert(names@[j]@ != sought@);
        }
    }
    false
}

/// `spec_by_name` is case-insensitive and whitespace-trimming: two names
/// that agree once trimmed and lowercased find the same schema.
pub proof fn lemma_spec_by_name_case_insensitive(
    reg: Seq<TemplateSpecModel>,
    a: Seq<char>,
    b: Seq<char>,
)
    requires
        normal_of(a) == normal_of(b),
    ensures
        find_spec_model(reg, normal_of(a)) == find_spec_model(reg, normal_of(b)),
{
}

} // verus!
