//! What `#[derive(Couture)]` makes of `#[couture(prompt)]` marks: which fields become marked
//! args, which types are merged in or hang below as subcommands, and which marks are errors.

use vstd::prelude::*;
use crate::expand::{clone_opt, opt_view};
use crate::naming::{attrs_have_key, attrs_str, first_str, has_clap_key, is_clap_subcommand, ClapAttr, KeyValue};
use crate::text::str_eq;

verus! {

/// How clap treats a struct field.
#[derive(Clone, Copy, PartialEq, Eq, Structural, Debug)]
pub enum FieldKind {
    Arg,
    Flatten,
    Skip,
    Subcommand,
}

/// How clap treats a field with these attribute keys: `flatten` first, then `subcommand`, then
/// `skip`, otherwise an arg.
pub open spec fn kind_of(attrs: Seq<ClapAttr>) -> FieldKind {
    if attrs_have_key(attrs, "flatten"@) {
        FieldKind::Flatten
    } else if attrs_have_key(attrs, "subcommand"@) {
        FieldKind::Subcommand
    } else if attrs_have_key(attrs, "skip"@) {
        FieldKind::Skip
    } else {
        FieldKind::Arg
    }
}

/// How clap treats a field whose `#[command]` / `#[clap]` / `#[arg]` attributes hold `attrs`.
pub fn field_kind(attrs: &Vec<ClapAttr>) -> (kind: FieldKind)
    ensures
        kind == kind_of(attrs@),
{
    if has_clap_key(attrs, "flatten") {
        FieldKind::Flatten
    } else if has_clap_key(attrs, "subcommand") {
        FieldKind::Subcommand
    } else if has_clap_key(attrs, "skip") {
        FieldKind::Skip
    } else {
        FieldKind::Arg
    }
}

/// A `#[couture(prompt)]` or `#[couture(prompt = "...")]` on a field.
pub struct PromptMark {
    pub question: Option<String>,
}

/// Why a field's `#[couture(...)]` is rejected.
#[derive(Clone, Copy, PartialEq, Eq, Structural, Debug)]
pub enum PromptAttrError {
    /// A key other than `prompt`.
    UnexpectedKey,
    /// `prompt` with a value that is not a string literal.
    QuestionNotString,
    /// Something other than a `,` or the end of the attribute after a key: `prompt(...)`, or a
    /// question followed by more tokens.
    ExpectedComma,
    /// A mark without the `interactive` feature.
    NeedsInteractive,
}

impl PromptAttrError {
    /// The compile error's message.
    pub fn message(&self) -> (m: &'static str)
        ensures
            m@ == match self {
                PromptAttrError::UnexpectedKey => "expected `prompt` or `prompt = \"...\"`"@,
                PromptAttrError::QuestionNotString => "expected string literal"@,
                PromptAttrError::ExpectedComma => "expected `,`"@,
                PromptAttrError::NeedsInteractive => "`#[couture(prompt)]` needs clap-couture's `interactive` feature; enable it or one of `interactive-cliclack`, `interactive-dialoguer`, `interactive-inquire`"@,
            },
    {
        match self {
            PromptAttrError::UnexpectedKey => "expected `prompt` or `prompt = \"...\"`",
            PromptAttrError::QuestionNotString => "expected string literal",
            PromptAttrError::ExpectedComma => "expected `,`",
            PromptAttrError::NeedsInteractive => "`#[couture(prompt)]` needs clap-couture's `interactive` feature; enable it or one of `interactive-cliclack`, `interactive-dialoguer`, `interactive-inquire`",
        }
    }
}

/// The outcome of reading `#[couture(...)]` keys: the walk goes key by key, the last `prompt`
/// wins, and the first bad key stops it with its error. `acc` is the mark found so far.
pub open spec fn walk_prompt_keys(keys: Seq<crate::naming::ClapKey>, acc: Option<Option<Seq<char>>>)
    -> Result<Option<Option<Seq<char>>>, PromptAttrError>
    decreases keys.len(),
{
    if keys.len() == 0 {
        Ok(acc)
    } else if keys[0].path@ != "prompt"@ {
        Err(PromptAttrError::UnexpectedKey)
    } else {
        match keys[0].value {
            KeyValue::Bare => walk_prompt_keys(keys.drop_first(), Some(None)),
            KeyValue::Str(q) => walk_prompt_keys(keys.drop_first(), Some(Some(q@))),
            KeyValue::Other => Err(PromptAttrError::QuestionNotString),
            KeyValue::List => Err(PromptAttrError::ExpectedComma),
        }
    }
}

/// The walk over every `#[couture(...)]` attribute in turn.
pub open spec fn walk_prompt_attrs(attrs: Seq<ClapAttr>, acc: Option<Option<Seq<char>>>)
    -> Result<Option<Option<Seq<char>>>, PromptAttrError>
    decreases attrs.len(),
{
    if attrs.len() == 0 {
        Ok(acc)
    } else {
        match walk_prompt_keys(attrs[0].keys@, acc) {
            Ok(found) => if attrs[0].ends_in_error {
                Err(PromptAttrError::ExpectedComma)
            } else {
                walk_prompt_attrs(attrs.drop_first(), found)
            },
            Err(e) => Err(e),
        }
    }
}

/// A field's mark: the question of its last `prompt` (`None` asks the help text), `None` when
/// unmarked; a mark without the `interactive` feature is an error.
pub open spec fn prompt_of(attrs: Seq<ClapAttr>, interactive: bool) -> Result<Option<Option<Seq<char>>>, PromptAttrError> {
    match walk_prompt_attrs(attrs, None) {
        Ok(Some(q)) => if interactive { Ok(Some(q)) } else { Err(PromptAttrError::NeedsInteractive) },
        other => other,
    }
}

/// The mark as plain values.
pub open spec fn mark_view(m: Option<PromptMark>) -> Option<Option<Seq<char>>> {
    match m {
        Some(m) => Some(opt_view(m.question)),
        None => None,
    }
}

/// Read a field's `#[couture(...)]` attributes (their keys, in order).
pub fn parse_prompt(attrs: &Vec<ClapAttr>, interactive: bool) -> (mark: Result<Option<PromptMark>, PromptAttrError>)
    ensures
        match prompt_of(attrs@, interactive) {
            Ok(m) => mark is Ok && mark_view(mark->Ok_0) == m,
            Err(e) => mark == Err::<Option<PromptMark>, PromptAttrError>(e),
        },
{
    let mut found: Option<PromptMark> = None;
    assert(attrs@.subrange(0, attrs@.len() as int) =~= attrs@);
    let mut i: usize = 0;
    while i < attrs.len()
        invariant
            i <= attrs@.len(),
            walk_prompt_attrs(attrs@, None) == walk_prompt_attrs(attrs@.subrange(i as int, attrs@.len() as int), mark_view(found)),
        decreases attrs@.len() - i,
    {
        let ghost rest = attrs@.subrange(i as int, attrs@.len() as int);
        assert(rest.drop_first() =~= attrs@.subrange(i + 1, attrs@.len() as int));
        let keys = &attrs[i].keys;
        let ghost start = mark_view(found);
        assert(keys@.subrange(0, keys@.len() as int) =~= keys@);
        let mut j: usize = 0;
        while j < keys.len()
            invariant
                j <= keys@.len(),
                i < attrs@.len(),
                keys == &attrs@[i as int].keys,
                rest == attrs@.subrange(i as int, attrs@.len() as int),
                walk_prompt_attrs(attrs@, None) == walk_prompt_attrs(rest, start),
                walk_prompt_keys(keys@, start) == walk_prompt_keys(keys@.subrange(j as int, keys@.len() as int), mark_view(found)),
            decreases keys@.len() - j,
        {
            let ghost krest = keys@.subrange(j as int, keys@.len() as int);
            assert(krest.drop_first() =~= keys@.subrange(j + 1, keys@.len() as int));
            if !str_eq(keys[j].path.as_str(), "prompt") {
                return Err(PromptAttrError::UnexpectedKey);
            }
            match &keys[j].value {
                KeyValue::Bare => found = Some(PromptMark { question: None }),
                KeyValue::Str(q) => found = Some(PromptMark { question: Some(q.clone()) }),
                KeyValue::Other => return Err(PromptAttrError::QuestionNotString),
                KeyValue::List => return Err(PromptAttrError::ExpectedComma),
            }
            j = j + 1;
        }
        assert(keys@.subrange(j as int, keys@.len() as int) =~= Seq::<crate::naming::ClapKey>::empty());
        if attrs[i].ends_in_error {
            return Err(PromptAttrError::ExpectedComma);
        }
        i = i + 1;
    }
    assert(attrs@.subrange(i as int, attrs@.len() as int) =~= Seq::<ClapAttr>::empty());
    match found {
        Some(m) => if interactive { Ok(Some(m)) } else { Err(PromptAttrError::NeedsInteractive) },
        None => Ok(None),
    }
}

} // verus!

verus! {

/// What the derive reads off one struct field.
pub struct FieldInfo {
    /// The keys of its `#[command(...)]` and `#[clap(...)]` attributes, which say how clap
    /// treats it.
    pub clap_attrs: Vec<ClapAttr>,
    /// The keys of its `#[arg(...)]` and `#[clap(...)]` attributes, in order, which may give
    /// its arg an `id`.
    pub arg_attrs: Vec<ClapAttr>,
    /// The keys of its `#[couture(...)]` attributes.
    pub couture_attrs: Vec<ClapAttr>,
    /// Whether its type is a `Vec`, a multi-value arg.
    pub is_vec: bool,
    /// Its ident without `r#`, `None` for a tuple field.
    pub ident: Option<String>,
}

/// A marked arg: the clap id and the question override.
pub struct MarkedArg {
    pub id: String,
    pub question: Option<String>,
}

/// What a field contributes to its level's prompt node.
pub enum FieldPlan {
    /// A marked arg of this level.
    Marked(MarkedArg),
    /// The flattened type's node (one `Option` peeled), merged into this level.
    Flatten,
    /// The subcommand type's node (one `Option` peeled), merged into this level.
    Subcommand,
    /// Nothing.
    Nothing,
}

/// Why a field cannot contribute.
#[derive(Clone, Copy, PartialEq, Eq, Structural, Debug)]
pub enum FieldError {
    Attr(PromptAttrError),
    MarkOnFlatten,
    MarkOnSubcommand,
    MarkOnSkipped,
    MultiValue,
    Unnamed,
}

impl FieldError {
    /// The compile error's message.
    pub fn message(&self) -> (m: &'static str)
        ensures
            m@ == match self {
                FieldError::Attr(e) => match e {
                    PromptAttrError::UnexpectedKey => "expected `prompt` or `prompt = \"...\"`"@,
                    PromptAttrError::QuestionNotString => "expected string literal"@,
                    PromptAttrError::ExpectedComma => "expected `,`"@,
                    PromptAttrError::NeedsInteractive => "`#[couture(prompt)]` needs clap-couture's `interactive` feature; enable it or one of `interactive-cliclack`, `interactive-dialoguer`, `interactive-inquire`"@,
                },
                FieldError::MarkOnFlatten => "`#[couture(prompt)]` marks a single arg; put it on the fields of the flattened type instead"@,
                FieldError::MarkOnSubcommand => "`#[couture(prompt)]` marks a single arg; put it on the fields of the subcommand's variants instead"@,
                FieldError::MarkOnSkipped => "`#[couture(prompt)]` cannot mark a field clap skips"@,
                FieldError::MultiValue => "`#[couture(prompt)]` does not support multi-value args yet; take a single value or drop the prompt"@,
                FieldError::Unnamed => "`#[couture(prompt)]` needs a named field"@,
            },
    {
        match self {
            FieldError::Attr(e) => e.message(),
            FieldError::MarkOnFlatten => "`#[couture(prompt)]` marks a single arg; put it on the fields of the flattened type instead",
            FieldError::MarkOnSubcommand => "`#[couture(prompt)]` marks a single arg; put it on the fields of the subcommand's variants instead",
            FieldError::MarkOnSkipped => "`#[couture(prompt)]` cannot mark a field clap skips",
            FieldError::MultiValue => "`#[couture(prompt)]` does not support multi-value args yet; take a single value or drop the prompt",
            FieldError::Unnamed => "`#[couture(prompt)]` needs a named field",
        }
    }
}

/// A field's plan as plain values.
pub enum PlanView {
    Marked(Seq<char>, Option<Seq<char>>),
    Flatten,
    Subcommand,
    Nothing,
}

impl View for FieldPlan {
    type V = PlanView;

    open spec fn view(&self) -> PlanView {
        match self {
            FieldPlan::Marked(m) => PlanView::Marked(m.id@, opt_view(m.question)),
            FieldPlan::Flatten => PlanView::Flatten,
            FieldPlan::Subcommand => PlanView::Subcommand,
            FieldPlan::Nothing => PlanView::Nothing,
        }
    }
}

/// The clap id of a field: the first `id = "..."` of its arg attributes, or its ident.
pub open spec fn arg_id_of(field: FieldInfo) -> Option<Seq<char>> {
    match attrs_str(field.arg_attrs@, "id"@) {
        Some(id) => Some(id),
        None => opt_view(field.ident),
    }
}

/// What a field contributes, or why it cannot.
pub open spec fn field_plan_of(field: FieldInfo, interactive: bool) -> Result<PlanView, FieldError> {
    match prompt_of(field.couture_attrs@, interactive) {
        Err(e) => Err(FieldError::Attr(e)),
        Ok(mark) => match (kind_of(field.clap_attrs@), mark) {
            (FieldKind::Arg, Some(question)) => if field.is_vec {
                Err(FieldError::MultiValue)
            } else {
                match arg_id_of(field) {
                    Some(id) => Ok(PlanView::Marked(id, question)),
                    None => Err(FieldError::Unnamed),
                }
            },
            (FieldKind::Flatten, None) => Ok(PlanView::Flatten),
            (FieldKind::Subcommand, None) => Ok(PlanView::Subcommand),
            (FieldKind::Arg, None) => Ok(PlanView::Nothing),
            (FieldKind::Skip, None) => Ok(PlanView::Nothing),
            (FieldKind::Flatten, Some(_)) => Err(FieldError::MarkOnFlatten),
            (FieldKind::Skip, Some(_)) => Err(FieldError::MarkOnSkipped),
            (FieldKind::Subcommand, Some(_)) => Err(FieldError::MarkOnSubcommand),
        },
    }
}

/// A field without a prompt mark is never an error: it contributes its flattened or subcommand
/// type's node, or nothing (a plain or skipped field). Only a marked field can be rejected for
/// where its mark sits, and a marked plain single-value named field becomes a marked arg.
pub proof fn law_unmarked_fields_never_fail(field: FieldInfo, interactive: bool)
    ensures
        field.couture_attrs@.len() == 0 ==> prompt_of(field.couture_attrs@, interactive) == Ok::<Option<Option<Seq<char>>>, PromptAttrError>(None),
        prompt_of(field.couture_attrs@, interactive) == Ok::<Option<Option<Seq<char>>>, PromptAttrError>(None) ==> {
            &&& field_plan_of(field, interactive) is Ok
            &&& attrs_have_key(field.clap_attrs@, "flatten"@) ==> field_plan_of(field, interactive) == Ok::<PlanView, FieldError>(PlanView::Flatten)
            &&& !attrs_have_key(field.clap_attrs@, "flatten"@) && attrs_have_key(field.clap_attrs@, "subcommand"@)
                ==> field_plan_of(field, interactive) == Ok::<PlanView, FieldError>(PlanView::Subcommand)
            &&& !attrs_have_key(field.clap_attrs@, "flatten"@) && !attrs_have_key(field.clap_attrs@, "subcommand"@)
                ==> field_plan_of(field, interactive) == Ok::<PlanView, FieldError>(PlanView::Nothing)
        },
        forall|e: FieldError| field_plan_of(field, interactive) == Err::<PlanView, FieldError>(e) && !(e is Attr)
            ==> #[trigger] prompt_of(field.couture_attrs@, interactive) matches Ok(Some(_)),
        match prompt_of(field.couture_attrs@, interactive) {
            Ok(Some(q)) => (!field.is_vec && !attrs_have_key(field.clap_attrs@, "flatten"@)
                && !attrs_have_key(field.clap_attrs@, "subcommand"@) && !attrs_have_key(field.clap_attrs@, "skip"@)
                && field.ident is Some) ==> (field_plan_of(field, interactive) matches Ok(PlanView::Marked(_, question))
                && question == q),
            _ => true,
        },
{
    if field.couture_attrs@.len() == 0 {
        assert(walk_prompt_attrs(field.couture_attrs@, None) == Ok::<Option<Option<Seq<char>>>, PromptAttrError>(None));
    }
}

/// What one field contributes, or why it cannot.
pub fn field_plan(field: &FieldInfo, interactive: bool) -> (plan: Result<FieldPlan, FieldError>)
    ensures
        match field_plan_of(*field, interactive) {
            Ok(p) => plan is Ok && plan->Ok_0@ == p,
            Err(e) => plan == Err::<FieldPlan, FieldError>(e),
        },
{
    let mark = match parse_prompt(&field.couture_attrs, interactive) {
        Ok(m) => m,
        Err(e) => return Err(FieldError::Attr(e)),
    };
    match (field_kind(&field.clap_attrs), mark) {
        (FieldKind::Arg, Some(m)) => {
            if field.is_vec {
                return Err(FieldError::MultiValue);
            }
            let id = match first_str(&field.arg_attrs, "id") {
                Some(id) => id,
                None => match &field.ident {
                    Some(ident) => ident.clone(),
                    None => return Err(FieldError::Unnamed),
                },
            };
            Ok(FieldPlan::Marked(MarkedArg { id, question: m.question }))
        },
        (FieldKind::Flatten, None) => Ok(FieldPlan::Flatten),
        (FieldKind::Subcommand, None) => Ok(FieldPlan::Subcommand),
        (FieldKind::Arg, None) => Ok(FieldPlan::Nothing),
        (FieldKind::Skip, None) => Ok(FieldPlan::Nothing),
        (FieldKind::Flatten, Some(_)) => Err(FieldError::MarkOnFlatten),
        (FieldKind::Skip, Some(_)) => Err(FieldError::MarkOnSkipped),
        (FieldKind::Subcommand, Some(_)) => Err(FieldError::MarkOnSubcommand),
    }
}

/// The plans of a command level's fields, in order; the first field that cannot contribute
/// stops it with its index and error.
pub fn fields_plan(fields: &Vec<FieldInfo>, interactive: bool) -> (plans: Result<Vec<FieldPlan>, (usize, FieldError)>)
    ensures
        match plans {
            Ok(ps) => ps@.len() == fields@.len() && forall|k: int| 0 <= k < fields@.len() ==>
                field_plan_of(#[trigger] fields@[k], interactive) == Ok::<PlanView, FieldError>(ps@[k]@),
            Err((i, e)) => i < fields@.len() && field_plan_of(fields@[i as int], interactive) == Err::<PlanView, FieldError>(e)
                && forall|k: int| 0 <= k < i ==> (#[trigger] field_plan_of(fields@[k], interactive)) is Ok,
        },
{
    let mut out: Vec<FieldPlan> = Vec::new();
    let mut i: usize = 0;
    while i < fields.len()
        invariant
            i <= fields@.len(),
            out@.len() == i,
            forall|k: int| 0 <= k < i ==>
                field_plan_of(#[trigger] fields@[k], interactive) == Ok::<PlanView, FieldError>(out@[k]@),
        decreases fields@.len() - i,
    {
        match field_plan(&fields[i], interactive) {
            Ok(p) => out.push(p),
            Err(e) => return Err((i, e)),
        }
        i = i + 1;
    }
    Ok(out)
}

/// The field clap treats as the struct's subcommand: the first one marked
/// `#[command(subcommand)]`, whose type (one `Option` peeled) owns the struct's categories.
pub fn subcommand_field(fields: &Vec<FieldInfo>) -> (index: Option<usize>)
    ensures
        match index {
            Some(i) => i < fields@.len() && attrs_have_key(fields@[i as int].clap_attrs@, "subcommand"@)
                && forall|k: int| 0 <= k < i ==> !attrs_have_key((#[trigger] fields@[k]).clap_attrs@, "subcommand"@),
            None => forall|k: int| 0 <= k < fields@.len() ==> !attrs_have_key((#[trigger] fields@[k]).clap_attrs@, "subcommand"@),
        },
{
    let mut i: usize = 0;
    while i < fields.len()
        invariant
            i <= fields@.len(),
            forall|k: int| 0 <= k < i ==> !attrs_have_key((#[trigger] fields@[k]).clap_attrs@, "subcommand"@),
        decreases fields@.len() - i,
    {
        if is_clap_subcommand(&fields[i].clap_attrs) {
            return Some(i);
        }
        i = i + 1;
    }
    None
}

/// The shape of a subcommand enum variant.
pub enum VariantShape {
    /// `Variant { ... }`: its own command level.
    Named,
    /// `Variant(T, ...)`, with whether it has a first field.
    Unnamed(bool),
    /// `Variant`.
    Unit,
}

/// What a variant contributes to the enum's prompt node.
#[derive(Clone, Copy, PartialEq, Eq, Structural, Debug)]
pub enum VariantPlan {
    /// Nothing: skipped, external, a unit variant or one without fields.
    Skip,
    /// A subcommand whose own fields make its node.
    SubcommandFields,
    /// The first field's type, merged into the enum's level.
    FlattenType,
    /// A subcommand whose node is the first field's type's.
    SubcommandType,
}

/// What a variant with these keys and this shape contributes.
pub open spec fn variant_plan_of(attrs: Seq<ClapAttr>, shape: VariantShape) -> VariantPlan {
    if attrs_have_key(attrs, "skip"@) || attrs_have_key(attrs, "external_subcommand"@) {
        VariantPlan::Skip
    } else {
        match shape {
            VariantShape::Named => VariantPlan::SubcommandFields,
            VariantShape::Unnamed(has_first) => if !has_first {
                VariantPlan::Skip
            } else if attrs_have_key(attrs, "flatten"@) {
                VariantPlan::FlattenType
            } else {
                VariantPlan::SubcommandType
            },
            VariantShape::Unit => VariantPlan::Skip,
        }
    }
}

/// What a variant contributes to the enum's prompt node.
pub fn variant_plan(attrs: &Vec<ClapAttr>, shape: &VariantShape) -> (plan: VariantPlan)
    ensures
        plan == variant_plan_of(attrs@, *shape),
{
    if has_clap_key(attrs, "skip") || has_clap_key(attrs, "external_subcommand") {
        return VariantPlan::Skip;
    }
    match shape {
        VariantShape::Named => VariantPlan::SubcommandFields,
        VariantShape::Unnamed(has_first) => {
            if !*has_first {
                VariantPlan::Skip
            } else if has_clap_key(attrs, "flatten") {
                VariantPlan::FlattenType
            } else {
                VariantPlan::SubcommandType
            }
        },
        VariantShape::Unit => VariantPlan::Skip,
    }
}

} // verus!
