use clap_couture::expand::{
    allowed_categories, merge_categories, plan_entries, CategoriesSpec, CategoryAttr, CategoryDef, Inherit,
    InheritSpec, VariantCategory,
};
use clap_couture::naming::{ClapAttr, ClapKey, KeyValue};
use clap_couture::prompt_plan::{
    field_kind, field_plan, fields_plan, parse_prompt, subcommand_field, variant_plan, FieldError, FieldInfo, FieldKind, FieldPlan,
    PromptAttrError, VariantPlan, VariantShape,
};

fn def(label: &str, title: Option<&str>) -> CategoryDef {
    CategoryDef { description: None, label: label.to_owned(), title: title.map(str::to_owned) }
}

fn variant(name: &str, label: Option<&str>) -> VariantCategory {
    VariantCategory { name: name.to_owned(), label: label.map(str::to_owned) }
}

fn strings(v: &[&str]) -> Vec<String> {
    v.iter().map(|s| (*s).to_owned()).collect()
}

#[test]
fn allowed_categories_follow_the_inherit_rule() {
    let declared = vec![def("everyday", None), def("admin", None)];
    assert_eq!(allowed_categories(&declared, &InheritSpec::NoInherit), Some(strings(&["everyday", "admin"])));
    assert_eq!(allowed_categories(&declared, &InheritSpec::All), None);
    assert_eq!(
        allowed_categories(&declared, &InheritSpec::List(strings(&["sync"]))),
        Some(strings(&["everyday", "admin", "sync"]))
    );
    assert_eq!(allowed_categories(&Vec::new(), &InheritSpec::NoInherit), None);
    assert_eq!(allowed_categories(&Vec::new(), &InheritSpec::List(strings(&["sync"]))), Some(strings(&["sync"])));
}

#[test]
fn entries_follow_declared_category_order() {
    let declared = vec![def("everyday", Some("Everyday")), def("deploy", None)];
    let variants = vec![
        variant("deploy", Some("deploy")),
        variant("login", None),
        variant("logs", Some("everyday")),
        variant("rollback", Some("deploy")),
        variant("search", Some("everyday")),
    ];
    let entries = plan_entries(&declared, &InheritSpec::NoInherit, &variants).ok().unwrap();
    let got: Vec<(&str, &str, Option<&str>)> =
        entries.iter().map(|e| (e.name.as_str(), e.label.as_str(), e.title.as_deref())).collect();
    assert_eq!(got, [
        ("logs", "everyday", Some("Everyday")),
        ("search", "everyday", Some("Everyday")),
        ("deploy", "deploy", None),
        ("rollback", "deploy", None),
    ]);
}

#[test]
fn a_typo_in_a_category_is_an_error() {
    let declared = vec![def("everyday", None)];
    let variants = vec![variant("search", Some("everyday")), variant("x", Some("typo")), variant("y", Some("other"))];
    let err = plan_entries(&declared, &InheritSpec::NoInherit, &variants).err().unwrap();
    assert_eq!(err.label, "typo");
    assert_eq!(err.variant, 1);
    assert_eq!(err.message(), "category `typo` is not declared or inherited in this enum's `#[couture(...)]`");
}

#[test]
fn inherited_categories_render_with_only_their_label() {
    let declared = vec![def("everyday", None)];
    let variants = vec![variant("login", Some("sync")), variant("search", Some("everyday"))];
    let err = plan_entries(&declared, &InheritSpec::NoInherit, &variants).err().unwrap();
    assert_eq!(err.label, "sync");
    assert_eq!(err.variant, 0);
    let entries = plan_entries(&declared, &InheritSpec::List(strings(&["sync"])), &variants).ok().unwrap();
    let got: Vec<(&str, &str)> = entries.iter().map(|e| (e.name.as_str(), e.label.as_str())).collect();
    assert_eq!(got, [("search", "everyday"), ("login", "sync")]);
    assert!(entries[1].title.is_none() && entries[1].description.is_none());
    // Declaring and inheriting nothing checks nothing.
    assert!(plan_entries(&Vec::new(), &InheritSpec::NoInherit, &variants).is_ok());
}

#[test]
fn the_last_couture_attribute_sets_the_inherit_rule() {
    let specs = vec![
        CategoriesSpec {
            categories: vec![("a".to_owned(), CategoryAttr { description: Some("d".to_owned()), title: None })],
            inherit: Some(Inherit::All(true)),
        },
        CategoriesSpec {
            categories: vec![("b".to_owned(), CategoryAttr { description: None, title: Some("B".to_owned()) })],
            inherit: None,
        },
    ];
    let (defs, inherit) = merge_categories(&specs);
    let labels: Vec<&str> = defs.iter().map(|d| d.label.as_str()).collect();
    assert_eq!(labels, ["a", "b"]);
    assert_eq!(defs[0].description.as_deref(), Some("d"));
    assert_eq!(defs[1].title.as_deref(), Some("B"));
    assert!(matches!(inherit, InheritSpec::NoInherit));
    let (_, inherit) = merge_categories(&vec![CategoriesSpec {
        categories: Vec::new(),
        inherit: Some(Inherit::List(strings(&["x"]))),
    }]);
    assert!(matches!(inherit, InheritSpec::List(list) if list == ["x"]));
    let (_, inherit) = merge_categories(&vec![CategoriesSpec { categories: Vec::new(), inherit: Some(Inherit::All(false)) }]);
    assert!(matches!(inherit, InheritSpec::NoInherit));
}

fn key(path: &str, value: KeyValue) -> ClapKey {
    ClapKey { path: path.to_owned(), value }
}

fn attrs(keys: Vec<ClapKey>) -> Vec<ClapAttr> {
    vec![ClapAttr { keys, ends_in_error: false }]
}

#[test]
fn a_prompt_mark_reads_its_question() {
    let bare = parse_prompt(&attrs(vec![key("prompt", KeyValue::Bare)]), true);
    assert!(matches!(bare, Ok(Some(m)) if m.question.is_none()));
    let asked = parse_prompt(&attrs(vec![key("prompt", KeyValue::Str("Which?".to_owned()))]), true);
    assert!(matches!(asked, Ok(Some(m)) if m.question.as_deref() == Some("Which?")));
    assert!(matches!(parse_prompt(&Vec::new(), false), Ok(None)));
}

#[test]
fn a_bad_prompt_mark_is_an_error() {
    let other = parse_prompt(&attrs(vec![key("ask", KeyValue::Bare)]), true);
    assert_eq!(other.err(), Some(PromptAttrError::UnexpectedKey));
    let not_str = parse_prompt(&attrs(vec![key("prompt", KeyValue::Other)]), true);
    assert_eq!(not_str.err(), Some(PromptAttrError::QuestionNotString));
    let off = parse_prompt(&attrs(vec![key("prompt", KeyValue::Bare)]), false);
    assert_eq!(off.err(), Some(PromptAttrError::NeedsInteractive));
    assert_eq!(PromptAttrError::UnexpectedKey.message(), "expected `prompt` or `prompt = \"...\"`");
    let list = parse_prompt(&attrs(vec![key("prompt", KeyValue::List)]), true);
    assert_eq!(list.err(), Some(PromptAttrError::ExpectedComma));
    let trailing = vec![ClapAttr { keys: vec![key("prompt", KeyValue::Str("Q".to_owned()))], ends_in_error: true }];
    assert_eq!(parse_prompt(&trailing, true).err(), Some(PromptAttrError::ExpectedComma));
    let bad_key_first = vec![ClapAttr { keys: vec![key("ask", KeyValue::Bare)], ends_in_error: true }];
    assert_eq!(parse_prompt(&bad_key_first, true).err(), Some(PromptAttrError::UnexpectedKey));
    assert_eq!(PromptAttrError::ExpectedComma.message(), "expected `,`");
}

fn field(clap: Vec<ClapKey>, couture: Vec<ClapKey>, is_vec: bool, ident: Option<&str>) -> FieldInfo {
    field_with_arg(clap, Vec::new(), couture, is_vec, ident)
}

fn field_with_arg(clap: Vec<ClapKey>, arg: Vec<ClapKey>, couture: Vec<ClapKey>, is_vec: bool, ident: Option<&str>) -> FieldInfo {
    FieldInfo {
        clap_attrs: attrs(clap),
        arg_attrs: attrs(arg),
        couture_attrs: if couture.is_empty() { Vec::new() } else { attrs(couture) },
        is_vec,
        ident: ident.map(str::to_owned),
    }
}

#[test]
fn field_kinds_follow_clap_keys() {
    assert_eq!(field_kind(&attrs(vec![key("flatten", KeyValue::Bare), key("subcommand", KeyValue::Bare)])), FieldKind::Flatten);
    assert_eq!(field_kind(&attrs(vec![key("subcommand", KeyValue::Bare)])), FieldKind::Subcommand);
    assert_eq!(field_kind(&attrs(vec![key("skip", KeyValue::Bare)])), FieldKind::Skip);
    assert_eq!(field_kind(&attrs(vec![key("long", KeyValue::Bare)])), FieldKind::Arg);
}

#[test]
fn a_marked_field_becomes_an_arg_with_its_clap_id() {
    let prompt = || vec![key("prompt", KeyValue::Bare)];
    let zone = field_plan(
        &field_with_arg(Vec::new(), vec![key("long", KeyValue::Bare), key("id", KeyValue::Str("zone".to_owned()))], prompt(), false, Some("region")),
        true,
    );
    assert!(matches!(zone, Ok(FieldPlan::Marked(m)) if m.id == "zone" && m.question.is_none()));
    let named = field_plan(&field(vec![key("long", KeyValue::Bare)], prompt(), false, Some("type")), true);
    assert!(matches!(named, Ok(FieldPlan::Marked(m)) if m.id == "type"));
    let flatten = field_plan(&field(vec![key("flatten", KeyValue::Bare)], Vec::new(), false, Some("common")), true);
    assert!(matches!(flatten, Ok(FieldPlan::Flatten)));
    let sub = field_plan(&field(vec![key("subcommand", KeyValue::Bare)], Vec::new(), false, Some("cmd")), true);
    assert!(matches!(sub, Ok(FieldPlan::Subcommand)));
    let plain = field_plan(&field(vec![key("long", KeyValue::Bare)], Vec::new(), false, Some("x")), true);
    assert!(matches!(plain, Ok(FieldPlan::Nothing)));
}

#[test]
fn marks_that_cannot_become_a_single_prompt_are_errors() {
    let prompt = || vec![key("prompt", KeyValue::Bare)];
    let cases = [
        (field(vec![key("long", KeyValue::Bare)], prompt(), true, Some("tags")), FieldError::MultiValue),
        (field(vec![key("flatten", KeyValue::Bare)], prompt(), false, Some("c")), FieldError::MarkOnFlatten),
        (field(vec![key("subcommand", KeyValue::Bare)], prompt(), false, Some("c")), FieldError::MarkOnSubcommand),
        (field(vec![key("skip", KeyValue::Bare)], prompt(), false, Some("c")), FieldError::MarkOnSkipped),
        (field(vec![key("long", KeyValue::Bare)], prompt(), false, None), FieldError::Unnamed),
    ];
    for (f, expected) in cases {
        assert_eq!(field_plan(&f, true).err(), Some(expected));
    }
    assert_eq!(
        FieldError::MarkOnFlatten.message(),
        "`#[couture(prompt)]` marks a single arg; put it on the fields of the flattened type instead"
    );
}

#[test]
fn fields_plan_stops_at_the_first_bad_field() {
    let fields = vec![
        field(vec![key("long", KeyValue::Bare)], vec![key("prompt", KeyValue::Bare)], false, Some("a")),
        field(vec![key("long", KeyValue::Bare)], vec![key("prompt", KeyValue::Bare)], true, Some("b")),
        field(vec![key("skip", KeyValue::Bare)], vec![key("prompt", KeyValue::Bare)], false, Some("c")),
    ];
    assert_eq!(fields_plan(&fields, true).err(), Some((1, FieldError::MultiValue)));
    let good = vec![
        field(vec![key("long", KeyValue::Bare)], vec![key("prompt", KeyValue::Bare)], false, Some("a")),
        field(vec![key("flatten", KeyValue::Bare)], Vec::new(), false, Some("common")),
    ];
    let plans = fields_plan(&good, true).ok().unwrap();
    assert_eq!(plans.len(), 2);
    assert!(matches!(&plans[0], FieldPlan::Marked(m) if m.id == "a"));
    assert!(matches!(plans[1], FieldPlan::Flatten));
}

#[test]
fn variants_contribute_by_shape() {
    let none: Vec<ClapAttr> = Vec::new();
    assert_eq!(variant_plan(&none, &VariantShape::Named), VariantPlan::SubcommandFields);
    assert_eq!(variant_plan(&none, &VariantShape::Unnamed(true)), VariantPlan::SubcommandType);
    assert_eq!(variant_plan(&attrs(vec![key("flatten", KeyValue::Bare)]), &VariantShape::Unnamed(true)), VariantPlan::FlattenType);
    assert_eq!(variant_plan(&none, &VariantShape::Unnamed(false)), VariantPlan::Skip);
    assert_eq!(variant_plan(&none, &VariantShape::Unit), VariantPlan::Skip);
    assert_eq!(variant_plan(&attrs(vec![key("skip", KeyValue::Bare)]), &VariantShape::Named), VariantPlan::Skip);
    assert_eq!(variant_plan(&attrs(vec![key("external_subcommand", KeyValue::Bare)]), &VariantShape::Unnamed(true)), VariantPlan::Skip);
}

#[test]
fn the_first_subcommand_field_owns_the_categories() {
    let fields = vec![
        field(vec![key("long", KeyValue::Bare)], Vec::new(), false, Some("verbose")),
        field(vec![key("subcommand", KeyValue::Bare)], Vec::new(), false, Some("cmd")),
        field(vec![key("subcommand", KeyValue::Bare)], Vec::new(), false, Some("other")),
    ];
    assert_eq!(subcommand_field(&fields), Some(1));
    assert_eq!(subcommand_field(&vec![field(vec![key("flatten", KeyValue::Bare)], Vec::new(), false, None)]), None);
    assert_eq!(subcommand_field(&Vec::new()), None);
}
