use clap_couture::naming::{
    casing_from_attrs, clap_name, first_str, has_clap_key, is_clap_subcommand, CasingStyle, ClapAttr, ClapKey,
    KeyValue, SubcommandNaming,
};

fn key(path: &str, value: KeyValue) -> ClapKey {
    ClapKey { path: path.to_owned(), value }
}

fn s(v: &str) -> KeyValue {
    KeyValue::Str(v.to_owned())
}

fn attr(keys: Vec<ClapKey>) -> ClapAttr {
    ClapAttr { keys, ends_in_error: false }
}

#[test]
fn each_casing_renames_dry_run() {
    let cases = [
        (CasingStyle::Camel, "dryRun"),
        (CasingStyle::Kebab, "dry-run"),
        (CasingStyle::Lower, "dryrun"),
        (CasingStyle::Pascal, "DryRun"),
        (CasingStyle::ScreamingSnake, "DRY_RUN"),
        (CasingStyle::Snake, "dry_run"),
        (CasingStyle::Upper, "DRYRUN"),
        (CasingStyle::Verbatim, "DryRun"),
    ];
    for (casing, expected) in cases {
        assert_eq!(casing.apply("DryRun"), expected, "{casing:?}");
    }
}

#[test]
fn rename_all_values_ignore_case_and_separators() {
    assert_eq!(CasingStyle::from_lit("kebab-case"), Some(CasingStyle::Kebab));
    assert_eq!(CasingStyle::from_lit("KebabCase"), Some(CasingStyle::Kebab));
    assert_eq!(CasingStyle::from_lit("kebab"), Some(CasingStyle::Kebab));
    assert_eq!(CasingStyle::from_lit("SCREAMING_SNAKE_CASE"), Some(CasingStyle::ScreamingSnake));
    assert_eq!(CasingStyle::from_lit("snake_case"), Some(CasingStyle::Snake));
    assert_eq!(CasingStyle::from_lit("lowercase"), Some(CasingStyle::Lower));
    assert_eq!(CasingStyle::from_lit("UPPERCASE"), Some(CasingStyle::Upper));
    assert_eq!(CasingStyle::from_lit("camelCase"), Some(CasingStyle::Camel));
    assert_eq!(CasingStyle::from_lit("PascalCase"), Some(CasingStyle::Pascal));
    assert_eq!(CasingStyle::from_lit("verbatim"), Some(CasingStyle::Verbatim));
    assert_eq!(CasingStyle::from_lit("title case"), None);
}

#[test]
fn the_first_name_wins_and_a_malformed_one_ends_its_attribute() {
    let attrs = vec![
        attr(vec![key("about", KeyValue::Bare), key("name", KeyValue::Other), key("name", s("skipped"))]),
        attr(vec![key("name", s("ls")), key("name", s("later"))]),
    ];
    assert_eq!(clap_name(&attrs).as_deref(), Some("ls"));
    assert_eq!(clap_name(&vec![attr(vec![key("about", s("x"))])]), None);
    assert_eq!(first_str(&attrs, "about"), None);
}

#[test]
fn the_last_accepted_rename_all_wins() {
    let attrs = vec![
        attr(vec![key("rename_all", s("snake_case")), key("rename_all", s("bogus"))]),
        attr(vec![key("rename_all", KeyValue::Other), key("rename_all", s("kebab-case"))]),
    ];
    assert_eq!(casing_from_attrs(&attrs), Some(CasingStyle::Snake));
    let later = vec![attr(vec![key("rename_all", s("snake_case"))]), attr(vec![key("rename_all", s("UPPERCASE"))])];
    assert_eq!(casing_from_attrs(&later), Some(CasingStyle::Upper));
    assert_eq!(casing_from_attrs(&Vec::new()), None);
}

#[test]
fn keys_are_found_in_any_attribute() {
    let attrs = vec![attr(vec![key("long", KeyValue::Bare)]), attr(vec![key("subcommand", KeyValue::Bare)])];
    assert!(is_clap_subcommand(&attrs));
    assert!(has_clap_key(&attrs, "long"));
    assert!(!has_clap_key(&attrs, "flatten"));
}

#[test]
fn categories_name_variants_the_way_clap_does() {
    // `DefaultCasing`: kebab-case unless a variant is named.
    let default = SubcommandNaming::from_container(&Vec::new());
    assert_eq!(default.name_of(&Vec::new(), "DryRun"), "dry-run");
    assert_eq!(default.name_of(&vec![attr(vec![key("name", s("ls"))])], "List"), "ls");
    assert_eq!(default.name_of(&Vec::new(), "Type"), "type");
    // `EnumCasing`: the enum's snake_case.
    let snake = SubcommandNaming::from_container(&vec![attr(vec![key("rename_all", s("snake_case"))])]);
    assert_eq!(snake.name_of(&Vec::new(), "DryRun"), "dry_run");
    // `VariantCasing`: a variant's own casing, and a name over any casing.
    assert_eq!(snake.name_of(&vec![attr(vec![key("rename_all", s("kebab-case"))])], "DryRun"), "dry-run");
    let named = vec![attr(vec![key("name", s("ls")), key("rename_all", s("SCREAMING_SNAKE_CASE"))])];
    assert_eq!(snake.name_of(&named, "List"), "ls");
}

#[test]
fn normalized_casing_names() {
    assert_eq!(CasingStyle::named("kebabcase"), Some(CasingStyle::Kebab));
    assert_eq!(CasingStyle::named("screamingsnake"), Some(CasingStyle::ScreamingSnake));
    assert_eq!(CasingStyle::named("verbatimcase"), Some(CasingStyle::Verbatim));
    assert_eq!(CasingStyle::named("kebab-case"), None);
    assert_eq!(CasingStyle::named("title"), None);
}
