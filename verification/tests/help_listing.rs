use clap_couture::category::{Category, CommandCategoryMap, CommandName};
use clap_couture::markdown::{MarkdownTheme, MdEvent, StyleCodes};
use clap_couture::menu::{Menu, Subcommand};
use clap_couture::render::{
    couture_help, help_template, write_command_sections, write_joined, HelpCommand, MenuLayout,
    MenuStyles, TextRenderer,
};

fn codes(prefix: &str, suffix: &str) -> StyleCodes {
    StyleCodes { prefix: prefix.to_owned(), suffix: suffix.to_owned() }
}

fn plain_styles() -> MenuStyles {
    MenuStyles { header: codes("", ""), literal: codes("", "") }
}

fn sub(name: &str, about: Option<&str>) -> Subcommand {
    Subcommand { name: name.to_owned(), about: about.map(str::to_owned), hidden: false }
}

const EVERYDAY: Category =
    Category { description: Some("The commands you'll reach for daily"), label: "everyday", title: Some("Everyday") };
const DEPLOY: Category = Category { description: Some("Ship code to production"), label: "deploy", title: Some("Deploy") };
const ACCOUNT: Category = Category { description: None, label: "account", title: Some("Account & sync") };

static ORBIT: [(CommandName, Category); 8] = [
    (CommandName("logs"), EVERYDAY),
    (CommandName("search"), EVERYDAY),
    (CommandName("status"), EVERYDAY),
    (CommandName("deploy"), DEPLOY),
    (CommandName("rollback"), DEPLOY),
    (CommandName("secrets"), DEPLOY),
    (CommandName("login"), ACCOUNT),
    (CommandName("sync"), ACCOUNT),
];

fn orbit() -> HelpCommand {
    HelpCommand {
        subcommands: vec![
            sub("deploy", Some("Ship the current project")),
            sub("login", Some("Sign in to your account")),
            sub("logs", Some("Tail live logs")),
            sub("rollback", Some("Roll back to a previous release")),
            sub("search", Some("Search your deployment history")),
            sub("secrets", Some("Manage environment secrets")),
            sub("status", Some("Show recent activity")),
            sub("sync", Some("Sync settings across machines")),
        ],
        styles: plain_styles(),
    }
}

#[test]
fn groups_commands_under_their_category_headings() {
    let mut out = String::new();
    write_command_sections(&mut out, &orbit(), CommandCategoryMap::new(&ORBIT), &TextRenderer::Plain);
    let expected = "\
Everyday:        The commands you'll reach for daily
  logs      Tail live logs
  search    Search your deployment history
  status    Show recent activity

Deploy:          Ship code to production
  deploy    Ship the current project
  rollback  Roll back to a previous release
  secrets   Manage environment secrets

Account & sync:
  login     Sign in to your account
  sync      Sync settings across machines";
    assert_eq!(out, expected);
}

static PARTIAL: [(CommandName, Category); 2] = [(CommandName("deploy"), DEPLOY), (CommandName("secret"), ACCOUNT)];

#[test]
fn uncategorized_commands_come_first_and_hidden_ones_never() {
    let cmd = HelpCommand {
        subcommands: vec![
            sub("status", Some("Show recent activity")),
            sub("deploy", None),
            Subcommand { name: "secret".to_owned(), about: Some("hidden".to_owned()), hidden: true },
            sub("logs", Some("Tail live logs")),
        ],
        styles: plain_styles(),
    };
    let mut out = String::new();
    write_command_sections(&mut out, &cmd, CommandCategoryMap::new(&PARTIAL), &TextRenderer::Plain);
    // The account category's only member is hidden, so it gets no section.
    let expected = "  status  Show recent activity\n  logs    Tail live logs\n\nDeploy:     Ship code to production\n  deploy";
    assert_eq!(out, expected);
}

#[test]
fn styles_wrap_headings_and_names() {
    static ONE: [(CommandName, Category); 1] =
        [(CommandName("go"), Category { description: None, label: "run", title: None })];
    let cmd = HelpCommand {
        subcommands: vec![sub("go", Some("Go"))],
        styles: MenuStyles { header: codes("<h>", "</h>"), literal: codes("<l>", "</l>") },
    };
    let mut out = String::new();
    write_command_sections(&mut out, &cmd, CommandCategoryMap::new(&ONE), &TextRenderer::Plain);
    assert_eq!(out, "<h>run:</h>\n  <l>go</l>  Go");
}

#[test]
fn an_empty_menu_writes_nothing() {
    let cmd = HelpCommand { subcommands: Vec::new(), styles: plain_styles() };
    let mut out = String::from("before");
    write_command_sections(&mut out, &cmd, CommandCategoryMap::empty(), &TextRenderer::Plain);
    assert_eq!(out, "before");
}

#[test]
fn a_description_next_to_the_about_column_moves_two_cells_past_it() {
    // Widest name 4 puts abouts at column 8; heading "abcdef:" puts the description at 9.
    let layout = MenuLayout::measure(&vec!["abcd"], &vec!["abcdef"]);
    assert_eq!(layout.name_width, 4);
    assert_eq!(layout.description_col, 10);
    // Far enough away, the description stays right after the heading.
    let layout = MenuLayout::measure(&vec!["ab"], &vec!["abcdefghij"]);
    assert_eq!(layout.description_col, 13);
    // With nothing to list, both columns start from zero.
    let layout = MenuLayout::measure(&Vec::new(), &Vec::new());
    assert_eq!((layout.name_width, layout.description_col), (0, 2));
}

#[test]
fn widths_count_terminal_columns() {
    assert_eq!(MenuLayout::measure(&vec!["deploy"], &Vec::new()).name_width, 6);
    assert_eq!(MenuLayout::measure(&vec!["日本"], &Vec::new()).name_width, 4);
    assert_eq!(MenuLayout::measure(&vec![""], &Vec::new()).name_width, 0);
}

#[test]
fn wide_names_are_padded_by_columns() {
    static WIDE: [(CommandName, Category); 0] = [];
    let cmd = HelpCommand { subcommands: vec![sub("日本", Some("wide")), sub("abcde", Some("narrow"))], styles: plain_styles() };
    let mut out = String::new();
    write_command_sections(&mut out, &cmd, CommandCategoryMap::new(&WIDE), &TextRenderer::Plain);
    assert_eq!(out, "  日本   wide\n  abcde  narrow");
}

#[test]
fn joins_with_the_separator_between_items() {
    let mut out = String::from(">");
    write_joined(&mut out, &vec!["a".to_owned(), "b".to_owned(), "c".to_owned()], ", ");
    assert_eq!(out, ">a, b, c");
    let mut out = String::new();
    write_joined(&mut out, &Vec::new(), ", ");
    assert_eq!(out, "");
}

#[test]
fn the_template_puts_the_listing_before_the_options() {
    let template = help_template(&codes("<h>", "</h>"));
    assert_eq!(
        template,
        "{name} {version}\n{author}\n{about}\n\n{usage-heading}\n  {usage}\n\n{before-help}<h>Options:</h>\n{options}"
    );
}

#[test]
fn couture_help_pairs_the_listing_with_the_template() {
    let help = couture_help(&orbit(), CommandCategoryMap::new(&ORBIT), &TextRenderer::Plain);
    assert!(help.before_help.starts_with("Everyday:"));
    assert!(help.template.contains("{before-help}Options:\n{options}"));
}

fn theme() -> MarkdownTheme {
    MarkdownTheme {
        text_bold: Some(codes("<b>", "</b>")),
        text_italic: Some(codes("<i>", "</i>")),
        text_bold_italic: Some(codes("<bi>", "</bi>")),
        code: Some(codes("<c>", "</c>")),
        code_bold: Some(codes("<cb>", "</cb>")),
        code_italic: None,
        code_bold_italic: None,
    }
}

#[test]
fn markdown_styles_strong_emphasis_and_code() {
    let mut out = String::new();
    TextRenderer::Markdown(theme()).render_str(&mut out, "use **bold** and `code`, *or* **`both`**");
    assert_eq!(out, "use <b>bold</b> and <c>code</c>, <i>or</i> <cb>both</cb>");
}

#[test]
fn markdown_drops_other_markup_and_joins_lines() {
    let mut out = String::new();
    theme().render_str(&mut out, "line one\nline two [link](http://x)");
    assert_eq!(out, "line one line two link");
}

#[test]
fn plain_text_is_written_as_given() {
    let mut out = String::new();
    TextRenderer::Plain.render_str(&mut out, "**not bold**");
    assert_eq!(out, "**not bold**");
}

#[test]
fn menu_partitions_by_category() {
    let subs = orbit().subcommands;
    let menu = Menu { category_map: CommandCategoryMap::new(&PARTIAL), subcommands: &subs };
    let names = |v: Vec<&Subcommand>| v.iter().map(|s| s.name.clone()).collect::<Vec<_>>();
    assert_eq!(names(menu.members(Some(&DEPLOY))), ["deploy"]);
    assert_eq!(names(menu.members(None)).len(), 7);
    assert!(menu.has_uncategorized());
    let labels: Vec<&str> = menu.categories().iter().map(|c| c.label).collect();
    assert_eq!(labels, ["deploy"]);
    assert_eq!(menu.subcommands().len(), 8);
}

#[test]
fn the_layout_follows_the_widths_it_is_given() {
    let layout = MenuLayout::from_widths(&vec![3, 4], &vec![6, 2]);
    assert_eq!((layout.name_width, layout.description_col), (4, 10));
    let layout = MenuLayout::from_widths(&vec![2], &vec![10]);
    assert_eq!((layout.name_width, layout.description_col), (2, 13));
    // Columns saturate instead of wrapping.
    let layout = MenuLayout::from_widths(&vec![usize::MAX], &Vec::new());
    assert_eq!((layout.name_width, layout.description_col), (usize::MAX, 2));
}

#[test]
fn events_nest_bold_and_italic() {
    let events = vec![
        MdEvent::StrongStart,
        MdEvent::EmphasisStart,
        MdEvent::Text("both".to_owned()),
        MdEvent::EmphasisEnd,
        MdEvent::Code("c".to_owned()),
        MdEvent::StrongEnd,
        MdEvent::StrongEnd,
        MdEvent::SoftBreak,
        MdEvent::Other,
        MdEvent::Text("plain".to_owned()),
        MdEvent::HardBreak,
    ];
    let mut out = String::from(">");
    theme().write_events(&mut out, &events);
    assert_eq!(out, "><bi>both</bi><cb>c</cb> plain ");
}
