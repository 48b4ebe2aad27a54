use clap_couture::interactive::{
    default_index, from_inquire, non_empty, picked_name, select_items, InquireFailure, IoErrorKind, NONE_OPTION,
};
use clap_couture::palette::{
    console_named, console_style, inquire_color, inquire_named, sheet, AnsiColor, ColorSpec, ConsoleColor,
    ConsoleColorSpec, InquireColor, StyleSpec,
};
use clap_couture::{Cliclack, Dialoguer, Inquire, PromptError};
use std::io::{Error, ErrorKind};

fn names(v: &[&str]) -> Vec<String> {
    v.iter().map(|s| (*s).to_owned()).collect()
}

#[test]
fn an_interrupted_prompt_is_a_cancel() {
    assert!(matches!(PromptError::from_io(Error::from(ErrorKind::Interrupted)), PromptError::Cancelled));
    assert!(matches!(PromptError::from_io(Error::from(ErrorKind::NotConnected)), PromptError::NotATerminal));
    match PromptError::from_io(Error::other("disk full")) {
        PromptError::Io(err) => assert_eq!(err.to_string(), "disk full"),
        _ => panic!("expected an I/O error"),
    }
}

#[test]
fn classify_sorts_by_kind() {
    assert!(matches!(PromptError::classify(IoErrorKind::Interrupted, Error::other("x")), PromptError::Cancelled));
    assert!(matches!(PromptError::classify(IoErrorKind::NotConnected, Error::other("x")), PromptError::NotATerminal));
    assert!(matches!(PromptError::classify(IoErrorKind::Other, Error::other("x")), PromptError::Io(_)));
}

#[test]
fn inquire_failures_map_onto_prompt_errors() {
    assert!(matches!(from_inquire(InquireFailure::NotTty), PromptError::NotATerminal));
    assert!(matches!(from_inquire(InquireFailure::OperationCanceled), PromptError::Cancelled));
    assert!(matches!(from_inquire(InquireFailure::OperationInterrupted), PromptError::Cancelled));
    assert!(matches!(
        from_inquire(InquireFailure::Io(Error::from(ErrorKind::Interrupted))),
        PromptError::Cancelled
    ));
    match from_inquire(InquireFailure::Other("invalid configuration".to_owned())) {
        PromptError::Io(err) => assert_eq!(err.to_string(), "invalid configuration"),
        _ => panic!("expected an I/O error"),
    }
}

#[test]
fn an_optional_select_ends_with_none() {
    let options = names(&["canary", "rolling"]);
    assert_eq!(select_items(&options, false), ["canary", "rolling"]);
    assert_eq!(select_items(&options, true), ["canary", "rolling", NONE_OPTION]);
    assert_eq!(NONE_OPTION, "(none)");
}

#[test]
fn the_cursor_starts_on_the_default() {
    let options = names(&["blue", "red", "red"]);
    assert_eq!(default_index(&options, Some("red")), Some(1));
    assert_eq!(default_index(&options, Some("green")), None);
    assert_eq!(default_index(&options, None), None);
}

#[test]
fn picking_none_leaves_the_arg_unset() {
    let options = names(&["blue", "red"]);
    assert_eq!(picked_name(&options, 1), Some("red".to_owned()));
    assert_eq!(picked_name(&options, 2), None);
    assert_eq!(non_empty(String::new()), None);
    assert_eq!(non_empty("us".to_owned()), Some("us".to_owned()));
}

#[test]
fn ansi_colors_map_onto_inquires_palette() {
    assert_eq!(inquire_named(AnsiColor::Red), InquireColor::DarkRed);
    assert_eq!(inquire_named(AnsiColor::White), InquireColor::Grey);
    assert_eq!(inquire_named(AnsiColor::BrightBlack), InquireColor::DarkGrey);
    assert_eq!(inquire_named(AnsiColor::BrightWhite), InquireColor::White);
    assert_eq!(inquire_color(ColorSpec::Ansi256(208)), InquireColor::AnsiValue(208));
    assert_eq!(inquire_color(ColorSpec::Rgb(1, 2, 3)), InquireColor::Rgb(1, 2, 3));
}

#[test]
fn a_sheet_keeps_color_bold_and_italic() {
    let style = StyleSpec { fg: Some(ColorSpec::Ansi(AnsiColor::Green)), bold: true, dimmed: true, italic: false, underline: true };
    let s = sheet(style);
    assert_eq!(s.fg, Some(InquireColor::DarkGreen));
    assert!(s.bold && !s.italic);
    let plain = sheet(StyleSpec { fg: None, bold: false, dimmed: false, italic: true, underline: false });
    assert_eq!(plain.fg, None);
    assert!(plain.italic);
}

#[test]
fn console_carries_brightness_on_the_base_color() {
    assert_eq!(console_named(AnsiColor::BrightCyan), ConsoleColorSpec::Named(ConsoleColor::Cyan, true));
    assert_eq!(console_named(AnsiColor::Cyan), ConsoleColorSpec::Named(ConsoleColor::Cyan, false));
    let style = StyleSpec { fg: Some(ColorSpec::Rgb(9, 8, 7)), bold: false, dimmed: true, italic: true, underline: true };
    let s = console_style(style);
    assert_eq!(s.fg, Some(ConsoleColorSpec::TrueColor(9, 8, 7)));
    assert!(!s.bold && s.dim && s.italic && s.underlined);
    let indexed = console_style(StyleSpec { fg: Some(ColorSpec::Ansi256(42)), ..style });
    assert_eq!(indexed.fg, Some(ConsoleColorSpec::Color256(42)));
}

#[test]
fn backends_are_plain_markers() {
    let _: (Cliclack, Dialoguer, Inquire) = (Cliclack::default(), Dialoguer::default(), Inquire::default());
    assert_eq!(format!("{:?}", Inquire), "Inquire");
}
