use npcterm39::screen::formatter::{cell_to_info, AttrsInfo, ColorInfo};
use npcterm39::terminal::cell::{Color, NamedColor, TerminalCell};

#[test]
fn default_cell_reports_only_its_character() {
    let info = cell_to_info(&TerminalCell::default());
    assert_eq!(info.c, " ");
    assert!(info.fg.is_none());
    assert!(info.bg.is_none());
    assert!(info.attrs.is_none());
    assert!(!info.wide);
}

#[test]
fn colors_and_attributes_are_reported() {
    let mut cell = TerminalCell::default();
    cell.c = '字';
    cell.wide = true;
    cell.fg = Color::Named(NamedColor::BrightCyan);
    cell.bg = Color::Rgb(1, 2, 3);
    cell.attrs.bold = true;
    cell.attrs.strikethrough = true;
    let info = cell_to_info(&cell);
    assert_eq!(info.c, "字");
    assert!(info.wide);
    assert_eq!(info.fg, Some(ColorInfo::Named("BrightCyan".to_string())));
    assert_eq!(info.bg, Some(ColorInfo::Rgb(1, 2, 3)));
    let attrs: AttrsInfo = info.attrs.unwrap();
    assert!(attrs.bold && attrs.strikethrough);
    assert!(!attrs.dim && !attrs.italic && !attrs.underline && !attrs.blink && !attrs.reverse && !attrs.hidden);
}

#[test]
fn every_named_color_is_reported_by_name() {
    let names = [
        (NamedColor::Black, "Black"),
        (NamedColor::Red, "Red"),
        (NamedColor::White, "White"),
        (NamedColor::BrightBlack, "BrightBlack"),
        (NamedColor::BrightWhite, "BrightWhite"),
    ];
    for (n, name) in names {
        assert_eq!(ColorInfo::from_color(&Color::Named(n)), ColorInfo::Named(name.to_string()));
    }
    assert_eq!(ColorInfo::from_color(&Color::Indexed(9)), ColorInfo::Indexed(9));
    assert_eq!(ColorInfo::from_color(&Color::Default), ColorInfo::Default);
}

#[test]
fn colors_as_text() {
    assert_eq!(Color::Default.to_string(), "default");
    assert_eq!(Color::Named(NamedColor::BrightRed).to_string(), "BrightRed");
    assert_eq!(Color::Indexed(196).to_string(), "idx:196");
    assert_eq!(Color::Indexed(0).to_string(), "idx:0");
    assert_eq!(Color::Rgb(255, 136, 0).to_string(), "#ff8800");
    assert_eq!(Color::Rgb(1, 2, 171).to_string(), "#0102ab");
}
