use phpfmt::document::Document;
use phpfmt::document::LineKind;
use phpfmt::layout::render_to_string;
use phpfmt::settings::Settings;

fn chv(s: &str) -> Vec<char> {
    s.chars().collect()
}

fn t(s: &str) -> Document {
    Document::Text(chv(s))
}

fn narrow(width: u16) -> Settings {
    let mut s = Settings::standard();
    s.print_width = width;
    s
}

#[test]
fn text_renders_as_itself() {
    let d = t("hello");
    assert_eq!(render_to_string(&d, &Settings::standard()), "hello");
}

#[test]
fn group_that_fits_stays_flat() {
    let d = Document::Group(
        vec![t("aa"), Document::Line(LineKind::Default), t("bb")],
        false,
    );
    assert_eq!(render_to_string(&d, &narrow(5)), "aa bb");
}

#[test]
fn group_too_wide_breaks() {
    let d = Document::Group(
        vec![t("aa"), Document::Line(LineKind::Default), t("bb")],
        false,
    );
    assert_eq!(render_to_string(&d, &narrow(4)), "aa\nbb");
}

#[test]
fn forced_group_breaks_even_when_fitting() {
    let d = Document::Group(
        vec![t("aa"), Document::Line(LineKind::Default), t("bb")],
        true,
    );
    assert_eq!(render_to_string(&d, &narrow(80)), "aa\nbb");
}

#[test]
fn break_parent_forces_enclosing_group() {
    let d = Document::Group(
        vec![
            t("aa"),
            Document::Line(LineKind::Soft),
            t("bb"),
            Document::BreakParent,
        ],
        false,
    );
    assert_eq!(render_to_string(&d, &narrow(80)), "aa\nbb");
}

#[test]
fn hardline_inside_nested_group_breaks_outer() {
    let inner = Document::Group(vec![t("x"), Document::Line(LineKind::Hard), t("y")], false);
    let d = Document::Group(
        vec![t("aa"), Document::Line(LineKind::Default), inner],
        false,
    );
    assert_eq!(render_to_string(&d, &narrow(80)), "aa\nx\ny");
}

#[test]
fn soft_line_vanishes_when_flat() {
    let d = Document::Group(vec![t("a"), Document::Line(LineKind::Soft), t("b")], false);
    assert_eq!(render_to_string(&d, &narrow(80)), "ab");
}

#[test]
fn if_break_picks_branch_by_mode() {
    let mk = |force: bool| {
        Document::Group(
            vec![
                t("a"),
                Document::IfBreak(Box::new(Document::Text(chv("!"))), Box::new(Document::Text(chv(".")))),
            ],
            force,
        )
    };
    assert_eq!(render_to_string(&mk(false), &narrow(80)), "a.");
    assert_eq!(render_to_string(&mk(true), &narrow(80)), "a!");
}

#[test]
fn indent_applies_to_lines_inside() {
    let d = Document::Group(
        vec![
            t("head"),
            Document::Indent(vec![Document::Line(LineKind::Hard), t("body")]),
            Document::Line(LineKind::Hard),
            t("tail"),
        ],
        false,
    );
    assert_eq!(render_to_string(&d, &Settings::standard()), "head\n    body\ntail");
}

#[test]
fn nested_indents_are_additive() {
    let d = Document::Indent(vec![Document::Indent(vec![
        Document::Line(LineKind::Hard),
        t("x"),
    ])]);
    assert_eq!(render_to_string(&d, &Settings::standard()), "\n        x");
}

#[test]
fn tabs_indent_when_requested() {
    let mut s = Settings::standard();
    s.use_tabs = true;
    let d = Document::Indent(vec![Document::Line(LineKind::Hard), t("x")]);
    assert_eq!(render_to_string(&d, &s), "\n\tx");
}

#[test]
fn trailing_whitespace_is_trimmed() {
    let d = Document::Array(vec![t("a  "), Document::Line(LineKind::Hard), t("b")]);
    assert_eq!(render_to_string(&d, &Settings::standard()), "a\nb");
}

#[test]
fn indent_of_blank_line_is_trimmed() {
    let d = Document::Indent(vec![
        Document::Line(LineKind::Hard),
        Document::Line(LineKind::Hard),
        t("x"),
    ]);
    assert_eq!(render_to_string(&d, &Settings::standard()), "\n\n    x");
}

#[test]
fn column_carries_across_siblings() {
    // The group starts at column 4; 4 + its flat width 7 exceeds 10.
    let d = Document::Array(vec![
        t("pre "),
        Document::Group(vec![t("abc"), Document::Line(LineKind::Default), t("def")], false),
    ]);
    assert_eq!(render_to_string(&d, &narrow(10)), "pre abc\ndef");
    assert_eq!(render_to_string(&d, &narrow(11)), "pre abc def");
}

#[test]
fn empty_renders_as_nothing() {
    let d = Document::Array(vec![Document::Empty, t("z"), Document::BreakParent]);
    assert_eq!(render_to_string(&d, &Settings::standard()), "z");
}
