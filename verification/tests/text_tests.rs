//! The message table, placeholder substitution, and the string and path
//! helpers they are built on.

use yasg::paths::{join_path, path_has_extension, with_extension};
use yasg::strops::{replace_all, split_lines};
use yasg::text::{s, so, sr, Text};

#[test]
fn fixed_messages_are_worded_exactly() {
    assert_eq!(s(Text::VerboseBuilding), "Building...");
    assert_eq!(s(Text::VerboseDone), "Done!");
    assert_eq!(s(Text::ErrorValidatingSiteYaml), "Site.yaml contains invalid information.");
    assert_eq!(so(Text::CliBuildAbout), "Builds the site.");
}

#[test]
fn sr_substitutes_the_first_placeholder() {
    assert_eq!(
        sr(Text::ErrorParseErrorFor, &["x.yasg"]),
        "Parse error for x.yasg."
    );
    assert_eq!(
        sr(Text::VerboseCopying, &["a/b.css"]),
        "Copying a/b.css."
    );
}

#[test]
fn sr_ignores_values_without_placeholders() {
    assert_eq!(sr(Text::VerboseDone, &["unused"]), "Done!");
}

#[test]
fn replace_all_replaces_every_occurrence() {
    assert_eq!(replace_all("aaa", "a", "b"), "bbb");
    assert_eq!(replace_all("{1}-{1}", "{1}", "x"), "x-x");
    assert_eq!(replace_all("abc", "", "x"), "abc");
    assert_eq!(replace_all("abab", "aba", "c"), "cb");
}

#[test]
fn split_lines_matches_the_line_reader() {
    let lines = split_lines("a\r\nb\nc");
    assert_eq!(lines, vec!["a", "b", "c"]);
    assert_eq!(split_lines("a\nb\n"), vec!["a", "b"]);
    assert_eq!(split_lines(""), Vec::<String>::new());
    assert_eq!(split_lines("\n"), vec![""]);
}

#[test]
fn extensions_are_recognized_and_replaced() {
    assert!(path_has_extension("a/b.yasg", "yasg"));
    assert!(!path_has_extension("a/b.txt", "yasg"));
    assert!(!path_has_extension("a/.yasg", "yasg"));
    assert!(!path_has_extension("ab", "yasg"));
    assert_eq!(with_extension("a/b.yasg", "html"), "a/b.html");
    assert_eq!(with_extension("noext", "html"), "noext.html");
    assert_eq!(with_extension("a.b.c", "html"), "a.b.html");
}

#[test]
fn join_path_inserts_one_slash() {
    assert_eq!(join_path("a", "b"), "a/b");
    assert_eq!(join_path("a/", "b"), "a/b");
    assert_eq!(join_path("", "b"), "b");
}
