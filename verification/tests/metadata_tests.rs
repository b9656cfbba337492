//! Parsing and validating content files.

use yasg::config::SiteConfig;
use yasg::yasg::{YasgClass, YasgFile};

fn config() -> SiteConfig {
    SiteConfig {
        title: String::from("Site"),
        input: String::from("in"),
        output: String::from("out"),
    }
}

fn parse_err_reasons(raw: &str) -> Vec<String> {
    let cfg = config();
    match YasgFile::parse(&cfg, "in/page.yasg", raw) {
        Ok(_) => panic!("expected a parse error"),
        Err(e) => e.reasons().clone(),
    }
}

#[test]
fn empty_file_gives_missing_class() {
    let reasons = parse_err_reasons("");
    assert_eq!(reasons[0], "No class specified.");
    assert_eq!(reasons[1], "Parse error for page.yasg.");
    assert_eq!(reasons.len(), 2);
}

#[test]
fn missing_metadata_block_gives_missing_class() {
    let reasons = parse_err_reasons("---\njust a body\n");
    assert_eq!(reasons[0], "No class specified.");
}

#[test]
fn metadata_without_pairs_gives_missing_class() {
    let reasons = parse_err_reasons("no colon here\n---\nbody\n");
    assert_eq!(reasons[0], "No class specified.");
}

#[test]
fn unknown_class_gives_missing_class() {
    let reasons = parse_err_reasons("class: widget\n---\n");
    assert_eq!(reasons[0], "No class specified.");
}

#[test]
fn template_without_for_class_fails() {
    let reasons = parse_err_reasons("class: template\n---\n{{x}}\n");
    assert_eq!(reasons[0], "No for-class or invalid for-class specified.");
    assert_eq!(reasons[1], "Parse error for page.yasg.");
}

#[test]
fn page_without_title_fails() {
    let reasons = parse_err_reasons("class: page\n---\nHi\n");
    assert_eq!(reasons[0], "No title specified.");
}

#[test]
fn page_without_description_fails() {
    let reasons = parse_err_reasons("class: page\ntitle: T\n---\nHi\n");
    assert_eq!(reasons[0], "No description specified.");
}

#[test]
fn page_fields_and_body_are_extracted() {
    let cfg = config();
    let raw = "class: page\ntitle: \"My Title\"\ndescription: D\n---\n# Hi\nmore";
    let yf = YasgFile::parse(&cfg, "in/sub/page.yasg", raw).unwrap();
    assert_eq!(yf.class(), Some(YasgClass::Page));
    assert_eq!(yf.for_class(), None);
    assert_eq!(yf.title().as_deref(), Some("My Title"));
    assert_eq!(yf.description().as_deref(), Some("D"));
    assert_eq!(yf.relative_path().as_str(), "sub/page.yasg");
    assert_eq!(yf.body_content().as_str(), "# Hi\nmore");
    assert_eq!(
        yf.yaml_content().as_str(),
        "class: page\ntitle: \"My Title\"\ndescription: D"
    );
    assert_eq!(yf.full_input_path(), "in/sub/page.yasg");
    assert_eq!(yf.full_output_path(), "out/sub/page.html");
}

#[test]
fn later_key_overrides_earlier() {
    let cfg = config();
    let raw = "class: template\nclass: page\ntitle: T\ndescription: D\n---\n";
    let yf = YasgFile::parse(&cfg, "in/p.yasg", raw).unwrap();
    assert_eq!(yf.class(), Some(YasgClass::Page));
}

#[test]
fn scalar_values_are_kept_as_text() {
    let cfg = config();
    let raw = "class: page\ntitle: 42\ndescription: true\n---\n";
    let yf = YasgFile::parse(&cfg, "in/p.yasg", raw).unwrap();
    assert_eq!(yf.title().as_deref(), Some("42"));
    assert_eq!(yf.description().as_deref(), Some("true"));
}

#[test]
fn crlf_lines_parse_like_lf_lines() {
    let cfg = config();
    let raw = "class: page\r\ntitle: T\r\ndescription: D\r\n---\r\nBody";
    let yf = YasgFile::parse(&cfg, "in/p.yasg", raw).unwrap();
    assert_eq!(yf.title().as_deref(), Some("T"));
    assert_eq!(yf.body_content().as_str(), "Body");
}

#[test]
fn empty_scalar_counts_as_absent() {
    let reasons = parse_err_reasons("class: page\ntitle:\ndescription: D\n---\n");
    assert_eq!(reasons[0], "No title specified.");
}

#[test]
fn indented_lines_hold_no_pairs() {
    // An indented line belongs to a nested block the flat reader does
    // not enter, so the nested `title` must not become the page's.
    let reasons = parse_err_reasons("class: page\ndescription: D\nextra:\n  title: nested\n---\n");
    assert_eq!(reasons[0], "No title specified.");
}

#[test]
fn class_from_names() {
    assert_eq!(YasgClass::from("template"), Some(YasgClass::Template));
    assert_eq!(YasgClass::from("page"), Some(YasgClass::Page));
    assert_eq!(YasgClass::from("other"), None);
}

#[test]
fn valid_page_passes_validation() {
    let cfg = config();
    let raw = "class: page\ntitle: T\ndescription: D\n---\n";
    let yf = YasgFile::parse(&cfg, "in/p.yasg", raw).unwrap();
    assert!(yf.validate().is_ok());
}
