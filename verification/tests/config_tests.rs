//! Reading and validating the site configuration.

use yasg::config::SiteConfig;
use yasg::error::Error;

#[test]
fn defaults_when_only_title_is_given() {
    let c = SiteConfig::read_from_yaml("title: S\n", false).unwrap();
    assert_eq!(c.title, "S");
    assert_eq!(c.input, "contents");
    assert_eq!(c.output, "target/site");
}

#[test]
fn paths_are_read_from_the_configuration() {
    let c = SiteConfig::read_from_yaml(
        "title: S\ninput-path: src_in\noutput-path: www\n",
        true,
    )
    .unwrap();
    assert_eq!(c.input, "src_in");
    assert_eq!(c.output, "www");
}

#[test]
fn empty_title_fails_validation() {
    let e = SiteConfig::read_from_yaml("input-path: x\n", true).unwrap_err();
    assert_eq!(
        e.reasons().clone(),
        vec![
            String::from("No valid value has been provided for the 'title' field."),
            String::from("Site.yaml contains invalid information."),
        ]
    );
}

#[test]
fn title_without_value_is_rejected() {
    let e = SiteConfig::read_from_yaml("title:\n", false).unwrap_err();
    assert_eq!(
        e.reasons().clone(),
        vec![String::from(
            "No valid value has been provided for the 'title' field."
        )]
    );
}

#[test]
fn validation_can_be_skipped() {
    let c = SiteConfig::read_from_yaml("", false).unwrap();
    assert_eq!(c.title, "");
}

#[test]
fn quoted_title_loses_its_quotes() {
    let c = SiteConfig::read_from_yaml("title: \"My Site\"\n", false).unwrap();
    assert_eq!(c.title, "My Site");
}

#[test]
fn relative_to_input_strips_the_root() {
    let c = SiteConfig {
        title: String::from("S"),
        input: String::from("in"),
        output: String::from("out"),
    };
    assert!(c.is_under_input("in/a/b.yasg"));
    assert!(!c.is_under_input("elsewhere/a.yasg"));
    assert_eq!(c.relative_to_input("in/a/b.yasg"), "a/b.yasg");
}

#[test]
fn path_checks_fail_in_order_with_fixed_messages() {
    let c = SiteConfig {
        title: String::from("S"),
        input: String::from("in"),
        output: String::from("out"),
    };
    let first = |r: Result<(), Error>| r.unwrap_err().reasons()[0].clone();
    assert_eq!(
        first(c.validate_paths(false, false, false, false, 0)),
        "Input directory 'in' does not exist."
    );
    assert_eq!(
        first(c.validate_paths(true, false, false, false, 0)),
        "Input 'in' is not a directory."
    );
    assert_eq!(
        first(c.validate_paths(true, true, false, false, 0)),
        "Output directory 'out' does not exist."
    );
    assert_eq!(
        first(c.validate_paths(true, true, true, false, 0)),
        "Output 'out' is not a directory."
    );
    assert_eq!(
        first(c.validate_paths(true, true, true, true, 3)),
        "Output directory 'out' is not empty."
    );
    assert!(c.validate_paths(true, true, true, true, 0).is_ok());
}

#[test]
fn error_reasons_chain_in_order() {
    let e = Error::with_reason("inner").add(String::from("outer"));
    assert_eq!(
        e.reasons().clone(),
        vec![String::from("inner"), String::from("outer")]
    );
    assert_eq!(e.message(), "inner\nouter");
}
