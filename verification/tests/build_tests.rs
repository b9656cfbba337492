//! The build orchestrator: classification, compilation, copying.

use yasg::builder::{process_files, BuildAction, BuildPlan, ScanEntry};
use yasg::config::SiteConfig;

fn site_config() -> SiteConfig {
    SiteConfig {
        title: String::from("S"),
        input: String::from("in"),
        output: String::from("out"),
    }
}

fn content(path: &str, raw: &str) -> ScanEntry {
    ScanEntry { path: String::from(path), raw: Some(String::from(raw)) }
}

fn plain(path: &str) -> ScanEntry {
    ScanEntry { path: String::from(path), raw: None }
}

const PAGE: &str = "class: page\ntitle: T\ndescription: D\n---\nHello";
const TEMPLATE: &str = "class: template\nfor-class: page\n---\n{{page_title}}:{{{page_body}}}";

fn build(entries: Vec<ScanEntry>) -> BuildPlan {
    process_files(&site_config(), &entries)
}

#[test]
fn end_to_end_page_build() {
    let plan = build(vec![
        content("in/page.yasg", PAGE),
        content("in/template.yasg", TEMPLATE),
    ]);
    assert_eq!(plan.failures.len(), 0);
    assert_eq!(plan.actions.len(), 1);
    assert_eq!(
        plan.actions[0],
        BuildAction::WriteHtml {
            to: String::from("out/page.html"),
            html: String::from("T:<p>Hello</p>\n"),
        }
    );
}

#[test]
fn page_without_template_is_skipped_silently() {
    let plan = build(vec![content("in/page.yasg", PAGE)]);
    assert_eq!(plan.actions.len(), 0);
    assert_eq!(plan.failures.len(), 0);
}

#[test]
fn non_content_files_are_copied() {
    let plan = build(vec![plain("in/style.css"), plain("in/sub/a.txt")]);
    assert_eq!(plan.failures.len(), 0);
    assert_eq!(
        plan.actions,
        vec![
            BuildAction::Copy {
                from: String::from("in/style.css"),
                to: String::from("out/style.css"),
            },
            BuildAction::Copy {
                from: String::from("in/sub/a.txt"),
                to: String::from("out/sub/a.txt"),
            },
        ]
    );
}

#[test]
fn building_twice_gives_identical_plans() {
    let entries = || {
        vec![
            plain("in/style.css"),
            content("in/page.yasg", PAGE),
            content("in/template.yasg", TEMPLATE),
        ]
    };
    let a = build(entries());
    let b = build(entries());
    assert_eq!(a.actions, b.actions);
    assert_eq!(a.failures.len(), b.failures.len());
    for (fa, fb) in a.failures.iter().zip(b.failures.iter()) {
        assert_eq!(fa.path, fb.path);
        assert_eq!(fa.error.reasons(), fb.error.reasons());
    }
}

#[test]
fn parse_failure_is_recorded_and_build_goes_on() {
    let plan = build(vec![
        content("in/bad.yasg", "just text, no class\n---\n"),
        content("in/page.yasg", PAGE),
        content("in/template.yasg", TEMPLATE),
    ]);
    assert_eq!(plan.failures.len(), 1);
    assert_eq!(plan.failures[0].path, "bad.yasg");
    assert_eq!(plan.failures[0].error.reasons()[0], "No class specified.");
    assert_eq!(plan.actions.len(), 1);
    assert!(matches!(plan.actions[0], BuildAction::WriteHtml { .. }));
}

#[test]
fn later_template_for_same_class_wins() {
    let second = "class: template\nfor-class: page\n---\n2:{{{page_body}}}";
    let plan = build(vec![
        content("in/page.yasg", PAGE),
        content("in/t1.yasg", TEMPLATE),
        content("in/t2.yasg", second),
    ]);
    assert_eq!(plan.actions.len(), 1);
    assert_eq!(
        plan.actions[0],
        BuildAction::WriteHtml {
            to: String::from("out/page.html"),
            html: String::from("2:<p>Hello</p>\n"),
        }
    );
}

#[test]
fn template_with_partial_is_reported() {
    let partial = "class: template\nfor-class: page\n---\n{{> other}}";
    let plan = build(vec![
        content("in/page.yasg", PAGE),
        content("in/template.yasg", partial),
    ]);
    assert_eq!(plan.actions.len(), 0);
    assert_eq!(plan.failures.len(), 1);
    assert_eq!(
        plan.failures[0].error.reasons()[0],
        "Template uses unsupported directives: template.yasg"
    );
}

#[test]
fn template_with_implicit_tag_is_reported() {
    let implicit = "class: template\nfor-class: page\n---\n{{.}}";
    let plan = build(vec![
        content("in/page.yasg", PAGE),
        content("in/template.yasg", implicit),
    ]);
    assert_eq!(plan.actions.len(), 0);
    assert_eq!(plan.failures.len(), 1);
}

#[test]
fn template_with_multi_line_implicit_tag_is_reported() {
    // The tag spans lines, so its name holds newlines, which the
    // tag-name trim removes: still an implicit tag.
    let implicit = "class: template\nfor-class: page\n---\n{{\n.\n}}";
    let plan = build(vec![
        content("in/page.yasg", PAGE),
        content("in/template.yasg", implicit),
    ]);
    assert_eq!(plan.actions.len(), 0);
    assert_eq!(plan.failures.len(), 1);
}

#[test]
fn copies_come_before_page_writes() {
    let plan = build(vec![
        content("in/page.yasg", PAGE),
        plain("in/z.txt"),
        content("in/template.yasg", TEMPLATE),
    ]);
    assert_eq!(plan.actions.len(), 2);
    assert!(matches!(plan.actions[0], BuildAction::Copy { .. }));
    assert!(matches!(plan.actions[1], BuildAction::WriteHtml { .. }));
}
