//! Markdown rendering and template substitution.

use yasg::config::SiteConfig;
use yasg::render::{substitute_template, TemplateFailure};
use yasg::yasg::YasgFile;

fn page_with_body(body: &str) -> YasgFile {
    let cfg = SiteConfig {
        title: String::from("Site"),
        input: String::from("in"),
        output: String::from("out"),
    };
    let raw = format!("class: page\ntitle: T\ndescription: D\n---\n{}", body);
    YasgFile::parse(&cfg, "in/p.yasg", &raw).unwrap()
}

#[test]
fn markdown_heading_renders_to_h1() {
    let html = page_with_body("# Hi").compile_body_content_to_html();
    assert!(html.contains("<h1>Hi</h1>"), "got: {}", html);
}

#[test]
fn markdown_paragraph_renders_exactly() {
    let html = page_with_body("Hello").compile_body_content_to_html();
    assert_eq!(html, "<p>Hello</p>\n");
}

#[test]
fn markdown_tables_are_enabled() {
    let html = page_with_body("| a | b |\n| - | - |\n| 1 | 2 |").compile_body_content_to_html();
    assert!(html.contains("<table>"), "got: {}", html);
}

#[test]
fn markdown_strikethrough_is_enabled() {
    let html = page_with_body("~~gone~~").compile_body_content_to_html();
    assert!(html.contains("<del>"), "got: {}", html);
}

#[test]
fn markdown_task_lists_are_enabled() {
    let html = page_with_body("- [x] done").compile_body_content_to_html();
    assert!(html.contains("checkbox"), "got: {}", html);
}

#[test]
fn substitution_is_exact() {
    let out = substitute_template(
        "<title>{{page_title}}</title>{{{page_body}}}",
        "Site",
        "Hello",
        "Desc",
        "<p>Hi</p>",
    )
    .unwrap();
    assert_eq!(out, "<title>Hello</title><p>Hi</p>");
}

#[test]
fn substitution_escapes_by_default() {
    let out = substitute_template("{{page_title}}", "Site", "a<b", "Desc", "").unwrap();
    assert_eq!(out, "a&lt;b");
}

#[test]
fn substitution_site_title_and_description() {
    let out = substitute_template(
        "{{site_title}}|{{page_description}}",
        "My Site",
        "T",
        "About things",
        "",
    )
    .unwrap();
    assert_eq!(out, "My Site|About things");
}

#[test]
fn template_trailing_newline_reaches_the_output() {
    // This is why content blocks are newline-separated rather than
    // newline-terminated: a trailing newline on a template's last line
    // would reach the rendered page verbatim.
    let out = substitute_template("x:{{{page_body}}}\n", "S", "T", "D", "<p>B</p>\n").unwrap();
    assert_eq!(out, "x:<p>B</p>\n\n");
}

#[test]
fn invalid_template_fails_to_compile() {
    let r = substitute_template("{{#unclosed}}", "S", "T", "D", "B");
    assert!(matches!(r, Err(TemplateFailure::Compile)));
}

#[test]
fn implicit_tag_is_refused() {
    for t in [
        "{{.}}",
        "{{ . }}",
        "{{{.}}}",
        "{{&.}}",
        "{{#.}}x{{/.}}",
        // The tag-name trim removes every kind of whitespace, so these
        // are implicit tags too.
        "{{\n.\n}}",
        "{{#\t.\r}}x{{/.}}",
        "{{\u{a0}.\u{a0}}}",
    ] {
        let r = substitute_template(t, "S", "T", "D", "B");
        assert!(matches!(r, Err(TemplateFailure::Compile)), "for {:?}", t);
    }
}

#[test]
fn dotted_names_are_not_implicit_tags() {
    let out = substitute_template("a.b {{page_title}} {{x.y}}", "S", "T", "D", "B").unwrap();
    assert_eq!(out, "a.b T ");
}
