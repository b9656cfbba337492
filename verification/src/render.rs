//! Rendering: Markdown to HTML through pulldown-cmark, and mustache-style
//! template substitution through the mustache crate.

use vstd::prelude::*;
use vstd::string::*;
use crate::strops::{contains_sub, contains_substr, find_substr, first_sub, is_sub_at};

verus! {

/// What pulldown-cmark's HTML renderer produces for `s`, with the tables,
/// footnotes, strikethrough and task-list extensions enabled. The renderer
/// reads nothing but its input, so its result is a function of `s` alone.
pub uninterp spec fn html_of_markdown(s: Seq<char>) -> Seq<char>;

/// Relies on pulldown_cmark::Parser::new_ext and
/// pulldown_cmark::html::push_html: a pure transformation of the body
/// text, here given the name `html_of_markdown`.
#[verifier::external_body]
fn markdown_to_html(body: &str) -> (r: String)
    ensures
        r@ == html_of_markdown(body@),
{
    let mut options = pulldown_cmark::Options::empty();
    options.insert(pulldown_cmark::Options::ENABLE_TABLES);
    options.insert(pulldown_cmark::Options::ENABLE_FOOTNOTES);
    options.insert(pulldown_cmark::Options::ENABLE_STRIKETHROUGH);
    options.insert(pulldown_cmark::Options::ENABLE_TASKLISTS);
    let parser = pulldown_cmark::Parser::new_ext(body, options);
    let mut out = String::new();
    pulldown_cmark::html::push_html(&mut out, parser);
    out
}

/// Render Markdown body text to an HTML fragment.
pub fn render_markdown(body: &str) -> (r: String)
    ensures
        r@ == html_of_markdown(body@),
{
    markdown_to_html(body)
}

/// The characters that open a special mustache tag: unescaped and section
/// forms, whose name begins after this character.
pub open spec fn is_sigil(c: char) -> bool {
    c == '{' || c == '&' || c == '#' || c == '^' || c == '/'
}

/// A character the tag-name trim might remove. mustache trims names with
/// `str::trim`, which strips every Unicode whitespace character; all of
/// those lie outside the printable ASCII range `!`..=`~`, so treating
/// everything outside that range as a possible blank is sound.
pub open spec fn maybe_blank(c: char) -> bool {
    (c as u32) <= 0x20 || (c as u32) > 0x7e
}

/// A tag's content without its leading sigil, if it has one.
pub open spec fn stripped_content(c: Seq<char>) -> Seq<char> {
    if c.len() > 0 && is_sigil(c[0]) {
        c.skip(1)
    } else {
        c
    }
}

/// Every character is a dot or something the tag-name trim might remove.
pub open spec fn all_dot_or_blank(c1: Seq<char>) -> bool {
    forall|j: int| 0 <= j < c1.len() ==> c1[j] == '.' || maybe_blank(c1[j])
}

/// Whether a tag's content could name the implicit value `.`: one
/// optional sigil, then at least one dot, and nothing else that the
/// tag-name trim could not remove. This over-approximates — a content
/// of several dots is caught too — which only refuses more templates,
/// never lets an implicit tag through.
pub open spec fn content_is_implicit(c: Seq<char>) -> bool {
    stripped_content(c).contains('.') && all_dot_or_blank(stripped_content(c))
}

/// Whether the tag opening at `i` (a `{{`) has a close and names the
/// implicit value.
pub open spec fn tag_at_is_implicit(t: Seq<char>, i: int) -> bool {
    let rest = t.skip(i + 2);
    let k = first_sub(rest, "}}"@);
    k + 2 <= rest.len() && content_is_implicit(rest.take(k as int))
}

/// Whether any tag of `t` names the implicit value `.`. That value is the
/// whole substitution mapping, which the renderer refuses.
pub open spec fn has_implicit_tag(t: Seq<char>) -> bool {
    exists|i: int| is_sub_at(t, "{{"@, i) && tag_at_is_implicit(t, i)
}

/// Whether `c` opens a special mustache tag.
fn is_sigil_char(c: char) -> (r: bool)
    ensures
        r == is_sigil(c),
{
    c == '{' || c == '&' || c == '#' || c == '^' || c == '/'
}

/// Whether `c` might be removed by the tag-name trim.
fn maybe_blank_char(c: char) -> (r: bool)
    ensures
        r == maybe_blank(c),
{
    (c as u32) <= 0x20 || (c as u32) > 0x7e
}

/// Whether a tag's content could name the implicit value.
fn content_implicit(c: &str) -> (r: bool)
    ensures
        r == content_is_implicit(c@),
{
    let n = c.unicode_len();
    let c1 = if n > 0 && is_sigil_char(c.get_char(0)) {
        let s = c.substring_char(1, n);
        proof {
            assert(s@ == c@.skip(1));
        }
        s
    } else {
        c
    };
    let m = c1.unicode_len();
    let mut found: bool = false;
    let mut i: usize = 0;
    proof {
        assert(!c1@.take(0).contains('.'));
    }
    while i < m
        invariant
            i <= m,
            m as nat == c1@.len(),
            c1@ == stripped_content(c@),
            forall|j: int| 0 <= j < i ==> c1@[j] == '.' || maybe_blank(c1@[j]),
            found == c1@.take(i as int).contains('.'),
        decreases m - i,
    {
        let ch = c1.get_char(i);
        if ch == '.' {
            found = true;
            proof {
                assert(c1@.take(i + 1)[i as int] == '.');
                assert(c1@.take(i + 1).contains('.'));
            }
        } else if !maybe_blank_char(ch) {
            proof {
                assert(!all_dot_or_blank(c1@)) by {
                    if all_dot_or_blank(c1@) {
                        assert(c1@[i as int] == '.' || maybe_blank(c1@[i as int]));
                    }
                }
            }
            return false;
        } else {
            proof {
                assert(c1@.take(i as int).contains('.') == c1@.take(i + 1).contains('.')) by {
                    if c1@.take(i + 1).contains('.') {
                        let k = choose|k: int| 0 <= k < i + 1 && #[trigger] c1@.take(i + 1)[k] == '.';
                        assert(k < i);
                        assert(c1@.take(i as int)[k] == '.');
                    }
                    if c1@.take(i as int).contains('.') {
                        let k = choose|k: int| 0 <= k < i && #[trigger] c1@.take(i as int)[k] == '.';
                        assert(c1@.take(i + 1)[k] == '.');
                    }
                }
            }
        }
        i += 1;
    }
    proof {
        assert(c1@.take(m as int) =~= c1@);
        assert(all_dot_or_blank(c1@));
    }
    found
}

/// Whether any tag of `t` names the implicit value.
fn check_implicit_tag(t: &str) -> (r: bool)
    ensures
        r == has_implicit_tag(t@),
{
    proof {
        reveal_strlit("{{");
        reveal_strlit("}}");
    }
    let n = t.unicode_len();
    if n < 2 {
        proof {
            assert(forall|i: int| !is_sub_at(t@, "{{"@, i));
        }
        return false;
    }
    let mut i: usize = 0;
    while i < n - 1
        invariant
            2 <= n,
            n as nat == t@.len(),
            i <= n - 1,
            "{{"@ =~= seq!['{', '{'],
            "}}"@ =~= seq!['}', '}'],
            forall|j: int|
                0 <= j < i ==> !(is_sub_at(t@, "{{"@, j) && tag_at_is_implicit(t@, j)),
        decreases n - i,
    {
        if t.get_char(i) == '{' && t.get_char(i + 1) == '{' {
            proof {
                assert(t@.subrange(i as int, i + 2) =~= "{{"@);
                assert(is_sub_at(t@, "{{"@, i as int));
            }
            let rest = t.substring_char(i + 2, n);
            proof {
                assert(rest@ == t@.skip(i + 2));
            }
            let rn = rest.unicode_len();
            let k = find_substr(rest, "}}");
            if rn >= 2 && k <= rn - 2 {
                let content = rest.substring_char(0, k);
                proof {
                    assert(content@ == rest@.take(k as int));
                }
                if content_implicit(content) {
                    proof {
                        assert(tag_at_is_implicit(t@, i as int));
                    }
                    return true;
                }
            }
            proof {
                assert(!tag_at_is_implicit(t@, i as int));
            }
        } else {
            proof {
                assert(!is_sub_at(t@, "{{"@, i as int)) by {
                    if is_sub_at(t@, "{{"@, i as int) {
                        assert(t@.subrange(i as int, i + 2)[0] == t@[i as int]);
                        assert(t@.subrange(i as int, i + 2)[1] == t@[i + 1]);
                    }
                }
            }
        }
        i += 1;
    }
    proof {
        assert forall|j: int| !(is_sub_at(t@, "{{"@, j) && tag_at_is_implicit(t@, j)) by {
            if is_sub_at(t@, "{{"@, j) {
                assert(j < i);
            }
        }
    }
    false
}

/// A template body this engine supports: free of partials (`{{>`), which
/// read files from disk, of delimiter changes (`{{=`), which could
/// disguise one, and of implicit `{{.}}` tags, which name the whole
/// substitution mapping and make the renderer give up. For such a
/// template the whole substitution pipeline is a function of its text
/// inputs, and always returns.
pub open spec fn template_is_supported(t: Seq<char>) -> bool {
    !contains_sub(t, "{{>"@) && !contains_sub(t, "{{="@) && !has_implicit_tag(t)
}

/// Whether the template body is free of partials, delimiter changes and
/// implicit tags.
pub fn check_template_supported(t: &str) -> (r: bool)
    ensures
        r == template_is_supported(t@),
{
    !contains_substr(t, "{{>") && !contains_substr(t, "{{=") && !check_implicit_tag(t)
}

/// Whether mustache compiles a supported template body. A function of
/// the template text alone.
pub uninterp spec fn mustache_compiles(t: Seq<char>) -> bool;

/// What mustache renders for a supported template body and the given
/// name/value pairs: the substituted text, or `None` when compiling or
/// rendering fails. A function of the arguments alone.
pub uninterp spec fn mustache_render(t: Seq<char>, data: Seq<(Seq<char>, Seq<char>)>) -> Option<
    Seq<char>,
>;

/// The two ways template substitution can fail.
#[derive(Debug, Clone, Copy, PartialEq, Eq, Structural)]
pub enum TemplateFailure {
    /// The template body is not syntactically valid.
    Compile,
    /// The compiled template could not be rendered with the given data.
    Render,
}

/// Relies on mustache::compile_str, MapBuilder::insert_str and
/// Template::render_data_to_string. For a supported template the
/// pipeline reads nothing outside its arguments, so its outcome is given
/// the names `mustache_compiles` and `mustache_render`. A template with
/// partials or delimiter changes may read files, and one with an
/// implicit `{{.}}` tag can make the renderer panic on map data, so
/// those stay outside. With string data the rendered bytes are UTF-8,
/// so render_data_to_string returns rather than panics.
#[verifier::external_body]
fn mustache_substitute(template: &str, data: &Vec<(String, String)>) -> (r: Result<
    String,
    TemplateFailure,
>)
    requires
        template_is_supported(template@),
    ensures
        match r {
            Ok(s) => mustache_compiles(template@) && mustache_render(template@, data.deep_view())
                == Some(s@),
            Err(TemplateFailure::Compile) => !mustache_compiles(template@) && mustache_render(
                template@,
                data.deep_view(),
            ) is None,
            Err(TemplateFailure::Render) => mustache_compiles(template@) && mustache_render(
                template@,
                data.deep_view(),
            ) is None,
        },
{
    let t = match mustache::compile_str(template) {
        Ok(t) => t,
        Err(_) => {
            return Err(TemplateFailure::Compile);
        },
    };
    let mut b = mustache::MapBuilder::new();
    for (k, v) in data.iter() {
        b = b.insert_str(k.as_str(), v.as_str());
    }
    match t.render_data_to_string(&b.build()) {
        Ok(s) => Ok(s),
        Err(_) => Err(TemplateFailure::Render),
    }
}

/// The substitution mapping built for a page: the site title, the page's
/// title and description, and the page's rendered body.
pub open spec fn spec_page_data(
    site_title: Seq<char>,
    page_title: Seq<char>,
    page_description: Seq<char>,
    page_body: Seq<char>,
) -> Seq<(Seq<char>, Seq<char>)> {
    seq![
        ("site_title"@, site_title),
        ("page_title"@, page_title),
        ("page_description"@, page_description),
        ("page_body"@, page_body),
    ]
}

/// Substitute the standard placeholders into a template body. An
/// unsupported template — one with partials, delimiter changes or
/// implicit tags — is refused as failing to compile.
pub fn substitute_template(
    template: &str,
    site_title: &str,
    page_title: &str,
    page_description: &str,
    page_body: &str,
) -> (r: Result<String, TemplateFailure>)
    ensures
        template_is_supported(template@) ==> ({
            let data = spec_page_data(site_title@, page_title@, page_description@, page_body@);
            match r {
                Ok(s) => mustache_compiles(template@) && mustache_render(template@, data) == Some(
                    s@,
                ),
                Err(TemplateFailure::Compile) => !mustache_compiles(template@) && mustache_render(
                    template@,
                    data,
                ) is None,
                Err(TemplateFailure::Render) => mustache_compiles(template@) && mustache_render(
                    template@,
                    data,
                ) is None,
            }
        }),
        !template_is_supported(template@) ==> r == Err::<String, TemplateFailure>(
            TemplateFailure::Compile,
        ),
{
    if !check_template_supported(template) {
        return Err(TemplateFailure::Compile);
    }
    let mut data: Vec<(String, String)> = Vec::new();
    data.push(("site_title".to_owned(), site_title.to_owned()));
    data.push(("page_title".to_owned(), page_title.to_owned()));
    data.push(("page_description".to_owned(), page_description.to_owned()));
    data.push(("page_body".to_owned(), page_body.to_owned()));
    proof {
        assert(data.deep_view() =~= spec_page_data(
            site_title@,
            page_title@,
            page_description@,
            page_body@,
        ));
    }
    mustache_substitute(template, &data)
}

} // verus!
