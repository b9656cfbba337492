//! Content files: parsing the metadata block and body, classifying the
//! file as page or template, validating the metadata, and compiling a
//! page through its template.

use vstd::prelude::*;
use vstd::string::*;
use crate::config::SiteConfig;
use crate::error::Error;
use crate::meta::{parse_pairs_range, spec_parse_pairs};
use crate::paths::{
    join_path, spec_join, spec_set_extension, spec_strip_prefix, with_extension,
};
use crate::render::{
    html_of_markdown, mustache_compiles, mustache_render, render_markdown, spec_page_data,
    substitute_template, template_is_supported, TemplateFailure,
};
use crate::strops::{
    apply_placeholders, first_eq, is_prefix, join_sep_range, lemma_first_eq, spec_join_sep,
    spec_lines, split_lines, str_eq,
};
use crate::text::{spec_s, sr_one, Text};

verus! {

/// The class of a content file: a substitution pattern, or a page to be
/// rendered through one.
#[derive(Debug, Clone, Copy, Hash, PartialEq, Eq, Structural)]
pub enum YasgClass {
    Template,
    Page,
}

/// The class named by `v`: `template` or `page`. Any other name is no
/// class at all.
pub open spec fn spec_class_from(v: Seq<char>) -> Option<YasgClass> {
    if v == "template"@ {
        Some(YasgClass::Template)
    } else if v == "page"@ {
        Some(YasgClass::Page)
    } else {
        None
    }
}

impl YasgClass {
    /// The class named by `s`: `template` or `page`.
    pub fn from(s: &str) -> (r: Option<YasgClass>)
        ensures
            r == spec_class_from(s@),
    {
        if str_eq(s, "template") {
            Some(YasgClass::Template)
        } else if str_eq(s, "page") {
            Some(YasgClass::Page)
        } else {
            None
        }
    }
}

/// Why a content file fails validation.
#[derive(Debug, Clone, Copy, PartialEq, Eq, Structural)]
pub enum ValidationIssue {
    /// No class, or an unknown one, was specified.
    MissingClass,
    /// A template does not say which class it renders.
    MissingForClass,
    /// A page has no title.
    MissingTitle,
    /// A page has no description.
    MissingDescription,
}

impl ValidationIssue {
    /// The wording of each issue.
    pub open spec fn spec_message(self) -> Seq<char> {
        match self {
            ValidationIssue::MissingClass => "No class specified."@,
            ValidationIssue::MissingForClass => "No for-class or invalid for-class specified."@,
            ValidationIssue::MissingTitle => "No title specified."@,
            ValidationIssue::MissingDescription => "No description specified."@,
        }
    }

    /// The wording of the issue.
    pub fn message(self) -> (r: &'static str)
        ensures
            r@ == self.spec_message(),
    {
        match self {
            ValidationIssue::MissingClass => "No class specified.",
            ValidationIssue::MissingForClass => "No for-class or invalid for-class specified.",
            ValidationIssue::MissingTitle => "No title specified.",
            ValidationIssue::MissingDescription => "No description specified.",
        }
    }
}

/// The metadata fields of a content file, as parsing leaves them.
pub ghost struct FieldsView {
    pub class: Option<YasgClass>,
    pub for_class: Option<YasgClass>,
    pub title: Option<Seq<char>>,
    pub description: Option<Seq<char>>,
}

/// No field set.
pub open spec fn empty_fields() -> FieldsView {
    FieldsView { class: None, for_class: None, title: None, description: None }
}

/// One metadata pair applied to the fields. `class` and `for-class` take
/// whatever class their value names, even none; `title` and `description`
/// take the value itself; unrecognized keys change nothing, and a key set
/// to an empty scalar leaves `class` and `for-class` alone.
pub open spec fn spec_apply_pair(f: FieldsView, p: (Seq<char>, Option<Seq<char>>)) -> FieldsView {
    if p.0 == "class"@ {
        match p.1 {
            Some(v) => FieldsView { class: spec_class_from(v), ..f },
            None => f,
        }
    } else if p.0 == "title"@ {
        FieldsView { title: p.1, ..f }
    } else if p.0 == "description"@ {
        FieldsView { description: p.1, ..f }
    } else if p.0 == "for-class"@ {
        match p.1 {
            Some(v) => FieldsView { for_class: spec_class_from(v), ..f },
            None => f,
        }
    } else {
        f
    }
}

/// The pairs applied in order: a later key overrides an earlier one.
pub open spec fn spec_fold_pairs(
    f: FieldsView,
    ps: Seq<(Seq<char>, Option<Seq<char>>)>,
) -> FieldsView
    decreases ps.len(),
{
    if ps.len() == 0 {
        f
    } else {
        spec_fold_pairs(spec_apply_pair(f, ps[0]), ps.skip(1))
    }
}

/// The lines before the first `---` line: the metadata block.
pub open spec fn spec_meta_lines(ls: Seq<Seq<char>>) -> Seq<Seq<char>> {
    ls.take(first_eq(ls, "---"@) as int)
}

/// The lines after the first `---` line: the body. Without a delimiter
/// the whole file is metadata and the body is empty.
pub open spec fn spec_body_lines(ls: Seq<Seq<char>>) -> Seq<Seq<char>> {
    let d = first_eq(ls, "---"@);
    if d < ls.len() {
        ls.skip(d as int + 1)
    } else {
        seq![]
    }
}

/// The metadata fields held by the raw text of a content file.
pub open spec fn spec_fields_of(raw: Seq<char>) -> FieldsView {
    spec_fold_pairs(empty_fields(), spec_parse_pairs(spec_meta_lines(spec_lines(raw))))
}

/// The validation of parsed fields: a class is required; a template must
/// say which class it renders; a page must carry a title and a
/// description.
pub open spec fn spec_validate(f: FieldsView) -> Option<ValidationIssue> {
    if f.class is None {
        Some(ValidationIssue::MissingClass)
    } else if f.class == Some(YasgClass::Template) && f.for_class is None {
        Some(ValidationIssue::MissingForClass)
    } else if f.class == Some(YasgClass::Page) && f.title is None {
        Some(ValidationIssue::MissingTitle)
    } else if f.class == Some(YasgClass::Page) && f.description is None {
        Some(ValidationIssue::MissingDescription)
    } else {
        None
    }
}

/// One parsed content file.
#[derive(Debug)]
pub struct YasgFile {
    prefix_input_path: String,
    prefix_output_path: String,
    relative_path: String,
    yaml_content: String,
    body_content: String,
    class: Option<YasgClass>,
    for_class: Option<YasgClass>,
    title: Option<String>,
    description: Option<String>,
}

/// The mathematical content of a `YasgFile`.
pub ghost struct YasgFileView {
    pub prefix_input_path: Seq<char>,
    pub prefix_output_path: Seq<char>,
    pub relative_path: Seq<char>,
    pub yaml_content: Seq<char>,
    pub body_content: Seq<char>,
    pub class: Option<YasgClass>,
    pub for_class: Option<YasgClass>,
    pub title: Option<Seq<char>>,
    pub description: Option<Seq<char>>,
}

impl YasgFileView {
    /// The metadata fields of the file.
    pub open spec fn fields(self) -> FieldsView {
        FieldsView {
            class: self.class,
            for_class: self.for_class,
            title: self.title,
            description: self.description,
        }
    }
}

impl View for YasgFile {
    type V = YasgFileView;

    closed spec fn view(&self) -> YasgFileView {
        YasgFileView {
            prefix_input_path: self.prefix_input_path@,
            prefix_output_path: self.prefix_output_path@,
            relative_path: self.relative_path@,
            yaml_content: self.yaml_content@,
            body_content: self.body_content@,
            class: self.class,
            for_class: self.for_class,
            title: self.title.deep_view(),
            description: self.description.deep_view(),
        }
    }
}

/// What parsing the raw text of a content file yields, before validation.
/// The metadata block and the body are the lines before and after the
/// first `---` line, joined with single newlines — deliberately without a
/// trailing one: a template's final line must substitute into a page
/// without adding a newline of its own, which fixes the rendered output
/// byte for byte.
pub open spec fn spec_yasg_view(
    input_prefix: Seq<char>,
    output_prefix: Seq<char>,
    path: Seq<char>,
    raw: Seq<char>,
) -> YasgFileView {
    let ls = spec_lines(raw);
    let f = spec_fields_of(raw);
    YasgFileView {
        prefix_input_path: input_prefix,
        prefix_output_path: output_prefix,
        relative_path: spec_strip_prefix(input_prefix, path),
        yaml_content: spec_join_sep(spec_meta_lines(ls), "\n"@),
        body_content: spec_join_sep(spec_body_lines(ls), "\n"@),
        class: f.class,
        for_class: f.for_class,
        title: f.title,
        description: f.description,
    }
}

/// The reasons carried by a parse error: the validation issue, then the
/// file it was found in.
pub open spec fn spec_parse_error_reasons(
    input_prefix: Seq<char>,
    path: Seq<char>,
    issue: ValidationIssue,
) -> Seq<Seq<char>> {
    seq![
        issue.spec_message(),
        apply_placeholders(
            spec_s(Text::ErrorParseErrorFor),
            seq![spec_strip_prefix(input_prefix, path)],
            1,
        ),
    ]
}

/// Index of the first `---` line, or the number of lines if none is.
fn find_delim(lines: &Vec<String>) -> (r: usize)
    ensures
        r as nat == first_eq(lines.deep_view(), "---"@),
        r <= lines@.len(),
{
    let n = lines.len();
    let mut i: usize = 0;
    while i < n
        invariant
            i <= n,
            n == lines@.len(),
            forall|j: int| 0 <= j < i ==> lines.deep_view()[j] != "---"@,
        decreases n - i,
    {
        if str_eq(lines[i].as_str(), "---") {
            proof {
                assert(lines.deep_view()[i as int] == lines@[i as int]@);
                lemma_first_eq(lines.deep_view(), "---"@);
            }
            return i;
        }
        proof {
            assert(lines.deep_view()[i as int] == lines@[i as int]@);
        }
        i += 1;
    }
    proof {
        lemma_first_eq(lines.deep_view(), "---"@);
    }
    n
}

/// A copy of an optional string.
fn clone_value(v: &Option<String>) -> (r: Option<String>)
    ensures
        r.deep_view() == v.deep_view(),
{
    match v {
        Some(s) => Some(s.clone()),
        None => None,
    }
}

impl YasgFile {
    /// An empty content file: no paths, no content, no fields.
    fn new() -> (r: YasgFile)
        ensures
            r@.class is None,
            r@.for_class is None,
            r@.title is None,
            r@.description is None,
    {
        YasgFile {
            prefix_input_path: String::new(),
            prefix_output_path: String::new(),
            relative_path: String::new(),
            yaml_content: String::new(),
            body_content: String::new(),
            class: None,
            for_class: None,
            title: None,
            description: None,
        }
    }

    /// Parse the raw text of the content file at `path` and validate it.
    /// The caller reads the file; `path` must lie under the input root.
    pub fn parse(config: &SiteConfig, path: &str, raw: &str) -> (r: Result<YasgFile, Error>)
        requires
            is_prefix(config@.input, path@),
        ensures
            match r {
                Ok(yf) => spec_validate(spec_fields_of(raw@)) is None && yf@ == spec_yasg_view(
                    config@.input,
                    config@.output,
                    path@,
                    raw@,
                ),
                Err(e) => match spec_validate(spec_fields_of(raw@)) {
                    Some(issue) => e@ =~= spec_parse_error_reasons(config@.input, path@, issue),
                    None => false,
                },
            },
    {
        let mut yf = YasgFile::new();
        yf.prefix_input_path = config.input.clone();
        yf.prefix_output_path = config.output.clone();
        yf.relative_path = config.relative_to_input(path);

        let lines = split_lines(raw);
        let nl = lines.len();
        let d = find_delim(&lines);
        proof {
            assert(lines.deep_view().subrange(0, d as int) =~= spec_meta_lines(spec_lines(raw@)));
        }
        yf.yaml_content = join_sep_range(&lines, 0, d, "\n");
        if d < nl {
            proof {
                assert(lines.deep_view().subrange(d + 1, nl as int) =~= spec_body_lines(
                    spec_lines(raw@),
                ));
            }
            yf.body_content = join_sep_range(&lines, d + 1, nl, "\n");
        } else {
            proof {
                assert(spec_body_lines(spec_lines(raw@)) =~= Seq::<Seq<char>>::empty());
            }
            yf.body_content = String::new();
        }

        let pairs = parse_pairs_range(&lines, 0, d);
        let ghost all = pairs.deep_view();
        let n = pairs.len();
        let mut fclass: Option<YasgClass> = None;
        let mut ffor: Option<YasgClass> = None;
        let mut ftitle: Option<String> = None;
        let mut fdesc: Option<String> = None;
        let mut i: usize = 0;
        proof {
            assert(all.skip(0) =~= all);
        }
        while i < n
            invariant
                i <= n,
                n == pairs@.len(),
                all == pairs.deep_view(),
                all == spec_parse_pairs(spec_meta_lines(spec_lines(raw@))),
                spec_fold_pairs(empty_fields(), all) == spec_fold_pairs(
                    FieldsView {
                        class: fclass,
                        for_class: ffor,
                        title: ftitle.deep_view(),
                        description: fdesc.deep_view(),
                    },
                    all.skip(i as int),
                ),
            decreases n - i,
        {
            proof {
                assert(all.skip(i as int)[0] == all[i as int]);
                assert(all.skip(i as int).skip(1) =~= all.skip(i + 1));
            }
            let key = pairs[i].0.as_str();
            if str_eq(key, "class") {
                if let Some(v) = &pairs[i].1 {
                    fclass = YasgClass::from(v.as_str());
                }
            } else if str_eq(key, "title") {
                ftitle = clone_value(&pairs[i].1);
            } else if str_eq(key, "description") {
                fdesc = clone_value(&pairs[i].1);
            } else if str_eq(key, "for-class") {
                if let Some(v) = &pairs[i].1 {
                    ffor = YasgClass::from(v.as_str());
                }
            }
            i += 1;
        }
        proof {
            assert(all.skip(n as int) =~= Seq::<(Seq<char>, Option<Seq<char>>)>::empty());
        }
        yf.class = fclass;
        yf.for_class = ffor;
        yf.title = ftitle;
        yf.description = fdesc;

        match yf.validate() {
            Ok(()) => Ok(yf),
            Err(issue) => Err(
                Error::with_reason(issue.message()).add(
                    sr_one(Text::ErrorParseErrorFor, yf.relative_path.as_str()),
                ),
            ),
        }
    }

    /// Validate the parsed metadata fields.
    pub fn validate(&self) -> (r: Result<(), ValidationIssue>)
        ensures
            match r {
                Ok(()) => spec_validate(self@.fields()) is None,
                Err(issue) => spec_validate(self@.fields()) == Some(issue),
            },
    {
        match self.class {
            None => Err(ValidationIssue::MissingClass),
            Some(YasgClass::Template) => {
                if self.for_class.is_none() {
                    Err(ValidationIssue::MissingForClass)
                } else {
                    Ok(())
                }
            },
            Some(YasgClass::Page) => {
                if self.title.is_none() {
                    Err(ValidationIssue::MissingTitle)
                } else if self.description.is_none() {
                    Err(ValidationIssue::MissingDescription)
                } else {
                    Ok(())
                }
            },
        }
    }

    /// The source path: the input root joined with the relative path.
    pub fn full_input_path(&self) -> (r: String)
        ensures
            r@ == spec_join(self@.prefix_input_path, self@.relative_path),
    {
        join_path(self.prefix_input_path.as_str(), self.relative_path.as_str())
    }

    /// The output path: the output root joined with the relative path,
    /// its extension replaced by `html`.
    pub fn full_output_path(&self) -> (r: String)
        ensures
            r@ == spec_join(
                self@.prefix_output_path,
                spec_set_extension(self@.relative_path, "html"@),
            ),
    {
        let name = with_extension(self.relative_path.as_str(), "html");
        join_path(self.prefix_output_path.as_str(), name.as_str())
    }

    /// The path of the source file relative to the input root.
    pub fn relative_path(&self) -> (r: &String)
        ensures
            r@ == self@.relative_path,
    {
        &self.relative_path
    }

    /// The class of the file, if its metadata named one.
    pub fn class(&self) -> (r: Option<YasgClass>)
        ensures
            r == self@.class,
    {
        self.class
    }

    /// The class this template renders, if its metadata named one.
    pub fn for_class(&self) -> (r: Option<YasgClass>)
        ensures
            r == self@.for_class,
    {
        self.for_class
    }

    /// The page title, if the metadata carried one.
    pub fn title(&self) -> (r: &Option<String>)
        ensures
            r.deep_view() == self@.title,
    {
        &self.title
    }

    /// The page description, if the metadata carried one.
    pub fn description(&self) -> (r: &Option<String>)
        ensures
            r.deep_view() == self@.description,
    {
        &self.description
    }

    /// The unparsed metadata block: its lines joined with single
    /// newlines, no trailing one.
    pub fn yaml_content(&self) -> (r: &String)
        ensures
            r@ == self@.yaml_content,
    {
        &self.yaml_content
    }

    /// The body: the lines after the delimiter line, joined with single
    /// newlines, no trailing one.
    pub fn body_content(&self) -> (r: &String)
        ensures
            r@ == self@.body_content,
    {
        &self.body_content
    }

    /// The body rendered from Markdown to an HTML fragment.
    pub fn compile_body_content_to_html(&self) -> (r: String)
        ensures
            r@ == html_of_markdown(self@.body_content),
    {
        render_markdown(self.body_content.as_str())
    }

    /// Compile this page through `template`: render the body to HTML and
    /// substitute it, with the titles and description, into the template
    /// body. The caller writes the result to `full_output_path`.
    pub fn compile(&self, config: &SiteConfig, template: &YasgFile) -> (r: Result<String, Error>)
        requires
            self@.title is Some,
            self@.description is Some,
        ensures
            !template_is_supported(template@.body_content) ==> (r matches Err(e) && e@ =~= seq![
                "Template compile error."@,
            ]),
            template_is_supported(template@.body_content) ==> match r {
                Ok(h) => spec_compile_page(config@.title, self@, template@.body_content) == Ok::<
                    Seq<char>,
                    TemplateFailure,
                >(h@),
                Err(e) => match spec_compile_page(
                    config@.title,
                    self@,
                    template@.body_content,
                ) {
                    Err(TemplateFailure::Compile) => e@ =~= seq!["Template compile error."@],
                    Err(TemplateFailure::Render) => e@ =~= seq!["Template render error."@],
                    Ok(_) => false,
                },
            },
    {
        let body_html = self.compile_body_content_to_html();
        let title = self.title.as_ref().unwrap().as_str();
        let description = self.description.as_ref().unwrap().as_str();
        let result = substitute_template(
            template.body_content.as_str(),
            config.title.as_str(),
            title,
            description,
            body_html.as_str(),
        );
        match result {
            Ok(s) => Ok(s),
            Err(TemplateFailure::Compile) => Err(Error::with_reason("Template compile error.")),
            Err(TemplateFailure::Render) => Err(Error::with_reason("Template render error.")),
        }
    }
}

/// A pair that sets `class` to a named class: the key is `class` and the
/// value names `template` or `page`.
pub open spec fn pair_sets_class(p: (Seq<char>, Option<Seq<char>>)) -> bool {
    p.0 == "class"@ && match p.1 {
        Some(v) => spec_class_from(v) is Some,
        None => false,
    }
}

/// Folding pairs that never set a valid class leaves `class` unset.
proof fn lemma_fold_keeps_class_none(f: FieldsView, ps: Seq<(Seq<char>, Option<Seq<char>>)>)
    requires
        f.class is None,
        forall|j: int| 0 <= j < ps.len() ==> !pair_sets_class(#[trigger] ps[j]),
    ensures
        spec_fold_pairs(f, ps).class is None,
    decreases ps.len(),
{
    if ps.len() > 0 {
        assert(!pair_sets_class(ps[0]));
        let f2 = spec_apply_pair(f, ps[0]);
        assert(f2.class is None);
        assert forall|j: int|
            0 <= j < ps.skip(1).len() implies !pair_sets_class(#[trigger] ps.skip(1)[j]) by {
            assert(ps.skip(1)[j] == ps[j + 1]);
        }
        lemma_fold_keeps_class_none(f2, ps.skip(1));
    }
}

/// A content file whose metadata never names a valid class — the `class`
/// key absent, set to an empty scalar, or set to an unknown name — has
/// no class, and validation fails with `MissingClass`.
pub proof fn lemma_no_class_missing_class(raw: Seq<char>)
    requires
        forall|j: int|
            0 <= j < spec_parse_pairs(spec_meta_lines(spec_lines(raw))).len()
                ==> !pair_sets_class(
                #[trigger] spec_parse_pairs(spec_meta_lines(spec_lines(raw)))[j],
            ),
    ensures
        spec_fields_of(raw).class is None,
        spec_validate(spec_fields_of(raw)) == Some(ValidationIssue::MissingClass),
{
    lemma_fold_keeps_class_none(
        empty_fields(),
        spec_parse_pairs(spec_meta_lines(spec_lines(raw))),
    );
}

/// A content file whose metadata block is missing, empty, or without a
/// single `key: value` pair has no class, and validation fails with
/// `MissingClass`.
pub proof fn lemma_empty_metadata_missing_class(raw: Seq<char>)
    requires
        spec_meta_lines(spec_lines(raw)).len() == 0 || spec_parse_pairs(
            spec_meta_lines(spec_lines(raw)),
        ).len() == 0,
    ensures
        spec_fields_of(raw).class is None,
        spec_validate(spec_fields_of(raw)) == Some(ValidationIssue::MissingClass),
{
    let ls = spec_meta_lines(spec_lines(raw));
    if ls.len() == 0 {
        assert(spec_parse_pairs(ls).len() == 0);
    }
    lemma_no_class_missing_class(raw);
}

/// A template that does not say which class it renders fails validation
/// with `MissingForClass`.
pub proof fn lemma_template_missing_for_class(f: FieldsView)
    requires
        f.class == Some(YasgClass::Template),
        f.for_class is None,
    ensures
        spec_validate(f) == Some(ValidationIssue::MissingForClass),
{
}

/// A page without a title fails validation with `MissingTitle`.
pub proof fn lemma_page_missing_title(f: FieldsView)
    requires
        f.class == Some(YasgClass::Page),
        f.title is None,
    ensures
        spec_validate(f) == Some(ValidationIssue::MissingTitle),
{
}

/// What compiling a page through a supported template body yields:
/// the substituted text, or the stage that fails.
pub open spec fn spec_compile_page(
    site_title: Seq<char>,
    page: YasgFileView,
    template_body: Seq<char>,
) -> Result<Seq<char>, TemplateFailure>
    recommends
        page.title is Some,
        page.description is Some,
{
    let data = spec_page_data(
        site_title,
        page.title.unwrap(),
        page.description.unwrap(),
        html_of_markdown(page.body_content),
    );
    if !mustache_compiles(template_body) {
        Err(TemplateFailure::Compile)
    } else {
        match mustache_render(template_body, data) {
            Some(h) => Ok(h),
            None => Err(TemplateFailure::Render),
        }
    }
}

} // verus!
