//! The build orchestrator: classify scanned files into templates, pages
//! and plain copies, then compile every page through the template for its
//! class. The caller walks the input tree, reads content files, and
//! carries out the planned actions; the plan itself is computed here.

use vstd::prelude::*;
use vstd::string::*;
use crate::config::{SiteConfig, SiteConfigView};
use crate::error::Error;
use crate::paths::{join_path, path_has_extension, spec_extension, spec_join, spec_set_extension, spec_strip_prefix};
use crate::render::{check_template_supported, template_is_supported, TemplateFailure};
use crate::strops::is_prefix;
use crate::yasg::{
    spec_compile_page, spec_fields_of, spec_parse_error_reasons, spec_validate, spec_yasg_view,
    YasgClass, YasgFile, YasgFileView,
};

verus! {

/// One file found under the input root: its full path, and its raw text
/// when it is a content file.
pub struct ScanEntry {
    /// The full path of the file, under the input root.
    pub path: String,
    /// The raw text, read by the caller — for content files only.
    pub raw: Option<String>,
}

/// The mathematical content of a `ScanEntry`.
pub ghost struct ScanEntryView {
    pub path: Seq<char>,
    pub raw: Option<Seq<char>>,
}

impl View for ScanEntry {
    type V = ScanEntryView;

    open spec fn view(&self) -> ScanEntryView {
        ScanEntryView { path: self.path@, raw: self.raw.deep_view() }
    }
}

/// One step of the plan: copy a file through unchanged, or write a
/// compiled page.
#[derive(Debug, PartialEq, Eq)]
pub enum BuildAction {
    /// Copy the file at `from` to `to`, byte for byte.
    Copy { from: String, to: String },
    /// Write `html` to the file at `to`.
    WriteHtml { to: String, html: String },
}

/// The mathematical content of a `BuildAction`.
pub ghost enum BuildActionView {
    Copy { from: Seq<char>, to: Seq<char> },
    WriteHtml { to: Seq<char>, html: Seq<char> },
}

impl View for BuildAction {
    type V = BuildActionView;

    open spec fn view(&self) -> BuildActionView {
        match self {
            BuildAction::Copy { from, to } => BuildActionView::Copy { from: from@, to: to@ },
            BuildAction::WriteHtml { to, html } => BuildActionView::WriteHtml {
                to: to@,
                html: html@,
            },
        }
    }
}

/// One file the build could not process, and why. The build reports such
/// files and carries on.
pub struct FileFailure {
    /// The path of the file, relative to the input root.
    pub path: String,
    /// What went wrong.
    pub error: Error,
}

/// The mathematical content of a `FileFailure`.
pub ghost struct FileFailureView {
    pub path: Seq<char>,
    pub reasons: Seq<Seq<char>>,
}

impl View for FileFailure {
    type V = FileFailureView;

    open spec fn view(&self) -> FileFailureView {
        FileFailureView { path: self.path@, reasons: self.error@ }
    }
}

/// The files of one build, classified: at most one template per class —
/// a later template for the same class replaces an earlier one — the
/// pages in scan order, the copies in scan order, and the files that
/// could not be processed.
pub struct Classified {
    /// The template whose `for-class` is `template`, if any.
    pub template_for_template: Option<YasgFile>,
    /// The template whose `for-class` is `page`, if any.
    pub template_for_page: Option<YasgFile>,
    /// The pages, in scan order.
    pub pages: Vec<YasgFile>,
    /// The copy actions for the files that are not content files.
    pub copies: Vec<BuildAction>,
    /// The files that could not be processed.
    pub failures: Vec<FileFailure>,
}

/// The mathematical content of a `Classified`.
pub ghost struct ClassifiedView {
    pub template_for_template: Option<YasgFileView>,
    pub template_for_page: Option<YasgFileView>,
    pub pages: Seq<YasgFileView>,
    pub copies: Seq<BuildActionView>,
    pub failures: Seq<FileFailureView>,
}

impl View for Classified {
    type V = ClassifiedView;

    open spec fn view(&self) -> ClassifiedView {
        ClassifiedView {
            template_for_template: match self.template_for_template {
                Some(t) => Some(t@),
                None => None,
            },
            template_for_page: match self.template_for_page {
                Some(t) => Some(t@),
                None => None,
            },
            pages: self.pages@.map_values(|y: YasgFile| y@),
            copies: self.copies@.map_values(|a: BuildAction| a@),
            failures: self.failures@.map_values(|f: FileFailure| f@),
        }
    }
}

/// The plan of one build: the actions to carry out, in order, and the
/// files that could not be processed.
pub struct BuildPlan {
    /// The actions, in the order they are to be carried out.
    pub actions: Vec<BuildAction>,
    /// The files that could not be processed.
    pub failures: Vec<FileFailure>,
}

/// The mathematical content of a `BuildPlan`.
pub ghost struct BuildPlanView {
    pub actions: Seq<BuildActionView>,
    pub failures: Seq<FileFailureView>,
}

impl View for BuildPlan {
    type V = BuildPlanView;

    open spec fn view(&self) -> BuildPlanView {
        BuildPlanView {
            actions: self.actions@.map_values(|a: BuildAction| a@),
            failures: self.failures@.map_values(|f: FileFailure| f@),
        }
    }
}

/// The views of the scanned entries.
pub open spec fn scan_views(es: Seq<ScanEntry>) -> Seq<ScanEntryView> {
    es.map_values(|e: ScanEntry| e@)
}

/// An entry the orchestrator can work on: its path lies under the input
/// root, and it carries raw text exactly when it is a content file.
pub open spec fn entry_ok(cfg: SiteConfigView, e: ScanEntryView) -> bool {
    is_prefix(cfg.input, e.path) && (e.raw is Some <==> spec_extension(e.path) == Some("yasg"@))
}

/// Nothing classified yet.
pub open spec fn empty_classified() -> ClassifiedView {
    ClassifiedView {
        template_for_template: None,
        template_for_page: None,
        pages: Seq::empty(),
        copies: Seq::empty(),
        failures: Seq::empty(),
    }
}

/// The copy action for a file that is not a content file: from its place
/// under the input root to the mirrored place under the output root.
pub open spec fn spec_copy_action(cfg: SiteConfigView, path: Seq<char>) -> BuildActionView {
    BuildActionView::Copy {
        from: path,
        to: spec_join(cfg.output, spec_strip_prefix(cfg.input, path)),
    }
}

/// The reason reported for a template that uses partials, delimiter
/// changes or implicit tags, which this engine does not support.
pub open spec fn spec_unsupported_template_reason(rel: Seq<char>) -> Seq<char> {
    "Template uses unsupported directives: "@ + rel
}

/// One scanned entry classified. A content file is parsed and validated:
/// a failure is recorded and the file skipped; a template is keyed by its
/// `for-class`, replacing any earlier one, unless it uses unsupported
/// directives; a page joins the page list. Any other file becomes a copy
/// action.
pub open spec fn spec_classify_step(
    cfg: SiteConfigView,
    st: ClassifiedView,
    e: ScanEntryView,
) -> ClassifiedView {
    if spec_extension(e.path) == Some("yasg"@) {
        let raw = e.raw.unwrap();
        let rel = spec_strip_prefix(cfg.input, e.path);
        match spec_validate(spec_fields_of(raw)) {
            Some(issue) => ClassifiedView {
                failures: st.failures.push(
                    FileFailureView {
                        path: rel,
                        reasons: spec_parse_error_reasons(cfg.input, e.path, issue),
                    },
                ),
                ..st
            },
            None => {
                let yv = spec_yasg_view(cfg.input, cfg.output, e.path, raw);
                if yv.class == Some(YasgClass::Template) {
                    if template_is_supported(yv.body_content) {
                        if yv.for_class == Some(YasgClass::Template) {
                            ClassifiedView { template_for_template: Some(yv), ..st }
                        } else {
                            ClassifiedView { template_for_page: Some(yv), ..st }
                        }
                    } else {
                        ClassifiedView {
                            failures: st.failures.push(
                                FileFailureView {
                                    path: rel,
                                    reasons: seq![spec_unsupported_template_reason(rel)],
                                },
                            ),
                            ..st
                        }
                    }
                } else {
                    ClassifiedView { pages: st.pages.push(yv), ..st }
                }
            },
        }
    } else {
        ClassifiedView { copies: st.copies.push(spec_copy_action(cfg, e.path)), ..st }
    }
}

/// The scanned entries classified in order.
pub open spec fn spec_classify(
    cfg: SiteConfigView,
    st: ClassifiedView,
    es: Seq<ScanEntryView>,
) -> ClassifiedView
    decreases es.len(),
{
    if es.len() == 0 {
        st
    } else {
        spec_classify(cfg, spec_classify_step(cfg, st, es[0]), es.skip(1))
    }
}

/// A page the compile phase can work on: validated as a page.
pub open spec fn page_wf(p: YasgFileView) -> bool {
    p.class == Some(YasgClass::Page) && p.title is Some && p.description is Some
}

/// What classification guarantees: every stored template is
/// supported and every stored page validated as a page.
pub open spec fn classified_wf(st: ClassifiedView) -> bool {
    (match st.template_for_template {
        Some(t) => template_is_supported(t.body_content),
        None => true,
    }) && (match st.template_for_page {
        Some(t) => template_is_supported(t.body_content),
        None => true,
    }) && (forall|i: int| 0 <= i < st.pages.len() ==> page_wf(#[trigger] st.pages[i]))
}

/// Classification preserves its guarantees, entry by entry.
pub proof fn lemma_classify_wf(cfg: SiteConfigView, st: ClassifiedView, es: Seq<ScanEntryView>)
    requires
        classified_wf(st),
    ensures
        classified_wf(spec_classify(cfg, st, es)),
    decreases es.len(),
{
    if es.len() > 0 {
        let st2 = spec_classify_step(cfg, st, es[0]);
        assert(classified_wf(st2)) by {
            if spec_extension(es[0].path) == Some("yasg"@) {
                let raw = es[0].raw.unwrap();
                if spec_validate(spec_fields_of(raw)) is None {
                    let yv = spec_yasg_view(cfg.input, cfg.output, es[0].path, raw);
                    let f = spec_fields_of(raw);
                    assert(yv.class == f.class && yv.title == f.title && yv.description
                        == f.description);
                    assert(f.class is Some);
                    if yv.class != Some(YasgClass::Template) {
                        assert(f.class == Some(YasgClass::Page));
                        assert(page_wf(yv));
                        assert(forall|i: int|
                            0 <= i < st2.pages.len() - 1 ==> st2.pages[i] == st.pages[i]);
                    }
                }
            }
        }
        lemma_classify_wf(cfg, st2, es.skip(1));
    }
}

/// The template that renders pages of class `c`, if one was classified.
pub open spec fn spec_template_for(st: ClassifiedView, c: YasgClass) -> Option<YasgFileView> {
    match c {
        YasgClass::Template => st.template_for_template,
        YasgClass::Page => st.template_for_page,
    }
}

/// One page compiled, the outcome added to the plan. A page without a
/// class, or whose class has no template, is skipped without an error;
/// a failed compilation is recorded and the page skipped.
pub open spec fn spec_page_step(
    site_title: Seq<char>,
    st: ClassifiedView,
    acc: BuildPlanView,
    p: YasgFileView,
) -> BuildPlanView {
    match p.class {
        None => acc,
        Some(c) => match spec_template_for(st, c) {
            None => acc,
            Some(tpl) => match spec_compile_page(site_title, p, tpl.body_content) {
                Ok(h) => BuildPlanView {
                    actions: acc.actions.push(
                        BuildActionView::WriteHtml {
                            to: spec_join(
                                p.prefix_output_path,
                                spec_set_extension(p.relative_path, "html"@),
                            ),
                            html: h,
                        },
                    ),
                    ..acc
                },
                Err(TemplateFailure::Compile) => BuildPlanView {
                    failures: acc.failures.push(
                        FileFailureView {
                            path: p.relative_path,
                            reasons: seq!["Template compile error."@],
                        },
                    ),
                    ..acc
                },
                Err(TemplateFailure::Render) => BuildPlanView {
                    failures: acc.failures.push(
                        FileFailureView {
                            path: p.relative_path,
                            reasons: seq!["Template render error."@],
                        },
                    ),
                    ..acc
                },
            },
        },
    }
}

/// The pages compiled in order.
pub open spec fn spec_pages_fold(
    site_title: Seq<char>,
    st: ClassifiedView,
    acc: BuildPlanView,
    ps: Seq<YasgFileView>,
) -> BuildPlanView
    decreases ps.len(),
{
    if ps.len() == 0 {
        acc
    } else {
        spec_pages_fold(site_title, st, spec_page_step(site_title, st, acc, ps[0]), ps.skip(1))
    }
}

/// An empty plan.
pub open spec fn empty_plan() -> BuildPlanView {
    BuildPlanView { actions: Seq::empty(), failures: Seq::empty() }
}

/// The compile phase of the plan: every classified page compiled through
/// the template for its class.
pub open spec fn spec_pages_plan(site_title: Seq<char>, st: ClassifiedView) -> BuildPlanView {
    spec_pages_fold(site_title, st, empty_plan(), st.pages)
}

/// The whole plan for one build: the entries classified in order, the
/// copies in scan order, then every page compiled through the template
/// for its class.
pub open spec fn spec_plan(cfg: SiteConfigView, es: Seq<ScanEntryView>) -> BuildPlanView {
    let st = spec_classify(cfg, empty_classified(), es);
    let pp = spec_pages_plan(cfg.title, st);
    BuildPlanView { actions: st.copies + pp.actions, failures: st.failures + pp.failures }
}

/// Building twice from the same configuration and the same scanned input
/// yields the same plan, action for action and byte for byte. Rendering
/// and substitution depend on their text inputs alone, so a rerun against
/// a freshly emptied output directory writes an identical output tree.
pub proof fn lemma_build_idempotent(
    cfg1: SiteConfigView,
    es1: Seq<ScanEntryView>,
    cfg2: SiteConfigView,
    es2: Seq<ScanEntryView>,
)
    requires
        cfg1 == cfg2,
        es1 == es2,
    ensures
        spec_plan(cfg1, es1) == spec_plan(cfg2, es2),
{
}

/// A page whose class has no classified template is skipped: it adds no
/// action and no failure to the plan.
pub proof fn lemma_page_without_template_skipped(
    site_title: Seq<char>,
    st: ClassifiedView,
    acc: BuildPlanView,
    p: YasgFileView,
)
    requires
        match p.class {
            Some(c) => spec_template_for(st, c) is None,
            None => true,
        },
    ensures
        spec_page_step(site_title, st, acc, p) == acc,
{
}

/// With no templates classified at all, the compile phase adds nothing:
/// every page is skipped without an error.
pub proof fn lemma_pages_without_templates(
    site_title: Seq<char>,
    st: ClassifiedView,
    acc: BuildPlanView,
    ps: Seq<YasgFileView>,
)
    requires
        st.template_for_template is None,
        st.template_for_page is None,
    ensures
        spec_pages_fold(site_title, st, acc, ps) == acc,
    decreases ps.len(),
{
    if ps.len() > 0 {
        lemma_page_without_template_skipped(site_title, st, acc, ps[0]);
        lemma_pages_without_templates(site_title, st, acc, ps.skip(1));
    }
}

/// The copy actions that a sequence of entries calls for: one for each
/// file that is not a content file, in scan order.
pub open spec fn spec_copies_of(cfg: SiteConfigView, es: Seq<ScanEntryView>) -> Seq<
    BuildActionView,
>
    decreases es.len(),
{
    if es.len() == 0 {
        seq![]
    } else if spec_extension(es[0].path) == Some("yasg"@) {
        spec_copies_of(cfg, es.skip(1))
    } else {
        seq![spec_copy_action(cfg, es[0].path)] + spec_copies_of(cfg, es.skip(1))
    }
}

/// Classification copies exactly the files that are not content files:
/// one copy action each, to the mirrored place under the output root, in
/// scan order, whatever else the entries hold.
pub proof fn lemma_classify_copies(
    cfg: SiteConfigView,
    st: ClassifiedView,
    es: Seq<ScanEntryView>,
)
    ensures
        spec_classify(cfg, st, es).copies == st.copies + spec_copies_of(cfg, es),
    decreases es.len(),
{
    if es.len() == 0 {
        assert(st.copies + spec_copies_of(cfg, es) =~= st.copies);
    } else {
        let st2 = spec_classify_step(cfg, st, es[0]);
        lemma_classify_copies(cfg, st2, es.skip(1));
        if spec_extension(es[0].path) == Some("yasg"@) {
            assert(st2.copies == st.copies);
        } else {
            assert(st2.copies == st.copies.push(spec_copy_action(cfg, es[0].path)));
            assert(st2.copies + spec_copies_of(cfg, es.skip(1)) =~= st.copies + spec_copies_of(
                cfg,
                es,
            ));
        }
    }
}

/// The plan opens with exactly one copy action for every file that is
/// not a content file, in scan order. Carrying those actions out copies
/// each such file to the mirrored place under the output root.
pub proof fn lemma_plan_copies_non_content(cfg: SiteConfigView, es: Seq<ScanEntryView>)
    ensures
        spec_plan(cfg, es).actions.take(spec_copies_of(cfg, es).len() as int) == spec_copies_of(
            cfg,
            es,
        ),
{
    lemma_classify_copies(cfg, empty_classified(), es);
    let st = spec_classify(cfg, empty_classified(), es);
    assert(st.copies =~= spec_copies_of(cfg, es));
    assert(spec_plan(cfg, es).actions.take(spec_copies_of(cfg, es).len() as int)
        =~= spec_copies_of(cfg, es));
}

/// Compile every classified page through the template for its class.
/// A page whose class has no template is skipped without an error; a
/// failed compilation is recorded and the page skipped. The caller
/// writes each result to its path.
pub fn process_pages(config: &SiteConfig, classified: &Classified) -> (r: BuildPlan)
    requires
        classified_wf(classified@),
    ensures
        r@ == spec_pages_plan(config@.title, classified@),
{
    let mut actions: Vec<BuildAction> = Vec::new();
    let mut failures: Vec<FileFailure> = Vec::new();
    let ghost st = classified@;
    let n = classified.pages.len();
    let mut j: usize = 0;
    proof {
        assert(st.pages.skip(0) =~= st.pages);
        assert(actions@.map_values(|a: BuildAction| a@) =~= empty_plan().actions);
        assert(failures@.map_values(|f: FileFailure| f@) =~= empty_plan().failures);
    }
    while j < n
        invariant
            j <= n,
            n == classified.pages@.len(),
            st == classified@,
            classified_wf(st),
            spec_pages_fold(config@.title, st, empty_plan(), st.pages) == spec_pages_fold(
                config@.title,
                st,
                BuildPlanView {
                    actions: actions@.map_values(|a: BuildAction| a@),
                    failures: failures@.map_values(|f: FileFailure| f@),
                },
                st.pages.skip(j as int),
            ),
        decreases n - j,
    {
        let ghost prev = BuildPlanView {
            actions: actions@.map_values(|a: BuildAction| a@),
            failures: failures@.map_values(|f: FileFailure| f@),
        };
        proof {
            assert(st.pages.skip(j as int)[0] == st.pages[j as int]);
            assert(st.pages.skip(j as int).skip(1) =~= st.pages.skip(j + 1));
            assert(st.pages[j as int] == classified.pages@[j as int]@);
            assert(page_wf(st.pages[j as int]));
        }
        let page = &classified.pages[j];
        if let Some(c) = page.class() {
            let tpl_opt = match c {
                YasgClass::Template => &classified.template_for_template,
                YasgClass::Page => &classified.template_for_page,
            };
            if let Some(tpl) = tpl_opt {
                proof {
                    assert(template_is_supported(tpl@.body_content));
                }
                match page.compile(config, tpl) {
                    Ok(h) => {
                        let to = page.full_output_path();
                        actions.push(BuildAction::WriteHtml { to, html: h });
                        proof {
                            assert(actions@.map_values(|a: BuildAction| a@) =~= prev.actions.push(
                                actions@.last()@,
                            ));
                        }
                    },
                    Err(e) => {
                        failures.push(FileFailure { path: page.relative_path().clone(), error: e });
                        proof {
                            assert(failures@.map_values(|f: FileFailure| f@) =~= prev.failures.push(
                                failures@.last()@,
                            ));
                        }
                    },
                }
            }
        }
        proof {
            let cur = BuildPlanView {
                actions: actions@.map_values(|a: BuildAction| a@),
                failures: failures@.map_values(|f: FileFailure| f@),
            };
            assert(cur == spec_page_step(config@.title, st, prev, st.pages[j as int]));
        }
        j += 1;
    }
    proof {
        assert(st.pages.skip(n as int) =~= Seq::<YasgFileView>::empty());
    }
    BuildPlan { actions, failures }
}

/// Classify every scanned file and compile every page: the whole plan of
/// one build. Files that fail to parse, validate or compile are recorded
/// and skipped, and the rest of the build goes on.
pub fn process_files(config: &SiteConfig, entries: &Vec<ScanEntry>) -> (r: BuildPlan)
    requires
        forall|i: int| 0 <= i < entries@.len() ==> entry_ok(config@, #[trigger] entries@[i]@),
    ensures
        r@ == spec_plan(config@, scan_views(entries@)),
{
    let ghost evs = scan_views(entries@);
    let mut cl = Classified {
        template_for_template: None,
        template_for_page: None,
        pages: Vec::new(),
        copies: Vec::new(),
        failures: Vec::new(),
    };
    proof {
        assert(cl@.pages =~= empty_classified().pages);
        assert(cl@.copies =~= empty_classified().copies);
        assert(cl@.failures =~= empty_classified().failures);
        assert(cl@ == empty_classified());
        assert(evs.skip(0) =~= evs);
    }
    let n = entries.len();
    let mut i: usize = 0;
    while i < n
        invariant
            i <= n,
            n == entries@.len(),
            evs == scan_views(entries@),
            forall|k: int| 0 <= k < entries@.len() ==> entry_ok(config@, #[trigger] entries@[k]@),
            spec_classify(config@, empty_classified(), evs) == spec_classify(
                config@,
                cl@,
                evs.skip(i as int),
            ),
        decreases n - i,
    {
        let ghost prev = cl@;
        proof {
            assert(evs.skip(i as int)[0] == evs[i as int]);
            assert(evs.skip(i as int).skip(1) =~= evs.skip(i + 1));
            assert(evs[i as int] == entries@[i as int]@);
            assert(entry_ok(config@, entries@[i as int]@));
        }
        let e = &entries[i];
        if path_has_extension(e.path.as_str(), "yasg") {
            let raw = e.raw.as_ref().unwrap();
            match YasgFile::parse(config, e.path.as_str(), raw.as_str()) {
                Ok(yf) => {
                    match yf.class() {
                        Some(YasgClass::Template) => {
                            if check_template_supported(yf.body_content().as_str()) {
                                match yf.for_class() {
                                    Some(YasgClass::Template) => {
                                        cl.template_for_template = Some(yf);
                                    },
                                    Some(YasgClass::Page) => {
                                        cl.template_for_page = Some(yf);
                                    },
                                    None => {
                                        proof {
                                            assert(false);
                                        }
                                    },
                                }
                            } else {
                                let rel = yf.relative_path().clone();
                                let mut msg = "Template uses unsupported directives: ".to_owned();
                                msg.append(rel.as_str());
                                cl.failures.push(
                                    FileFailure { path: rel, error: Error::with_reason(msg.as_str()) },
                                );
                                proof {
                                    assert(cl@.failures =~= prev.failures.push(
                                        cl.failures@.last()@,
                                    ));
                                }
                            }
                        },
                        Some(YasgClass::Page) => {
                            cl.pages.push(yf);
                            proof {
                                assert(cl@.pages =~= prev.pages.push(cl.pages@.last()@));
                            }
                        },
                        None => {
                            proof {
                                assert(false);
                            }
                        },
                    }
                },
                Err(err) => {
                    let rel = config.relative_to_input(e.path.as_str());
                    cl.failures.push(FileFailure { path: rel, error: err });
                    proof {
                        assert(cl@.failures =~= prev.failures.push(cl.failures@.last()@));
                    }
                },
            }
        } else {
            let rel = config.relative_to_input(e.path.as_str());
            let to = join_path(config.output.as_str(), rel.as_str());
            cl.copies.push(BuildAction::Copy { from: e.path.clone(), to });
            proof {
                assert(cl@.copies =~= prev.copies.push(cl.copies@.last()@));
            }
        }
        proof {
            assert(cl@ == spec_classify_step(config@, prev, evs[i as int]));
        }
        i += 1;
    }
    proof {
        assert(evs.skip(n as int) =~= Seq::<ScanEntryView>::empty());
        lemma_classify_wf(config@, empty_classified(), evs);
    }
    let ghost stv = cl@;
    let sub = process_pages(config, &cl);
    let Classified { copies, failures, .. } = cl;
    let mut actions = copies;
    let mut failures = failures;
    let mut sub_actions = sub.actions;
    let mut sub_failures = sub.failures;
    let ghost copies_v = actions@.map_values(|a: BuildAction| a@);
    let ghost failures_v = failures@.map_values(|f: FileFailure| f@);
    actions.append(&mut sub_actions);
    failures.append(&mut sub_failures);
    let r = BuildPlan { actions, failures };
    proof {
        assert(r@.actions =~= copies_v + spec_pages_plan(config@.title, stv).actions);
        assert(r@.failures =~= failures_v + spec_pages_plan(config@.title, stv).failures);
    }
    r
}

} // verus!
