//! The site configuration: the site title and the input and output roots,
//! read from the text of `Site.yaml`.

use vstd::prelude::*;
use vstd::string::*;
use crate::error::Error;
use crate::meta::{parse_pairs_range, spec_parse_pairs};
use crate::paths::spec_strip_prefix;
use crate::paths::strip_path_prefix;
use crate::strops::{
    apply_placeholders, is_prefix, spec_lines, split_lines, starts_with_str, str_eq,
};
use crate::text::{spec_s, sr_one, Text};

verus! {

/// The site configuration.
#[derive(Debug)]
pub struct SiteConfig {
    /// The site-wide title, substituted for `site_title`.
    pub title: String,
    /// The root directory that content is read from.
    pub input: String,
    /// The root directory that output is written under.
    pub output: String,
}

/// The mathematical content of a `SiteConfig`.
pub ghost struct SiteConfigView {
    pub title: Seq<char>,
    pub input: Seq<char>,
    pub output: Seq<char>,
}

impl View for SiteConfig {
    type V = SiteConfigView;

    open spec fn view(&self) -> SiteConfigView {
        SiteConfigView { title: self.title@, input: self.input@, output: self.output@ }
    }
}

/// The configuration before any key is read: an empty title and the
/// default input and output roots.
pub open spec fn spec_config_defaults() -> SiteConfigView {
    SiteConfigView { title: Seq::empty(), input: "contents"@, output: "target/site"@ }
}

/// One metadata pair applied to the configuration. A recognized key set
/// to an empty scalar is the offending key of an error; unrecognized keys
/// are ignored.
pub open spec fn spec_apply_config_pair(
    c: SiteConfigView,
    p: (Seq<char>, Option<Seq<char>>),
) -> Result<SiteConfigView, Seq<char>> {
    if p.0 == "title"@ {
        match p.1 {
            Some(v) => Ok(SiteConfigView { title: v, ..c }),
            None => Err("title"@),
        }
    } else if p.0 == "input-path"@ {
        match p.1 {
            Some(v) => Ok(SiteConfigView { input: v, ..c }),
            None => Err("input-path"@),
        }
    } else if p.0 == "output-path"@ {
        match p.1 {
            Some(v) => Ok(SiteConfigView { output: v, ..c }),
            None => Err("output-path"@),
        }
    } else {
        Ok(c)
    }
}

/// The pairs applied in order, stopping at the first offending key.
pub open spec fn spec_fold_config(
    c: SiteConfigView,
    ps: Seq<(Seq<char>, Option<Seq<char>>)>,
) -> Result<SiteConfigView, Seq<char>>
    decreases ps.len(),
{
    if ps.len() == 0 {
        Ok(c)
    } else {
        match spec_apply_config_pair(c, ps[0]) {
            Ok(c2) => spec_fold_config(c2, ps.skip(1)),
            Err(k) => Err(k),
        }
    }
}

/// The configuration read from the text of `Site.yaml`: the defaults,
/// overridden by the recognized keys in order, or the first offending key.
pub open spec fn spec_parse_config(raw: Seq<char>) -> Result<SiteConfigView, Seq<char>> {
    spec_fold_config(spec_config_defaults(), spec_parse_pairs(spec_lines(raw)))
}

/// The reason reported for a recognized key set to no usable value.
pub open spec fn spec_bad_value_reason(key: Seq<char>) -> Seq<char> {
    apply_placeholders(spec_s(Text::ErrorNoValidValueField), seq![key], 1)
}

/// The first reason the settled roots are unusable, if any: the input
/// root must exist and be a directory; the output root must exist, be a
/// directory, and hold no entries.
pub open spec fn spec_validate_paths(
    c: SiteConfigView,
    input_exists: bool,
    input_is_dir: bool,
    output_exists: bool,
    output_is_dir: bool,
    output_entries: nat,
) -> Option<Seq<char>> {
    if !input_exists {
        Some(apply_placeholders(spec_s(Text::ErrorInputDirectoryNotExisting), seq![c.input], 1))
    } else if !input_is_dir {
        Some(apply_placeholders(spec_s(Text::ErrorInputIsNotDirectory), seq![c.input], 1))
    } else if !output_exists {
        Some(apply_placeholders(spec_s(Text::ErrorOutputDirectoryNotExisting), seq![c.output], 1))
    } else if !output_is_dir {
        Some(apply_placeholders(spec_s(Text::ErrorOutputIsNotDirectory), seq![c.output], 1))
    } else if output_entries > 0 {
        Some(apply_placeholders(spec_s(Text::ErrorOutputIsNotEmpty), seq![c.output], 1))
    } else {
        None
    }
}

impl SiteConfig {
    /// The defaults: an empty title, `contents` and `target/site`.
    fn new() -> (r: SiteConfig)
        ensures
            r@ == spec_config_defaults(),
    {
        SiteConfig {
            title: String::new(),
            input: "contents".to_owned(),
            output: "target/site".to_owned(),
        }
    }

    /// Read the configuration from the text of `Site.yaml`. With
    /// `perform_validation` the result is also held to `validate`.
    /// Checks on the file system — that the roots exist and that the
    /// output root is empty — are the calling side's concern.
    pub fn read_from_yaml(yaml_text: &str, perform_validation: bool) -> (r: Result<
        SiteConfig,
        Error,
    >)
        ensures
            match r {
                Ok(c) => spec_parse_config(yaml_text@) == Ok::<SiteConfigView, Seq<char>>(c@)
                    && (perform_validation ==> c@.title.len() > 0),
                Err(e) => match spec_parse_config(yaml_text@) {
                    Err(k) => e@ =~= seq![spec_bad_value_reason(k)],
                    Ok(cv) => perform_validation && cv.title.len() == 0 && e@ =~= seq![
                        spec_bad_value_reason("title"@),
                        spec_s(Text::ErrorValidatingSiteYaml),
                    ],
                },
            },
    {
        let mut sc = SiteConfig::new();
        let lines = split_lines(yaml_text);
        let pairs = parse_pairs_range(&lines, 0, lines.len());
        proof {
            assert(lines.deep_view().subrange(0, lines@.len() as int) =~= lines.deep_view());
        }
        let ghost all = pairs.deep_view();
        let n = pairs.len();
        let mut i: usize = 0;
        proof {
            assert(all.skip(0) =~= all);
        }
        while i < n
            invariant
                i <= n,
                n == pairs@.len(),
                all == pairs.deep_view(),
                all == spec_parse_pairs(spec_lines(yaml_text@)),
                spec_fold_config(spec_config_defaults(), all) == spec_fold_config(
                    sc@,
                    all.skip(i as int),
                ),
            decreases n - i,
        {
            proof {
                assert(all.skip(i as int)[0] == all[i as int]);
                assert(all.skip(i as int).skip(1) =~= all.skip(i + 1));
            }
            let key = pairs[i].0.as_str();
            if str_eq(key, "title") {
                match &pairs[i].1 {
                    Some(v) => {
                        sc.title = v.clone();
                    },
                    None => {
                        proof {
                            assert(spec_parse_config(yaml_text@) == Err::<
                                SiteConfigView,
                                Seq<char>,
                            >("title"@));
                        }
                        return Err(Error::with_reason(sr_one(Text::ErrorNoValidValueField, "title").as_str()));
                    },
                }
            } else if str_eq(key, "input-path") {
                match &pairs[i].1 {
                    Some(v) => {
                        sc.input = v.clone();
                    },
                    None => {
                        proof {
                            assert(spec_parse_config(yaml_text@) == Err::<
                                SiteConfigView,
                                Seq<char>,
                            >("input-path"@));
                        }
                        return Err(Error::with_reason(sr_one(Text::ErrorNoValidValueField, "input-path").as_str()));
                    },
                }
            } else if str_eq(key, "output-path") {
                match &pairs[i].1 {
                    Some(v) => {
                        sc.output = v.clone();
                    },
                    None => {
                        proof {
                            assert(spec_parse_config(yaml_text@) == Err::<
                                SiteConfigView,
                                Seq<char>,
                            >("output-path"@));
                        }
                        return Err(Error::with_reason(sr_one(Text::ErrorNoValidValueField, "output-path").as_str()));
                    },
                }
            }
            i += 1;
        }
        proof {
            assert(all.skip(n as int) =~= Seq::<(Seq<char>, Option<Seq<char>>)>::empty());
        }
        if perform_validation {
            match sc.validate() {
                Ok(()) => Ok(sc),
                Err(e) => Err(e.add(crate::text::so(Text::ErrorValidatingSiteYaml))),
            }
        } else {
            Ok(sc)
        }
    }

    /// The title must not be empty. Checks on the file system — that the
    /// roots exist, are directories, and that the output root is empty —
    /// are the calling side's concern.
    pub fn validate(&self) -> (r: Result<(), Error>)
        ensures
            match r {
                Ok(()) => self@.title.len() > 0,
                Err(e) => self@.title.len() == 0 && e@ =~= seq![spec_bad_value_reason("title"@)],
            },
    {
        if self.title.as_str().unicode_len() == 0 {
            Err(Error::with_reason(sr_one(Text::ErrorNoValidValueField, "title").as_str()))
        } else {
            Ok(())
        }
    }

    /// Judge what the caller probed of the file system: whether each
    /// root exists and is a directory, and how many entries the output
    /// root holds. Probing is the caller's work; the order of the checks
    /// and the exact message of the first failure are fixed here.
    pub fn validate_paths(
        &self,
        input_exists: bool,
        input_is_dir: bool,
        output_exists: bool,
        output_is_dir: bool,
        output_entries: usize,
    ) -> (r: Result<(), Error>)
        ensures
            match r {
                Ok(()) => spec_validate_paths(
                    self@,
                    input_exists,
                    input_is_dir,
                    output_exists,
                    output_is_dir,
                    output_entries as nat,
                ) is None,
                Err(e) => spec_validate_paths(
                    self@,
                    input_exists,
                    input_is_dir,
                    output_exists,
                    output_is_dir,
                    output_entries as nat,
                ) matches Some(m) && e@ =~= seq![m],
            },
    {
        if !input_exists {
            Err(Error::with_reason(sr_one(Text::ErrorInputDirectoryNotExisting, self.input.as_str()).as_str()))
        } else if !input_is_dir {
            Err(Error::with_reason(sr_one(Text::ErrorInputIsNotDirectory, self.input.as_str()).as_str()))
        } else if !output_exists {
            Err(Error::with_reason(sr_one(Text::ErrorOutputDirectoryNotExisting, self.output.as_str()).as_str()))
        } else if !output_is_dir {
            Err(Error::with_reason(sr_one(Text::ErrorOutputIsNotDirectory, self.output.as_str()).as_str()))
        } else if output_entries > 0 {
            Err(Error::with_reason(sr_one(Text::ErrorOutputIsNotEmpty, self.output.as_str()).as_str()))
        } else {
            Ok(())
        }
    }

    /// Whether `path` lies under the input root, so that
    /// `relative_to_input` may be applied to it.
    pub fn is_under_input(&self, path: &str) -> (r: bool)
        ensures
            r == is_prefix(self@.input, path@),
    {
        starts_with_str(path, self.input.as_str())
    }

    /// The path relative to the input root: the input prefix and any
    /// separating slashes removed.
    pub fn relative_to_input(&self, path: &str) -> (r: String)
        requires
            is_prefix(self@.input, path@),
        ensures
            r@ == spec_strip_prefix(self@.input, path@),
    {
        strip_path_prefix(path, self.input.as_str())
    }
}

} // verus!
