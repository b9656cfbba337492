//! Every fixed message of the tool, with verified placeholder substitution.

use vstd::prelude::*;
use crate::strops::{
    apply_placeholders, placeholder_pat, push_char, replace_all, usize_to_string,
};

verus! {

/// The fixed messages of the tool.
#[derive(Clone, Copy)]
pub enum Text {
    CliBuildAbout,
    CliCleanAbout,
    CliVerboseHelp,
    ErrorYasgExit,
    ErrorParseErrorFor,
    ErrorInputDirectoryNotExisting,
    ErrorInputIsNotDirectory,
    ErrorOutputDirectoryNotExisting,
    ErrorOutputIsNotDirectory,
    ErrorOutputIsNotEmpty,
    ErrorWriteLongHelp,
    ErrorWhileReadingSiteYaml,
    ErrorNoValidValueField,
    ErrorValidatingSiteYaml,
    VerboseBuilding,
    VerboseDone,
    VerboseReadingSiteConfig,
    VerboseBuildingFileList,
    VerboseProcessingFiles,
    VerboseProcessingPages,
    VerboseCopying,
    VerboseCompiling,
    VerboseCleaning,
    VerboseDeletingDirectory,
    VerboseCreatingOutputDirectory,
}

/// The wording of each message. `{1}`, `{2}`, ... mark where `sr` puts
/// its values.
pub open spec fn spec_s(t: Text) -> Seq<char> {
    match t {
        Text::CliBuildAbout => "Builds the site."@,
        Text::CliCleanAbout => "Cleans up previously generated site."@,
        Text::CliVerboseHelp => "Use verbose output."@,
        Text::ErrorYasgExit => "YASG exits with the following error(s):"@,
        Text::ErrorParseErrorFor => "Parse error for {1}."@,
        Text::ErrorInputDirectoryNotExisting => "Input directory '{1}' does not exist."@,
        Text::ErrorInputIsNotDirectory => "Input '{1}' is not a directory."@,
        Text::ErrorOutputDirectoryNotExisting => "Output directory '{1}' does not exist."@,
        Text::ErrorOutputIsNotDirectory => "Output '{1}' is not a directory."@,
        Text::ErrorOutputIsNotEmpty => "Output directory '{1}' is not empty."@,
        Text::ErrorWriteLongHelp => "An error occured while writing the help information."@,
        Text::ErrorWhileReadingSiteYaml => "An error occured while reading Site.yaml."@,
        Text::ErrorNoValidValueField => "No valid value has been provided for the '{1}' field."@,
        Text::ErrorValidatingSiteYaml => "Site.yaml contains invalid information."@,
        Text::VerboseBuilding => "Building..."@,
        Text::VerboseDone => "Done!"@,
        Text::VerboseReadingSiteConfig => "Reading site configuration from Site.yaml."@,
        Text::VerboseBuildingFileList => "Building file list."@,
        Text::VerboseProcessingFiles => "Processing files."@,
        Text::VerboseProcessingPages => "Processing pages."@,
        Text::VerboseCopying => "Copying {1}."@,
        Text::VerboseCompiling => "Compiling {1}."@,
        Text::VerboseCleaning => "Cleaning..."@,
        Text::VerboseDeletingDirectory => "Deleting directory {1}."@,
        Text::VerboseCreatingOutputDirectory => "Creating output directory {1}."@,
    }
}

/// The fixed message for `text`.
pub fn s(text: Text) -> (r: &'static str)
    ensures
        r@ == spec_s(text),
{
    match text {
        Text::CliBuildAbout => "Builds the site.",
        Text::CliCleanAbout => "Cleans up previously generated site.",
        Text::CliVerboseHelp => "Use verbose output.",
        Text::ErrorYasgExit => "YASG exits with the following error(s):",
        Text::ErrorParseErrorFor => "Parse error for {1}.",
        Text::ErrorInputDirectoryNotExisting => "Input directory '{1}' does not exist.",
        Text::ErrorInputIsNotDirectory => "Input '{1}' is not a directory.",
        Text::ErrorOutputDirectoryNotExisting => "Output directory '{1}' does not exist.",
        Text::ErrorOutputIsNotDirectory => "Output '{1}' is not a directory.",
        Text::ErrorOutputIsNotEmpty => "Output directory '{1}' is not empty.",
        Text::ErrorWriteLongHelp => "An error occured while writing the help information.",
        Text::ErrorWhileReadingSiteYaml => "An error occured while reading Site.yaml.",
        Text::ErrorNoValidValueField => "No valid value has been provided for the '{1}' field.",
        Text::ErrorValidatingSiteYaml => "Site.yaml contains invalid information.",
        Text::VerboseBuilding => "Building...",
        Text::VerboseDone => "Done!",
        Text::VerboseReadingSiteConfig => "Reading site configuration from Site.yaml.",
        Text::VerboseBuildingFileList => "Building file list.",
        Text::VerboseProcessingFiles => "Processing files.",
        Text::VerboseProcessingPages => "Processing pages.",
        Text::VerboseCopying => "Copying {1}.",
        Text::VerboseCompiling => "Compiling {1}.",
        Text::VerboseCleaning => "Cleaning...",
        Text::VerboseDeletingDirectory => "Deleting directory {1}.",
        Text::VerboseCreatingOutputDirectory => "Creating output directory {1}.",
    }
}

/// The fixed message for `text`, owned.
pub fn so(text: Text) -> (r: String)
    ensures
        r@ == spec_s(text),
{
    s(text).to_owned()
}

/// The message for `text` with `{1}` replaced by the first value, `{2}`
/// by the second, and so on.
pub fn sr(text: Text, values: &[&str]) -> (r: String)
    ensures
        r@ == apply_placeholders(spec_s(text), values.deep_view(), 1),
{
    let mut msg = s(text).to_owned();
    let n = values.len();
    let mut i: usize = 0;
    proof {
        assert(values.deep_view().skip(0) =~= values.deep_view());
    }
    while i < n
        invariant
            i <= n,
            n == values@.len(),
            apply_placeholders(spec_s(text), values.deep_view(), 1) == apply_placeholders(
                msg@,
                values.deep_view().skip(i as int),
                (i + 1) as nat,
            ),
        decreases n - i,
    {
        let mut pat = String::new();
        push_char(&mut pat, '{');
        let digits = usize_to_string(i + 1);
        pat.append(digits.as_str());
        push_char(&mut pat, '}');
        proof {
            assert(pat@ =~= placeholder_pat((i + 1) as nat));
        }
        let next = replace_all(msg.as_str(), pat.as_str(), values[i]);
        proof {
            let dv = values.deep_view();
            assert(dv.skip(i as int)[0] == dv[i as int]);
            assert(dv.skip(i as int).skip(1) =~= dv.skip(i + 1));
        }
        msg = next;
        i += 1;
    }
    proof {
        assert(values.deep_view().skip(n as int) =~= Seq::<Seq<char>>::empty());
    }
    msg
}

/// The message for `text` with `{1}` replaced by `value`.
pub fn sr_one(text: Text, value: &str) -> (r: String)
    ensures
        r@ == apply_placeholders(spec_s(text), seq![value@], 1),
{
    let values: Vec<&str> = vec![value];
    let vs = values.as_slice();
    let r = sr(text, vs);
    proof {
        assert(vs.deep_view() =~= seq![value@]);
    }
    r
}

} // verus!
