//! What a call from the host needs decided: whether the host's version fits the
//! one the plugin was built against, what the processed book is, and which exit
//! code answers a question about a renderer.
//!
//! Versions and version requirements are read and compared by the `semver`
//! crate. Nothing here is proved of that crate: the three names below stand for
//! what it computes, and one function, `requirement_admits`, is believed to
//! compute them.

use crate::book::{optional_text, Book};
use crate::preprocessor::{preprocessor_name, unsupported_renderer, Yapp};
use crate::walker::rewritten_items;
use vstd::prelude::*;

verus! {

/// The exit code that reports success, or a renderer that is supported.
pub const EXIT_SUCCESS: i32 = 0;

/// The exit code that reports a failure, or a renderer that is not supported.
pub const EXIT_FAILURE: i32 = 1;

/// `semver::Error`, the error of `semver`'s parsers. Nothing is known of a
/// value but the message that its `Display` gives.
#[verifier::external_type_specification]
#[verifier::external_body]
pub struct ExSemverError(semver::Error);

/// Whether `semver::Version::parse` accepts `text` as a version.
pub uninterp spec fn is_version(text: Seq<char>) -> bool;

/// Whether `semver::VersionReq::parse` accepts `text` as a version requirement.
pub uninterp spec fn is_requirement(text: Seq<char>) -> bool;

/// Whether the requirement that `semver::VersionReq::parse` reads from
/// `requirement` matches, by `semver::VersionReq::matches`, the version that
/// `semver::Version::parse` reads from `version`.
pub uninterp spec fn admits(requirement: Seq<char>, version: Seq<char>) -> bool;

/// `semver::VersionReq::matches`, on a requirement and a version that are given
/// as text: `version` is turned into a version by `semver::Version::parse`, then
/// `requirement` into a requirement by `semver::VersionReq::parse`.
///
/// Believed, not proved: the call fails exactly when one of the two texts is
/// not accepted by its parser, with that parser's error; and when both are
/// accepted the answer is the one named `admits`, which depends on the two
/// texts alone.
#[verifier::external_body]
fn requirement_admits(requirement: &str, version: &str) -> (outcome: Result<bool, semver::Error>)
    ensures
        outcome.is_ok() == (is_version(version@) && is_requirement(requirement@)),
        outcome matches Ok(admitted) ==> admitted == admits(requirement@, version@),
{
    let version = semver::Version::parse(version)?;
    let requirement = semver::VersionReq::parse(requirement)?;
    Ok(requirement.matches(&version))
}

/// A version string that could not be read.
#[derive(Debug, PartialEq, Eq)]
pub struct VersionError {
    message: String,
}

impl View for VersionError {
    type V = Seq<char>;

    /// The parser's message.
    closed spec fn view(&self) -> Seq<char> {
        self.message@
    }
}

impl VersionError {
    /// What the parser said of the string it refused.
    pub fn message(&self) -> (message: &str)
        ensures
            message@ == self@,
    {
        self.message.as_str()
    }
}

/// The result of preprocessing: the book with substitutions applied, and a
/// warning for the user where the host's version does not fit.
#[derive(Debug, PartialEq, Eq)]
pub struct Processed {
    pub warning: Option<String>,
    pub book: Book,
}

/// The warning about a host whose version does not fit the one the plugin was
/// built against.
pub open spec fn warning_text(plugin: Seq<char>, built_against: Seq<char>, host_version: Seq<char>) -> Seq<
    char,
> {
    "Warning: The "@ + plugin + " plugin was built against version "@ + built_against
        + " of mdbook, but is being called from version "@ + host_version
}

/// The warning that is due: none for a host that fits.
pub open spec fn warning_due(
    compatible: bool,
    plugin: Seq<char>,
    built_against: Seq<char>,
    host_version: Seq<char>,
) -> Option<Seq<char>> {
    if compatible {
        None
    } else {
        Some(warning_text(plugin, built_against, host_version))
    }
}

/// The warning to show for the answer `compatible` of the version check: none
/// where the host fits, else the text that names the plugin and both versions.
pub fn version_warning(compatible: bool, plugin: &str, built_against: &str, host_version: &str) -> (warning:
    Option<String>)
    ensures
        optional_text(warning) == warning_due(compatible, plugin@, built_against@, host_version@),
{
    if compatible {
        None
    } else {
        let mut text = "Warning: The ".to_owned();
        text.append(plugin);
        text.append(" plugin was built against version ");
        text.append(built_against);
        text.append(" of mdbook, but is being called from version ");
        text.append(host_version);
        Some(text)
    }
}

/// Whether a host of version `host_version` fits a plugin that was built
/// against version `built_against`, which is read as a requirement.
///
/// Fails where one of the two cannot be read, with the parser's message.
pub fn check_version(built_against: &str, host_version: &str) -> (outcome: Result<bool, VersionError>)
    ensures
        outcome.is_ok() == (is_version(host_version@) && is_requirement(built_against@)),
        outcome matches Ok(compatible) ==> compatible == admits(built_against@, host_version@),
{
    match requirement_admits(built_against, host_version) {
        Ok(compatible) => Ok(compatible),
        Err(error) => Err(VersionError { message: error.to_string() }),
    }
}

/// Handles one preprocessing call of the host.
///
/// `host_version` is the version the host declares, `built_against` the
/// version of the host's library that the plugin was built against, read as a
/// requirement. Where one of the two cannot be read the call fails and the book
/// is not processed. Otherwise the book is processed whether the host fits or
/// not, and a host that does not fit earns a warning.
pub fn handle_preprocessing(pre: &Yapp, built_against: &str, host_version: &str, book: Book) -> (outcome:
    Result<Processed, VersionError>)
    ensures
        outcome.is_ok() == (is_version(host_version@) && is_requirement(built_against@)),
        outcome matches Ok(processed) ==> {
            &&& processed.book@ == rewritten_items(pre@, book@)
            &&& optional_text(processed.warning) == warning_due(
                admits(built_against@, host_version@),
                preprocessor_name(),
                built_against@,
                host_version@,
            )
        },
{
    match check_version(built_against, host_version) {
        Ok(compatible) => {
            let warning = version_warning(compatible, pre.name(), built_against, host_version);
            let book = pre.run(book);
            Ok(Processed { warning, book })
        },
        Err(error) => Err(error),
    }
}

/// Handles the host's question whether `renderer` is supported: the exit code
/// that gives the answer.
pub fn handle_supports(pre: &Yapp, renderer: &str) -> (code: i32)
    ensures
        code == if renderer@ != unsupported_renderer() {
            0i32
        } else {
            1i32
        },
{
    if pre.supports_renderer(renderer) {
        EXIT_SUCCESS
    } else {
        EXIT_FAILURE
    }
}

} // verus!
