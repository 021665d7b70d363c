//! What can go wrong while modules are expanded.
use vstd::prelude::*;
use vstd::string::*;
use crate::text::strings_model;

verus! {

/// The message of a failed guard evaluation.
pub type UserError = String;

/// Ways in which a `#[path]`, `#[cfg]` or `#[cfg_attr]` attribute on a module
/// declaration can be malformed.
#[derive(Debug, Clone, Copy, PartialEq, Eq, Structural)]
pub enum AttrParseError {
    /// `#[path]` is not followed by exactly two tokens. The sorting of
    /// attributes tells more exactly which of the two is wrong and never gives
    /// this answer.
    NotExactlyTwoTokens,
    /// The first token after `path` is not `=`.
    FirstTokenIsNotEqualSign,
    /// The second token after `path` is not a string literal.
    SecondTokenIsNotStringLiteral,
    /// `#[cfg_attr]` is not followed by exactly one group in round brackets.
    CfgAttrNotRoundGroup,
    /// The group after `cfg_attr` does not hold exactly two clauses.
    CfgAttrNotTwoParams,
    /// `#[cfg]` is not followed by exactly one group in round brackets, or a
    /// clause of `#[cfg_attr]` is empty.
    MalformedCfg,
}

/// The cause of a failed expansion.
#[derive(Debug, PartialEq, Eq)]
pub enum ErrorCase {
    /// A file could not be opened. While the two conventional places of a
    /// module are tried, this counts as the file not being there.
    FailedToOpenFile { path: String, e: String },
    /// More than one `#[path]` applies to one module.
    MultipleExplicitPathsSpecifiedForOneModule,
    /// Both `name.rs` and `name/mod.rs` hold the module.
    BothModRsAndNameRsPresent,
    /// An attribute of the module declaration is malformed.
    AttrParseError(AttrParseError),
    /// A file was read but is not valid source text.
    SynParseError(String),
    /// The evaluation of a guard failed.
    ErrorFromCallback(UserError),
}

/// A failed expansion: the module that was being expanded, as the names from the
/// root down to it, and the cause. The root itself has the empty path.
#[derive(Debug, PartialEq, Eq)]
pub struct Error {
    pub module: Vec<String>,
    pub inner: ErrorCase,
}

/// The mathematical value of an [`ErrorCase`].
pub enum ErrorCaseModel {
    FailedToOpenFile { path: Seq<char>, e: Seq<char> },
    MultipleExplicitPathsSpecifiedForOneModule,
    BothModRsAndNameRsPresent,
    AttrParseError(AttrParseError),
    SynParseError(Seq<char>),
    ErrorFromCallback(Seq<char>),
}

/// The mathematical value of an [`Error`].
pub struct ErrorModel {
    pub module: Seq<Seq<char>>,
    pub inner: ErrorCaseModel,
}

impl View for ErrorCase {
    type V = ErrorCaseModel;

    open spec fn view(&self) -> ErrorCaseModel {
        match *self {
            ErrorCase::FailedToOpenFile { path, e } => ErrorCaseModel::FailedToOpenFile {
                path: path@,
                e: e@,
            },
            ErrorCase::MultipleExplicitPathsSpecifiedForOneModule =>
                ErrorCaseModel::MultipleExplicitPathsSpecifiedForOneModule,
            ErrorCase::BothModRsAndNameRsPresent => ErrorCaseModel::BothModRsAndNameRsPresent,
            ErrorCase::AttrParseError(e) => ErrorCaseModel::AttrParseError(e),
            ErrorCase::SynParseError(message) => ErrorCaseModel::SynParseError(message@),
            ErrorCase::ErrorFromCallback(message) => ErrorCaseModel::ErrorFromCallback(message@),
        }
    }
}

impl View for Error {
    type V = ErrorModel;

    open spec fn view(&self) -> ErrorModel {
        ErrorModel { module: strings_model(self.module@), inner: self.inner@ }
    }
}

impl ErrorModel {
    /// Whether the cause is a file that could not be opened.
    pub open spec fn is_missing_file(self) -> bool {
        self.inner is FailedToOpenFile
    }
}

impl Error {
    /// Whether the cause is a file that could not be opened.
    pub fn is_missing_file(&self) -> (b: bool)
        ensures
            b == self@.is_missing_file(),
    {
        match &self.inner {
            ErrorCase::FailedToOpenFile { .. } => true,
            _ => false,
        }
    }
}

/// `parts` with `sep` between each two.
pub open spec fn separated(parts: Seq<Seq<char>>, sep: Seq<char>) -> Seq<char>
    decreases parts.len(),
{
    if parts.len() == 0 {
        Seq::empty()
    } else if parts.len() == 1 {
        parts[0]
    } else {
        separated(parts.drop_last(), sep) + sep + parts.last()
    }
}

/// `itertools::join` on strings: the first string, then for each further one
/// the separator and the string.
#[verifier::external_body]
fn join_with(parts: &Vec<String>, sep: &str) -> (r: String)
    ensures
        r@ == separated(strings_model(parts@), sep@),
{
    itertools::join(parts.iter(), sep)
}

/// The path of a module as it is written in source text: its names with `::`
/// between them.
pub open spec fn module_path_text(module: Seq<Seq<char>>) -> Seq<char> {
    separated(module, "::"@)
}

/// The path of a module as it is written in source text.
pub fn path_for_display(module: &Vec<String>) -> (r: String)
    ensures
        r@ == module_path_text(strings_model(module@)),
{
    join_with(module, "::")
}

impl AttrParseError {
    /// What is wrong with the attribute, in words.
    pub open spec fn text(self) -> Seq<char> {
        match self {
            AttrParseError::NotExactlyTwoTokens =>
                "#[path] attribute has not exactly two tokens: equal sign and a path"@,
            AttrParseError::FirstTokenIsNotEqualSign =>
                "#[path] attribute's first token is not an equal sign punctuation"@,
            AttrParseError::SecondTokenIsNotStringLiteral =>
                "#[path] attribute's second token is not a string literal"@,
            AttrParseError::CfgAttrNotRoundGroup =>
                "#[cfg_attr] attribute is not followed by a single round brackets group"@,
            AttrParseError::CfgAttrNotTwoParams =>
                "#[cfg_attr] attribute does not have exactly two parameters"@,
            AttrParseError::MalformedCfg =>
                "`#[cfg` is not followed by a sole round parentheses group"@,
        }
    }

    /// What is wrong with the attribute, in words.
    pub fn message(&self) -> (r: String)
        ensures
            r@ == self.text(),
    {
        match self {
            AttrParseError::NotExactlyTwoTokens => String::from_str(
                "#[path] attribute has not exactly two tokens: equal sign and a path",
            ),
            AttrParseError::FirstTokenIsNotEqualSign => String::from_str(
                "#[path] attribute's first token is not an equal sign punctuation",
            ),
            AttrParseError::SecondTokenIsNotStringLiteral => String::from_str(
                "#[path] attribute's second token is not a string literal",
            ),
            AttrParseError::CfgAttrNotRoundGroup => String::from_str(
                "#[cfg_attr] attribute is not followed by a single round brackets group",
            ),
            AttrParseError::CfgAttrNotTwoParams => String::from_str(
                "#[cfg_attr] attribute does not have exactly two parameters",
            ),
            AttrParseError::MalformedCfg => String::from_str(
                "`#[cfg` is not followed by a sole round parentheses group",
            ),
        }
    }
}

impl ErrorCaseModel {
    /// The cause in words.
    pub open spec fn text(self) -> Seq<char> {
        match self {
            ErrorCaseModel::FailedToOpenFile { path, e } => "Cannot open file "@ + path + ": "@ + e,
            ErrorCaseModel::MultipleExplicitPathsSpecifiedForOneModule =>
                "The module has multiple explicit #[path] directives"@,
            ErrorCaseModel::BothModRsAndNameRsPresent => "Both name/mod.rs and name.rs present"@,
            ErrorCaseModel::AttrParseError(e) => "error parsing attribute: "@ + e.text(),
            ErrorCaseModel::SynParseError(message) => "syn parsing error: "@ + message,
            ErrorCaseModel::ErrorFromCallback(message) => "Error from callback: "@ + message,
        }
    }
}

impl ErrorModel {
    /// The failure in words: the module, then the cause.
    pub open spec fn text(self) -> Seq<char> {
        "Expanding module `"@ + module_path_text(self.module) + "`: "@ + self.inner.text()
    }
}

impl ErrorCase {
    /// The cause in words.
    pub fn message(&self) -> (r: String)
        ensures
            r@ == self@.text(),
    {
        match self {
            ErrorCase::FailedToOpenFile { path, e } => {
                let mut out = String::from_str("Cannot open file ");
                out.append(path.as_str());
                out.append(": ");
                out.append(e.as_str());
                out
            },
            ErrorCase::MultipleExplicitPathsSpecifiedForOneModule => String::from_str(
                "The module has multiple explicit #[path] directives",
            ),
            ErrorCase::BothModRsAndNameRsPresent => String::from_str(
                "Both name/mod.rs and name.rs present",
            ),
            ErrorCase::AttrParseError(e) => {
                let mut out = String::from_str("error parsing attribute: ");
                out.append(e.message().as_str());
                out
            },
            ErrorCase::SynParseError(message) => {
                let mut out = String::from_str("syn parsing error: ");
                out.append(message.as_str());
                out
            },
            ErrorCase::ErrorFromCallback(message) => {
                let mut out = String::from_str("Error from callback: ");
                out.append(message.as_str());
                out
            },
        }
    }
}

impl Error {
    /// The failure in words: the module that was being expanded, then the cause.
    pub fn message(&self) -> (r: String)
        ensures
            r@ == self@.text(),
    {
        let mut out = String::from_str("Expanding module `");
        out.append(path_for_display(&self.module).as_str());
        out.append("`: ");
        out.append(self.inner.message().as_str());
        out
    }
}

} // verus!
