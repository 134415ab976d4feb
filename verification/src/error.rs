//! The failures that the library reports.

use vstd::prelude::*;
use vstd::string::*;

verus! {

/// Why the text of a profile could not be read as properties.
#[derive(Debug, Clone, PartialEq, Eq)]
pub enum LoadFailure {
    /// A line is neither a section header, a comment, an assignment nor
    /// empty; the text says what is wrong with it.
    Syntax(String),
    /// A recognized section, or a recognized key within one section, occurs
    /// a second time.
    DuplicateField(String),
    /// A recognized section's name is assigned a value before the first
    /// section header.
    NotASection(String),
}

/// What a `LoadFailure` holds, as mathematical text.
pub enum LoadFailureModel {
    Syntax(Seq<char>),
    DuplicateField(Seq<char>),
    NotASection(Seq<char>),
}

impl View for LoadFailure {
    type V = LoadFailureModel;

    open spec fn view(&self) -> LoadFailureModel {
        match self {
            LoadFailure::Syntax(text) => LoadFailureModel::Syntax(text@),
            LoadFailure::DuplicateField(name) => LoadFailureModel::DuplicateField(name@),
            LoadFailure::NotASection(name) => LoadFailureModel::NotASection(name@),
        }
    }
}

/// A failure of an operation of the library.
#[derive(Debug, Clone, PartialEq, Eq)]
pub enum Error {
    /// No root directory could be resolved.
    ConfigurationDirectoryNotFound,
    /// The root directory, or its directory of profiles, is no directory.
    ConfigurationStoreNotFound(String),
    /// The profile to delete is the active one.
    DeleteActiveConfiguration,
    /// The text of a profile could not be read as properties.
    LoadingProperties(LoadFailure),
    /// The operation would overwrite a profile of that name.
    ExistingConfiguration(String),
    /// The name is no valid profile name.
    InvalidName(String),
    /// The text is no region.
    InvalidRegion(String),
    /// The text is no zone.
    InvalidZone(String),
    /// Reading or writing failed; the text is the system's report.
    Io(String),
    /// The directory of profiles holds no profile.
    NoConfigurationsFound(String),
    /// The properties could not be written out.
    SavingProperties(String),
    /// No profile has that name.
    UnknownConfiguration(String),
}

/// What an `Error` holds, as mathematical text.
pub enum ErrorModel {
    ConfigurationDirectoryNotFound,
    ConfigurationStoreNotFound(Seq<char>),
    DeleteActiveConfiguration,
    LoadingProperties(LoadFailureModel),
    ExistingConfiguration(Seq<char>),
    InvalidName(Seq<char>),
    InvalidRegion(Seq<char>),
    InvalidZone(Seq<char>),
    Io(Seq<char>),
    NoConfigurationsFound(Seq<char>),
    SavingProperties(Seq<char>),
    UnknownConfiguration(Seq<char>),
}

impl View for Error {
    type V = ErrorModel;

    open spec fn view(&self) -> ErrorModel {
        match self {
            Error::ConfigurationDirectoryNotFound => ErrorModel::ConfigurationDirectoryNotFound,
            Error::ConfigurationStoreNotFound(path) => ErrorModel::ConfigurationStoreNotFound(
                path@,
            ),
            Error::DeleteActiveConfiguration => ErrorModel::DeleteActiveConfiguration,
            Error::LoadingProperties(failure) => ErrorModel::LoadingProperties(failure@),
            Error::ExistingConfiguration(name) => ErrorModel::ExistingConfiguration(name@),
            Error::InvalidName(name) => ErrorModel::InvalidName(name@),
            Error::InvalidRegion(text) => ErrorModel::InvalidRegion(text@),
            Error::InvalidZone(text) => ErrorModel::InvalidZone(text@),
            Error::Io(report) => ErrorModel::Io(report@),
            Error::NoConfigurationsFound(path) => ErrorModel::NoConfigurationsFound(path@),
            Error::SavingProperties(report) => ErrorModel::SavingProperties(report@),
            Error::UnknownConfiguration(name) => ErrorModel::UnknownConfiguration(name@),
        }
    }
}

/// `before`, then `middle`, then `after`, as one text.
pub fn enclose(before: &str, middle: &str, after: &str) -> (text: String)
    ensures
        text@ == before@ + middle@ + after@,
{
    let mut text = String::from_str(before);
    text.append(middle);
    text.append(after);
    text
}

impl Error {
    /// The message of the failure.
    pub open spec fn spec_message(self) -> Seq<char> {
        match self {
            Error::ConfigurationDirectoryNotFound =>
                "Unable to locate user configuration directory"@,
            Error::ConfigurationStoreNotFound(path) =>
                "Unable to find the gcloud configuration directory at "@ + path@
                    + "\n\nIs gcloud installed?"@,
            Error::DeleteActiveConfiguration =>
                "Unable to delete the configuration because it is currently active"@,
            Error::LoadingProperties(_) => "Unable to load properties"@,
            Error::ExistingConfiguration(name) => "A configuration named '"@ + name@
                + "' already exists. Use --force to overwrite it"@,
            Error::InvalidName(name) => "'"@ + name@
                + "' is invalid. Configuration names must only contain ASCII letters and numbers"@,
            Error::InvalidRegion(text) => "'"@ + text@ + "' is not a valid region"@,
            Error::InvalidZone(text) => "'"@ + text@ + "' is not a valid zone"@,
            Error::Io(_) => "I/O error"@,
            Error::NoConfigurationsFound(path) => "Unable to find any gcloud configurations in "@
                + path@ + ""@,
            Error::SavingProperties(_) => "Unable to save properties"@,
            Error::UnknownConfiguration(name) => "Unable to find configuration '"@ + name@ + "'"@,
        }
    }

    /// The message that tells a user what went wrong.
    pub fn message(&self) -> (text: String)
        ensures
            text@ == self.spec_message(),
    {
        match self {
            Error::ConfigurationDirectoryNotFound => String::from_str(
                "Unable to locate user configuration directory",
            ),
            Error::ConfigurationStoreNotFound(path) => enclose(
                "Unable to find the gcloud configuration directory at ",
                path.as_str(),
                "\n\nIs gcloud installed?",
            ),
            Error::DeleteActiveConfiguration => String::from_str(
                "Unable to delete the configuration because it is currently active",
            ),
            Error::LoadingProperties(_) => String::from_str("Unable to load properties"),
            Error::ExistingConfiguration(name) => enclose(
                "A configuration named '",
                name.as_str(),
                "' already exists. Use --force to overwrite it",
            ),
            Error::InvalidName(name) => enclose(
                "'",
                name.as_str(),
                "' is invalid. Configuration names must only contain ASCII letters and numbers",
            ),
            Error::InvalidRegion(text) => enclose("'", text.as_str(), "' is not a valid region"),
            Error::InvalidZone(text) => enclose("'", text.as_str(), "' is not a valid zone"),
            Error::Io(_) => String::from_str("I/O error"),
            Error::NoConfigurationsFound(path) => enclose(
                "Unable to find any gcloud configurations in ",
                path.as_str(),
                "",
            ),
            Error::SavingProperties(_) => String::from_str("Unable to save properties"),
            Error::UnknownConfiguration(name) => enclose(
                "Unable to find configuration '",
                name.as_str(),
                "'",
            ),
        }
    }
}

} // verus!
