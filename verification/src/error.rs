//! The errors that the library reports.

use crate::text::texts;
use vstd::prelude::*;

verus! {

/// What kind of input/output failure an [`PoetryError::IoError`] stands for.
#[derive(Debug, Clone, Copy, PartialEq, Eq)]
pub enum IoErrorKind {
    /// The data found is not what the operation can work with.
    InvalidData,
    /// A directory that had to be empty holds entries.
    DirectoryNotEmpty,
    /// Any other failure reported by the operating system.
    Other,
}

/// Every failure that an operation of this crate can end in.
#[derive(Debug, PartialEq, Eq)]
pub enum PoetryError {
    /// The path exists and is not a directory.
    InitIsNotDirectory { path: String },
    /// The path is a directory that already holds entries.
    InitIsNotEmptyDirectory { path: String },
    /// The manifest could not be turned into text.
    TomlSerError { message: String },
    /// The manifest file does not follow the manifest's schema.
    TomlDeError { message: String },
    /// Reading or writing the file system failed.
    IoError { kind: IoErrorKind, message: String },
    /// The package index or a repository host could not be reached.
    ReqwestError { message: String },
    /// The specifier follows none of the known grammars.
    UnknownPackageFormat { format: String },
    /// The text after `@` in a named specifier is no version range.
    InvalidVersionConstraint { name: String, version: String },
    /// The version that the package index reports is no version.
    InvalidVersionResolved { name: String, version: String },
    /// The license identifier is not one of the known licenses.
    UnknownLicense { license: String },
    /// The named dependencies could not be added to the manifest: they are
    /// already declared.
    AddError { deps: Vec<String> },
    /// No virtual environment lies where one was expected.
    EnvironmentAbsent { path: String },
    /// What lies at the place of the virtual environment is none.
    EnvironmentCorrupted { path: String },
}

/// The mathematical value of a [`PoetryError`]: its texts as sequences of
/// characters.
pub enum ErrorView {
    InitIsNotDirectory { path: Seq<char> },
    InitIsNotEmptyDirectory { path: Seq<char> },
    TomlSerError { message: Seq<char> },
    TomlDeError { message: Seq<char> },
    IoError { kind: IoErrorKind, message: Seq<char> },
    ReqwestError { message: Seq<char> },
    UnknownPackageFormat { format: Seq<char> },
    InvalidVersionConstraint { name: Seq<char>, version: Seq<char> },
    InvalidVersionResolved { name: Seq<char>, version: Seq<char> },
    UnknownLicense { license: Seq<char> },
    AddError { deps: Seq<Seq<char>> },
    EnvironmentAbsent { path: Seq<char> },
    EnvironmentCorrupted { path: Seq<char> },
}

impl View for PoetryError {
    type V = ErrorView;

    open spec fn view(&self) -> ErrorView {
        match *self {
            PoetryError::InitIsNotDirectory { path } => ErrorView::InitIsNotDirectory { path: path@ },
            PoetryError::InitIsNotEmptyDirectory { path } => ErrorView::InitIsNotEmptyDirectory {
                path: path@,
            },
            PoetryError::TomlSerError { message } => ErrorView::TomlSerError { message: message@ },
            PoetryError::TomlDeError { message } => ErrorView::TomlDeError { message: message@ },
            PoetryError::IoError { kind, message } => ErrorView::IoError { kind, message: message@ },
            PoetryError::ReqwestError { message } => ErrorView::ReqwestError { message: message@ },
            PoetryError::UnknownPackageFormat { format } => ErrorView::UnknownPackageFormat {
                format: format@,
            },
            PoetryError::InvalidVersionConstraint { name, version } => {
                ErrorView::InvalidVersionConstraint { name: name@, version: version@ }
            },
            PoetryError::InvalidVersionResolved { name, version } => {
                ErrorView::InvalidVersionResolved { name: name@, version: version@ }
            },
            PoetryError::UnknownLicense { license } => ErrorView::UnknownLicense { license: license@ },
            PoetryError::AddError { deps } => ErrorView::AddError { deps: texts(deps@) },
            PoetryError::EnvironmentAbsent { path } => ErrorView::EnvironmentAbsent { path: path@ },
            PoetryError::EnvironmentCorrupted { path } => ErrorView::EnvironmentCorrupted {
                path: path@,
            },
        }
    }
}

/// The mathematical value of an outcome: that of what was produced, or that
/// of the error.
pub open spec fn outcome<T: View, E: View>(r: Result<T, E>) -> Result<T::V, E::V> {
    match r {
        Ok(t) => Ok(t@),
        Err(e) => Err(e@),
    }
}

/// The error that says that `text` follows none of the known grammars.
pub open spec fn unknown_format(text: Seq<char>) -> ErrorView {
    ErrorView::UnknownPackageFormat { format: text }
}

} // verus!
