//! Setting up a new project: the checks on the place it is to stand in, and
//! its first manifest.

pub mod license;

use crate::document::{optional_text, Poetry, PyProject, Tool};
use crate::error::{ErrorView, IoErrorKind, PoetryError};
use vstd::prelude::*;

verus! {

/// What the user asked of a new project.
#[derive(Debug, PartialEq, Eq)]
pub struct Options {
    pub path: String,
    pub name: String,
    pub description: String,
    pub author: String,
    pub license: Option<license::Kind>,
}

/// What the file system holds at a path.
#[derive(Debug, Clone, Copy, PartialEq, Eq)]
pub enum PathState {
    /// Nothing.
    Missing,
    /// Something that is not a directory.
    NotDirectory,
    /// A directory, with or without entries.
    Directory { empty: bool },
}

/// The complaint about a path that is not a directory.
pub open spec fn not_a_directory(path: Seq<char>) -> Seq<char> {
    "`"@ + path + "` is not a directory"@
}

/// The complaint about a directory that holds entries.
pub open spec fn not_an_empty_directory(path: Seq<char>) -> Seq<char> {
    "`"@ + path + "` is not an empty directory"@
}

/// Whether a project can be set up at a path in the given state, and the
/// error if it cannot. A project can stand where nothing is yet, or in an
/// empty directory.
pub open spec fn checked(path: Seq<char>, state: PathState) -> Result<(), ErrorView> {
    match state {
        PathState::NotDirectory => Err(
            ErrorView::IoError { kind: IoErrorKind::InvalidData, message: not_a_directory(path) },
        ),
        PathState::Directory { empty: false } => Err(
            ErrorView::IoError {
                kind: IoErrorKind::DirectoryNotEmpty,
                message: not_an_empty_directory(path),
            },
        ),
        _ => Ok(()),
    }
}

/// The license identifier that the first manifest records.
pub open spec fn license_identifier(license: Option<license::Kind>) -> Option<Seq<char>> {
    match license {
        Some(kind) => Some(kind.identifier()),
        None => None,
    }
}

/// Decides whether the project can be set up at `options.path`, from what
/// the file system holds there.
pub fn sanity_checks(options: &Options, state: PathState) -> (r: Result<(), PoetryError>)
    ensures
        r matches Ok(_) ==> checked(options.path@, state) is Ok,
        r matches Err(e) ==> checked(options.path@, state) == Err::<(), ErrorView>(e@),
{
    match state {
        PathState::NotDirectory => {
            let mut message = "`".to_owned();
            message.append(options.path.as_str());
            message.append("` is not a directory");
            Err(PoetryError::IoError { kind: IoErrorKind::InvalidData, message })
        },
        PathState::Directory { empty: false } => {
            let mut message = "`".to_owned();
            message.append(options.path.as_str());
            message.append("` is not an empty directory");
            Err(PoetryError::IoError { kind: IoErrorKind::DirectoryNotEmpty, message })
        },
        _ => Ok(()),
    }
}

/// The text of the license that the project is put under, filled in with
/// the name of the project and the given year; none where the project has no
/// license.
pub fn license_from_options(options: &Options, year: i32) -> (text: Option<String>)
    ensures
        match options.license {
            Some(kind) => text matches Some(t) && t@ == license::license_text(
                kind,
                options.name@,
                year as int,
            ),
            None => text is None,
        },
{
    match options.license {
        Some(kind) => {
            let license = license::License {
                unfilled: kind,
                fmt_options: license::LicenseFormatOptions { name: options.name.clone(), year },
            };
            Some(license.to_string())
        },
        None => None,
    }
}

/// The first manifest of a project: its name and description as asked for,
/// the version `0.1.0`, the identifier of its license if it has one, and
/// nothing else.
pub fn bare_project(options: &Options) -> (project: PyProject)
    ensures
        project.tool.poetry.name@ == options.name@,
        project.tool.poetry.version@ == "0.1.0"@,
        project.tool.poetry.description@ == options.description@,
        optional_text(project.tool.poetry.license) == license_identifier(options.license),
        project.tool.poetry.authors is None,
        project.tool.poetry.maintainers is None,
        project.tool.poetry.readme is None,
        project.tool.poetry.url is None,
        project.tool.poetry.repository is None,
        project.tool.poetry.documentation is None,
        project.tool.poetry.dependency is None,
{
    PyProject {
        tool: Tool {
            poetry: Poetry {
                name: options.name.clone(),
                version: "0.1.0".to_owned(),
                description: options.description.clone(),
                license: match options.license {
                    Some(kind) => Some(kind.to_string()),
                    None => None,
                },
                authors: None,
                maintainers: None,
                readme: None,
                url: None,
                repository: None,
                documentation: None,
                dependency: None,
            },
        },
    }
}

} // verus!
