//! Adding dependencies to a project.

pub mod git;
pub mod package_format;
pub mod provider;
pub mod pypi;
pub mod url;

use crate::document::{declared, DependencyTable, MetadataView};
use crate::error::{ErrorView, PoetryError};
use vstd::prelude::*;

verus! {

/// What the user asked of one run: the specifiers to add, and how.
#[derive(Debug, PartialEq, Eq)]
pub struct Options {
    pub deps: Vec<String>,
    pub group: String,
    pub dev: bool,
    pub extras: Vec<String>,
    pub dry_run: bool,
    pub working_directory: String,
}

impl Options {
    /// The options of a run, with the default for each that was not given:
    /// the group `main`, no extras, not a development dependency, not a dry
    /// run.
    pub fn with_defaults(
        deps: Vec<String>,
        group: Option<String>,
        dev: Option<bool>,
        extras: Option<Vec<String>>,
        dry_run: Option<bool>,
        working_directory: String,
    ) -> (options: Options)
        ensures
            options.deps == deps,
            options.working_directory == working_directory,
            group matches Some(g) ==> options.group == g,
            group is None ==> options.group@ == "main"@,
            options.dev == (dev == Some(true)),
            extras matches Some(e) ==> options.extras == e,
            extras is None ==> options.extras@.len() == 0,
            options.dry_run == (dry_run == Some(true)),
    {
        Options {
            deps,
            group: match group {
                Some(g) => g,
                None => "main".to_owned(),
            },
            dev: match dev {
                Some(d) => d,
                None => false,
            },
            extras: match extras {
                Some(e) => e,
                None => Vec::new(),
            },
            dry_run: match dry_run {
                Some(d) => d,
                None => false,
            },
            working_directory,
        }
    }
}

/// The mapping of a table that may be missing: a manifest without a
/// dependency table declares nothing.
pub open spec fn table_of(table: Option<DependencyTable>) -> Map<Seq<char>, MetadataView> {
    match table {
        Some(t) => t@,
        None => Map::empty(),
    }
}

/// The names of a table that may be missing.
pub open spec fn names_of(table: Option<DependencyTable>) -> Seq<Seq<char>> {
    match table {
        Some(t) => t.names(),
        None => Seq::empty(),
    }
}

/// Merges newly resolved dependencies into the table of a manifest.
///
/// The merge only ever adds. Where `update` holds a name that `existing`
/// already declares, nothing is merged and the error lists the names in
/// question, in the order in which `update` declares them. Otherwise the
/// outcome declares what either table declared, each name with the metadata
/// it had.
pub fn update_dependencies(existing: Option<DependencyTable>, update: DependencyTable) -> (r:
    Result<DependencyTable, PoetryError>)
    ensures
        r matches Ok(merged) ==> {
            &&& declared(update.names(), table_of(existing)).len() == 0
            &&& merged@ == table_of(existing).union_prefer_right(update@)
            &&& merged.names() == names_of(existing) + update.names()
        },
        r matches Err(e) ==> {
            &&& declared(update.names(), table_of(existing)).len() > 0
            &&& e@ == (ErrorView::AddError { deps: declared(update.names(), table_of(existing)) })
        },
{
    let updateable = match existing {
        Some(table) => table,
        None => DependencyTable::new(),
    };
    updateable.merge(update)
}

} // verus!
