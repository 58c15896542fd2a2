//! The virtual environment of a project: where it lies, which modules are
//! installed in it, and how resolved dependencies enter it and the manifest
//! together.
//!
//! An environment is absent until it is created and ready from then on.
//! Looking at the file system is the caller's part: it says what it found,
//! and the functions here decide.

use crate::add::{names_of, table_of};
use crate::document::{
    declared, first_repeat, metadata_views, pairs_up, DependencyMetadata, DependencyTable,
    MetadataView, Poetry, PyProject, Tool,
};
use crate::error::{ErrorView, PoetryError};
use crate::text::texts;
use vstd::prelude::*;

verus! {

/// The settings of the tool.
#[derive(Debug, PartialEq, Eq)]
pub struct Config {
    pub virtualenvs: Virtualenvs,
}

/// The settings on virtual environments. An empty `path` leaves the place
/// of the environment to the project: the directory `.venv` in it.
#[derive(Debug, PartialEq, Eq)]
pub struct Virtualenvs {
    pub path: String,
}

/// What the file system holds at the place of an environment.
#[derive(Debug, PartialEq, Eq)]
pub enum Found {
    /// Nothing: no environment was ever created there.
    Absent,
    /// Something that is no valid environment.
    Corrupted,
    /// An environment, with the modules installed in it.
    Ready { modules: Vec<String> },
}

/// A ready environment: its root directory and the modules installed in it.
#[derive(Debug, PartialEq, Eq)]
pub struct Virtualenv {
    pub path: String,
    pub modules: Vec<String>,
}

/// The place of the environment of a project: the configured one, or the
/// directory `.venv` of the project where none is configured.
pub open spec fn location(configured: Seq<char>, project_dir: Seq<char>) -> Seq<char> {
    if configured.len() == 0 {
        project_dir + "/.venv"@
    } else {
        configured
    }
}

/// Why dependencies cannot be added to a table, if they cannot. The names
/// and the metadata must pair up, no name may occur twice, and no name may
/// be declared already. Each error lists the names at fault: all of them
/// where the lists do not pair up, else the first repeated name, else the
/// names already declared.
pub open spec fn add_failure(
    table: Map<Seq<char>, MetadataView>,
    names: Seq<Seq<char>>,
    resolved: nat,
) -> Option<ErrorView> {
    if names.len() != resolved {
        Some(ErrorView::AddError { deps: names })
    } else if let Some(i) = first_repeat(names) {
        Some(ErrorView::AddError { deps: seq![names[i]] })
    } else if declared(names, table).len() > 0 {
        Some(ErrorView::AddError { deps: declared(names, table) })
    } else {
        None
    }
}

impl Virtualenv {
    /// The set of installed modules.
    pub open spec fn installed(&self) -> Set<Seq<char>> {
        texts(self.modules@).to_set()
    }

    /// A fresh environment at `path`: nothing is installed in it.
    pub fn create(path: String) -> (env: Virtualenv)
        ensures
            env.path == path,
            env.installed() == Set::<Seq<char>>::empty(),
    {
        let env = Virtualenv { path, modules: Vec::new() };
        proof {
            assert(env.installed() =~= Set::<Seq<char>>::empty());
        }
        env
    }

    /// The place of the environment of a project: where to look before the
    /// environment is made or taken.
    pub fn locate(config: &Config, project_dir: &str) -> (path: String)
        ensures
            path@ == location(config.virtualenvs.path@, project_dir@),
    {
        if config.virtualenvs.path.as_str().unicode_len() == 0 {
            let mut path = project_dir.to_owned();
            path.append("/.venv");
            path
        } else {
            config.virtualenvs.path.clone()
        }
    }

    /// The environment of a project, from the settings and from what was
    /// found at its place: the one that lies there is taken as it is, and
    /// where none lies a fresh one is made. What lies there and is no
    /// environment is an error.
    pub fn create_from_config(config: &Config, project_dir: &str, found: Found) -> (r: Result<
        Virtualenv,
        PoetryError,
    >)
        ensures
            match found {
                Found::Absent => {
                    &&& r matches Ok(env)
                    &&& env.path@ == location(config.virtualenvs.path@, project_dir@)
                    &&& env.installed() == Set::<Seq<char>>::empty()
                },
                Found::Ready { modules } => {
                    &&& r matches Ok(env)
                    &&& env.path@ == location(config.virtualenvs.path@, project_dir@)
                    &&& env.modules == modules
                },
                Found::Corrupted => {
                    &&& r matches Err(e)
                    &&& e@ == (ErrorView::EnvironmentCorrupted {
                        path: location(config.virtualenvs.path@, project_dir@),
                    })
                },
            },
    {
        let path = Virtualenv::locate(config, project_dir);
        match found {
            Found::Absent => Ok(Virtualenv::create(path)),
            Found::Ready { modules } => Ok(Virtualenv { path, modules }),
            Found::Corrupted => Err(PoetryError::EnvironmentCorrupted { path }),
        }
    }

    /// The environment that lies in the directory `.venv` of a project,
    /// from what was found there. An environment that was never created
    /// and one that is damaged are different errors.
    pub fn from_existing(project_dir: &str, found: Found) -> (r: Result<Virtualenv, PoetryError>)
        ensures
            match found {
                Found::Ready { modules } => {
                    &&& r matches Ok(env)
                    &&& env.path@ == project_dir@ + "/.venv"@
                    &&& env.modules == modules
                },
                Found::Absent => {
                    &&& r matches Err(e)
                    &&& e@ == (ErrorView::EnvironmentAbsent { path: project_dir@ + "/.venv"@ })
                },
                Found::Corrupted => {
                    &&& r matches Err(e)
                    &&& e@ == (ErrorView::EnvironmentCorrupted { path: project_dir@ + "/.venv"@ })
                },
            },
    {
        let mut path = project_dir.to_owned();
        path.append("/.venv");
        match found {
            Found::Ready { modules } => Ok(Virtualenv { path, modules }),
            Found::Absent => Err(PoetryError::EnvironmentAbsent { path }),
            Found::Corrupted => Err(PoetryError::EnvironmentCorrupted { path }),
        }
    }

    /// Whether the module `name` is installed.
    pub fn contains_module(&self, name: &String) -> (found: bool)
        ensures
            found == self.installed().contains(name@),
    {
        let mut i: usize = 0;
        while i < self.modules.len()
            invariant
                i <= self.modules.len(),
                forall|k: int| 0 <= k < i ==> self.modules@[k]@ != name@,
            decreases self.modules.len() - i,
        {
            if self.modules[i] == *name {
                proof {
                    assert(texts(self.modules@)[i as int] == name@);
                }
                return true;
            }
            i += 1;
        }
        proof {
            if texts(self.modules@).contains(name@) {
                let k = choose|k: int|
                    0 <= k < self.modules.len() && texts(self.modules@)[k] == name@;
                assert(self.modules@[k]@ == name@);
            }
        }
        false
    }

    /// Takes resolved dependencies into the environment and into the
    /// manifest. `requested` holds the names of the dependencies and
    /// `resolved` the metadata of each, at the same place.
    ///
    /// Either both happen or neither: where the dependencies cannot be
    /// added to the manifest's table, the outcome is the error, the
    /// environment is as it was, and no manifest comes out. Otherwise the
    /// names are installed and the manifest comes back with its table
    /// extended by the new entries; nothing else in it has changed.
    pub fn apply_changes(
        &mut self,
        manifest: PyProject,
        requested: &Vec<String>,
        resolved: Vec<DependencyMetadata>,
    ) -> (r: Result<PyProject, PoetryError>)
        ensures
            r matches Ok(updated) ==> {
                &&& add_failure(
                    table_of(manifest.tool.poetry.dependency),
                    texts(requested@),
                    resolved@.len(),
                ) is None
                &&& updated.tool.poetry.dependency matches Some(table)
                &&& table.names() == names_of(manifest.tool.poetry.dependency) + texts(
                    requested@,
                )
                &&& pairs_up(
                    table@,
                    texts(requested@),
                    metadata_views(resolved@),
                    requested.len() as int,
                )
                &&& forall|k: Seq<char>| #[trigger]
                    table_of(manifest.tool.poetry.dependency).contains_key(k) ==> table@.contains_key(
                        k,
                    ) && table@[k] == table_of(manifest.tool.poetry.dependency)[k]
                &&& forall|k: Seq<char>| #[trigger]
                    table@.contains_key(k) ==> table_of(
                        manifest.tool.poetry.dependency,
                    ).contains_key(k) || texts(requested@).contains(k)
                &&& updated == (PyProject {
                    tool: Tool {
                        poetry: Poetry {
                            dependency: updated.tool.poetry.dependency,
                            ..manifest.tool.poetry
                        },
                    },
                })
                &&& final(self).path == old(self).path
                &&& final(self).installed() == old(self).installed().union(
                    texts(requested@).to_set(),
                )
            },
            r matches Err(e) ==> {
                &&& add_failure(
                    table_of(manifest.tool.poetry.dependency),
                    texts(requested@),
                    resolved@.len(),
                ) == Some(e@)
                &&& *final(self) == *old(self)
            },
    {
        let Poetry {
            name,
            version,
            description,
            license,
            authors,
            maintainers,
            readme,
            url,
            repository,
            documentation,
            dependency,
        } = manifest.tool.poetry;
        let ghost base = table_of(dependency);
        let incoming = match DependencyTable::from_lists(requested, resolved) {
            Ok(table) => table,
            Err(e) => {
                return Err(e);
            },
        };
        let ghost added = incoming@;
        proof {
            incoming.lemma_names_are_keys();
        }
        let table = match crate::add::update_dependencies(dependency, incoming) {
            Ok(table) => table,
            Err(e) => {
                return Err(e);
            },
        };
        proof {
            let names = texts(requested@);
            assert forall|k: int| 0 <= k < names.len() implies #[trigger] table@.contains_key(
                names[k],
            ) && table@[names[k]] == metadata_views(resolved@)[k] by {
                assert(added.contains_key(names[k]));
            }
            assert forall|k: Seq<char>| #[trigger] base.contains_key(k) implies table@.contains_key(k)
                && table@[k] == base[k] by {
                if added.contains_key(k) {
                    assert(names.contains(k));
                    crate::document::lemma_declared_members(names, base);
                    assert(declared(names, base).contains(k));
                }
            }
        }
        let ghost before = self.modules@;
        let mut i: usize = 0;
        while i < requested.len()
            invariant
                i <= requested.len(),
                self.path == old(self).path,
                self.modules@.len() == before.len() + i,
                texts(self.modules@) == texts(before) + texts(requested@).take(i as int),
            decreases requested.len() - i,
        {
            let name = requested[i].clone();
            proof {
                let t = texts(requested@);
                assert(t.take(i + 1) =~= t.take(i as int).push(name@));
                assert(texts(self.modules@.push(name)) =~= texts(self.modules@).push(name@));
            }
            self.modules.push(name);
            i += 1;
        }
        proof {
            let t = texts(requested@);
            assert(t.take(requested.len() as int) =~= t);
            let a = texts(before);
            assert((a + t).to_set() =~= a.to_set().union(t.to_set())) by {
                assert forall|x: Seq<char>| (a + t).contains(x) <==> a.contains(x) || t.contains(
                    x,
                ) by {
                    if (a + t).contains(x) {
                        let k = choose|k: int| 0 <= k < (a + t).len() && (a + t)[k] == x;
                        if k < a.len() {
                            assert(a[k] == x);
                        } else {
                            assert(t[k - a.len()] == x);
                        }
                    }
                    if a.contains(x) {
                        let k = choose|k: int| 0 <= k < a.len() && a[k] == x;
                        assert((a + t)[k] == x);
                    }
                    if t.contains(x) {
                        let k = choose|k: int| 0 <= k < t.len() && t[k] == x;
                        assert((a + t)[k + a.len()] == x);
                    }
                }
            }
        }
        Ok(
            PyProject {
                tool: Tool {
                    poetry: Poetry {
                        name,
                        version,
                        description,
                        license,
                        authors,
                        maintainers,
                        readme,
                        url,
                        repository,
                        documentation,
                        dependency: Some(table),
                    },
                },
            },
        )
    }
}

} // verus!
