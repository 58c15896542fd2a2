//! Dependency-addition core of a package manager for Python project manifests.
//!
//! A specifier typed by the user is classified into a source kind, the
//! metadata answered by the package index is turned into manifest entries,
//! and the entries are merged into the project's dependency table without
//! ever replacing an entry that is already declared. Everything here works on
//! plain values: sending requests and touching the file system is left to the
//! caller.

pub mod add;
pub mod document;
pub mod error;
pub mod init;
pub mod text;
pub mod version;
pub mod virtualenv;
