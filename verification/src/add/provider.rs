//! What the package index answers to a lookup.

use vstd::prelude::*;

verus! {

/// The answer of the package index to the lookup of one package.
#[derive(Debug, PartialEq, Eq)]
pub struct ProjectResp {
    pub info: Info,
}

/// The part of the answer that this library reads: the name of the package
/// and its latest version, as the index writes them.
#[derive(Debug, PartialEq, Eq)]
pub struct Info {
    pub name: String,
    pub version: String,
}

/// The mathematical value of an [`Info`].
pub struct InfoView {
    pub name: Seq<char>,
    pub version: Seq<char>,
}

impl View for Info {
    type V = InfoView;

    open spec fn view(&self) -> InfoView {
        InfoView { name: self.name@, version: self.version@ }
    }
}

impl View for ProjectResp {
    type V = InfoView;

    open spec fn view(&self) -> InfoView {
        self.info@
    }
}

} // verus!
