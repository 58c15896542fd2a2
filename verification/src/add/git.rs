//! Repositories: what a batch of repository specifiers resolves to.

use crate::add::package_format::{Git, GitView};
use crate::document::{DependencyMetadata, GitSource, MetadataView};
use vstd::prelude::*;

verus! {

/// The provider of packages that lie in repositories. `output` is where
/// their files are put.
#[derive(Debug, PartialEq, Eq)]
pub struct GitProvider {
    pub output: String,
}

/// What a repository specifier resolves to: the address as it was written,
/// and the revision if one was asked for.
pub open spec fn source(package: GitView) -> MetadataView {
    MetadataView::Git { url: package.url, revision: package.revision }
}

impl GitProvider {
    /// Resolves a batch of repository specifiers: each to its address and
    /// revision, in order.
    pub fn resolve(&self, packages: Vec<Git>) -> (list: Vec<DependencyMetadata>)
        ensures
            list@.map_values(|m: DependencyMetadata| m@) == packages@.map_values(
                |g: Git| source(g@),
            ),
    {
        let ghost items = packages@;
        let mut list: Vec<DependencyMetadata> = Vec::new();
        proof {
            assert(list@.map_values(|m: DependencyMetadata| m@) =~= items.take(0).map_values(
                |g: Git| source(g@),
            ));
        }
        for package in it: packages.into_iter()
            invariant
                it.seq() == items,
                list@.map_values(|m: DependencyMetadata| m@) == items.take(it.index()).map_values(
                    |g: Git| source(g@),
                ),
        {
            let metadata = DependencyMetadata::Git(
                GitSource { url: package.url, revision: package.revision },
            );
            proof {
                let done = it.index();
                assert(items[done] == package);
                assert(metadata@ == source(package@));
                assert(items.take(done + 1).map_values(|g: Git| source(g@)) =~= items.take(
                    done,
                ).map_values(|g: Git| source(g@)).push(source(package@)));
                assert(list@.push(metadata).map_values(|m: DependencyMetadata| m@)
                    =~= list@.map_values(|m: DependencyMetadata| m@).push(metadata@));
            }
            list.push(metadata);
        }
        proof {
            assert(items.take(items.len() as int) =~= items);
        }
        list
    }
}

} // verus!
