//! The kinds of specifier that a user can write, and how a text is told
//! apart.
//!
//! A specifier is one token: `<name>`, `<name>@<version-range>`, or
//! `<repository-url>[#<revision>]`. The grammars are tried in a fixed order,
//! repository address first, then file, then folder, then name, and the first
//! that matches decides.

use crate::add::url::{
    is_readable, normal_form, normalize, parse, parsed_url, readable, GitUrl, GitUrlView, Scheme,
};
use crate::add::git::{source, GitProvider};
use crate::add::provider::{InfoView, ProjectResp};
use crate::add::pypi::{
    answered, answers_view, dedupe, distinct, lookups, names, requests_for, PyPi, Request,
};
use crate::document::{metadata_views, optional_text, DependencyMetadata, MetadataView};
use crate::error::{outcome, unknown_format, ErrorView, PoetryError};
use crate::text::{chars, segments, split, texts};
use crate::version::{accepts_version_req, is_version_req};
use vstd::prelude::*;

verus! {

/// A package of the index, by name, with the version range asked for.
#[derive(Debug, PartialEq, Eq)]
pub struct Named {
    pub name: String,
    pub constraint: Option<String>,
}

/// The mathematical value of a [`Named`].
pub struct NamedView {
    pub name: Seq<char>,
    pub constraint: Option<Seq<char>>,
}

impl View for Named {
    type V = NamedView;

    open spec fn view(&self) -> NamedView {
        NamedView { name: self.name@, constraint: optional_text(self.constraint) }
    }
}

/// A package taken from a repository.
#[derive(Debug, PartialEq, Eq)]
pub struct Git {
    pub name: String,
    pub url: String,
    pub revision: Option<String>,
}

/// The mathematical value of a [`Git`].
pub struct GitView {
    pub name: Seq<char>,
    pub url: Seq<char>,
    pub revision: Option<Seq<char>>,
}

impl View for Git {
    type V = GitView;

    open spec fn view(&self) -> GitView {
        GitView { name: self.name@, url: self.url@, revision: optional_text(self.revision) }
    }
}

/// A package in a single local file.
#[derive(Debug, PartialEq, Eq)]
pub struct FilePath {
    pub file_path: String,
}

impl View for FilePath {
    type V = Seq<char>;

    open spec fn view(&self) -> Seq<char> {
        self.file_path@
    }
}

/// A package in a local directory.
#[derive(Debug, PartialEq, Eq)]
pub struct Folder {
    pub folder_path: String,
}

impl View for Folder {
    type V = Seq<char>;

    open spec fn view(&self) -> Seq<char> {
        self.folder_path@
    }
}

/// A classified specifier.
#[derive(Debug, PartialEq, Eq)]
pub enum PackageFormat {
    Named(Named),
    Git(Git),
    FilePath(FilePath),
    Folder(Folder),
}

/// The mathematical value of a [`PackageFormat`].
pub enum FormatView {
    Named(NamedView),
    Git(GitView),
    FilePath(Seq<char>),
    Folder(Seq<char>),
}

impl View for PackageFormat {
    type V = FormatView;

    open spec fn view(&self) -> FormatView {
        match *self {
            PackageFormat::Named(n) => FormatView::Named(n@),
            PackageFormat::Git(g) => FormatView::Git(g@),
            PackageFormat::FilePath(f) => FormatView::FilePath(f@),
            PackageFormat::Folder(f) => FormatView::Folder(f@),
        }
    }
}

/// The specifiers of one invocation, classified.
#[derive(Debug, PartialEq, Eq)]
pub struct Packages {
    pub packages: Vec<PackageFormat>,
}

impl View for Packages {
    type V = Seq<FormatView>;

    open spec fn view(&self) -> Seq<FormatView> {
        self.packages@.map_values(|p: PackageFormat| p@)
    }
}

/// One change to the dependency table.
#[derive(Debug, PartialEq, Eq)]
pub enum PackageChange {
    Insert { name: String, metadata: DependencyMetadata },
    Update { name: String, metadata: DependencyMetadata },
    Remove { name: String, metadata: DependencyMetadata },
}

/// The changes of one invocation.
#[derive(Debug, PartialEq, Eq)]
pub struct PackageChanges {
    pub changes: Vec<PackageChange>,
}

/// An ASCII letter or digit.
pub open spec fn is_letter_or_digit(c: char) -> bool {
    ('a' <= c && c <= 'z') || ('A' <= c && c <= 'Z') || ('0' <= c && c <= '9')
}

/// A character that a package name may hold: an ASCII letter or digit, or
/// one of `-`, `_` and `.`.
pub open spec fn is_name_char(c: char) -> bool {
    is_letter_or_digit(c) || c == '-' || c == '_' || c == '.'
}

/// The package names of the index: not empty, made of name characters, and
/// beginning and ending with a letter or digit.
pub open spec fn valid_name(name: Seq<char>) -> bool {
    &&& name.len() > 0
    &&& forall|i: int| 0 <= i < name.len() ==> is_name_char(#[trigger] name[i])
    &&& is_letter_or_digit(name.first())
    &&& is_letter_or_digit(name.last())
}

/// The schemes under which a repository can be reached.
pub open spec fn recognized(scheme: Scheme) -> bool {
    scheme is Http || scheme is Https || scheme is Git || scheme is Ssh || scheme is GitSsh
}

/// What a text is as a named specifier, given its pieces between `@` and
/// whether the second piece is a version range.
///
/// The first piece is the name. A second piece must be a version range. A
/// third piece is never accepted.
pub open spec fn named_from(text: Seq<char>, pieces: Seq<Seq<char>>, range: bool) -> Result<
    NamedView,
    ErrorView,
> {
    if pieces.len() == 0 || !valid_name(pieces[0]) {
        Err(unknown_format(text))
    } else if pieces.len() == 1 {
        Ok(NamedView { name: pieces[0], constraint: None })
    } else if !range {
        Err(ErrorView::InvalidVersionConstraint { name: pieces[0], version: pieces[1] })
    } else if pieces.len() > 2 {
        Err(unknown_format(text))
    } else {
        Ok(NamedView { name: pieces[0], constraint: Some(pieces[1]) })
    }
}

/// What a text is as a named specifier.
pub open spec fn named(text: Seq<char>) -> Result<NamedView, ErrorView> {
    let pieces = segments(text, '@');
    named_from(text, pieces, pieces.len() >= 2 && is_version_req(pieces[1]))
}

/// What a text is as a repository specifier, given its pieces between `#`
/// and what the parser made of the first piece.
///
/// The first piece must be an address with a recognized scheme; the
/// repository's name is the one that the parser derived from it. A second
/// piece is the revision. A third piece is never accepted. The address kept
/// is the text as it was written.
pub open spec fn git_from(text: Seq<char>, pieces: Seq<Seq<char>>, url: Option<GitUrlView>) -> Result<
    GitView,
    ErrorView,
> {
    match url {
        Some(u) => if recognized(u.scheme) && 1 <= pieces.len() <= 2 {
            Ok(
                GitView {
                    name: u.name,
                    url: text,
                    revision: if pieces.len() == 2 {
                        Some(pieces[1])
                    } else {
                        None
                    },
                },
            )
        } else {
            Err(unknown_format(text))
        },
        None => Err(unknown_format(text)),
    }
}

/// What a text is as a repository specifier. An address that the parser
/// cannot be handed is no repository address.
pub open spec fn git(text: Seq<char>) -> Result<GitView, ErrorView> {
    let pieces = segments(text, '#');
    if readable(normal_form(pieces[0])) {
        git_from(text, pieces, parsed_url(pieces[0]))
    } else {
        Err(unknown_format(text))
    }
}

/// What a text is as a specifier of a local file: no text is one.
pub open spec fn file_path(text: Seq<char>) -> Result<Seq<char>, ErrorView> {
    Err(unknown_format(text))
}

/// What a text is as a specifier of a local directory: no text is one.
pub open spec fn folder(text: Seq<char>) -> Result<Seq<char>, ErrorView> {
    Err(unknown_format(text))
}

/// The classification of a text: the first of repository, file, folder and
/// name whose grammar it follows. Where it follows none, the error is the
/// one that the name grammar gives.
pub open spec fn classify(text: Seq<char>) -> Result<FormatView, ErrorView> {
    if let Ok(g) = git(text) {
        Ok(FormatView::Git(g))
    } else if let Ok(f) = file_path(text) {
        Ok(FormatView::FilePath(f))
    } else if let Ok(f) = folder(text) {
        Ok(FormatView::Folder(f))
    } else {
        match named(text) {
            Ok(n) => Ok(FormatView::Named(n)),
            Err(e) => Err(e),
        }
    }
}

/// The classification of a list of texts: that of each, in order, or the
/// error of the first text that has none.
pub open spec fn classify_all(list: Seq<Seq<char>>) -> Result<Seq<FormatView>, ErrorView>
    decreases list.len(),
{
    if list.len() == 0 {
        Ok(seq![])
    } else {
        match classify_all(list.drop_last()) {
            Err(e) => Err(e),
            Ok(front) => match classify(list.last()) {
                Ok(f) => Ok(front.push(f)),
                Err(e) => Err(e),
            },
        }
    }
}

/// The named specifiers among `list`, in order.
pub open spec fn nameds(list: Seq<FormatView>) -> Seq<NamedView>
    decreases list.len(),
{
    if list.len() == 0 {
        seq![]
    } else {
        match list.last() {
            FormatView::Named(n) => nameds(list.drop_last()).push(n),
            _ => nameds(list.drop_last()),
        }
    }
}

/// The repository specifiers among `list`, in order.
pub open spec fn gits(list: Seq<FormatView>) -> Seq<GitView>
    decreases list.len(),
{
    if list.len() == 0 {
        seq![]
    } else {
        match list.last() {
            FormatView::Git(g) => gits(list.drop_last()).push(g),
            _ => gits(list.drop_last()),
        }
    }
}

/// The names of a list of repository specifiers.
pub open spec fn git_names(list: Seq<GitView>) -> Seq<Seq<char>> {
    list.map_values(|g: GitView| g.name)
}

/// What a list of repository specifiers resolves to.
pub open spec fn sources(list: Seq<GitView>) -> Seq<MetadataView> {
    list.map_values(|g: GitView| source(g))
}

/// The names under which the specifiers of a list are resolved: the
/// distinct names of the named ones, then the names of the repositories.
/// This is the order in which their metadata comes out of the resolution.
pub open spec fn dependency_names(list: Seq<FormatView>) -> Seq<Seq<char>> {
    distinct(names(nameds(list))) + git_names(gits(list))
}

/// What a list of specifiers resolves to, given the answers of the package
/// index to the lookups of its named specifiers: what the index resolved,
/// then what the repositories resolve to. A failure of the index fails the
/// whole list.
pub open spec fn resolution(list: Seq<FormatView>, answers: Seq<InfoView>) -> Result<
    Seq<MetadataView>,
    ErrorView,
> {
    match answered(nameds(list), answers) {
        Ok(registry) => Ok(registry + sources(gits(list))),
        Err(e) => Err(e),
    }
}

/// Tests for an ASCII letter or digit.
pub fn letter_or_digit(c: char) -> (yes: bool)
    ensures
        yes == is_letter_or_digit(c),
{
    ('a' <= c && c <= 'z') || ('A' <= c && c <= 'Z') || ('0' <= c && c <= '9')
}

/// Tests whether a text is a package name of the index.
pub fn is_valid_name(name: &str) -> (yes: bool)
    ensures
        yes == valid_name(name@),
{
    let cs = chars(name);
    let n = cs.len();
    if n == 0 {
        return false;
    }
    if !letter_or_digit(cs[0]) || !letter_or_digit(cs[n - 1]) {
        return false;
    }
    let mut i: usize = 0;
    while i < n
        invariant
            cs@ == name@,
            n == cs.len(),
            i <= n,
            forall|k: int| 0 <= k < i ==> is_name_char(#[trigger] cs@[k]),
        decreases n - i,
    {
        let c = cs[i];
        if !(letter_or_digit(c) || c == '-' || c == '_' || c == '.') {
            return false;
        }
        i += 1;
    }
    true
}

/// A copy of a text.
fn copy_of(text: &String) -> (copy: String)
    ensures
        copy@ == text@,
{
    text.clone()
}

impl Named {
    /// The named specifier that `value` is, from its pieces between `@` and
    /// the answer of the version parser on the second piece. `range` is not
    /// read where there is no second piece.
    pub fn from_segments(value: &String, pieces: &Vec<String>, range: bool) -> (r: Result<
        Named,
        PoetryError,
    >)
        ensures
            outcome(r) == named_from(value@, texts(pieces@), range),
    {
        if pieces.len() == 0 || !is_valid_name(pieces[0].as_str()) {
            Err(PoetryError::UnknownPackageFormat { format: copy_of(value) })
        } else if pieces.len() == 1 {
            Ok(Named { name: copy_of(&pieces[0]), constraint: None })
        } else if !range {
            Err(
                PoetryError::InvalidVersionConstraint {
                    name: copy_of(&pieces[0]),
                    version: copy_of(&pieces[1]),
                },
            )
        } else if pieces.len() > 2 {
            Err(PoetryError::UnknownPackageFormat { format: copy_of(value) })
        } else {
            Ok(Named { name: copy_of(&pieces[0]), constraint: Some(copy_of(&pieces[1])) })
        }
    }

    /// Reads `value` as a named specifier: `<name>` or
    /// `<name>@<version-range>`.
    pub fn try_from(value: &String) -> (r: Result<Named, PoetryError>)
        ensures
            outcome(r) == named(value@),
    {
        let pieces = split(value.as_str(), '@');
        let range = pieces.len() >= 2 && accepts_version_req(pieces[1].as_str());
        Named::from_segments(value, &pieces, range)
    }
}

impl Git {
    /// The repository specifier that `value` is, from its pieces between `#`
    /// and what the parser made of the first piece.
    pub fn from_segments(value: &String, pieces: &Vec<String>, url: Option<GitUrl>) -> (r: Result<
        Git,
        PoetryError,
    >)
        ensures
            outcome(r) == git_from(
                value@,
                texts(pieces@),
                match url {
                    Some(u) => Some(u@),
                    None => None,
                },
            ),
    {
        match url {
            Some(u) => {
                let known = match u.scheme {
                    Scheme::Http | Scheme::Https | Scheme::Git | Scheme::Ssh | Scheme::GitSsh => true,
                    _ => false,
                };
                if known && 1 <= pieces.len() && pieces.len() <= 2 {
                    let revision = if pieces.len() == 2 {
                        Some(copy_of(&pieces[1]))
                    } else {
                        None
                    };
                    Ok(Git { name: u.name, url: copy_of(value), revision })
                } else {
                    Err(PoetryError::UnknownPackageFormat { format: copy_of(value) })
                }
            },
            None => Err(PoetryError::UnknownPackageFormat { format: copy_of(value) }),
        }
    }

    /// Reads `value` as a repository specifier: `<repository-url>` or
    /// `<repository-url>#<revision>`.
    pub fn try_from(value: &String) -> (r: Result<Git, PoetryError>)
        ensures
            outcome(r) == git(value@),
    {
        let pieces = split(value.as_str(), '#');
        let normal = normalize(pieces[0].as_str());
        if !is_readable(&normal) {
            return Err(PoetryError::UnknownPackageFormat { format: copy_of(value) });
        }
        let url = parse(pieces[0].as_str());
        Git::from_segments(value, &pieces, url)
    }
}

impl FilePath {
    /// Reads `value` as a specifier of a local file. No text is read as one.
    pub fn try_from(value: &String) -> (r: Result<FilePath, PoetryError>)
        ensures
            outcome(r) == file_path(value@),
    {
        Err(PoetryError::UnknownPackageFormat { format: copy_of(value) })
    }
}

impl Folder {
    /// Reads `value` as a specifier of a local directory. No text is read as
    /// one.
    pub fn try_from(value: &String) -> (r: Result<Folder, PoetryError>)
        ensures
            outcome(r) == folder(value@),
    {
        Err(PoetryError::UnknownPackageFormat { format: copy_of(value) })
    }
}

impl PackageFormat {
    /// Classifies a specifier.
    pub fn try_from(value: &String) -> (r: Result<PackageFormat, PoetryError>)
        ensures
            outcome(r) == classify(value@),
    {
        if let Ok(git) = Git::try_from(value) {
            Ok(PackageFormat::Git(git))
        } else if let Ok(fp) = FilePath::try_from(value) {
            Ok(PackageFormat::FilePath(fp))
        } else if let Ok(fldr) = Folder::try_from(value) {
            Ok(PackageFormat::Folder(fldr))
        } else {
            match Named::try_from(value) {
                Ok(named) => Ok(PackageFormat::Named(named)),
                Err(e) => Err(e),
            }
        }
    }
}

impl Packages {
    /// Classifies every specifier of a list. The first specifier that cannot
    /// be classified ends the work with its error.
    pub fn try_from(value: &Vec<String>) -> (r: Result<Packages, PoetryError>)
        ensures
            outcome(r) == classify_all(texts(value@)),
    {
        let mut packages: Vec<PackageFormat> = Vec::new();
        let mut i: usize = 0;
        proof {
            assert(texts(value@).take(0) =~= Seq::<Seq<char>>::empty());
            assert(packages@.map_values(|p: PackageFormat| p@) =~= Seq::<FormatView>::empty());
        }
        while i < value.len()
            invariant
                i <= value.len(),
                classify_all(texts(value@).take(i as int)) == Ok::<Seq<FormatView>, ErrorView>(
                    packages@.map_values(|p: PackageFormat| p@),
                ),
            decreases value.len() - i,
        {
            let ghost list = texts(value@);
            proof {
                assert(list.take(i + 1).drop_last() =~= list.take(i as int));
                assert(list.take(i + 1).last() == value@[i as int]@);
            }
            match PackageFormat::try_from(&value[i]) {
                Ok(package) => {
                    proof {
                        assert(packages@.push(package).map_values(|p: PackageFormat| p@)
                            =~= packages@.map_values(|p: PackageFormat| p@).push(package@));
                    }
                    packages.push(package);
                },
                Err(e) => {
                    proof {
                        lemma_classify_all_fails(list, i as int);
                    }
                    return Err(e);
                },
            }
            i += 1;
        }
        proof {
            assert(texts(value@).take(value.len() as int) =~= texts(value@));
        }
        Ok(Packages { packages })
    }

    /// The names of the named specifiers and those of the repository
    /// specifiers, each list in the order of the specifiers.
    fn name_lists(&self) -> (lists: (Vec<String>, Vec<String>))
        ensures
            texts(lists.0@) == names(nameds(self@)),
            texts(lists.1@) == git_names(gits(self@)),
    {
        let ghost all = self@;
        let mut named: Vec<String> = Vec::new();
        let mut git: Vec<String> = Vec::new();
        let mut i: usize = 0;
        proof {
            assert(all.take(0) =~= Seq::<FormatView>::empty());
            assert(texts(named@) =~= names(nameds(all.take(0))));
            assert(texts(git@) =~= git_names(gits(all.take(0))));
        }
        while i < self.packages.len()
            invariant
                i <= self.packages.len(),
                all == self@,
                texts(named@) == names(nameds(all.take(i as int))),
                texts(git@) == git_names(gits(all.take(i as int))),
            decreases self.packages.len() - i,
        {
            proof {
                assert(all.take(i + 1).drop_last() =~= all.take(i as int));
                assert(all.take(i + 1).last() == self.packages@[i as int]@);
            }
            match &self.packages[i] {
                PackageFormat::Named(n) => {
                    let name = n.name.clone();
                    proof {
                        let front = nameds(all.take(i as int));
                        assert(texts(named@.push(name)) =~= texts(named@).push(name@));
                        assert(names(front.push(n@)) =~= names(front).push(n@.name));
                    }
                    named.push(name);
                },
                PackageFormat::Git(g) => {
                    let name = g.name.clone();
                    proof {
                        let front = gits(all.take(i as int));
                        assert(texts(git@.push(name)) =~= texts(git@).push(name@));
                        assert(git_names(front.push(g@)) =~= git_names(front).push(g@.name));
                    }
                    git.push(name);
                },
                _ => {},
            }
            i += 1;
        }
        proof {
            assert(all.take(self.packages.len() as int) =~= all);
        }
        (named, git)
    }

    /// The names under which the specifiers are resolved, in the order in
    /// which [`Packages::resolve`] hands out their metadata.
    pub fn names(&self) -> (list: Vec<String>)
        ensures
            texts(list@) == dependency_names(self@),
    {
        let (named, mut git) = self.name_lists();
        let mut list = dedupe(&named);
        proof {
            assert(texts(list@ + git@) =~= texts(list@) + texts(git@));
        }
        list.append(&mut git);
        list
    }

    /// The lookups to send to the package index before the specifiers can
    /// be resolved: one for each distinct name among the named ones.
    pub fn requests(&self) -> (requests: Vec<Request>)
        ensures
            requests@.map_values(|r: Request| r@) == lookups(distinct(names(nameds(self@)))),
    {
        let (named, _git) = self.name_lists();
        requests_for(&dedupe(&named))
    }

    /// Resolves the specifiers, given the answers of the package index to
    /// the lookups of [`Packages::requests`], in their order. The metadata
    /// of the named specifiers comes first, then that of the repositories;
    /// files and folders resolve to nothing. Where the index fails, nothing
    /// is resolved.
    pub fn resolve(self, output: &str, responses: Vec<ProjectResp>) -> (r: Result<
        Vec<DependencyMetadata>,
        PoetryError,
    >)
        ensures
            r matches Ok(list) ==> {
                &&& resolution(self@, answers_view(responses@)) == Ok::<
                    Seq<MetadataView>,
                    ErrorView,
                >(metadata_views(list@))
                &&& list.len() == dependency_names(self@).len()
            },
            r matches Err(e) ==> resolution(self@, answers_view(responses@)) == Err::<
                Seq<MetadataView>,
                ErrorView,
            >(e@),
    {
        let ghost all = self@;
        let (named, git) = self.partition();
        let registry = PyPi { output: output.to_owned() };
        let mut list = match registry.resolve(&named, responses) {
            Ok(list) => list,
            Err(e) => {
                return Err(e);
            },
        };
        let provider = GitProvider { output: output.to_owned() };
        let mut more = provider.resolve(git);
        proof {
            assert(metadata_views(list@ + more@) =~= metadata_views(list@) + metadata_views(more@));
            assert(git@.map_values(|g: Git| source(g@)) =~= sources(gits(all)));
        }
        list.append(&mut more);
        Ok(list)
    }

    /// Parts the specifiers by kind: the named ones, for the package index,
    /// and those of repositories. Each list keeps the order of the
    /// specifiers. Files and folders resolve to nothing and are left out.
    pub fn partition(self) -> (parts: (Vec<Named>, Vec<Git>))
        ensures
            parts.0@.map_values(|n: Named| n@) == nameds(self@),
            parts.1@.map_values(|g: Git| g@) == gits(self@),
    {
        let ghost all = self@;
        let ghost items = self.packages@;
        let mut named: Vec<Named> = Vec::new();
        let mut git: Vec<Git> = Vec::new();
        proof {
            assert(named@.map_values(|n: Named| n@) =~= Seq::<NamedView>::empty());
            assert(git@.map_values(|g: Git| g@) =~= Seq::<GitView>::empty());
        }
        for package in it: self.packages.into_iter()
            invariant
                it.seq() == items,
                all == items.map_values(|p: PackageFormat| p@),
                named@.map_values(|n: Named| n@) == nameds(all.take(it.index())),
                git@.map_values(|g: Git| g@) == gits(all.take(it.index())),
        {
            proof {
                let done = it.index();
                assert(all.take(done + 1).drop_last() =~= all.take(done));
                assert(all.take(done + 1).last() == package@);
            }
            match package {
                PackageFormat::Named(n) => {
                    proof {
                        assert(named@.push(n).map_values(|n: Named| n@) =~= named@.map_values(
                            |n: Named| n@,
                        ).push(n@));
                    }
                    named.push(n);
                },
                PackageFormat::Git(g) => {
                    proof {
                        assert(git@.push(g).map_values(|g: Git| g@) =~= git@.map_values(
                            |g: Git| g@,
                        ).push(g@));
                    }
                    git.push(g);
                },
                _ => {},
            }
        }
        proof {
            assert(all.take(all.len() as int) =~= all);
        }
        (named, git)
    }
}

/// A text has one classification. It is a repository exactly where the
/// repository grammar accepts it, and a named package exactly where that
/// grammar rejects it and the name grammar accepts it: the order of the
/// grammars settles what both would accept. No text is a file or a folder.
/// A text that neither grammar accepts has the error of the name grammar,
/// which is an unknown format or an invalid version constraint.
pub proof fn lemma_classify_exclusive(text: Seq<char>)
    ensures
        classify(text) matches Ok(FormatView::Git(g)) <==> git(text) is Ok,
        git(text) matches Ok(g) ==> classify(text) == Ok::<FormatView, ErrorView>(FormatView::Git(g)),
        classify(text) matches Ok(FormatView::Named(n)) <==> git(text) is Err && named(text) is Ok,
        git(text) is Err ==> (named(text) matches Ok(n) ==> classify(text) == Ok::<
            FormatView,
            ErrorView,
        >(FormatView::Named(n))),
        !(classify(text) matches Ok(FormatView::FilePath(f))),
        !(classify(text) matches Ok(FormatView::Folder(f))),
        classify(text) is Err <==> git(text) is Err && named(text) is Err,
        classify(text) matches Err(e) ==> named(text) == Err::<NamedView, ErrorView>(e) && (e
            == unknown_format(text) || e is InvalidVersionConstraint),
{
}

/// A text whose version range, if it has one, can be read is classified as
/// one kind or is of unknown format.
pub proof fn lemma_classify_variant_or_unknown(text: Seq<char>)
    requires
        !(named(text) matches Err(e) && e is InvalidVersionConstraint),
    ensures
        classify(text) is Ok || classify(text) == Err::<FormatView, ErrorView>(unknown_format(text)),
{
}

/// A text with a third piece between `@`, and any text whose name is not a
/// package name, is no named specifier, whatever the version parser says.
pub proof fn lemma_named_rejects(text: Seq<char>)
    ensures
        segments(text, '@').len() > 2 ==> named(text) is Err,
        !valid_name(segments(text, '@')[0]) ==> named(text) == Err::<NamedView, ErrorView>(
            unknown_format(text),
        ),
        text.len() == 0 ==> named(text) == Err::<NamedView, ErrorView>(unknown_format(text)),
{
    if text.len() == 0 {
        assert(segments(text, '@') =~= seq![text]);
    }
}

/// Where a text of a list cannot be classified and all before it can, the
/// list has the error of that text.
pub proof fn lemma_classify_all_fails(list: Seq<Seq<char>>, i: int)
    requires
        0 <= i < list.len(),
        classify_all(list.take(i)) is Ok,
        classify(list[i]) is Err,
    ensures
        classify_all(list) == Err::<Seq<FormatView>, ErrorView>(classify(list[i])->Err_0),
    decreases list.len(),
{
    if i == list.len() - 1 {
        assert(list.take(i) =~= list.drop_last());
    } else {
        let front = list.drop_last();
        assert(front.take(i) =~= list.take(i));
        lemma_classify_all_fails(front, i);
    }
}

} // verus!
