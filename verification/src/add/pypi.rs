//! The package index: which lookups a batch of named specifiers needs, and
//! what its answers resolve to.
//!
//! A batch is resolved as a whole. One answer whose version cannot be read
//! fails the batch, and no metadata is handed on.

use crate::add::package_format::{Named, NamedView};
use crate::add::provider::{InfoView, ProjectResp};
use crate::document::{metadata_views, DependencyMetadata, MetadataView, Versioned};
use crate::error::{ErrorView, PoetryError};
use crate::text::texts;
use crate::version::{parse_version, parsed_version, Version, VersionView};
use vstd::prelude::*;

verus! {

/// The package index. `output` is where providers that fetch files put them;
/// the index hands out metadata only and leaves it unread.
#[derive(Debug, PartialEq, Eq)]
pub struct PyPi {
    pub output: String,
}

/// One lookup: the address to `GET`, and the headers to send with it.
#[derive(Debug, PartialEq, Eq)]
pub struct Request {
    pub url: String,
    pub host: String,
    pub accept: String,
}

/// The mathematical value of a [`Request`].
pub struct RequestView {
    pub url: Seq<char>,
    pub host: Seq<char>,
    pub accept: Seq<char>,
}

impl View for Request {
    type V = RequestView;

    open spec fn view(&self) -> RequestView {
        RequestView { url: self.url@, host: self.host@, accept: self.accept@ }
    }
}

/// The lookup of the package `name`: its JSON metadata on `pypi.org`, asked
/// for as JSON.
pub open spec fn lookup(name: Seq<char>) -> RequestView {
    RequestView {
        url: "https://pypi.org/pypi/"@ + name + "/json"@,
        host: "pypi.org"@,
        accept: "application/json"@,
    }
}

/// The lookup of each name of a list, in order.
pub open spec fn lookups(names: Seq<Seq<char>>) -> Seq<RequestView> {
    names.map_values(|name: Seq<char>| lookup(name))
}

/// The names of a batch, each once, in the order in which they first occur.
pub open spec fn distinct(names: Seq<Seq<char>>) -> Seq<Seq<char>>
    decreases names.len(),
{
    if names.len() == 0 {
        seq![]
    } else {
        let front = distinct(names.drop_last());
        if front.contains(names.last()) {
            front
        } else {
            front.push(names.last())
        }
    }
}

/// The mathematical values of a batch of named specifiers.
pub open spec fn batch_view(batch: Seq<Named>) -> Seq<NamedView> {
    batch.map_values(|n: Named| n@)
}

/// The mathematical values of the answers to a batch.
pub open spec fn answers_view(answers: Seq<ProjectResp>) -> Seq<InfoView> {
    answers.map_values(|a: ProjectResp| a@)
}

/// The names of a batch of named specifiers.
pub open spec fn names(batch: Seq<NamedView>) -> Seq<Seq<char>> {
    batch.map_values(|n: NamedView| n.name)
}

/// What one answer resolves to, given what the version parser made of the
/// version it reports: that version, or an error that names the package and
/// the text that is no version.
pub open spec fn versioned(info: InfoView, version: Option<VersionView>) -> Result<
    MetadataView,
    ErrorView,
> {
    match version {
        Some(v) => Ok(MetadataView::Versioned { version: v }),
        None => Err(ErrorView::InvalidVersionResolved { name: info.name, version: info.version }),
    }
}

/// What one answer resolves to.
pub open spec fn resolved(info: InfoView) -> Result<MetadataView, ErrorView> {
    versioned(info, parsed_version(info.version))
}

/// What the answers to a batch resolve to: the metadata of each, in order,
/// or the error of the first answer that resolves to none.
pub open spec fn resolved_all(answers: Seq<InfoView>) -> Result<Seq<MetadataView>, ErrorView>
    decreases answers.len(),
{
    if answers.len() == 0 {
        Ok(seq![])
    } else {
        match resolved_all(answers.drop_last()) {
            Err(e) => Err(e),
            Ok(front) => match resolved(answers.last()) {
                Ok(m) => Ok(front.push(m)),
                Err(e) => Err(e),
            },
        }
    }
}

/// What the answers to the lookups of a batch resolve to. The index must
/// have answered each lookup: with more or fewer answers than distinct names
/// the batch fails as one that could not be fetched.
pub open spec fn answered(batch: Seq<NamedView>, answers: Seq<InfoView>) -> Result<
    Seq<MetadataView>,
    ErrorView,
> {
    if answers.len() != distinct(names(batch)).len() {
        Err(ErrorView::ReqwestError { message: "the package index did not answer every lookup"@ })
    } else {
        resolved_all(answers)
    }
}

/// `distinct` keeps every name and repeats none.
pub proof fn lemma_distinct(names: Seq<Seq<char>>)
    ensures
        distinct(names).no_duplicates(),
        forall|k: Seq<char>|
            #![trigger distinct(names).contains(k)]
            #![trigger names.contains(k)]
            distinct(names).contains(k) <==> names.contains(k),
        distinct(names).len() <= names.len(),
    decreases names.len(),
{
    if names.len() > 0 {
        let front = names.drop_last();
        let last = names.last();
        let d = distinct(names);
        let df = distinct(front);
        lemma_distinct(front);
        assert forall|k: Seq<char>| d.contains(k) <==> names.contains(k) by {
            if d.contains(k) {
                let i = choose|i: int| 0 <= i < d.len() && d[i] == k;
                if i < df.len() {
                    assert(df[i] == k);
                    assert(df.contains(k));
                    assert(front.contains(k));
                    let j = choose|j: int| 0 <= j < front.len() && front[j] == k;
                    assert(names[j] == k);
                } else {
                    assert(names[names.len() - 1] == k);
                }
            }
            if names.contains(k) {
                let j = choose|j: int| 0 <= j < names.len() && names[j] == k;
                if j < front.len() {
                    assert(front[j] == k);
                    assert(front.contains(k));
                    assert(df.contains(k));
                    let i = choose|i: int| 0 <= i < df.len() && df[i] == k;
                    assert(d[i] == k);
                } else if df.contains(k) {
                    let i = choose|i: int| 0 <= i < df.len() && df[i] == k;
                    assert(d[i] == k);
                } else {
                    assert(d[d.len() - 1] == k);
                }
            }
        }
        assert forall|i: int, j: int| 0 <= i < d.len() && 0 <= j < d.len() && i != j implies d[i]
            != d[j] by {
            if !df.contains(last) {
                if i == df.len() {
                    assert(df[j] == d[j]);
                    assert(df.contains(d[j]));
                } else if j == df.len() {
                    assert(df[i] == d[i]);
                    assert(df.contains(d[i]));
                }
            }
        }
    }
}

/// Where one answer of a batch resolves to nothing and all before it
/// resolve, the batch has the error of that answer: no metadata comes out of
/// it.
pub proof fn lemma_batch_fails(answers: Seq<InfoView>, i: int)
    requires
        0 <= i < answers.len(),
        resolved_all(answers.take(i)) is Ok,
        resolved(answers[i]) is Err,
    ensures
        resolved_all(answers) == Err::<Seq<MetadataView>, ErrorView>(resolved(answers[i])->Err_0),
    decreases answers.len(),
{
    if i == answers.len() - 1 {
        assert(answers.take(i) =~= answers.drop_last());
    } else {
        let front = answers.drop_last();
        assert(front.take(i) =~= answers.take(i));
        lemma_batch_fails(front, i);
    }
}

/// A batch resolves exactly when each of its answers does, and then to the
/// metadata of each answer, in order. So a single answer whose version
/// cannot be read fails the batch, wherever it stands.
pub proof fn lemma_batch_all_or_nothing(answers: Seq<InfoView>)
    ensures
        resolved_all(answers) is Ok <==> forall|i: int|
            0 <= i < answers.len() ==> (#[trigger] resolved(answers[i])) is Ok,
        resolved_all(answers) matches Ok(list) ==> {
            &&& list.len() == answers.len()
            &&& forall|i: int|
                0 <= i < answers.len() ==> resolved(answers[i]) == Ok::<MetadataView, ErrorView>(
                    #[trigger] list[i],
                )
        },
    decreases answers.len(),
{
    if answers.len() > 0 {
        let front = answers.drop_last();
        lemma_batch_all_or_nothing(front);
        if resolved_all(answers) is Ok {
            assert forall|i: int| 0 <= i < answers.len() implies (#[trigger] resolved(
                answers[i],
            )) is Ok by {
                if i < front.len() {
                    assert(front[i] == answers[i]);
                }
            }
            let list = resolved_all(answers)->Ok_0;
            assert forall|i: int| 0 <= i < answers.len() implies resolved(answers[i]) == Ok::<
                MetadataView,
                ErrorView,
            >(#[trigger] list[i]) by {
                if i < front.len() {
                    assert(front[i] == answers[i]);
                }
            }
        }
        if forall|i: int| 0 <= i < answers.len() ==> (#[trigger] resolved(answers[i])) is Ok {
            assert forall|i: int| 0 <= i < front.len() implies (#[trigger] resolved(
                front[i],
            )) is Ok by {
                assert(front[i] == answers[i]);
            }
            assert(resolved(answers[answers.len() - 1]) is Ok);
        }
    }
}

impl PyPi {
    /// The lookup of one package.
    pub fn request(name: &str) -> (request: Request)
        ensures
            request@ == lookup(name@),
    {
        let mut url = "https://pypi.org/pypi/".to_owned();
        url.append(name);
        url.append("/json");
        Request { url, host: "pypi.org".to_owned(), accept: "application/json".to_owned() }
    }

    /// The lookups that a batch needs: one for each distinct name, in the
    /// order in which the names first occur. The version range of a
    /// specifier plays no part: the index is asked for the latest version.
    pub fn requests(&self, packages: &Vec<Named>) -> (requests: Vec<Request>)
        ensures
            requests@.map_values(|r: Request| r@) == lookups(distinct(names(batch_view(packages@)))),
    {
        let mut all: Vec<String> = Vec::new();
        let mut i: usize = 0;
        proof {
            assert(texts(all@) =~= names(batch_view(packages@)).take(0));
        }
        while i < packages.len()
            invariant
                i <= packages.len(),
                texts(all@) == names(batch_view(packages@)).take(i as int),
            decreases packages.len() - i,
        {
            let name = packages[i].name.clone();
            proof {
                let list = names(batch_view(packages@));
                assert(list[i as int] == packages@[i as int].name@);
                assert(list.take(i + 1) =~= list.take(i as int).push(name@));
                assert(texts(all@.push(name)) =~= texts(all@).push(name@));
            }
            all.push(name);
            i += 1;
        }
        proof {
            let list = names(batch_view(packages@));
            assert(list.take(packages.len() as int) =~= list);
        }
        requests_for(&dedupe(&all))
    }

    /// What one answer resolves to, from what the version parser made of the
    /// version it reports.
    pub fn versioned(answer: ProjectResp, version: Option<Version>) -> (r: Result<
        DependencyMetadata,
        PoetryError,
    >)
        ensures
            crate::error::outcome(r) == versioned(
                answer@,
                match version {
                    Some(v) => Some(v@),
                    None => None,
                },
            ),
    {
        match version {
            Some(version) => Ok(DependencyMetadata::Versioned(Versioned { version })),
            None => Err(
                PoetryError::InvalidVersionResolved {
                    name: answer.info.name,
                    version: answer.info.version,
                },
            ),
        }
    }

    /// Resolves the answers to the lookups of a batch: each to the version
    /// that it reports. The answers stand in the order of the lookups. The
    /// first answer whose version cannot be read fails the batch with an
    /// error that names the package and the text; nothing is resolved then.
    pub fn resolve(&self, packages: &Vec<Named>, responses: Vec<ProjectResp>) -> (r: Result<
        Vec<DependencyMetadata>,
        PoetryError,
    >)
        ensures
            r matches Ok(list) ==> {
                &&& answered(batch_view(packages@), answers_view(responses@)) == Ok::<
                    Seq<MetadataView>,
                    ErrorView,
                >(metadata_views(list@))
                &&& list.len() == distinct(names(batch_view(packages@))).len()
            },
            r matches Err(e) ==> answered(batch_view(packages@), answers_view(responses@)) == Err::<
                Seq<MetadataView>,
                ErrorView,
            >(e@),
    {
        let ghost answers = responses@.map_values(|a: ProjectResp| a@);
        let ghost items = responses@;
        let planned = self.requests(packages);
        proof {
            let d = distinct(names(batch_view(packages@)));
            assert(planned@.map_values(|r: Request| r@).len() == lookups(d).len());
        }
        if responses.len() != planned.len() {
            return Err(
                PoetryError::ReqwestError {
                    message: "the package index did not answer every lookup".to_owned(),
                },
            );
        }
        let mut list: Vec<DependencyMetadata> = Vec::new();
        proof {
            assert(answers.take(0) =~= Seq::<InfoView>::empty());
            assert(list@.map_values(|m: DependencyMetadata| m@) =~= Seq::<MetadataView>::empty());
        }
        for answer in it: responses.into_iter()
            invariant
                it.seq() == items,
                answers == items.map_values(|a: ProjectResp| a@),
                answers.len() == distinct(names(batch_view(packages@))).len(),
                resolved_all(answers.take(it.index())) == Ok::<Seq<MetadataView>, ErrorView>(
                    list@.map_values(|m: DependencyMetadata| m@),
                ),
        {
            let ghost done = it.index();
            proof {
                assert(answers.take(done + 1).drop_last() =~= answers.take(done));
                assert(answers.take(done + 1).last() == answer@);
                assert(answers[done] == answer@);
            }
            let version = parse_version(answer.info.version.as_str());
            match PyPi::versioned(answer, version) {
                Ok(metadata) => {
                    proof {
                        assert(list@.push(metadata).map_values(|m: DependencyMetadata| m@)
                            =~= list@.map_values(|m: DependencyMetadata| m@).push(metadata@));
                    }
                    list.push(metadata);
                },
                Err(e) => {
                    proof {
                        lemma_batch_fails(answers, done);
                    }
                    return Err(e);
                },
            }
        }
        proof {
            assert(answers.take(answers.len() as int) =~= answers);
            lemma_batch_all_or_nothing(answers);
        }
        Ok(list)
    }
}

/// The names of a list, each once, in the order in which they first occur.
pub fn dedupe(list: &Vec<String>) -> (kept: Vec<String>)
    ensures
        texts(kept@) == distinct(texts(list@)),
{
    let ghost all = texts(list@);
    let mut kept: Vec<String> = Vec::new();
    let mut i: usize = 0;
    proof {
        assert(all.take(0) =~= Seq::<Seq<char>>::empty());
        assert(texts(kept@) =~= distinct(all.take(0)));
    }
    while i < list.len()
        invariant
            i <= list.len(),
            all == texts(list@),
            texts(kept@) == distinct(all.take(i as int)),
        decreases list.len() - i,
    {
        let name = &list[i];
        proof {
            assert(all.take(i + 1).drop_last() =~= all.take(i as int));
            assert(all.take(i + 1).last() == name@);
        }
        if !holds(&kept, name) {
            let copy = name.clone();
            proof {
                assert(texts(kept@.push(copy)) =~= texts(kept@).push(name@));
            }
            kept.push(copy);
        }
        i += 1;
    }
    proof {
        assert(all.take(list.len() as int) =~= all);
    }
    kept
}

/// The lookup of each name of a list, in order.
pub fn requests_for(list: &Vec<String>) -> (requests: Vec<Request>)
    ensures
        requests@.map_values(|r: Request| r@) == lookups(texts(list@)),
{
    let mut requests: Vec<Request> = Vec::new();
    let mut i: usize = 0;
    proof {
        assert(requests@.map_values(|r: Request| r@) =~= lookups(texts(list@).take(0)));
    }
    while i < list.len()
        invariant
            i <= list.len(),
            requests@.map_values(|r: Request| r@) == lookups(texts(list@).take(i as int)),
        decreases list.len() - i,
    {
        let request = PyPi::request(list[i].as_str());
        proof {
            let t = texts(list@);
            assert(t.take(i + 1) =~= t.take(i as int).push(list@[i as int]@));
            assert(lookups(t.take(i as int).push(list@[i as int]@)) =~= lookups(
                t.take(i as int),
            ).push(lookup(list@[i as int]@)));
            assert(requests@.push(request).map_values(|r: Request| r@) =~= requests@.map_values(
                |r: Request| r@,
            ).push(request@));
        }
        requests.push(request);
        i += 1;
    }
    proof {
        assert(texts(list@).take(list.len() as int) =~= texts(list@));
    }
    requests
}

/// Whether `name` is one of `list`.
fn holds(list: &Vec<String>, name: &String) -> (found: bool)
    ensures
        found == texts(list@).contains(name@),
{
    let mut i: usize = 0;
    while i < list.len()
        invariant
            i <= list.len(),
            forall|k: int| 0 <= k < i ==> list@[k]@ != name@,
        decreases list.len() - i,
    {
        if list[i] == *name {
            proof {
                assert(texts(list@)[i as int] == name@);
            }
            return true;
        }
        i += 1;
    }
    false
}

} // verus!
