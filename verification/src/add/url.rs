//! Repository addresses, read by the `git-url-parse` crate.

use crate::text::{equal, segments, split, texts};
use vstd::prelude::*;

verus! {

/// The scheme of a repository address.
#[derive(Debug, Clone, Copy, PartialEq, Eq)]
pub enum Scheme {
    File,
    Ftp,
    Ftps,
    Git,
    GitSsh,
    Http,
    Https,
    Ssh,
    Unspecified,
}

/// What this library reads of a parsed repository address: the scheme, and
/// the name of the repository.
#[derive(Debug, PartialEq, Eq)]
pub struct GitUrl {
    pub name: String,
    pub scheme: Scheme,
}

/// The mathematical value of a [`GitUrl`].
pub struct GitUrlView {
    pub name: Seq<char>,
    pub scheme: Scheme,
}

impl View for GitUrl {
    type V = GitUrlView;

    open spec fn view(&self) -> GitUrlView {
        GitUrlView { name: self.name@, scheme: self.scheme }
    }
}

/// A repository address brought into the form of a URL: its scheme, host
/// and path as the parser will see them.
#[derive(Debug, PartialEq, Eq)]
pub struct NormalUrl {
    pub scheme: String,
    pub host: Option<String>,
    pub path: String,
}

/// The mathematical value of a [`NormalUrl`].
pub struct NormalUrlView {
    pub scheme: Seq<char>,
    pub host: Option<Seq<char>>,
    pub path: Seq<char>,
}

impl View for NormalUrl {
    type V = NormalUrlView;

    open spec fn view(&self) -> NormalUrlView {
        NormalUrlView {
            scheme: self.scheme@,
            host: match self.host {
                Some(h) => Some(h@),
                None => None,
            },
            path: self.path@,
        }
    }
}

/// The URL that `git_url_parse::normalize_url` makes of a text, `None`
/// where it reports an error.
pub uninterp spec fn normal_form(text: Seq<char>) -> Option<NormalUrlView>;

/// The name and scheme that `git_url_parse::GitUrl::parse` reads from a
/// text, `None` where it reports an error.
pub uninterp spec fn parsed_url(text: Seq<char>) -> Option<GitUrlView>;

/// The number of pieces between the slashes of a path, a last empty piece
/// not counted: the empty path has none, `a/b` and `a/b/` have two.
pub open spec fn path_parts(path: Seq<char>) -> nat {
    let pieces = segments(path, '/');
    if pieces.last().len() == 0 {
        (pieces.len() - 1) as nat
    } else {
        pieces.len()
    }
}

/// The hosts whose paths name an organization before the project.
pub open spec fn organization_host(host: Seq<char>) -> bool {
    host == "dev.azure.com"@ || host == "ssh.dev.azure.com"@
}

/// The normal forms that the parser cannot be handed: it reads the pieces of
/// the path by position and does not test that they are there. That is so
/// for an `ssh` URL whose path is no more than its first character, and for
/// a URL of a host with organizations whose path has fewer than three (`ssh`)
/// or four (`https`) pieces.
pub open spec fn unreadable(url: NormalUrlView) -> bool {
    ||| url.scheme == "ssh"@ && url.path.len() <= 1
    ||| {
        &&& url.host matches Some(h)
        &&& organization_host(h)
        &&& url.scheme == "ssh"@
        &&& path_parts(url.path.skip(1)) < 3
    }
    ||| {
        &&& url.host matches Some(h)
        &&& organization_host(h)
        &&& url.scheme == "https"@
        &&& path_parts(url.path) < 4
    }
}

/// Whether the parser can be handed the text that `url` is the normal form
/// of. A text without a normal form can: the parser reports the same error.
pub open spec fn readable(url: Option<NormalUrlView>) -> bool {
    match url {
        Some(u) => !unreadable(u),
        None => true,
    }
}

/// Calls `git_url_parse::normalize_url`, the first step of the parser, and
/// hands on the scheme, host and path of the URL it built. The contract
/// gives the outcome the name [`normal_form`] and claims nothing else: the
/// function depends on the text alone and returns an error rather than
/// panicking.
#[verifier::external_body]
pub(crate) fn normalize(text: &str) -> (r: Option<NormalUrl>)
    ensures
        r matches Some(u) ==> normal_form(text@) == Some(u@),
        r is None ==> normal_form(text@) is None,
{
    match git_url_parse::normalize_url(text) {
        Ok(u) => Some(
            NormalUrl {
                scheme: u.scheme().to_owned(),
                host: u.host_str().map(|h| h.to_owned()),
                path: u.path().to_owned(),
            },
        ),
        Err(_) => None,
    }
}

/// Calls `git_url_parse::GitUrl::parse` and hands on the name and the scheme
/// that it read. The contract gives the outcome the name [`parsed_url`] and
/// claims nothing else. The parser normalizes the text first and then
/// indexes the pieces of the path: `requires` leaves out the texts on which
/// an index would be out of range, so that the call returns.
#[verifier::external_body]
pub(crate) fn parse(text: &str) -> (r: Option<GitUrl>)
    requires
        readable(normal_form(text@)),
    ensures
        r matches Some(u) ==> parsed_url(text@) == Some(u@),
        r is None ==> parsed_url(text@) is None,
{
    match git_url_parse::GitUrl::parse(text) {
        Err(_) => None,
        Ok(u) => Some(GitUrl { name: u.name, scheme: match u.scheme {
            git_url_parse::Scheme::File => Scheme::File,
            git_url_parse::Scheme::Ftp => Scheme::Ftp,
            git_url_parse::Scheme::Ftps => Scheme::Ftps,
            git_url_parse::Scheme::Git => Scheme::Git,
            git_url_parse::Scheme::GitSsh => Scheme::GitSsh,
            git_url_parse::Scheme::Http => Scheme::Http,
            git_url_parse::Scheme::Https => Scheme::Https,
            git_url_parse::Scheme::Ssh => Scheme::Ssh,
            git_url_parse::Scheme::Unspecified => Scheme::Unspecified,
        } }),
    }
}

/// Counts the pieces of a path.
pub fn count_parts(path: &str) -> (n: usize)
    ensures
        n == path_parts(path@),
{
    let pieces = split(path, '/');
    let last = pieces.len() - 1;
    proof {
        assert(texts(pieces@)[last as int] == pieces@[last as int]@);
    }
    if pieces[last].as_str().unicode_len() == 0 {
        last
    } else {
        pieces.len()
    }
}

/// Tests whether the parser can be handed the text that `url` is the normal
/// form of.
pub fn is_readable(url: &Option<NormalUrl>) -> (ok: bool)
    ensures
        ok == readable(
            match *url {
                Some(u) => Some(u@),
                None => None,
            },
        ),
{
    match url {
        None => true,
        Some(u) => {
            let length = u.path.as_str().unicode_len();
            let ssh = equal(u.scheme.as_str(), "ssh");
            let https = equal(u.scheme.as_str(), "https");
            let organization = match &u.host {
                Some(h) => equal(h.as_str(), "dev.azure.com") || equal(
                    h.as_str(),
                    "ssh.dev.azure.com",
                ),
                None => false,
            };
            proof {
                assert(u.path@.skip(0) =~= u.path@);
            }
            if ssh && length <= 1 {
                false
            } else if organization && ssh && short_of(u.path.as_str(), 1, 3) {
                false
            } else if organization && https && short_of(u.path.as_str(), 0, 4) {
                false
            } else {
                true
            }
        },
    }
}

/// Whether what follows the first `from` characters of `path` has fewer than
/// `least` pieces.
fn short_of(path: &str, from: usize, least: usize) -> (short: bool)
    requires
        from <= path@.len(),
    ensures
        short == (path_parts(path@.skip(from as int)) < least),
{
    let rest = path.substring_char(from, path.unicode_len());
    proof {
        assert(rest@ =~= path@.skip(from as int));
    }
    count_parts(rest) < least
}

} // verus!
