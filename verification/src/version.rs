//! Versions and version ranges, read by the `semver` crate.

use vstd::prelude::*;

verus! {

/// A concrete version: three numbers, a pre-release tag and build metadata.
/// The two texts are empty where the version has none.
#[derive(Debug, PartialEq, Eq)]
pub struct Version {
    pub major: u64,
    pub minor: u64,
    pub patch: u64,
    pub pre: String,
    pub build: String,
}

/// The mathematical value of a [`Version`].
pub struct VersionView {
    pub major: u64,
    pub minor: u64,
    pub patch: u64,
    pub pre: Seq<char>,
    pub build: Seq<char>,
}

impl View for Version {
    type V = VersionView;

    open spec fn view(&self) -> VersionView {
        VersionView {
            major: self.major,
            minor: self.minor,
            patch: self.patch,
            pre: self.pre@,
            build: self.build@,
        }
    }
}

/// The version that `semver::Version::parse` reads from a text, `None` where
/// it reports an error.
pub uninterp spec fn parsed_version(text: Seq<char>) -> Option<VersionView>;

/// Whether `semver::VersionReq::parse` reads a version range from a text.
pub uninterp spec fn is_version_req(text: Seq<char>) -> bool;

/// Calls `semver::Version::parse`. The contract gives its outcome the name
/// [`parsed_version`] and claims nothing else: the parser is a function of
/// the text alone and returns an error rather than panicking. The parts of a
/// version it has read are handed on unchanged, the two tags as the texts
/// that `as_str` gives.
#[verifier::external_body]
pub(crate) fn parse_version(text: &str) -> (r: Option<Version>)
    ensures
        r matches Some(v) ==> parsed_version(text@) == Some(v@),
        r is None ==> parsed_version(text@) is None,
{
    match semver::Version::parse(text) {
        Ok(v) => Some(
            Version {
                major: v.major,
                minor: v.minor,
                patch: v.patch,
                pre: v.pre.as_str().to_owned(),
                build: v.build.as_str().to_owned(),
            },
        ),
        Err(_) => None,
    }
}

/// Calls `semver::VersionReq::parse` and tells whether it succeeded. The
/// contract gives that answer the name [`is_version_req`] and claims nothing
/// else: the parser is a function of the text alone and returns an error
/// rather than panicking.
#[verifier::external_body]
pub(crate) fn accepts_version_req(text: &str) -> (ok: bool)
    ensures
        ok == is_version_req(text@),
{
    semver::VersionReq::parse(text).is_ok()
}

} // verus!
