//! Semantic versions as they appear in documents.

use crate::field::FieldValue;
use crate::value::{Node, Value};
use vstd::prelude::*;

verus! {

/// The parts (major, minor, patch, pre-release, build) of a version string, where it is
/// one.
pub uninterp spec fn parsed_version(text: Seq<char>) -> Option<(u64, u64, u64, Seq<char>, Seq<char>)>;

/// Whether the version with parts `a` is ordered after the one with parts `b`.
pub uninterp spec fn version_greater(
    a: (u64, u64, u64, Seq<char>, Seq<char>),
    b: (u64, u64, u64, Seq<char>, Seq<char>),
) -> bool;

/// Relies on `semver::Version::parse`: the parts of a version string; an empty string
/// is not a version.
#[verifier::external_body]
fn parse_parts(text: &str) -> (r: Option<(u64, u64, u64, String, String)>)
    ensures
        match r {
            Some(p) => parsed_version(text@) == Some((p.0, p.1, p.2, p.3@, p.4@)),
            None => parsed_version(text@) is None,
        },
        text@.len() == 0 ==> r is None,
{
    match semver::Version::parse(text) {
        Ok(v) => Some((v.major, v.minor, v.patch, v.pre.as_str().to_string(), v.build.as_str().to_string())),
        Err(_) => None,
    }
}

/// A version, with the text it was read from.
#[derive(Clone, Debug, PartialEq)]
pub struct Version {
    pub text: String,
    pub major: u64,
    pub minor: u64,
    pub patch: u64,
    pub pre: String,
    pub build: String,
}

impl View for Version {
    type V = Seq<char>;

    open spec fn view(&self) -> Seq<char> {
        self.text@
    }
}

/// Relies on the order of `semver::Version`, which compares major, minor and patch
/// numbers first, in that order; equal versions are not ordered after each other.
#[verifier::external_body]
fn greater(a: &Version, b: &Version) -> (r: bool)
    ensures
        r == version_greater(a.parts(), b.parts()),
        a.parts() == b.parts() ==> !r,
        a.major != b.major ==> r == (a.major > b.major),
        a.major == b.major && a.minor != b.minor ==> r == (a.minor > b.minor),
        a.major == b.major && a.minor == b.minor && a.patch != b.patch ==> r == (a.patch
            > b.patch),
{
    let x = semver::Version {
        major: a.major,
        minor: a.minor,
        patch: a.patch,
        pre: semver::Prerelease::new(&a.pre).unwrap_or(semver::Prerelease::EMPTY),
        build: semver::BuildMetadata::new(&a.build).unwrap_or(semver::BuildMetadata::EMPTY),
    };
    let y = semver::Version {
        major: b.major,
        minor: b.minor,
        patch: b.patch,
        pre: semver::Prerelease::new(&b.pre).unwrap_or(semver::Prerelease::EMPTY),
        build: semver::BuildMetadata::new(&b.build).unwrap_or(semver::BuildMetadata::EMPTY),
    };
    x > y
}

/// Whether version string `a` is ordered after version string `b`.
pub open spec fn newer(a: Seq<char>, b: Seq<char>) -> bool {
    version_greater(parsed_version(a)->0, parsed_version(b)->0)
}

impl Version {
    pub open spec fn parts(&self) -> (u64, u64, u64, Seq<char>, Seq<char>) {
        (self.major, self.minor, self.patch, self.pre@, self.build@)
    }

    /// The parts agree with the text.
    pub open spec fn wf(&self) -> bool {
        parsed_version(self.text@) == Some(self.parts())
    }

    /// The version that `text` spells, where it spells one.
    pub fn parse(text: &str) -> (r: Option<Version>)
        ensures
            r is Some <==> parsed_version(text@) is Some,
            r matches Some(v) ==> v.wf() && v@ == text@,
    {
        match parse_parts(text) {
            Some((major, minor, patch, pre, build)) => Some(
                Version { text: text.to_owned(), major, minor, patch, pre, build },
            ),
            None => None,
        }
    }

    /// Whether this version is ordered after `other`.
    pub fn is_newer_than(&self, other: &Version) -> (r: bool)
        ensures
            r == version_greater(self.parts(), other.parts()),
            self.wf() && other.wf() ==> r == newer(self@, other@),
            self.parts() == other.parts() ==> !r,
            self.major != other.major ==> r == (self.major > other.major),
            self.major == other.major && self.minor != other.minor ==> r == (self.minor
                > other.minor),
            self.major == other.major && self.minor == other.minor && self.patch != other.patch
                ==> r == (self.patch > other.patch),
    {
        greater(self, other)
    }
}

impl FieldValue for Version {
    open spec fn encode_spec(x: Seq<char>) -> Node {
        Node::Text(x)
    }

    open spec fn decode_spec(n: Node) -> Option<Seq<char>> {
        match n {
            Node::Text(s) => if parsed_version(s) is Some {
                Some(s)
            } else {
                None
            },
            _ => None,
        }
    }

    open spec fn valid(x: Seq<char>) -> bool {
        parsed_version(x) is Some
    }

    open spec fn inv(&self) -> bool {
        self.wf()
    }

    fn encode(self) -> (r: Value) {
        Value::Text(self.text)
    }

    fn decode(v: &Value) -> (r: Option<Version>) {
        match v {
            Value::Text(s) => Version::parse(s.as_str()),
            _ => None,
        }
    }

    proof fn lemma_round_trip(x: Seq<char>) {
    }
}

} // verus!
