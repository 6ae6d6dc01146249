//! Versions of this tool and the requirements that a template places on them.

use vstd::prelude::*;
use vstd::string::StringExecFns;

use crate::text::{decimal, push_decimal};

verus! {

/// A released version of this tool: `major.minor.patch`.
#[derive(PartialEq, Eq, Structural, Clone, Copy, Debug)]
pub struct Version {
    pub major: u64,
    pub minor: u64,
    pub patch: u64,
}

impl Version {
    /// The version `major.minor.patch`.
    pub fn new(major: u64, minor: u64, patch: u64) -> (r: Version)
        ensures
            r == (Version { major, minor, patch }),
    {
        Version { major, minor, patch }
    }

    /// The version written as `major.minor.patch`, in decimal.
    pub open spec fn text(self) -> Seq<char> {
        decimal(self.major as nat) + seq!['.'] + decimal(self.minor as nat) + seq!['.'] + decimal(
            self.patch as nat,
        )
    }

    /// The version written as `major.minor.patch`.
    pub fn to_string(&self) -> (r: String)
        ensures
            r@ == self.text(),
    {
        proof {
            reveal_strlit(".");
        }
        let mut out = String::new();
        push_decimal(&mut out, self.major);
        out.append(".");
        push_decimal(&mut out, self.minor);
        out.append(".");
        push_decimal(&mut out, self.patch);
        assert(out@ =~= self.text());
        out
    }
}

/// The version of this tool.
pub open spec fn this_version() -> Version {
    Version { major: 0, minor: 3, patch: 0 }
}

/// The version of this tool.
pub fn crate_version() -> (r: Version)
    ensures
        r == this_version(),
{
    Version::new(0, 3, 0)
}

/// Whether `text` is a version requirement in the syntax of the `semver`
/// crate, such as `>=1.2, <2` or `^0.3.0`.
pub uninterp spec fn requirement_parses(text: Seq<char>) -> bool;

/// Whether the version `major.minor.patch` satisfies the requirement that
/// `text` writes. It has a meaning only where `requirement_parses(text)`.
pub uninterp spec fn requirement_admits(text: Seq<char>, major: u64, minor: u64, patch: u64) -> bool;

/// `semver::VersionReq::parse` on `requirement`, then
/// `semver::VersionReq::matches` on `semver::Version::new(major, minor,
/// patch)`. `None` where the text is no requirement; else whether the version
/// satisfies it. Both outcomes are a function of the arguments alone, which is
/// all that the contract claims: it gives them their names.
#[verifier::external_body]
fn semver_matches(requirement: &str, major: u64, minor: u64, patch: u64) -> (r: Option<bool>)
    ensures
        r == if requirement_parses(requirement@) {
            Some(requirement_admits(requirement@, major, minor, patch))
        } else {
            None
        },
{
    let parsed = semver::VersionReq::parse(requirement).ok()?;
    Some(parsed.matches(&semver::Version::new(major, minor, patch)))
}

/// A requirement on the version of this tool, as the range expression that
/// writes it.
#[derive(PartialEq, Eq, Debug)]
pub struct VersionReq {
    pub expression: String,
}

impl View for VersionReq {
    type V = Seq<char>;

    open spec fn view(&self) -> Seq<char> {
        self.expression@
    }
}

impl Default for VersionReq {
    /// The requirement `*`.
    fn default() -> (r: VersionReq)
        ensures
            r@ == "*"@,
    {
        VersionReq { expression: "*".to_owned() }
    }
}

impl Clone for VersionReq {
    fn clone(&self) -> (r: VersionReq)
        ensures
            r == *self,
    {
        VersionReq { expression: self.expression.clone() }
    }
}

impl VersionReq {
    /// Whether the expression is a requirement and `version` satisfies it.
    pub open spec fn admits(self, version: Version) -> bool {
        requirement_parses(self@) && requirement_admits(
            self@,
            version.major,
            version.minor,
            version.patch,
        )
    }

    /// The requirement that `text` writes; `text` itself where it writes
    /// none.
    pub fn parse(text: &str) -> (r: Result<VersionReq, String>)
        ensures
            match r {
                Ok(requirement) => requirement_parses(text@) && requirement@ == text@,
                Err(rejected) => !requirement_parses(text@) && rejected@ == text@,
            },
    {
        match semver_matches(text, 0, 0, 0) {
            Some(_) => Ok(VersionReq { expression: text.to_owned() }),
            None => Err(text.to_owned()),
        }
    }

    /// As [`VersionReq::parse`].
    pub fn from_str(text: &str) -> (r: Result<VersionReq, String>)
        ensures
            match r {
                Ok(requirement) => requirement_parses(text@) && requirement@ == text@,
                Err(rejected) => !requirement_parses(text@) && rejected@ == text@,
            },
    {
        VersionReq::parse(text)
    }

    /// Whether `version` satisfies the requirement. An expression that is no
    /// requirement is satisfied by no version.
    pub fn matches(&self, version: &Version) -> (r: bool)
        ensures
            r == self.admits(*version),
    {
        match semver_matches(
            self.expression.as_str(),
            version.major,
            version.minor,
            version.patch,
        ) {
            Some(matched) => matched,
            None => false,
        }
    }

    /// The expression that writes the requirement.
    pub fn to_string(&self) -> (r: String)
        ensures
            r@ == self@,
    {
        self.expression.clone()
    }
}

} // verus!
