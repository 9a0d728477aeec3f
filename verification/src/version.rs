//! Server versions, and what the scenarios expect of a server by its version.

use vstd::prelude::*;

verus! {

/// The version of a server: major, minor and patch number of a release.
#[derive(Clone, Copy, Debug, PartialEq, Eq, Structural)]
pub struct ServerVersion {
    pub major: u64,
    pub minor: u64,
    pub patch: u64,
}

/// What the crate `semver` says of a requirement and a release: whether
/// `VersionReq::parse(requirement)` succeeds and, if it does, whether the
/// parsed requirement `matches` the version `major.minor.patch` without
/// pre-release and build tags.
pub uninterp spec fn requirement_admits(
    requirement: Seq<char>,
    major: u64,
    minor: u64,
    patch: u64,
) -> Option<bool>;

/// Asks `semver` whether a release meets a requirement.
///
/// Calls `semver::VersionReq::parse` on the requirement and
/// `semver::VersionReq::matches` on `semver::Version::new(major, minor, patch)`.
/// The contract claims only that the answer depends on nothing but the four
/// arguments; what the answer is for a given requirement is not stated here.
#[verifier::external_body]
fn admits(requirement: &str, major: u64, minor: u64, patch: u64) -> (r: Option<bool>)
    ensures
        r == requirement_admits(requirement@, major, minor, patch),
{
    match semver::VersionReq::parse(requirement) {
        Ok(parsed) => Some(parsed.matches(&semver::Version::new(major, minor, patch))),
        Err(_) => None,
    }
}

/// How a server is expected to answer a `findAndModify` that carries a hint.
#[derive(Clone, Copy, Debug, PartialEq, Eq, Structural)]
pub enum HintOutcome {
    /// The driver refuses to send the command: the server is too old to
    /// report an unknown option.
    InvalidArgument,
    /// The server reports an error.
    CommandError,
    /// The command succeeds.
    Success,
}

/// The expected outcome, given whether the server's version is below 4.2 and
/// whether it is a 4.2 release.
pub open spec fn hint_outcome(below_4_2: bool, within_4_2: bool) -> HintOutcome {
    if below_4_2 {
        HintOutcome::InvalidArgument
    } else if within_4_2 {
        HintOutcome::CommandError
    } else {
        HintOutcome::Success
    }
}

/// The expected outcome, given whether the server's version is below 4.2 and
/// whether it is a 4.2 release.
pub fn expected_hint_outcome(below_4_2: bool, within_4_2: bool) -> (r: HintOutcome)
    ensures
        r == hint_outcome(below_4_2, within_4_2),
{
    if below_4_2 {
        HintOutcome::InvalidArgument
    } else if within_4_2 {
        HintOutcome::CommandError
    } else {
        HintOutcome::Success
    }
}

/// Whether the hint scenario is left out: it is if it sets options and the
/// server does not take a hint yet.
pub fn skips_hint_scenario(has_options: bool, takes_hint: bool) -> (r: bool)
    ensures
        r == (has_options && !takes_hint),
{
    has_options && !takes_hint
}

impl ServerVersion {
    /// Whether this version is older than `major.minor`.
    pub fn server_version_lt(&self, major: u64, minor: u64) -> (r: bool)
        ensures
            r == (self.major < major || (self.major == major && self.minor < minor)),
    {
        self.major < major || (self.major == major && self.minor < minor)
    }

    /// Whether this version meets `requirement`, or `None` if the
    /// requirement cannot be read.
    pub fn meets(&self, requirement: &str) -> (r: Option<bool>)
        ensures
            r == requirement_admits(requirement@, self.major, self.minor, self.patch),
    {
        admits(requirement, self.major, self.minor, self.patch)
    }

    /// How a server of this version is expected to answer a `findAndModify`
    /// that carries a hint: by what `< 4.2` and `4.2.*` say of the version.
    pub fn find_one_and_delete_hint_outcome(&self) -> (r: Option<HintOutcome>)
        ensures
            r == match (
                requirement_admits("< 4.2"@, self.major, self.minor, self.patch),
                requirement_admits("4.2.*"@, self.major, self.minor, self.patch),
            ) {
                (Some(below), Some(within)) => Some(hint_outcome(below, within)),
                _ => None,
            },
    {
        match (self.meets("< 4.2"), self.meets("4.2.*")) {
            (Some(below), Some(within)) => Some(expected_hint_outcome(below, within)),
            _ => None,
        }
    }

    /// Whether the hint scenario is left out on a server of this version: by
    /// what `>= 4.2` says of the version.
    pub fn find_one_and_delete_hint_skipped(&self, has_options: bool) -> (r: Option<bool>)
        ensures
            r == match requirement_admits(">= 4.2"@, self.major, self.minor, self.patch) {
                Some(takes_hint) => Some(has_options && !takes_hint),
                None => None,
            },
    {
        match self.meets(">= 4.2") {
            Some(takes_hint) => Some(skips_hint_scenario(has_options, takes_hint)),
            None => None,
        }
    }
}

} // verus!
