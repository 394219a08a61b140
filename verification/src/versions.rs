//! Semantic versions as the upgrade planner uses them: parsed by the
//! `semver` crate, ordered by it, and printed in its canonical form.
use vstd::prelude::*;

use crate::order::Order3;
use crate::text::{decimal, push_decimal};

verus! {

/// `semver::Version`, kept beside its parts.
#[verifier::external_type_specification]
#[verifier::external_body]
pub struct ExSemverVersion(semver::Version);

/// A parsed semantic version: its numeric parts and pre-release and build
/// texts, with the parsed value they came from.
pub struct SemVer {
    major: u64,
    minor: u64,
    patch: u64,
    pre: String,
    build: String,
    parsed: semver::Version,
}

/// Mathematical value of a [`SemVer`].
pub struct SemVerView {
    pub major: u64,
    pub minor: u64,
    pub patch: u64,
    pub pre: Seq<char>,
    pub build: Seq<char>,
}

impl View for SemVer {
    type V = SemVerView;

    closed spec fn view(&self) -> SemVerView {
        SemVerView {
            major: self.major,
            minor: self.minor,
            patch: self.patch,
            pre: self.pre@,
            build: self.build@,
        }
    }
}

/// What `semver::Version::parse` makes of a text, if it accepts it.
pub uninterp spec fn semver_parsed(text: Seq<char>) -> Option<SemVerView>;

/// The value of an optional version.
pub open spec fn opt_version_view(v: Option<SemVer>) -> Option<SemVerView> {
    match v {
        Some(x) => Some(x@),
        None => None,
    }
}

/// `semver::Version::parse`, with the parts of the result.
#[verifier::external_body]
fn version_parse(text: &str) -> (r: Option<SemVer>)
    ensures
        opt_version_view(r) == semver_parsed(text@),
{
    match semver::Version::parse(text) {
        Ok(v) => Some(
            SemVer {
                major: v.major,
                minor: v.minor,
                patch: v.patch,
                pre: v.pre.as_str().to_string(),
                build: v.build.as_str().to_string(),
                parsed: v,
            },
        ),
        Err(_) => None,
    }
}

/// `semver::Version::new(major, minor, patch)`: empty pre-release and build.
#[verifier::external_body]
fn version_new(major: u64, minor: u64, patch: u64) -> (r: SemVer)
    ensures
        r@ == (SemVerView { major, minor, patch, pre: Seq::empty(), build: Seq::empty() }),
{
    SemVer {
        major,
        minor,
        patch,
        pre: String::new(),
        build: String::new(),
        parsed: semver::Version::new(major, minor, patch),
    }
}

/// `Clone` of `semver::Version`, with the parts kept.
#[verifier::external_body]
fn version_clone(v: &SemVer) -> (r: SemVer)
    ensures
        r@ == v@,
{
    SemVer {
        major: v.major,
        minor: v.minor,
        patch: v.patch,
        pre: v.pre.clone(),
        build: v.build.clone(),
        parsed: v.parsed.clone(),
    }
}

/// How `semver` orders pre-release texts of equal numeric parts.
pub uninterp spec fn prerelease_precedence(a: Seq<char>, b: Seq<char>) -> Order3;

/// How `semver` orders build texts of otherwise equal versions.
pub uninterp spec fn build_precedence(a: Seq<char>, b: Seq<char>) -> Order3;

/// Order of two numbers.
pub open spec fn num_order(a: u64, b: u64) -> Order3 {
    if a < b {
        Order3::Less
    } else if a == b {
        Order3::Equal
    } else {
        Order3::Greater
    }
}

/// Order of versions: major, minor, patch, then pre-release, then build
/// (the derived order of `semver::Version`).
pub open spec fn version_order(a: SemVerView, b: SemVerView) -> Order3 {
    if num_order(a.major, b.major) != Order3::Equal {
        num_order(a.major, b.major)
    } else if num_order(a.minor, b.minor) != Order3::Equal {
        num_order(a.minor, b.minor)
    } else if num_order(a.patch, b.patch) != Order3::Equal {
        num_order(a.patch, b.patch)
    } else if prerelease_precedence(a.pre, b.pre) != Order3::Equal {
        prerelease_precedence(a.pre, b.pre)
    } else {
        build_precedence(a.build, b.build)
    }
}

/// `Ord::cmp` of `semver::Version`, which is derived: major, minor and patch
/// compared as numbers, then `Prerelease::cmp` of the pre-release, then
/// `BuildMetadata::cmp` of the build.
#[verifier::external_body]
fn version_compare(a: &SemVer, b: &SemVer) -> (r: Order3)
    ensures
        a@.major != b@.major ==> r == num_order(a@.major, b@.major),
        a@.major == b@.major && a@.minor != b@.minor ==> r == num_order(a@.minor, b@.minor),
        a@.major == b@.major && a@.minor == b@.minor && a@.patch != b@.patch ==> r == num_order(
            a@.patch,
            b@.patch,
        ),
        a@.major == b@.major && a@.minor == b@.minor && a@.patch == b@.patch
            && prerelease_precedence(a@.pre, b@.pre) != Order3::Equal ==> r == prerelease_precedence(
            a@.pre,
            b@.pre,
        ),
        a@.major == b@.major && a@.minor == b@.minor && a@.patch == b@.patch
            && prerelease_precedence(a@.pre, b@.pre) == Order3::Equal ==> r == build_precedence(
            a@.build,
            b@.build,
        ),
{
    match a.parsed.cmp(&b.parsed) {
        std::cmp::Ordering::Less => Order3::Less,
        std::cmp::Ordering::Equal => Order3::Equal,
        std::cmp::Ordering::Greater => Order3::Greater,
    }
}

/// Three-way comparison of versions.
pub fn compare_versions(a: &SemVer, b: &SemVer) -> (r: Order3)
    ensures
        r == version_order(a@, b@),
{
    version_compare(a, b)
}

/// A parsed version.
pub fn parse_version(text: &str) -> (r: Option<SemVer>)
    ensures
        opt_version_view(r) == semver_parsed(text@),
{
    version_parse(text)
}

/// Version `major.minor.patch` without pre-release or build.
pub fn new_version(major: u64, minor: u64, patch: u64) -> (r: SemVer)
    ensures
        r@ == (SemVerView { major, minor, patch, pre: Seq::empty(), build: Seq::empty() }),
{
    version_new(major, minor, patch)
}

/// A copy of a version.
pub fn copy_version(v: &SemVer) -> (r: SemVer)
    ensures
        r@ == v@,
{
    version_clone(v)
}

/// The larger of two versions, the second when they are equal (`Ord::max`).
pub open spec fn version_max(a: SemVerView, b: SemVerView) -> SemVerView {
    if version_order(a, b) == Order3::Greater {
        a
    } else {
        b
    }
}

/// `Ord::max` of two versions.
pub fn max_version(a: SemVer, b: SemVer) -> (r: SemVer)
    ensures
        r@ == version_max(a@, b@),
{
    if version_compare(&a, &b) == Order3::Greater {
        a
    } else {
        b
    }
}

/// Canonical text of a version: `major.minor.patch`, then `-pre` and
/// `+build` when present.
pub open spec fn version_text(v: SemVerView) -> Seq<char> {
    decimal(v.major as nat) + "."@ + decimal(v.minor as nat) + "."@ + decimal(v.patch as nat) + (if v.pre.len()
        > 0 {
        "-"@ + v.pre
    } else {
        Seq::empty()
    }) + (if v.build.len() > 0 {
        "+"@ + v.build
    } else {
        Seq::empty()
    })
}

/// The canonical text of a version (its `Display`).
pub fn version_to_string(v: &SemVer) -> (r: String)
    ensures
        r@ == version_text(v@),
{
    let mut s = String::new();
    push_decimal(&mut s, v.major);
    s.append(".");
    push_decimal(&mut s, v.minor);
    s.append(".");
    push_decimal(&mut s, v.patch);
    if v.pre.as_str().unicode_len() > 0 {
        s.append("-");
        s.append(v.pre.as_str());
    }
    if v.build.as_str().unicode_len() > 0 {
        s.append("+");
        s.append(v.build.as_str());
    }
    s
}

} // verus!
