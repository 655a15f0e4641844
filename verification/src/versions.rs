//! Semantic versions and ranges, as the `semver` crate parses and matches
//! them: dsh versions against the pinned range, and Node versions against a
//! package's `engines.node`.
//!
//! What `semver` computes is named here and not restated: whether a text
//! parses (and the error text when it does not), whether a range matches a
//! version, and whether one version sorts after another.
use vstd::prelude::*;

use crate::error::{Fault, LauncherError};
use crate::text::{chars_of, extend, slice_of, string_of};

verus! {

broadcast use vstd::string::group_string_axioms;

#[verifier::external_type_specification]
#[verifier::external_body]
pub struct ExSemverVersion(semver::Version);

#[verifier::external_type_specification]
#[verifier::external_body]
pub struct ExSemverVersionReq(semver::VersionReq);

/// `semver::Version::parse` on a text: `Ok` when it parses, else the
/// error's display text.
pub uninterp spec fn semver_version_parse(text: Seq<char>) -> Result<(), Seq<char>>;

/// `semver::VersionReq::parse` on a text: `Ok` when it parses, else the
/// error's display text.
pub uninterp spec fn semver_req_parse(text: Seq<char>) -> Result<(), Seq<char>>;

/// `VersionReq::matches` for the range and the version parsed from these
/// texts.
pub uninterp spec fn semver_req_matches(req: Seq<char>, version: Seq<char>) -> bool;

/// `a > b` for the versions parsed from these texts (semver's total order).
pub uninterp spec fn semver_version_gt(a: Seq<char>, b: Seq<char>) -> bool;

/// A version together with the text it was parsed from; only
/// [`parse_version`] builds one.
pub struct ParsedVersion {
    text: String,
    value: semver::Version,
}

impl View for ParsedVersion {
    type V = Seq<char>;

    closed spec fn view(&self) -> Seq<char> {
        self.text@
    }
}

/// A version range together with the text it was parsed from; only
/// [`parse_version_req`] builds one.
pub struct ParsedReq {
    text: String,
    value: semver::VersionReq,
}

impl View for ParsedReq {
    type V = Seq<char>;

    closed spec fn view(&self) -> Seq<char> {
        self.text@
    }
}

/// `semver::Version::parse`: the version (with its text), or the error's
/// display text, as [`semver_version_parse`] names it.
#[verifier::external_body]
pub(crate) fn parse_version(text: &str) -> (r: Result<ParsedVersion, String>)
    ensures
        match semver_version_parse(text@) {
            Ok(_) => r matches Ok(v) && v@ == text@,
            Err(m) => r matches Err(e) && e@ == m,
        },
{
    match semver::Version::parse(text) {
        Ok(value) => Ok(ParsedVersion { text: text.to_string(), value }),
        Err(error) => Err(error.to_string()),
    }
}

/// `semver::VersionReq::parse`: the range (with its text), or the error's
/// display text, as [`semver_req_parse`] names it.
#[verifier::external_body]
pub(crate) fn parse_version_req(text: &str) -> (r: Result<ParsedReq, String>)
    ensures
        match semver_req_parse(text@) {
            Ok(_) => r matches Ok(v) && v@ == text@,
            Err(m) => r matches Err(e) && e@ == m,
        },
{
    match semver::VersionReq::parse(text) {
        Ok(value) => Ok(ParsedReq { text: text.to_string(), value }),
        Err(error) => Err(error.to_string()),
    }
}

/// `semver::VersionReq::matches`. Both values were parsed from their texts,
/// so the result is [`semver_req_matches`] of the texts.
#[verifier::external_body]
pub(crate) fn req_matches(req: &ParsedReq, version: &ParsedVersion) -> (r: bool)
    ensures
        r == semver_req_matches(req@, version@),
{
    req.value.matches(&version.value)
}

/// `>` on `semver::Version`, as [`semver_version_gt`] names it.
#[verifier::external_body]
pub(crate) fn version_gt(a: &ParsedVersion, b: &ParsedVersion) -> (r: bool)
    ensures
        r == semver_version_gt(a@, b@),
{
    a.value > b.value
}

/// A Node version without its leading `v`.
pub open spec fn strip_v(s: Seq<char>) -> Seq<char> {
    if s.len() > 0 && s[0] == 'v' {
        s.drop_first()
    } else {
        s
    }
}

fn strip_v_exec(s: &str) -> (r: String)
    ensures
        r@ == strip_v(s@),
{
    let c = chars_of(s);
    if c.len() > 0 && c[0] == 'v' {
        let t = slice_of(&c, 1, c.len());
        assert(t@ =~= c@.drop_first());
        string_of(&t)
    } else {
        String::from_str(s)
    }
}

/// The error for a range that does not parse.
pub open spec fn bad_range_fault(req: Seq<char>, m: Seq<char>) -> Fault {
    Fault::NodeVersion("invalid engines.node range '"@ + req + "': "@ + m)
}

/// The error for a Node version that does not parse.
pub open spec fn bad_node_version_fault(v: Seq<char>, m: Seq<char>) -> Fault {
    Fault::NodeVersion("invalid Node version '"@ + v + "': "@ + m)
}

/// Whether the current Node (if any) satisfies a requirement.
pub open spec fn node_satisfies_spec(current: Option<Seq<char>>, req: Seq<char>) -> Result<
    bool,
    Fault,
> {
    match current {
        None => Ok(false),
        Some(c) => match semver_req_parse(req) {
            Err(m) => Err(bad_range_fault(req, m)),
            Ok(_) => match semver_version_parse(strip_v(c)) {
                Err(m) => Err(bad_node_version_fault(c, m)),
                Ok(_) => Ok(semver_req_matches(req, strip_v(c))),
            },
        },
    }
}

fn quoted_fault_text(prefix: &str, subject: &str, detail: &str) -> (r: String)
    ensures
        r@ == prefix@ + subject@ + "': "@ + detail@,
{
    let mut m = chars_of(prefix);
    extend(&mut m, &chars_of(subject));
    extend(&mut m, &chars_of("': "));
    extend(&mut m, &chars_of(detail));
    string_of(&m)
}

/// Whether the current Node version satisfies `requirement` (an
/// `engines.node` range). No Node satisfies nothing.
pub fn current_node_satisfies(current: Option<&str>, requirement: &str) -> (r: Result<
    bool,
    LauncherError,
>)
    ensures
        match node_satisfies_spec(
            match current {
                Some(c) => Some(c@),
                None => None,
            },
            requirement@,
        ) {
            Ok(b) => r == Ok::<bool, LauncherError>(b),
            Err(f) => r matches Err(e) && e@ == f,
        },
{
    let c = match current {
        None => return Ok(false),
        Some(c) => c,
    };
    let req = match parse_version_req(requirement) {
        Ok(req) => req,
        Err(m) => {
            return Err(
                LauncherError::NodeVersion(
                    quoted_fault_text("invalid engines.node range '", requirement, m.as_str()),
                ),
            );
        },
    };
    let stripped = strip_v_exec(c);
    let v = match parse_version(stripped.as_str()) {
        Ok(v) => v,
        Err(m) => {
            return Err(
                LauncherError::NodeVersion(
                    quoted_fault_text("invalid Node version '", c, m.as_str()),
                ),
            );
        },
    };
    Ok(req_matches(&req, &v))
}

/// Whether Node version `a` is newer than `b`.
pub open spec fn node_newer_spec(a: Seq<char>, b: Seq<char>) -> Result<bool, Fault> {
    match semver_version_parse(strip_v(a)) {
        Err(m) => Err(bad_node_version_fault(a, m)),
        Ok(_) => match semver_version_parse(strip_v(b)) {
            Err(m) => Err(bad_node_version_fault(b, m)),
            Ok(_) => Ok(semver_version_gt(strip_v(a), strip_v(b))),
        },
    }
}

/// A newer Node version is one that semver's order puts strictly above the
/// other; both versions must parse for an answer.
pub proof fn law_node_newer_is_semver_greater(a: Seq<char>, b: Seq<char>)
    ensures
        node_newer_spec(a, b) is Ok <==> (semver_version_parse(strip_v(a)) is Ok
            && semver_version_parse(strip_v(b)) is Ok),
        node_newer_spec(a, b) matches Ok(x) ==> x == semver_version_gt(strip_v(a), strip_v(b)),
{
}

/// Newer is antisymmetric: since semver's order is strict, when `a` is newer
/// than `b`, `b` is not newer than `a` (and a version is never newer than
/// itself).
pub proof fn law_node_newer_antisymmetric(a: Seq<char>, b: Seq<char>)
    requires
        !(semver_version_gt(strip_v(a), strip_v(b)) && semver_version_gt(strip_v(b), strip_v(a))),
    ensures
        node_newer_spec(a, b) == Ok::<bool, Fault>(true) ==> node_newer_spec(b, a) == Ok::<
            bool,
            Fault,
        >(false),
{
}

/// Whether Node version `a` is greater than `b` in `semver::Version`'s total
/// order, which beyond semver precedence also orders build metadata.
pub fn node_version_newer(a: &str, b: &str) -> (r: Result<bool, LauncherError>)
    ensures
        match node_newer_spec(a@, b@) {
            Ok(x) => r == Ok::<bool, LauncherError>(x),
            Err(f) => r matches Err(e) && e@ == f,
        },
{
    let sa = strip_v_exec(a);
    let va = match parse_version(sa.as_str()) {
        Ok(v) => v,
        Err(m) => {
            return Err(
                LauncherError::NodeVersion(quoted_fault_text("invalid Node version '", a, m.as_str())),
            );
        },
    };
    let sb = strip_v_exec(b);
    let vb = match parse_version(sb.as_str()) {
        Ok(v) => v,
        Err(m) => {
            return Err(
                LauncherError::NodeVersion(quoted_fault_text("invalid Node version '", b, m.as_str())),
            );
        },
    };
    Ok(version_gt(&va, &vb))
}

} // verus!
