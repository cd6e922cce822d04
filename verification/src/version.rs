//! Version numbers (`major.minor.patch`) and version requirements
//! (`*`, `22`, `22.17`, `16.20.2`), with their order and matching.

use std::cmp::Ordering;
use vstd::prelude::*;

use crate::pattern::{
    captures, is_version_prefix, requirement_shape_with, one_number, regex_captures, three_numbers, two_numbers,
    REQUIREMENT_PATTERN, VERSION_PATTERN,
};
use crate::text::{
    decimal_text, decimal_u64, is_ascii_number, lemma_decimal_text, occurs_in, parse_u64,
    str_equals,
};

verus! {

/// Why a text is not read as a version number or a version requirement.
#[derive(Debug, Clone, Copy, PartialEq, Eq, Structural)]
pub enum VersionError {
    /// No `major.minor.patch` occurs in the text.
    NotAVersion,
    /// The text is not `*` and not a requirement such as `22`, `v22.17` or
    /// `16.20.2`.
    RequirementSyntax,
    /// A number of the text is not a `u64` written in ASCII digits.
    InvalidNumber,
}

/// The model of a version: its major, minor and patch numbers.
pub type VersionTriple = (u64, u64, u64);

/// The model of a requirement: the major, minor and patch numbers that a
/// version must have, each optional.
pub type RequirementTriple = (Option<u64>, Option<u64>, Option<u64>);

/// A version number `major.minor.patch`.
#[derive(Debug, Clone, Copy, PartialEq, Eq, PartialOrd, Ord, Hash, Structural)]
pub struct Version {
    major: u64,
    minor: u64,
    patch: u64,
}

impl View for Version {
    type V = VersionTriple;

    closed spec fn view(&self) -> VersionTriple {
        (self.major, self.minor, self.patch)
    }
}

/// `a` comes before `b`: the major numbers decide, then the minor numbers,
/// then the patch numbers.
pub open spec fn version_lt(a: VersionTriple, b: VersionTriple) -> bool {
    ||| a.0 < b.0
    ||| a.0 == b.0 && a.1 < b.1
    ||| a.0 == b.0 && a.1 == b.1 && a.2 < b.2
}

/// `a` comes before `b` or is `b`.
pub open spec fn version_le(a: VersionTriple, b: VersionTriple) -> bool {
    version_lt(a, b) || a == b
}

/// The three-way comparison of two versions.
pub open spec fn ordering_of(a: VersionTriple, b: VersionTriple) -> Ordering {
    if version_lt(a, b) {
        Ordering::Less
    } else if a == b {
        Ordering::Equal
    } else {
        Ordering::Greater
    }
}

/// The text of capture group `i`, if it took part in the match.
pub open spec fn group_text(groups: Seq<Option<Seq<char>>>, i: int) -> Option<Seq<char>> {
    if 0 <= i < groups.len() {
        groups[i]
    } else {
        None
    }
}

/// The number held by a group that must be there.
pub open spec fn required_number(groups: Seq<Option<Seq<char>>>, i: int) -> Option<u64> {
    match group_text(groups, i) {
        Some(t) => decimal_u64(t),
        None => None,
    }
}

/// The number held by a group that may be absent: `Ok(None)` when absent.
pub open spec fn optional_number(groups: Seq<Option<Seq<char>>>, i: int) -> Result<
    Option<u64>,
    VersionError,
> {
    match group_text(groups, i) {
        Some(t) => match decimal_u64(t) {
            Some(n) => Ok(Some(n)),
            None => Err(VersionError::InvalidNumber),
        },
        None => Ok(None),
    }
}

/// The version that the captures of `VERSION_PATTERN` denote.
pub open spec fn version_from_groups(caps: Option<Seq<Option<Seq<char>>>>) -> Result<
    VersionTriple,
    VersionError,
> {
    match caps {
        None => Err(VersionError::NotAVersion),
        Some(g) => match (required_number(g, 1), required_number(g, 2), required_number(g, 3)) {
            (Some(a), Some(b), Some(c)) => Ok((a, b, c)),
            _ => Err(VersionError::InvalidNumber),
        },
    }
}

/// The version read from `s`: the first `v?major.minor.patch` in it.
pub open spec fn parse_version(s: Seq<char>) -> Result<VersionTriple, VersionError> {
    version_from_groups(regex_captures(VERSION_PATTERN@, s))
}

/// A parse result seen through the model of its version.
pub open spec fn version_result_view(r: Result<Version, VersionError>) -> Result<
    VersionTriple,
    VersionError,
> {
    match r {
        Ok(v) => Ok(v@),
        Err(e) => Err(e),
    }
}

/// The text of a version, `{major}.{minor}.{patch}` after `prefix`, as
/// `format!` writes the numbers.
pub open spec fn version_text(prefix: Seq<char>, t: VersionTriple) -> Seq<char> {
    three_numbers(prefix, decimal_text(t.0 as nat), decimal_text(t.1 as nat), decimal_text(t.2 as nat))
}

/// The text of a requirement on the major number only, after `prefix`.
pub open spec fn major_text(prefix: Seq<char>, major: u64) -> Seq<char> {
    one_number(prefix, decimal_text(major as nat))
}

/// The text of a requirement on the major and minor numbers, after `prefix`.
pub open spec fn major_minor_text(prefix: Seq<char>, major: u64, minor: u64) -> Seq<char> {
    two_numbers(prefix, decimal_text(major as nat), decimal_text(minor as nat))
}

/// `s` holds an optional `v` and three runs of ASCII digits joined by dots.
pub open spec fn holds_version_text(s: Seq<char>) -> bool {
    exists|p: Seq<char>, d1: Seq<char>, d2: Seq<char>, d3: Seq<char>|
        is_version_prefix(p) && is_ascii_number(d1) && is_ascii_number(d2) && is_ascii_number(d3)
            && occurs_in(s, #[trigger] three_numbers(p, d1, d2, d3))
}

/// `s` is, as a whole, an optional `v` and one, two or three runs of ASCII
/// digits joined by dots.
pub open spec fn is_requirement_text(s: Seq<char>) -> bool {
    ||| exists|p: Seq<char>, d1: Seq<char>|
        is_version_prefix(p) && is_ascii_number(d1) && s == #[trigger] one_number(p, d1)
    ||| exists|p: Seq<char>, d1: Seq<char>, d2: Seq<char>|
        is_version_prefix(p) && is_ascii_number(d1) && is_ascii_number(d2) && s == #[trigger] two_numbers(
            p,
            d1,
            d2,
        )
    ||| exists|p: Seq<char>, d1: Seq<char>, d2: Seq<char>, d3: Seq<char>|
        is_version_prefix(p) && is_ascii_number(d1) && is_ascii_number(d2) && is_ascii_number(d3) && s
            == #[trigger] three_numbers(p, d1, d2, d3)
}

/// The decimal texts of three numbers read back as those numbers.
proof fn lemma_numbers_read_back(t: VersionTriple)
    ensures
        crate::text::is_ascii_number(decimal_text(t.0 as nat)),
        crate::text::is_ascii_number(decimal_text(t.1 as nat)),
        crate::text::is_ascii_number(decimal_text(t.2 as nat)),
        decimal_u64(decimal_text(t.0 as nat)) == Some(t.0),
        decimal_u64(decimal_text(t.1 as nat)) == Some(t.1),
        decimal_u64(decimal_text(t.2 as nat)) == Some(t.2),
{
    lemma_decimal_text(t.0 as nat);
    lemma_decimal_text(t.1 as nat);
    lemma_decimal_text(t.2 as nat);
}

/// Reads the number held by capture group `i`, which must be there.
fn required_group(groups: &Vec<Option<String>>, i: usize) -> (r: Option<u64>)
    ensures
        r == required_number(groups.deep_view(), i as int),
{
    if i >= groups.len() {
        return None;
    }
    match &groups[i] {
        Some(t) => parse_u64(t.as_str()),
        None => None,
    }
}

/// Reads the number held by capture group `i`, which may be absent.
fn optional_group(groups: &Vec<Option<String>>, i: usize) -> (r: Result<Option<u64>, VersionError>)
    ensures
        r == optional_number(groups.deep_view(), i as int),
{
    if i >= groups.len() {
        return Ok(None);
    }
    match &groups[i] {
        Some(t) => match parse_u64(t.as_str()) {
            Some(n) => Ok(Some(n)),
            None => Err(VersionError::InvalidNumber),
        },
        None => Ok(None),
    }
}

impl Version {
    pub fn major(&self) -> (r: u64)
        ensures
            r == self@.0,
    {
        self.major
    }

    pub fn minor(&self) -> (r: u64)
        ensures
            r == self@.1,
    {
        self.minor
    }

    pub fn patch(&self) -> (r: u64)
        ensures
            r == self@.2,
    {
        self.patch
    }

    pub fn new(major: u64, minor: u64, patch: u64) -> (v: Self)
        ensures
            v@ == (major, minor, patch),
    {
        Self { major, minor, patch }
    }

    /// Builds a version from the capture groups of `VERSION_PATTERN`:
    /// `NotAVersion` without a match, `InvalidNumber` when group 1, 2 or 3 is
    /// missing or is not a `u64` in ASCII digits.
    pub fn from_captures(caps: Option<Vec<Option<String>>>) -> (r: Result<Version, VersionError>)
        ensures
            version_result_view(r) == version_from_groups(caps.deep_view()),
    {
        match caps {
            None => Err(VersionError::NotAVersion),
            Some(groups) => {
                let major = required_group(&groups, 1);
                let minor = required_group(&groups, 2);
                let patch = required_group(&groups, 3);
                match (major, minor, patch) {
                    (Some(a), Some(b), Some(c)) => Ok(Version::new(a, b, c)),
                    _ => Err(VersionError::InvalidNumber),
                }
            },
        }
    }

    /// Parses the version number from a string, supporting "v1.2.3" or
    /// "1.2.3" format: the first such number anywhere in `v` counts.
    ///
    /// A version written as `{major}.{minor}.{patch}`, with or without a
    /// leading `v`, parses back to itself.
    pub fn parse(v: &str) -> (r: Result<Version, VersionError>)
        ensures
            version_result_view(r) == parse_version(v@),
            forall|p: Seq<char>, t: VersionTriple|
                is_version_prefix(p) && v@ == #[trigger] version_text(p, t) ==> version_result_view(r)
                    == Ok::<VersionTriple, VersionError>(t),
            r is Ok ==> holds_version_text(v@),
    {
        let caps = captures(VERSION_PATTERN, v);
        let ghost g = caps.deep_view();
        proof {
            if version_from_groups(g) is Ok {
                let gs = g->0;
                let p = if gs[0]->0 == three_numbers(Seq::empty(), gs[1]->0, gs[2]->0, gs[3]->0) {
                    Seq::<char>::empty()
                } else {
                    seq!['v']
                };
                assert(group_text(gs, 1) == gs[1]);
                assert(group_text(gs, 2) == gs[2]);
                assert(group_text(gs, 3) == gs[3]);
                assert(occurs_in(v@, three_numbers(p, gs[1]->0, gs[2]->0, gs[3]->0)));
            }
        }
        assert forall|p: Seq<char>, t: VersionTriple|
            is_version_prefix(p) && v@ == #[trigger] version_text(p, t) implies version_from_groups(g)
            == Ok::<VersionTriple, VersionError>(t) by {
            lemma_numbers_read_back(t);
            let d1 = decimal_text(t.0 as nat);
            let d2 = decimal_text(t.1 as nat);
            let d3 = decimal_text(t.2 as nat);
            assert(v@ == three_numbers(p, d1, d2, d3));
            let gs = seq![Some(v@), Some(d1), Some(d2), Some(d3)];
            assert(g == Some(gs));
            assert(group_text(gs, 1) == Some(d1));
            assert(group_text(gs, 2) == Some(d2));
            assert(group_text(gs, 3) == Some(d3));
        }
        Version::from_captures(caps)
    }

    /// Version number comparison: the major version first, then the minor
    /// version, and finally the patch number.
    pub fn compare(&self, other: &Self) -> (r: Ordering)
        ensures
            r == ordering_of(self@, other@),
    {
        if self.major != other.major {
            if self.major < other.major {
                Ordering::Less
            } else {
                Ordering::Greater
            }
        } else if self.minor != other.minor {
            if self.minor < other.minor {
                Ordering::Less
            } else {
                Ordering::Greater
            }
        } else if self.patch < other.patch {
            Ordering::Less
        } else if self.patch == other.patch {
            Ordering::Equal
        } else {
            Ordering::Greater
        }
    }

    /// Whether `self` comes before `other` in the version order.
    pub fn is_before(&self, other: &Self) -> (r: bool)
        ensures
            r == version_lt(self@, other@),
    {
        self.major < other.major || (self.major == other.major && (self.minor < other.minor || (
        self.minor == other.minor && self.patch < other.patch)))
    }

    /// Two versions with the same numbers are the same version.
    pub proof fn lemma_view_injective(a: Version, b: Version)
        ensures
            a@ == b@ <==> a == b,
    {
    }
}


/// A requirement on the major, minor and patch numbers of a version.
#[derive(Debug, Clone, Copy, PartialEq, Eq, Structural)]
pub struct VersionReq {
    major: Option<u64>,
    minor: Option<u64>,
    patch: Option<u64>,
}

impl View for VersionReq {
    type V = RequirementTriple;

    closed spec fn view(&self) -> RequirementTriple {
        (self.major, self.minor, self.patch)
    }
}

/// A required number is met by `x` when there is none or it is `x`.
pub open spec fn component_matches(required: Option<u64>, x: u64) -> bool {
    match required {
        Some(n) => n == x,
        None => true,
    }
}

/// `v` meets every number that `r` requires.
pub open spec fn requirement_matches(r: RequirementTriple, v: VersionTriple) -> bool {
    &&& component_matches(r.0, v.0)
    &&& component_matches(r.1, v.1)
    &&& component_matches(r.2, v.2)
}

/// The requirement that the captures of `REQUIREMENT_PATTERN` denote.
pub open spec fn requirement_from_groups(caps: Option<Seq<Option<Seq<char>>>>) -> Result<
    RequirementTriple,
    VersionError,
> {
    match caps {
        None => Err(VersionError::RequirementSyntax),
        Some(g) => match (optional_number(g, 1), optional_number(g, 2), optional_number(g, 3)) {
            (Ok(a), Ok(b), Ok(c)) => Ok((a, b, c)),
            _ => Err(VersionError::InvalidNumber),
        },
    }
}

/// The requirement read from `s`: `*` requires nothing; otherwise `s` as a
/// whole must be `v?major(.minor(.patch)?)?`.
pub open spec fn parse_requirement(s: Seq<char>) -> Result<RequirementTriple, VersionError> {
    if s == seq!['*'] {
        Ok((None, None, None))
    } else {
        requirement_from_groups(regex_captures(REQUIREMENT_PATTERN@, s))
    }
}

/// A requirement parse result seen through the model of its requirement.
pub open spec fn requirement_result_view(r: Result<VersionReq, VersionError>) -> Result<
    RequirementTriple,
    VersionError,
> {
    match r {
        Ok(q) => Ok(q@),
        Err(e) => Err(e),
    }
}

impl VersionReq {
    pub fn major(&self) -> (r: Option<u64>)
        ensures
            r == self@.0,
    {
        self.major
    }

    pub fn minor(&self) -> (r: Option<u64>)
        ensures
            r == self@.1,
    {
        self.minor
    }

    pub fn patch(&self) -> (r: Option<u64>)
        ensures
            r == self@.2,
    {
        self.patch
    }

    pub fn new(major: Option<u64>, minor: Option<u64>, patch: Option<u64>) -> (q: Self)
        ensures
            q@ == (major, minor, patch),
    {
        Self { major, minor, patch }
    }

    /// Builds a requirement from the capture groups of `REQUIREMENT_PATTERN`:
    /// `RequirementSyntax` without a match, `InvalidNumber` when a group that
    /// took part is not a `u64` in ASCII digits.
    pub fn from_captures(caps: Option<Vec<Option<String>>>) -> (r: Result<VersionReq, VersionError>)
        ensures
            requirement_result_view(r) == requirement_from_groups(caps.deep_view()),
    {
        match caps {
            None => Err(VersionError::RequirementSyntax),
            Some(groups) => {
                let major = optional_group(&groups, 1);
                let minor = optional_group(&groups, 2);
                let patch = optional_group(&groups, 3);
                match (major, minor, patch) {
                    (Ok(a), Ok(b), Ok(c)) => Ok(VersionReq::new(a, b, c)),
                    _ => Err(VersionError::InvalidNumber),
                }
            },
        }
    }

    /// Parses a version requirement, supporting "*", "1", "1.2", "1.2.3"
    /// formats (each with an optional leading "v").
    ///
    /// A requirement written as `{major}`, `{major}.{minor}` or
    /// `{major}.{minor}.{patch}`, with or without a leading `v`, parses to
    /// the numbers written.
    pub fn parse(req: &str) -> (r: Result<VersionReq, VersionError>)
        ensures
            requirement_result_view(r) == parse_requirement(req@),
            forall|p: Seq<char>, a: u64|
                is_version_prefix(p) && req@ == #[trigger] major_text(p, a) ==> requirement_result_view(r)
                    == Ok::<RequirementTriple, VersionError>((Some(a), None, None)),
            forall|p: Seq<char>, a: u64, b: u64|
                is_version_prefix(p) && req@ == #[trigger] major_minor_text(p, a, b)
                    ==> requirement_result_view(r) == Ok::<RequirementTriple, VersionError>(
                    (Some(a), Some(b), None),
                ),
            forall|p: Seq<char>, t: VersionTriple|
                is_version_prefix(p) && req@ == #[trigger] version_text(p, t) ==> requirement_result_view(r)
                    == Ok::<RequirementTriple, VersionError>((Some(t.0), Some(t.1), Some(t.2))),
            r is Ok ==> req@ == seq!['*'] || is_requirement_text(req@),
            forall|p: Seq<char>, t: VersionTriple|
                #![trigger version_text(p, t)]
                #![trigger major_minor_text(p, t.0, t.1), requirement_matches(r->Ok_0@, t)]
                #![trigger major_text(p, t.0), requirement_matches(r->Ok_0@, t)]
                is_version_prefix(p) && (req@ == version_text(p, t) || req@ == major_minor_text(
                    p,
                    t.0,
                    t.1,
                ) || req@ == major_text(p, t.0)) ==> r is Ok && requirement_matches(r->Ok_0@, t),
    {
        proof {
            reveal_strlit("*");
            assert("*"@ =~= seq!['*']);
        }
        if str_equals(req, "*") {
            proof {
                Self::lemma_formatted_not_wildcard(req@);
            }
            return Ok(VersionReq::new(None, None, None));
        }
        let caps = captures(REQUIREMENT_PATTERN, req);
        let ghost g = caps.deep_view();
        proof {
            if requirement_from_groups(g) is Ok {
                let gs = g->0;
                let p = if requirement_shape_with(Seq::empty(), req@, gs) {
                    Seq::<char>::empty()
                } else {
                    seq!['v']
                };
                assert(group_text(gs, 1) == gs[1]);
                assert(group_text(gs, 2) == gs[2]);
                assert(group_text(gs, 3) == gs[3]);
                if gs[2] is None {
                    assert(req@ == one_number(p, gs[1]->0));
                } else if gs[3] is None {
                    assert(req@ == two_numbers(p, gs[1]->0, gs[2]->0));
                } else {
                    assert(req@ == three_numbers(p, gs[1]->0, gs[2]->0, gs[3]->0));
                }
            }
        }
        assert forall|p: Seq<char>, a: u64|
            is_version_prefix(p) && req@ == #[trigger] major_text(p, a) implies requirement_from_groups(g)
            == Ok::<RequirementTriple, VersionError>((Some(a), None, None)) by {
            lemma_numbers_read_back((a, a, a));
            let d1 = decimal_text(a as nat);
            let gs = seq![Some(req@), Some(d1), None, None];
            assert(g == Some(gs));
            assert(group_text(gs, 1) == Some(d1));
            assert(group_text(gs, 2) == None::<Seq<char>>);
            assert(group_text(gs, 3) == None::<Seq<char>>);
        }
        assert forall|p: Seq<char>, a: u64, b: u64|
            is_version_prefix(p) && req@ == #[trigger] major_minor_text(p, a, b)
            implies requirement_from_groups(g) == Ok::<RequirementTriple, VersionError>(
            (Some(a), Some(b), None),
        ) by {
            lemma_numbers_read_back((a, b, b));
            let d1 = decimal_text(a as nat);
            let d2 = decimal_text(b as nat);
            let gs = seq![Some(req@), Some(d1), Some(d2), None];
            assert(g == Some(gs));
            assert(group_text(gs, 1) == Some(d1));
            assert(group_text(gs, 2) == Some(d2));
            assert(group_text(gs, 3) == None::<Seq<char>>);
        }
        assert forall|p: Seq<char>, t: VersionTriple|
            is_version_prefix(p) && req@ == #[trigger] version_text(p, t) implies requirement_from_groups(
            g,
        ) == Ok::<RequirementTriple, VersionError>((Some(t.0), Some(t.1), Some(t.2))) by {
            lemma_numbers_read_back(t);
            let d1 = decimal_text(t.0 as nat);
            let d2 = decimal_text(t.1 as nat);
            let d3 = decimal_text(t.2 as nat);
            assert(req@ == three_numbers(p, d1, d2, d3));
            let gs = seq![Some(req@), Some(d1), Some(d2), Some(d3)];
            assert(g == Some(gs));
            assert(group_text(gs, 1) == Some(d1));
            assert(group_text(gs, 2) == Some(d2));
            assert(group_text(gs, 3) == Some(d3));
        }
        let r = VersionReq::from_captures(caps);
        assert forall|p: Seq<char>, t: VersionTriple|
            is_version_prefix(p) && (req@ == version_text(p, t) || req@ == major_minor_text(p, t.0, t.1)
                || req@ == major_text(p, t.0)) implies r is Ok && requirement_matches(r->Ok_0@, t) by {
            if req@ == version_text(p, t) {
            } else if req@ == major_minor_text(p, t.0, t.1) {
            } else {
            }
        }
        r
    }

    /// No requirement written with numbers is the text `*`.
    proof fn lemma_formatted_not_wildcard(s: Seq<char>)
        requires
            s == seq!['*'],
        ensures
            forall|p: Seq<char>, a: u64| is_version_prefix(p) ==> #[trigger] major_text(p, a) != s,
            forall|p: Seq<char>, a: u64, b: u64|
                is_version_prefix(p) ==> #[trigger] major_minor_text(p, a, b) != s,
            forall|p: Seq<char>, t: VersionTriple| is_version_prefix(p) ==> #[trigger] version_text(p, t) != s,
    {
        assert forall|p: Seq<char>, a: u64| is_version_prefix(p) implies #[trigger] major_text(p, a) != s by {
            lemma_decimal_text(a as nat);
            let d = decimal_text(a as nat);
            assert(crate::text::is_ascii_digit(d[0]));
            if p.len() == 0 {
                assert(major_text(p, a)[0] == d[0]);
            } else {
                assert(major_text(p, a)[0] == 'v');
            }
        }
        assert forall|p: Seq<char>, a: u64, b: u64|
            is_version_prefix(p) implies #[trigger] major_minor_text(p, a, b) != s by {
            lemma_decimal_text(a as nat);
            let d = decimal_text(a as nat);
            assert(crate::text::is_ascii_digit(d[0]));
            if p.len() == 0 {
                assert(major_minor_text(p, a, b)[0] == d[0]);
            } else {
                assert(major_minor_text(p, a, b)[0] == 'v');
            }
        }
        assert forall|p: Seq<char>, t: VersionTriple| is_version_prefix(p) implies #[trigger] version_text(
            p,
            t,
        ) != s by {
            lemma_decimal_text(t.0 as nat);
            let d = decimal_text(t.0 as nat);
            assert(crate::text::is_ascii_digit(d[0]));
            if p.len() == 0 {
                assert(version_text(p, t)[0] == d[0]);
            } else {
                assert(version_text(p, t)[0] == 'v');
            }
        }
    }

    /// Whether `v` meets every number that this requirement sets.
    pub fn matches(&self, v: &Version) -> (r: bool)
        ensures
            r == requirement_matches(self@, v@),
    {
        if let Some(major) = self.major {
            if v.major != major {
                return false;
            }
        }
        if let Some(minor) = self.minor {
            if v.minor != minor {
                return false;
            }
        }
        if let Some(patch) = self.patch {
            if v.patch != patch {
                return false;
            }
        }
        true
    }
}

/// A version meets the requirements written with its numbers: the one with
/// all three, the one with the major and minor numbers, and the one with the
/// major number only. With the round trips that `Version::parse` and
/// `VersionReq::parse` state, the texts `a.b.c`, `a.b` and `a` parse to
/// requirements that the version parsed from `a.b.c` meets.
pub proof fn lemma_formatted_requirements_match(t: VersionTriple)
    ensures
        requirement_matches((Some(t.0), Some(t.1), Some(t.2)), t),
        requirement_matches((Some(t.0), Some(t.1), None), t),
        requirement_matches((Some(t.0), None, None), t),
{
}

/// The version order is the lexicographic order of the numbers: a smaller
/// major number comes first; with equal major numbers a smaller minor
/// number; with equal major and minor numbers a smaller patch number; and
/// nothing else comes first. `compare` gives `Less` exactly then, and
/// `Equal` exactly for equal numbers.
pub proof fn lemma_version_order_lexicographic(a: VersionTriple, b: VersionTriple)
    ensures
        a.0 < b.0 ==> version_lt(a, b),
        a.0 == b.0 && a.1 < b.1 ==> version_lt(a, b),
        a.0 == b.0 && a.1 == b.1 && a.2 < b.2 ==> version_lt(a, b),
        version_lt(a, b) ==> a.0 < b.0 || (a.0 == b.0 && a.1 < b.1) || (a.0 == b.0 && a.1 == b.1
            && a.2 < b.2),
        ordering_of(a, b) == Ordering::Less <==> (a.0 < b.0 || (a.0 == b.0 && a.1 < b.1) || (a.0
            == b.0 && a.1 == b.1 && a.2 < b.2)),
        ordering_of(a, b) == Ordering::Equal <==> (a.0 == b.0 && a.1 == b.1 && a.2 == b.2),
        ordering_of(a, b) == Ordering::Greater <==> (b.0 < a.0 || (a.0 == b.0 && b.1 < a.1) || (a.0
            == b.0 && a.1 == b.1 && b.2 < a.2)),
{
}

/// The version order is a total order: reflexive, antisymmetric, transitive
/// and total.
pub proof fn lemma_version_order_total(a: VersionTriple, b: VersionTriple, c: VersionTriple)
    ensures
        version_le(a, a),
        !version_lt(a, a),
        version_le(a, b) && version_le(b, a) ==> a == b,
        version_le(a, b) && version_le(b, c) ==> version_le(a, c),
        version_lt(a, b) && version_le(b, c) ==> version_lt(a, c),
        version_le(a, b) || version_le(b, a),
        version_lt(a, b) <==> !version_le(b, a),
{
}

/// Comparing in the other direction reverses the result, and `Equal` means
/// the same version.
pub proof fn lemma_compare_reverses(a: VersionTriple, b: VersionTriple)
    ensures
        ordering_of(a, b) == Ordering::Less <==> ordering_of(b, a) == Ordering::Greater,
        ordering_of(a, b) == Ordering::Equal <==> a == b,
        ordering_of(a, b) == Ordering::Equal <==> ordering_of(b, a) == Ordering::Equal,
{
}

/// The requirement `*` (nothing required) matches every version.
pub proof fn lemma_wildcard_matches_every_version(v: VersionTriple)
    ensures
        parse_requirement(seq!['*']) == Ok::<RequirementTriple, VersionError>((None, None, None)),
        requirement_matches((None, None, None), v),
{
}

/// A requirement that sets all three numbers of `v` matches `v` and no
/// other version.
pub proof fn lemma_full_requirement_matches_exactly(v: VersionTriple, w: VersionTriple)
    ensures
        requirement_matches((Some(v.0), Some(v.1), Some(v.2)), w) <==> w == v,
{
}

/// Leaving a number out of a requirement keeps every version it matched:
/// `22.17` matches only versions that `22` matches.
pub proof fn lemma_fewer_numbers_match_more(r: RequirementTriple, v: VersionTriple)
    ensures
        requirement_matches(r, v) ==> requirement_matches((r.0, r.1, None), v),
        requirement_matches(r, v) ==> requirement_matches((r.0, None, None), v),
{
}

} // verus!
