//! Released Node.js versions as the distribution index lists them, and the
//! choice among them: the latest, the latest LTS, or the latest that meets a
//! requirement.

use vstd::prelude::*;

use crate::text::{str_equals, strip_prefix};
use crate::version::{
    parse_requirement, parse_version, requirement_matches, version_le, version_lt, Version,
    VersionError, VersionReq, VersionTriple,
};

verus! {

/// Whether a release is a long-term-support release: by its LTS code name,
/// or by a flag.
#[derive(Debug, Clone)]
pub enum LtsInfo {
    Name(String),
    No(bool),
}

/// Node version information, as in the distribution index.
#[derive(Debug, Clone)]
pub struct NodeVersion {
    pub version: String,
    pub date: String,
    pub files: Vec<String>,
    pub v8: String,
    pub lts: LtsInfo,
    pub security: bool,
    pub npm: Option<String>,
    pub uv: Option<String>,
    pub zlib: Option<String>,
    pub openssl: Option<String>,
    pub modules: Option<String>,
}

/// Two releases are equal when their version fields are.
impl PartialEq for NodeVersion {
    fn eq(&self, other: &Self) -> (r: bool) {
        self.version == other.version
    }
}

impl Eq for NodeVersion {

}

impl vstd::std_specs::cmp::PartialEqSpecImpl for NodeVersion {
    open spec fn obeys_eq_spec() -> bool {
        true
    }

    open spec fn eq_spec(&self, other: &Self) -> bool {
        self.version@ == other.version@
    }
}

/// The number of `true` entries of `s`.
pub open spec fn count_true(s: Seq<bool>) -> nat
    decreases s.len(),
{
    if s.len() == 0 {
        0
    } else {
        count_true(s.drop_last()) + if s.last() {
            1nat
        } else {
            0nat
        }
    }
}

/// Among the selected `keys`, the one at `i` is a greatest, and no later
/// selected key is as great: the element that `Iterator::max` returns.
pub open spec fn is_latest_key(keys: Seq<Version>, sel: Seq<bool>, i: int) -> bool {
    &&& 0 <= i < keys.len()
    &&& i < sel.len()
    &&& sel[i]
    &&& forall|j: int| 0 <= j < keys.len() && j < sel.len() && sel[j] ==> version_le(keys[j]@, keys[i]@)
    &&& forall|j: int| i < j < keys.len() && j < sel.len() && sel[j] ==> version_lt(keys[j]@, keys[i]@)
}

/// No entry of `s` is `true` exactly when the count of `true` entries is 0.
pub proof fn lemma_count_true_zero(s: Seq<bool>)
    ensures
        count_true(s) == 0 <==> forall|j: int| 0 <= j < s.len() ==> !s[j],
    decreases s.len(),
{
    if s.len() > 0 {
        lemma_count_true_zero(s.drop_last());
        if count_true(s) == 0 {
            assert forall|j: int| 0 <= j < s.len() implies !s[j] by {
                if j < s.len() - 1 {
                    assert(s.drop_last()[j] == s[j]);
                }
            }
        } else {
            if !s.last() {
                let j = choose|j: int| 0 <= j < s.drop_last().len() && s.drop_last()[j];
                assert(s[j]);
            }
        }
    }
}

/// With exactly one `true` entry, any two `true` entries are the same one.
pub proof fn lemma_count_true_one(s: Seq<bool>, i: int, j: int)
    requires
        count_true(s) == 1,
        0 <= i < s.len(),
        0 <= j < s.len(),
        s[i],
        s[j],
    ensures
        i == j,
    decreases s.len(),
{
    let t = s.drop_last();
    if i == s.len() - 1 && j == s.len() - 1 {
    } else if i == s.len() - 1 || j == s.len() - 1 {
        let k = if i == s.len() - 1 { j } else { i };
        assert(t[k]);
        lemma_count_true_zero(t);
    } else {
        assert(t[i] && t[j]);
        if s.last() {
            lemma_count_true_zero(t);
        } else {
            lemma_count_true_one(t, i, j);
        }
    }
}

/// The latest selected key is unique.
pub proof fn lemma_latest_key_unique(keys: Seq<Version>, sel: Seq<bool>, i: int, j: int)
    requires
        is_latest_key(keys, sel, i),
        is_latest_key(keys, sel, j),
    ensures
        i == j,
{
    if i < j {
        assert(version_lt(keys[j]@, keys[i]@));
        assert(version_le(keys[i]@, keys[j]@));
    } else if j < i {
        assert(version_lt(keys[i]@, keys[j]@));
        assert(version_le(keys[j]@, keys[i]@));
    }
}

/// The position of the greatest selected key, the last of equal greatest
/// ones (as `Iterator::max` keeps the last); `None` when nothing is
/// selected.
pub fn latest_index(keys: &Vec<Version>, selected: &Vec<bool>) -> (r: Option<usize>)
    requires
        keys.len() == selected.len(),
    ensures
        r is None <==> forall|j: int| 0 <= j < selected.len() ==> !selected@[j],
        r matches Some(i) ==> is_latest_key(keys@, selected@, i as int),
{
    let n = keys.len();
    let mut best: Option<usize> = None;
    let mut i: usize = 0;
    while i < n
        invariant
            n == keys.len(),
            n == selected.len(),
            0 <= i <= n,
            best is None <==> forall|j: int| 0 <= j < i ==> !selected@[j],
            best matches Some(b) ==> {
                &&& b < i
                &&& selected@[b as int]
                &&& forall|j: int| 0 <= j < i && selected@[j] ==> version_le(keys@[j]@, keys@[b as int]@)
                &&& forall|j: int| b < j < i && selected@[j] ==> version_lt(keys@[j]@, keys@[b as int]@)
            },
        decreases n - i,
    {
        if selected[i] {
            match best {
                None => {
                    best = Some(i);
                },
                Some(b) => {
                    if !keys[i].is_before(&keys[b]) {
                        best = Some(i);
                    }
                },
            }
        }
        i = i + 1;
    }
    best
}


/// Whether release information marks an LTS release.
pub open spec fn lts_flag(lts: LtsInfo) -> bool {
    match lts {
        LtsInfo::Name(_) => true,
        LtsInfo::No(flag) => flag,
    }
}

/// The version field of `nv` reads as a version number.
pub open spec fn parses(nv: NodeVersion) -> bool {
    parse_version(nv.version@) is Ok
}

/// The version number read from the version field of `nv` (`0.0.0` when it
/// does not read as one).
pub open spec fn key_of(nv: NodeVersion) -> VersionTriple {
    match parse_version(nv.version@) {
        Ok(t) => t,
        Err(_) => (0, 0, 0),
    }
}

/// Among the selected releases, the one at `i` has a greatest version and no
/// later selected one has as great a version.
pub open spec fn is_latest_release(vs: Seq<NodeVersion>, sel: Seq<bool>, i: int) -> bool {
    &&& 0 <= i < vs.len()
    &&& i < sel.len()
    &&& sel[i]
    &&& forall|j: int| 0 <= j < vs.len() && j < sel.len() && sel[j] ==> version_le(key_of(vs[j]), key_of(vs[i]))
    &&& forall|j: int| i < j < vs.len() && j < sel.len() && sel[j] ==> version_lt(key_of(vs[j]), key_of(vs[i]))
}

/// `k` is the first of the selected releases whose version field does not
/// read as a version number.
pub open spec fn is_first_unreadable(vs: Seq<NodeVersion>, sel: Seq<bool>, k: int) -> bool {
    &&& 0 <= k < vs.len()
    &&& k < sel.len()
    &&& sel[k]
    &&& !parses(vs[k])
    &&& forall|j: int| 0 <= j < k && sel[j] ==> parses(vs[j])
}

/// What taking the greatest of the selected releases (by their version
/// numbers, `Iterator::max`) gives: `Ok(None)` when none is selected; the one
/// selected release when there is one; otherwise the latest selected release,
/// which every selected version field must read as a version number for, or
/// else `Err` with the first selected release whose field does not.
pub open spec fn is_pick(vs: Seq<NodeVersion>, sel: Seq<bool>, r: Result<Option<int>, int>) -> bool {
    match r {
        Ok(None) => forall|j: int| 0 <= j < sel.len() ==> !sel[j],
        Ok(Some(i)) => {
            &&& 0 <= i < vs.len()
            &&& i < sel.len()
            &&& sel[i]
            &&& (count_true(sel) == 1 || ((forall|j: int|
                0 <= j < vs.len() && j < sel.len() && sel[j] ==> parses(vs[j])) && is_latest_release(
                vs,
                sel,
                i,
            )))
        },
        Err(k) => count_true(sel) >= 2 && is_first_unreadable(vs, sel, k),
    }
}

/// An index result seen as a spec result.
pub open spec fn pick_view(r: Result<Option<usize>, usize>) -> Result<Option<int>, int> {
    match r {
        Ok(Some(i)) => Ok(Some(i as int)),
        Ok(None) => Ok(None),
        Err(k) => Err(k as int),
    }
}

/// The pick is unique: two results that both meet `is_pick` are equal.
pub proof fn lemma_pick_unique(
    vs: Seq<NodeVersion>,
    sel: Seq<bool>,
    r1: Result<Option<int>, int>,
    r2: Result<Option<int>, int>,
)
    requires
        vs.len() == sel.len(),
        is_pick(vs, sel, r1),
        is_pick(vs, sel, r2),
    ensures
        r1 == r2,
{
    lemma_count_true_zero(sel);
    match (r1, r2) {
        (Ok(Some(i)), Ok(Some(j))) => {
            if count_true(sel) == 1 {
                lemma_count_true_one(sel, i, j);
            } else {
                if i < j {
                    assert(version_lt(key_of(vs[j]), key_of(vs[i])));
                    assert(version_le(key_of(vs[i]), key_of(vs[j])));
                } else if j < i {
                    assert(version_lt(key_of(vs[i]), key_of(vs[j])));
                    assert(version_le(key_of(vs[j]), key_of(vs[i])));
                }
            }
        },
        (Ok(Some(i)), Err(k)) => {
            assert(sel[k]);
        },
        (Err(k), Ok(Some(i))) => {
            assert(sel[k]);
        },
        (Err(k1), Err(k2)) => {
            if k1 < k2 {
                assert(sel[k1]);
            } else if k2 < k1 {
                assert(sel[k2]);
            }
        },
        (Ok(None), Ok(Some(i))) => {
            assert(sel[i]);
        },
        (Ok(Some(i)), Ok(None)) => {
            assert(sel[i]);
        },
        (Ok(None), Err(k)) => {
            assert(sel[k]);
        },
        (Err(k), Ok(None)) => {
            assert(sel[k]);
        },
        _ => {},
    }
}

impl NodeVersion {
    /// The version number of this release, read from its version field,
    /// which must hold one.
    pub fn as_version(&self) -> (v: Version)
        requires
            parses(*self),
        ensures
            parse_version(self.version@) == Ok::<VersionTriple, crate::version::VersionError>(v@),
    {
        match Version::parse(self.version.as_str()) {
            Ok(v) => v,
            Err(_) => {
                proof {
                    assert(false);
                }
                Version::new(0, 0, 0)
            },
        }
    }

    /// Whether this is a long-term-support release.
    pub fn is_lts(&self) -> (r: bool)
        ensures
            r == lts_flag(self.lts),
    {
        match self.lts {
            LtsInfo::Name(_) => true,
            LtsInfo::No(lts) => lts,
        }
    }

    /// Whether the version field of this release reads as a version number.
    pub fn has_version_number(&self) -> (r: bool)
        ensures
            r == parses(*self),
    {
        match Version::parse(self.version.as_str()) {
            Ok(_) => true,
            Err(_) => false,
        }
    }
}

/// The position of the latest of the selected releases, as `Iterator::max`
/// over them finds it; see `is_pick`.
#[verifier::spinoff_prover]
pub fn latest_selected(versions: &Vec<NodeVersion>, selected: &Vec<bool>) -> (r: Result<
    Option<usize>,
    usize,
>)
    requires
        versions.len() == selected.len(),
    ensures
        is_pick(versions@, selected@, pick_view(r)),
{
    let n = versions.len();
    let mut count: usize = 0;
    let mut last: usize = 0;
    let mut i: usize = 0;
    while i < n
        invariant
            n == versions.len(),
            n == selected.len(),
            0 <= i <= n,
            count == count_true(selected@.take(i as int)),
            count <= i,
            count > 0 ==> last < i && selected@[last as int],
        decreases n - i,
    {
        assert(selected@.take(i + 1).drop_last() =~= selected@.take(i as int));
        if selected[i] {
            count = count + 1;
            last = i;
        }
        i = i + 1;
    }
    assert(selected@.take(n as int) =~= selected@);
    proof {
        lemma_count_true_zero(selected@);
    }
    if count == 0 {
        return Ok(None);
    }
    if count == 1 {
        return Ok(Some(last));
    }
    let mut keys: Vec<Version> = Vec::new();
    let mut i: usize = 0;
    while i < n
        invariant
            n == versions.len(),
            n == selected.len(),
            0 <= i <= n,
            keys.len() == i,
            count_true(selected@) >= 2,
            forall|j: int| 0 <= j < i && selected@[j] ==> parses(versions@[j]) && keys@[j]@ == key_of(versions@[j]),
        decreases n - i,
    {
        if selected[i] {
            if !versions[i].has_version_number() {
                return Err(i);
            }
            keys.push(versions[i].as_version());
        } else {
            keys.push(Version::new(0, 0, 0));
        }
        i = i + 1;
    }
    match latest_index(&keys, selected) {
        Some(b) => {
            assert(is_latest_release(versions@, selected@, b as int));
            Ok(Some(b))
        },
        None => {
            proof {
                assert(selected@[last as int]);
            }
            Ok(None)
        },
    }
}


/// A release chosen among the selected ones is the one `is_pick` points at.
pub open spec fn picked_release(
    vs: Seq<NodeVersion>,
    sel: Seq<bool>,
    r: Result<Option<NodeVersion>, usize>,
) -> bool {
    match r {
        Ok(None) => is_pick(vs, sel, Ok(None)),
        Ok(Some(nv)) => exists|i: int| #[trigger] is_pick(vs, sel, Ok(Some(i))) && vs[i] == nv,
        Err(k) => is_pick(vs, sel, Err(k as int)),
    }
}

/// Every release selected.
pub open spec fn all_selected(n: nat) -> Seq<bool> {
    Seq::new(n, |j: int| true)
}

/// The LTS releases selected.
pub open spec fn lts_selection(vs: Seq<NodeVersion>) -> Seq<bool> {
    Seq::new(vs.len(), |j: int| lts_flag(vs[j].lts))
}

/// Whether release information names the LTS line `name`.
pub open spec fn has_lts_name(lts: LtsInfo, name: Seq<char>) -> bool {
    match lts {
        LtsInfo::Name(n) => n@ == name,
        LtsInfo::No(_) => false,
    }
}

/// The releases of the LTS line `name` selected.
pub open spec fn lts_name_selection(vs: Seq<NodeVersion>, name: Seq<char>) -> Seq<bool> {
    Seq::new(vs.len(), |j: int| has_lts_name(vs[j].lts, name))
}

/// The releases whose version meets `req` selected.
pub open spec fn requirement_selection(
    vs: Seq<NodeVersion>,
    req: crate::version::RequirementTriple,
) -> Seq<bool> {
    Seq::new(vs.len(), |j: int| requirement_matches(req, key_of(vs[j])))
}

/// Takes the release that a pick points at out of `versions`.
fn take_pick(versions: Vec<NodeVersion>, sel: Ghost<Seq<bool>>, r: Result<Option<usize>, usize>) -> (out:
    Result<Option<NodeVersion>, usize>)
    requires
        is_pick(versions@, sel@, pick_view(r)),
        r matches Ok(Some(i)) ==> i < versions.len(),
    ensures
        picked_release(versions@, sel@, out),
{
    match r {
        Ok(Some(i)) => {
            let ghost vs = versions@;
            let mut versions = versions;
            let nv = versions.remove(i);
            assert(is_pick(vs, sel@, Ok(Some(i as int))) && vs[i as int] == nv);
            Ok(Some(nv))
        },
        Ok(None) => Ok(None),
        Err(k) => Err(k),
    }
}

/// Gets the latest version of node among `versions`: `Ok(None)` for an empty
/// list, `Err` with the first release whose version field does not read as
/// a version number (when there are two or more).
pub fn select_latest_version(versions: Vec<NodeVersion>) -> (r: Result<Option<NodeVersion>, usize>)
    ensures
        picked_release(versions@, all_selected(versions@.len()), r),
{
    let n = versions.len();
    let mut selected: Vec<bool> = Vec::new();
    let mut i: usize = 0;
    while i < n
        invariant
            n == versions.len(),
            0 <= i <= n,
            selected@ =~= all_selected(i as nat),
        decreases n - i,
    {
        selected.push(true);
        i = i + 1;
    }
    let pick = latest_selected(&versions, &selected);
    take_pick(versions, Ghost(selected@), pick)
}

/// Gets the latest LTS version of node among `versions`, as
/// `select_latest_version` does among the LTS releases.
pub fn select_lts_version(versions: Vec<NodeVersion>) -> (r: Result<Option<NodeVersion>, usize>)
    ensures
        picked_release(versions@, lts_selection(versions@), r),
{
    let n = versions.len();
    let mut selected: Vec<bool> = Vec::new();
    let mut i: usize = 0;
    while i < n
        invariant
            n == versions.len(),
            0 <= i <= n,
            selected@ =~= lts_selection(versions@).take(i as int),
        decreases n - i,
    {
        selected.push(versions[i].is_lts());
        i = i + 1;
    }
    assert(lts_selection(versions@).take(n as int) =~= lts_selection(versions@));
    let pick = latest_selected(&versions, &selected);
    take_pick(versions, Ghost(selected@), pick)
}

/// Why no release could be matched against a query.
#[derive(Debug, Clone, Copy, PartialEq, Eq, Structural)]
pub enum MatchError {
    /// The query is not a version requirement.
    Requirement(VersionError),
    /// The release at this position has a version field that does not read
    /// as a version number.
    UnreadableVersion(usize),
}

/// A match result agrees with a pick among the selected releases.
pub open spec fn matched_pick(
    vs: Seq<NodeVersion>,
    sel: Seq<bool>,
    r: Result<Option<NodeVersion>, MatchError>,
) -> bool {
    match r {
        Ok(o) => picked_release(vs, sel, Ok(o)),
        Err(MatchError::UnreadableVersion(k)) => picked_release(vs, sel, Err(k)),
        Err(MatchError::Requirement(_)) => false,
    }
}

/// `k` is the first release whose version field does not read as a version
/// number.
pub open spec fn is_first_unreadable_release(vs: Seq<NodeVersion>, k: int) -> bool {
    &&& 0 <= k < vs.len()
    &&& !parses(vs[k])
    &&& forall|j: int| 0 <= j < k ==> parses(vs[j])
}

/// What matching `query` against the releases `vs` gives: `lts` the latest
/// LTS release, `latest` the latest release, `lts@<name>` the latest release
/// of that LTS line; any other query is a version requirement, and gives the
/// latest release that meets it, once every release has been read.
pub open spec fn match_outcome(
    query: Seq<char>,
    vs: Seq<NodeVersion>,
    r: Result<Option<NodeVersion>, MatchError>,
) -> bool {
    if query == "lts"@ {
        matched_pick(vs, lts_selection(vs), r)
    } else if query == "latest"@ {
        matched_pick(vs, all_selected(vs.len()), r)
    } else if seq!['l', 't', 's', '@'].is_prefix_of(query) {
        matched_pick(vs, lts_name_selection(vs, query.skip(4)), r)
    } else {
        match parse_requirement(query) {
            Err(e) => r == Err::<Option<NodeVersion>, MatchError>(MatchError::Requirement(e)),
            Ok(req) => if exists|k: int| 0 <= k < vs.len() && !parses(#[trigger] vs[k]) {
                exists|k: int|
                    #[trigger] is_first_unreadable_release(vs, k) && r == Err::<
                        Option<NodeVersion>,
                        MatchError,
                    >(MatchError::UnreadableVersion(k as usize))
            } else {
                matched_pick(vs, requirement_selection(vs, req), r)
            },
        }
    }
}

/// A release picked among the selected ones is selected, and when every
/// selected release reads as a version number, no selected release has a
/// greater version.
pub proof fn lemma_pick_is_greatest(vs: Seq<NodeVersion>, sel: Seq<bool>, nv: NodeVersion)
    requires
        vs.len() == sel.len(),
        picked_release(vs, sel, Ok(Some(nv))),
        forall|j: int| 0 <= j < vs.len() && sel[j] ==> parses(vs[j]),
    ensures
        exists|i: int| 0 <= i < vs.len() && sel[i] && vs[i] == nv,
        forall|j: int| 0 <= j < vs.len() && sel[j] ==> version_le(key_of(vs[j]), key_of(nv)),
{
    let i = choose|i: int| #[trigger] is_pick(vs, sel, Ok(Some(i))) && vs[i] == nv;
    assert(0 <= i < vs.len() && sel[i] && vs[i] == nv);
    if count_true(sel) == 1 {
        assert forall|j: int| 0 <= j < vs.len() && sel[j] implies version_le(
            key_of(vs[j]),
            key_of(nv),
        ) by {
            lemma_count_true_one(sel, i, j);
        }
    }
}

/// If multiple versions meet a requirement, the latest version is
/// returned: the release that a requirement query gives meets the
/// requirement, and no release that meets it has a greater version.
pub proof fn lemma_requirement_match_is_latest(
    query: Seq<char>,
    vs: Seq<NodeVersion>,
    req: crate::version::RequirementTriple,
    nv: NodeVersion,
)
    requires
        query != "lts"@,
        query != "latest"@,
        !seq!['l', 't', 's', '@'].is_prefix_of(query),
        parse_requirement(query) == Ok::<crate::version::RequirementTriple, VersionError>(req),
        match_outcome(query, vs, Ok(Some(nv))),
    ensures
        requirement_matches(req, key_of(nv)),
        exists|i: int| 0 <= i < vs.len() && vs[i] == nv,
        forall|j: int|
            0 <= j < vs.len() && requirement_matches(req, key_of(vs[j])) ==> version_le(
                key_of(vs[j]),
                key_of(nv),
            ),
{
    let sel = requirement_selection(vs, req);
    assert(!exists|k: int| 0 <= k < vs.len() && !parses(#[trigger] vs[k]));
    lemma_pick_is_greatest(vs, sel, nv);
    let i = choose|i: int| 0 <= i < vs.len() && sel[i] && vs[i] == nv;
    assert(sel[i]);
    assert forall|j: int| 0 <= j < vs.len() && requirement_matches(req, key_of(vs[j])) implies version_le(
        key_of(vs[j]),
        key_of(nv),
    ) by {
        assert(sel[j]);
    }
}

/// Turns a pick among the selected releases into a match result.
fn lift_pick(r: Result<Option<NodeVersion>, usize>) -> (out: Result<Option<NodeVersion>, MatchError>)
    ensures
        forall|vs: Seq<NodeVersion>, sel: Seq<bool>|
            picked_release(vs, sel, r) ==> #[trigger] matched_pick(vs, sel, out),
        (out matches Ok(None)) <==> (r matches Ok(None)),
{
    match r {
        Ok(o) => Ok(o),
        Err(k) => Err(MatchError::UnreadableVersion(k)),
    }
}

/// Matches a Node version by a query: "lts", "latest", "lts@<name>" or a
/// version requirement. If multiple versions meet the requirements, the
/// latest version is returned.
pub fn match_node_version(query: &str, versions: Vec<NodeVersion>) -> (r: Result<
    Option<NodeVersion>,
    MatchError,
>)
    requires
        query@ == "lts"@ ==> exists|j: int| 0 <= j < versions.len() && lts_flag(#[trigger] versions@[j].lts),
        query@ == "latest"@ ==> versions.len() > 0,
    ensures
        match_outcome(query@, versions@, r),
        query@ == "lts"@ || query@ == "latest"@ ==> !(r matches Ok(None)),
{
    let ghost vs = versions@;
    proof {
        lemma_count_true_zero(lts_selection(vs));
        lemma_count_true_zero(all_selected(vs.len()));
    }
    if str_equals(query, "lts") {
        proof {
            let j = choose|j: int| 0 <= j < vs.len() && lts_flag(#[trigger] vs[j].lts);
            assert(lts_selection(vs)[j]);
        }
        let picked = select_lts_version(versions);
        return lift_pick(picked);
    }
    if str_equals(query, "latest") {
        proof {
            assert(vs.len() > 0);
            assert(all_selected(vs.len())[0]);
        }
        let picked = select_latest_version(versions);
        assert(!(picked matches Ok(None)));
        return lift_pick(picked);
    }
    proof {
        reveal_strlit("lts@");
        assert("lts@"@ =~= seq!['l', 't', 's', '@']);
    }
    if let Some(lts_name) = strip_prefix(query, "lts@") {
        let n = versions.len();
        let mut selected: Vec<bool> = Vec::new();
        let mut i: usize = 0;
        while i < n
            invariant
                n == versions.len(),
                0 <= i <= n,
                lts_name@ == query@.skip(4),
                selected@ =~= lts_name_selection(versions@, lts_name@).take(i as int),
            decreases n - i,
        {
            let same = match &versions[i].lts {
                LtsInfo::Name(name) => str_equals(name.as_str(), lts_name),
                LtsInfo::No(_) => false,
            };
            selected.push(same);
            i = i + 1;
        }
        assert(lts_name_selection(versions@, lts_name@).take(n as int) =~= lts_name_selection(
            versions@,
            lts_name@,
        ));
        let pick = latest_selected(&versions, &selected);
        let picked = take_pick(versions, Ghost(selected@), pick);
        return lift_pick(picked);
    }
    let req = match VersionReq::parse(query) {
        Ok(req) => req,
        Err(e) => return Err(MatchError::Requirement(e)),
    };
    let n = versions.len();
    let mut selected: Vec<bool> = Vec::new();
    let mut i: usize = 0;
    while i < n
        invariant
            n == versions.len(),
            0 <= i <= n,
            forall|j: int| 0 <= j < i ==> parses(#[trigger] versions@[j]),
            parse_requirement(query@) == Ok::<crate::version::RequirementTriple, VersionError>(req@),
            !seq!['l', 't', 's', '@'].is_prefix_of(query@),
            query@ != "lts"@,
            query@ != "latest"@,
            selected@ =~= requirement_selection(versions@, req@).take(i as int),
        decreases n - i,
    {
        if !versions[i].has_version_number() {
            assert(!parses(versions@[i as int]));
            assert(is_first_unreadable_release(versions@, i as int));
            assert(Err::<Option<NodeVersion>, MatchError>(MatchError::UnreadableVersion(i)) == Err::<
                Option<NodeVersion>,
                MatchError,
            >(MatchError::UnreadableVersion((i as int) as usize)));
            return Err(MatchError::UnreadableVersion(i));
        }
        let v = versions[i].as_version();
        selected.push(req.matches(&v));
        i = i + 1;
    }
    assert(requirement_selection(versions@, req@).take(n as int) =~= requirement_selection(
        versions@,
        req@,
    ));
    let pick = latest_selected(&versions, &selected);
    let picked = take_pick(versions, Ghost(selected@), pick);
    lift_pick(picked)
}


/// The major number of a release's version.
pub open spec fn major_of(nv: NodeVersion) -> u64 {
    key_of(nv).0
}

/// The releases of major version `m` selected.
pub open spec fn major_selection(vs: Seq<NodeVersion>, m: u64) -> Seq<bool> {
    Seq::new(vs.len(), |j: int| major_of(vs[j]) == m)
}

/// Some listed release has major version `m`.
pub open spec fn major_listed(vs: Seq<NodeVersion>, idx: Seq<usize>, m: u64) -> bool {
    exists|k: int| 0 <= k < idx.len() && #[trigger] major_of(vs[idx[k] as int]) == m
}

/// `idx` lists, for the (at most) ten greatest major versions in descending
/// order, the latest release of each.
pub open spec fn is_major_listing(vs: Seq<NodeVersion>, idx: Seq<usize>) -> bool {
    &&& idx.len() <= 10
    &&& forall|k: int|
        0 <= k < idx.len() ==> is_latest_release(
            vs,
            major_selection(vs, major_of(vs[#[trigger] idx[k] as int])),
            idx[k] as int,
        )
    &&& forall|k: int, l: int|
        0 <= k < l < idx.len() ==> major_of(vs[#[trigger] idx[k] as int]) > major_of(
            vs[#[trigger] idx[l] as int],
        )
    &&& forall|j: int|
        0 <= j < vs.len() ==> major_listed(vs, idx, major_of(#[trigger] vs[j])) || (idx.len() == 10
            && major_of(vs[j]) < major_of(vs[idx[9] as int]))
}

/// Whether `m` lies below the bound (no bound: always).
spec fn below(m: u64, bound: Option<u64>) -> bool {
    match bound {
        Some(b) => m < b,
        None => true,
    }
}

/// The latest release of each of the (at most) ten greatest major versions,
/// greatest major first, as positions in `versions`; `Err` with the first
/// release whose version field does not read as a version number.
pub fn latest_major_versions(versions: &Vec<NodeVersion>) -> (r: Result<Vec<usize>, usize>)
    ensures
        r is Err <==> exists|k: int| 0 <= k < versions.len() && !parses(#[trigger] versions@[k]),
        r matches Err(k) ==> is_first_unreadable_release(versions@, k as int),
        r matches Ok(idx) ==> is_major_listing(versions@, idx@),
{
    let ghost vs = versions@;
    let n = versions.len();
    let mut keys: Vec<Version> = Vec::new();
    let mut i: usize = 0;
    while i < n
        invariant
            n == versions.len(),
            vs == versions@,
            0 <= i <= n,
            keys.len() == i,
            forall|j: int| 0 <= j < i ==> parses(#[trigger] vs[j]) && keys@[j]@ == key_of(vs[j]),
        decreases n - i,
    {
        if !versions[i].has_version_number() {
            assert(is_first_unreadable_release(vs, i as int));
            return Err(i);
        }
        keys.push(versions[i].as_version());
        i = i + 1;
    }
    let mut listed: Vec<usize> = Vec::new();
    let mut bound: Option<u64> = None;
    let mut done = false;
    while !done && listed.len() < 10
        invariant
            n == versions.len(),
            n == keys.len(),
            vs == versions@,
            forall|j: int| 0 <= j < n ==> parses(#[trigger] vs[j]) && keys@[j]@ == key_of(vs[j]),
            listed.len() <= 10,
            bound is None <==> listed.len() == 0,
            bound matches Some(m) ==> m == major_of(vs[listed@[listed.len() - 1] as int]),
            forall|k: int|
                0 <= k < listed.len() ==> #[trigger] listed@[k] < n && is_latest_release(
                    vs,
                    major_selection(vs, major_of(vs[listed@[k] as int])),
                    listed@[k] as int,
                ),
            forall|k: int, l: int|
                0 <= k < l < listed.len() ==> major_of(vs[#[trigger] listed@[k] as int]) > major_of(
                    vs[#[trigger] listed@[l] as int],
                ),
            forall|j: int|
                0 <= j < n && !below(major_of(vs[j]), bound) ==> major_listed(
                    vs,
                    listed@,
                    major_of(#[trigger] vs[j]),
                ),
            done ==> forall|j: int| 0 <= j < n ==> major_listed(vs, listed@, major_of(#[trigger] vs[j])),
        decreases 10 - listed.len() + if done {
            0int
        } else {
            1int
        },
    {
        let mut found: Option<u64> = None;
        let mut i: usize = 0;
        while i < n
            invariant
                n == keys.len(),
                0 <= i <= n,
                found is None <==> forall|j: int| 0 <= j < i ==> !below(#[trigger] keys@[j]@.0, bound),
                found matches Some(f) ==> below(f, bound) && exists|j: int|
                    0 <= j < i && #[trigger] keys@[j]@.0 == f,
                found matches Some(f) ==> forall|j: int|
                    0 <= j < i && below(#[trigger] keys@[j]@.0, bound) ==> keys@[j]@.0 <= f,
            decreases n - i,
        {
            let m = keys[i].major();
            let is_below = match bound {
                Some(b) => m < b,
                None => true,
            };
            if is_below {
                match found {
                    None => {
                        found = Some(m);
                    },
                    Some(f) => {
                        if m > f {
                            found = Some(m);
                        }
                    },
                }
            }
            i = i + 1;
        }
        match found {
            None => {
                assert forall|j: int| 0 <= j < n implies major_listed(
                    vs,
                    listed@,
                    major_of(#[trigger] vs[j]),
                ) by {
                    assert(!below(keys@[j]@.0, bound));
                }
                done = true;
            },
            Some(m) => {
                let mut selected: Vec<bool> = Vec::new();
                let mut i: usize = 0;
                while i < n
                    invariant
                        n == keys.len(),
                        n == vs.len(),
                        0 <= i <= n,
                        forall|j: int| 0 <= j < n ==> keys@[j]@ == key_of(#[trigger] vs[j]),
                        selected@ =~= major_selection(vs, m).take(i as int),
                    decreases n - i,
                {
                    selected.push(keys[i].major() == m);
                    i = i + 1;
                }
                assert(major_selection(vs, m).take(n as int) =~= major_selection(vs, m));
                proof {
                    let w = choose|j: int| 0 <= j < n && #[trigger] keys@[j]@.0 == m;
                    assert(selected@[w]);
                }
                let b = match latest_index(&keys, &selected) {
                    Some(b) => b,
                    None => {
                        proof {
                            assert(false);
                        }
                        0
                    },
                };
                assert(is_latest_release(vs, major_selection(vs, m), b as int));
                assert(major_of(vs[b as int]) == m);
                let ghost old_listed = listed@;
                let ghost old_bound = bound;
                listed.push(b);
                bound = Some(m);
                assert forall|k: int| 0 <= k < listed.len() implies #[trigger] listed@[k] < n
                    && is_latest_release(
                    vs,
                    major_selection(vs, major_of(vs[listed@[k] as int])),
                    listed@[k] as int,
                ) by {
                    if k < old_listed.len() {
                        assert(listed@[k] == old_listed[k]);
                    }
                }
                assert forall|k: int, l: int|
                    0 <= k < l < listed.len() implies major_of(vs[#[trigger] listed@[k] as int])
                    > major_of(vs[#[trigger] listed@[l] as int]) by {
                    assert(listed@[k] == old_listed[k]);
                    if l < old_listed.len() {
                        assert(listed@[l] == old_listed[l]);
                    } else {
                        if k == old_listed.len() - 1 {
                        } else {
                            assert(major_of(vs[old_listed[k] as int]) > major_of(
                                vs[old_listed[old_listed.len() - 1] as int],
                            ));
                        }
                    }
                }
                assert forall|j: int|
                    0 <= j < n && !below(major_of(vs[j]), bound) implies major_listed(
                    vs,
                    listed@,
                    major_of(#[trigger] vs[j]),
                ) by {
                    if !below(major_of(vs[j]), old_bound) {
                        assert(major_listed(vs, old_listed, major_of(vs[j])));
                        let k = choose|k: int|
                            0 <= k < old_listed.len() && #[trigger] major_of(vs[old_listed[k] as int])
                                == major_of(vs[j]);
                        assert(listed@[k] == old_listed[k]);
                    } else {
                        assert(keys@[j]@.0 == major_of(vs[j]));
                        assert(major_of(vs[j]) == m);
                        assert(listed@[listed.len() - 1] == b);
                    }
                }
            },
        }
    }
    assert(is_major_listing(vs, listed@));
    Ok(listed)
}


/// The note that the release listing puts after a release: its LTS line or
/// LTS flag, then whether it is the latest.
pub open spec fn release_note(lts: LtsInfo, is_latest: bool) -> Seq<char> {
    let lts_part = match lts {
        LtsInfo::Name(name) => " # lts@"@ + name@,
        LtsInfo::No(flag) => if flag {
            " # lts"@
        } else {
            Seq::<char>::empty()
        },
    };
    if is_latest {
        lts_part + " # latest"@
    } else {
        lts_part
    }
}

/// Builds the note of a release in the listing of major versions, such as
/// " # lts@Jod # latest".
pub fn release_listing_note(lts: &LtsInfo, is_latest: bool) -> (note: String)
    ensures
        note@ == release_note(*lts, is_latest),
{
    let mut note = String::new();
    match lts {
        LtsInfo::Name(name) => {
            note.append(" # lts@");
            note.append(name.as_str());
        },
        LtsInfo::No(flag) => {
            if *flag {
                note.append(" # lts");
            }
        },
    }
    if is_latest {
        note.append(" # latest");
    }
    proof {
        assert(Seq::<char>::empty() + " # lts@"@ =~= " # lts@"@);
        assert(Seq::<char>::empty() + " # lts"@ =~= " # lts"@);
        assert(Seq::<char>::empty() + " # latest"@ =~= " # latest"@);
    }
    note
}

/// How the details of a release show its LTS status.
pub open spec fn lts_text(lts: LtsInfo) -> Seq<char> {
    match lts {
        LtsInfo::Name(name) => "lts@"@ + name@,
        LtsInfo::No(flag) => if flag {
            "Yes"@
        } else {
            "No"@
        },
    }
}

/// How the details of a release show an optional field.
pub open spec fn optional_text(field: Option<String>) -> Seq<char> {
    match field {
        Some(text) => text@,
        None => "N/A"@,
    }
}

/// The LTS status as the details of a release show it: "lts@<name>", "Yes"
/// or "No".
pub fn lts_label(lts: &LtsInfo) -> (label: String)
    ensures
        label@ == lts_text(*lts),
{
    match lts {
        LtsInfo::Name(name) => String::from_str("lts@").concat(name.as_str()),
        LtsInfo::No(flag) => if *flag {
            String::from_str("Yes")
        } else {
            String::from_str("No")
        },
    }
}

/// An optional field as the details of a release show it: its text, or
/// "N/A".
pub fn optional_label(field: &Option<String>) -> (label: String)
    ensures
        label@ == optional_text(*field),
{
    match field {
        Some(text) => text.clone(),
        None => String::from_str("N/A"),
    }
}

/// The rows of the dependency table in the details of a release: V8,
/// OpenSSL, libuv, Zlib and Modules, each with its version or "N/A".
pub fn dependency_rows(nv: &NodeVersion) -> (rows: Vec<(String, String)>)
    ensures
        rows@.len() == 5,
        rows@[0].0@ == "V8"@ && rows@[0].1@ == nv.v8@,
        rows@[1].0@ == "OpenSSL"@ && rows@[1].1@ == optional_text(nv.openssl),
        rows@[2].0@ == "libuv"@ && rows@[2].1@ == optional_text(nv.uv),
        rows@[3].0@ == "Zlib"@ && rows@[3].1@ == optional_text(nv.zlib),
        rows@[4].0@ == "Modules"@ && rows@[4].1@ == optional_text(nv.modules),
{
    let mut rows: Vec<(String, String)> = Vec::new();
    rows.push((String::from_str("V8"), nv.v8.clone()));
    rows.push((String::from_str("OpenSSL"), optional_label(&nv.openssl)));
    rows.push((String::from_str("libuv"), optional_label(&nv.uv)));
    rows.push((String::from_str("Zlib"), optional_label(&nv.zlib)));
    rows.push((String::from_str("Modules"), optional_label(&nv.modules)));
    rows
}

/// Whether the details of a release mark it as a security release: "Yes" or
/// "No".
pub fn security_label(security: bool) -> (label: &'static str)
    ensures
        label@ == (if security {
            "Yes"@
        } else {
            "No"@
        }),
{
    if security {
        "Yes"
    } else {
        "No"
    }
}

/// How long the cached version list stays valid: 12 hours, in seconds.
pub const CACHE_VALIDITY_SECS: u64 = 43200;

/// Whether the cached version list may be used, given how many seconds ago
/// the cache file was written (`None` when that cannot be told, as when the
/// clock went backwards): only a cache at most 12 hours old is used.
pub fn cache_is_fresh(age_secs: Option<u64>) -> (fresh: bool)
    ensures
        fresh == match age_secs {
            Some(age) => age <= CACHE_VALIDITY_SECS,
            None => true,
        },
{
    match age_secs {
        Some(age) => age <= CACHE_VALIDITY_SECS,
        None => true,
    }
}

} // verus!
