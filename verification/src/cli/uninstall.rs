//! `uninstall`: deletes installed versions that meet a requirement.

use vstd::prelude::*;

use crate::version::{parse_version, requirement_matches, Version, VersionReq};

verus! {

/// Delete the specified version
#[derive(Debug)]
pub struct UninstallArgs {
    /// The node version to delete, such as: "22", "22.17", "16.20.2"
    pub version: String,
    /// Agree to all operations without confirmation
    pub allow: bool,
}

/// An installed version is deleted when its name reads as a version number
/// that meets the requirement.
pub open spec fn is_targeted(name: Seq<char>, req: crate::version::RequirementTriple) -> bool {
    match parse_version(name) {
        Ok(v) => requirement_matches(req, v),
        Err(_) => false,
    }
}

/// A name is targeted exactly when it reads as a version whose major, minor
/// and patch numbers are each the one that the requirement sets, if it sets
/// one.
pub proof fn lemma_targeted_by_numbers(name: Seq<char>, req: crate::version::RequirementTriple)
    ensures
        is_targeted(name, req) == (parse_version(name) matches Ok(v) && (req.0 matches Some(a) ==> a
            == v.0) && (req.1 matches Some(b) ==> b == v.1) && (req.2 matches Some(c) ==> c == v.2)),
{
}

/// The installed versions that `req` targets, in order.
pub open spec fn targeted(installed: Seq<Seq<char>>, req: crate::version::RequirementTriple) -> Seq<
    Seq<char>,
> {
    installed.filter(|name: Seq<char>| is_targeted(name, req))
}

/// Filters out the installed versions that meet the requirement.
pub fn matching_versions(installed: &Vec<String>, req: &VersionReq) -> (matched: Vec<String>)
    ensures
        matched.deep_view() == targeted(installed.deep_view(), req@),
{
    let n = installed.len();
    let mut matched: Vec<String> = Vec::new();
    let mut i: usize = 0;
    while i < n
        invariant
            n == installed.len(),
            0 <= i <= n,
            matched.deep_view() == targeted(installed.deep_view().take(i as int), req@),
        decreases n - i,
    {
        let ghost prefix = installed.deep_view().take(i as int);
        assert(installed.deep_view().take(i + 1).drop_last() =~= prefix);
        assert(installed.deep_view().take(i + 1).last() == installed@[i as int]@);
        reveal_with_fuel(Seq::filter, 1);
        let keep = match Version::parse(installed[i].as_str()) {
            Ok(v) => req.matches(&v),
            Err(_) => false,
        };
        if keep {
            let ghost before = matched.deep_view();
            matched.push(installed[i].clone());
            assert(matched.deep_view() =~= before.push(installed@[i as int]@));
        }
        i = i + 1;
    }
    assert(installed.deep_view().take(n as int) =~= installed.deep_view());
    matched
}

/// The versions that `uninstall` deletes are exactly the installed ones
/// whose names read as version numbers that meet the requirement.
pub proof fn lemma_targeted_exactly(installed: Seq<Seq<char>>, req: crate::version::RequirementTriple)
    ensures
        forall|k: int|
            0 <= k < targeted(installed, req).len() ==> is_targeted(
                #[trigger] targeted(installed, req)[k],
                req,
            ) && installed.contains(targeted(installed, req)[k]),
        forall|j: int|
            0 <= j < installed.len() && is_targeted(installed[j], req) ==> #[trigger] targeted(
                installed,
                req,
            ).contains(installed[j]),
{
    let pred = |name: Seq<char>| is_targeted(name, req);
    broadcast use vstd::seq_lib::group_filter_ensures;

    assert forall|k: int| 0 <= k < targeted(installed, req).len() implies is_targeted(
        #[trigger] targeted(installed, req)[k],
        req,
    ) && installed.contains(targeted(installed, req)[k]) by {
        assert(installed.filter(pred).contains(installed.filter(pred)[k]));
        installed.lemma_filter_contains_rev(pred, installed.filter(pred)[k]);
    }
}

/// How `uninstall` goes on with the matched versions.
#[derive(Debug, Clone, Copy, PartialEq, Eq, Structural)]
pub enum UninstallChoice {
    /// No installed version matches.
    NotInstalled,
    /// Delete every matched version.
    DeleteAll,
    /// Let the user choose which matched versions to delete.
    AskWhich,
}

/// One matched version is deleted directly, several only with `--allow` or
/// after the user chose.
pub fn uninstall_choice(matched: usize, allow: bool) -> (c: UninstallChoice)
    ensures
        c == (if matched == 0 {
            UninstallChoice::NotInstalled
        } else if matched == 1 || allow {
            UninstallChoice::DeleteAll
        } else {
            UninstallChoice::AskWhich
        }),
{
    if matched == 0 {
        UninstallChoice::NotInstalled
    } else if matched == 1 || allow {
        UninstallChoice::DeleteAll
    } else {
        UninstallChoice::AskWhich
    }
}

/// What happens to the active link when a version is deleted.
#[derive(Debug, Clone, Copy, PartialEq, Eq, Structural)]
pub enum ActiveLinkStep {
    /// The version is not the active one: the link stays.
    Keep,
    /// The version is the active one and `--allow` was given: remove the link.
    Remove,
    /// The version is the active one: ask before removing the link.
    Ask,
}

/// Detects the currently active version among those deleted (`current` is
/// the active version, or empty when none is).
pub fn active_link_step(version: &String, current: &String, allow: bool) -> (step: ActiveLinkStep)
    ensures
        step == (if version@ != current@ {
            ActiveLinkStep::Keep
        } else if allow {
            ActiveLinkStep::Remove
        } else {
            ActiveLinkStep::Ask
        }),
{
    if *version != *current {
        ActiveLinkStep::Keep
    } else if allow {
        ActiveLinkStep::Remove
    } else {
        ActiveLinkStep::Ask
    }
}

} // verus!
