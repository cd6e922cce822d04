//! The versions installed locally: which installation directories hold a
//! version, and which version the active link points at.

use vstd::prelude::*;

use crate::pattern::{is_match, regex_captures, three_numbers, INSTALLED_PATTERN};
use crate::text::is_ascii_number;

verus! {

/// What the installation directory listing tells of one entry: its name
/// (`None` when the entry could not be read or its name is not UTF-8) and
/// whether it is a directory (`false` when its type could not be read).
#[derive(Debug, Clone)]
pub struct DirEntryInfo {
    pub name: Option<String>,
    pub is_dir: bool,
}

/// An entry is an installed version: a directory whose name holds
/// `major.minor.patch`.
pub open spec fn is_installed_version(e: DirEntryInfo) -> bool {
    &&& e.is_dir
    &&& e.name is Some
    &&& regex_captures(INSTALLED_PATTERN@, e.name->0@) is Some
}

/// `name` is three runs of ASCII digits separated by dots, such as `16.20.2`.
pub open spec fn is_number_triple(name: Seq<char>) -> bool {
    exists|d1: Seq<char>, d2: Seq<char>, d3: Seq<char>|
        is_ascii_number(d1) && is_ascii_number(d2) && is_ascii_number(d3) && name
            == #[trigger] three_numbers(Seq::<char>::empty(), d1, d2, d3)
}

/// The names of the installed versions among `entries`, in listing order.
pub open spec fn installed_names(entries: Seq<DirEntryInfo>) -> Seq<Seq<char>>
    decreases entries.len(),
{
    if entries.len() == 0 {
        Seq::empty()
    } else {
        let rest = installed_names(entries.drop_last());
        if is_installed_version(entries.last()) {
            rest.push(entries.last().name->0@)
        } else {
            rest
        }
    }
}

/// `name` is the name of an entry that is an installed version.
pub open spec fn is_listed_entry_name(entries: Seq<DirEntryInfo>, name: Seq<char>) -> bool {
    exists|j: int|
        0 <= j < entries.len() && is_installed_version(#[trigger] entries[j]) && entries[j].name->0@ == name
}

/// The installed versions are the names of the entries that are installed
/// versions, every one of them, in listing order: the entries kept by a
/// filter, by name. Each such entry's name is listed, and each listed name
/// is the name of such an entry.
pub proof fn lemma_installed_names_complete(entries: Seq<DirEntryInfo>)
    ensures
        installed_names(entries) == entries.filter(|e: DirEntryInfo| is_installed_version(e)).map_values(
            |e: DirEntryInfo| e.name->0@,
        ),
        installed_names(entries).len() == entries.filter(|e: DirEntryInfo| is_installed_version(e)).len(),
        forall|j: int|
            0 <= j < entries.len() && is_installed_version(#[trigger] entries[j]) ==> installed_names(
                entries,
            ).contains(entries[j].name->0@),
        forall|k: int|
            0 <= k < installed_names(entries).len() ==> #[trigger] is_listed_entry_name(entries, installed_names(entries)[k]),
    decreases entries.len(),
{
    let pred = |e: DirEntryInfo| is_installed_version(e);
    let name = |e: DirEntryInfo| e.name->0@;
    reveal_with_fuel(Seq::filter, 1);
    if entries.len() > 0 {
        lemma_installed_names_complete(entries.drop_last());
        assert(entries.filter(pred).map_values(name) =~= installed_names(entries));
    } else {
        assert(entries.filter(pred).map_values(name) =~= installed_names(entries));
    }
    broadcast use vstd::seq_lib::group_filter_ensures;

    let f = entries.filter(pred);
    assert forall|j: int|
        0 <= j < entries.len() && is_installed_version(#[trigger] entries[j]) implies installed_names(
        entries,
    ).contains(entries[j].name->0@) by {
        assert(f.contains(entries[j]));
        let k = choose|k: int| 0 <= k < f.len() && f[k] == entries[j];
        assert(installed_names(entries)[k] == entries[j].name->0@);
    }
    assert forall|k: int| 0 <= k < installed_names(entries).len() implies #[trigger] is_listed_entry_name(
        entries,
        installed_names(entries)[k],
    ) by {
        assert(pred(f[k]));
        assert(f.contains(f[k]));
        entries.lemma_filter_contains_rev(pred, f[k]);
        let j = choose|j: int| 0 <= j < entries.len() && entries[j] == f[k];
        assert(is_installed_version(entries[j]));
    }
}

/// Filters out all directories whose names are valid version numbers.
pub fn installation_versions(entries: &Vec<DirEntryInfo>) -> (versions: Vec<String>)
    ensures
        versions.deep_view() == installed_names(entries@),
        forall|j: int|
            0 <= j < entries.len() && entries@[j].is_dir && entries@[j].name is Some
                && is_number_triple(entries@[j].name->0@) ==> is_installed_version(#[trigger] entries@[j]),
{
    let n = entries.len();
    let mut versions: Vec<String> = Vec::new();
    let mut i: usize = 0;
    while i < n
        invariant
            n == entries.len(),
            0 <= i <= n,
            versions.deep_view() == installed_names(entries@.take(i as int)),
            forall|j: int|
                0 <= j < i && entries@[j].is_dir && entries@[j].name is Some && is_number_triple(
                    entries@[j].name->0@,
                ) ==> is_installed_version(#[trigger] entries@[j]),
        decreases n - i,
    {
        assert(entries@.take(i + 1).drop_last() =~= entries@.take(i as int));
        let e = &entries[i];
        if e.is_dir {
            if let Some(name) = &e.name {
                if is_match(INSTALLED_PATTERN, name.as_str()) {
                    let ghost before = versions.deep_view();
                    versions.push(name.clone());
                    assert(versions.deep_view() =~= before.push(name@));
                }
            }
        }
        i = i + 1;
    }
    assert(entries@.take(n as int) =~= entries@);
    versions
}

/// The name of the directory that the active link points at.
#[derive(Debug, Clone)]
pub enum LinkName {
    /// The link target has no final component.
    Missing,
    /// The final component is not UTF-8.
    NotUtf8,
    Name(String),
}

/// What the file system tells of the active link's target.
#[derive(Debug, Clone)]
pub struct ActiveLink {
    /// The target is a directory.
    pub is_dir: bool,
    pub name: LinkName,
}

/// Why the active version cannot be told.
#[derive(Debug, Clone)]
pub enum ActiveVersionError {
    /// Failed to get the name of the directory pointed to by the link.
    NoDirectoryName,
    /// The name of the directory pointed to by the link is not UTF-8.
    NameNotUtf8,
    /// The directory name pointed to by the link is not a valid version
    /// number.
    NotAVersion(String),
}

/// The active version that a link tells: none without a link (`None`) or
/// when it points at no directory; an error when the directory's name is
/// missing, not UTF-8 or not a version number.
pub open spec fn active_version_of(link: Option<ActiveLink>) -> Result<
    Option<String>,
    ActiveVersionError,
> {
    match link {
        None => Ok(None),
        Some(l) => if !l.is_dir {
            Ok(None)
        } else {
            match l.name {
                LinkName::Missing => Err(ActiveVersionError::NoDirectoryName),
                LinkName::NotUtf8 => Err(ActiveVersionError::NameNotUtf8),
                LinkName::Name(n) => if regex_captures(INSTALLED_PATTERN@, n@) is Some {
                    Ok(Some(n))
                } else {
                    Err(ActiveVersionError::NotAVersion(n))
                },
            }
        },
    }
}

/// Gets the currently active version from what the active link points at
/// (`None` when the link could not be read).
pub fn actived_version(link: Option<ActiveLink>) -> (r: Result<Option<String>, ActiveVersionError>)
    ensures
        r == active_version_of(link),
        forall|n: String|
            #![trigger is_number_triple(n@)]
            link == Some((ActiveLink { is_dir: true, name: LinkName::Name(n) })) && is_number_triple(n@)
                ==> r == Ok::<Option<String>, ActiveVersionError>(Some(n)),
{
    match link {
        None => Ok(None),
        Some(l) => {
            if !l.is_dir {
                return Ok(None);
            }
            match l.name {
                LinkName::Missing => Err(ActiveVersionError::NoDirectoryName),
                LinkName::NotUtf8 => Err(ActiveVersionError::NameNotUtf8),
                LinkName::Name(n) => {
                    if is_match(INSTALLED_PATTERN, n.as_str()) {
                        Ok(Some(n))
                    } else {
                        Err(ActiveVersionError::NotAVersion(n))
                    }
                },
            }
        },
    }
}

} // verus!
