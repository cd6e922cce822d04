//! The directories listed in the `PATH` environment variable.

use vstd::prelude::*;

verus! {

/// The entries of a `;`-separated list, read from the front: `current` is
/// the entry read so far. Empty entries are left out.
pub open spec fn list_entries(s: Seq<char>, current: Seq<char>) -> Seq<Seq<char>>
    decreases s.len(),
{
    if s.len() == 0 {
        if current.len() == 0 {
            Seq::empty()
        } else {
            seq![current]
        }
    } else if s[0] == ';' {
        (if current.len() == 0 {
            Seq::empty()
        } else {
            seq![current]
        }) + list_entries(s.drop_first(), Seq::empty())
    } else {
        list_entries(s.drop_first(), current.push(s[0]))
    }
}

/// The entries of the value of `PATH`: its `;`-separated parts, without the
/// empty ones; none when the variable is not set.
pub open spec fn path_entries(value: Option<Seq<char>>) -> Seq<Seq<char>> {
    match value {
        Some(v) => list_entries(v, Seq::empty()),
        None => Seq::empty(),
    }
}

/// Gets all paths in the value of the environment variable `PATH`.
pub fn env_path_entries(path_value: Option<String>) -> (paths: Vec<String>)
    ensures
        paths.deep_view() == path_entries(path_value.deep_view()),
{
    let mut paths: Vec<String> = Vec::new();
    match path_value {
        None => {
            assert(paths.deep_view() =~= Seq::<Seq<char>>::empty());
        },
        Some(value) => {
            let v = value.as_str();
            let n = v.unicode_len();
            let mut start: usize = 0;
            let mut i: usize = 0;
            assert(v@.skip(0) =~= v@);
            assert(v@.subrange(0, 0) =~= Seq::<char>::empty());
            assert(paths.deep_view() =~= Seq::<Seq<char>>::empty());
            assert(paths.deep_view() + list_entries(v@, Seq::empty()) =~= list_entries(v@, Seq::empty()));
            while i < n
                invariant
                    n == v@.len(),
                    0 <= start <= i <= n,
                    paths.deep_view() + list_entries(v@.skip(i as int), v@.subrange(start as int, i as int))
                        == list_entries(v@, Seq::empty()),
                decreases n - i,
            {
                let ghost rest = v@.skip(i as int);
                assert(rest.drop_first() =~= v@.skip(i + 1));
                if v.get_char(i) == ';' {
                    let ghost before = paths.deep_view();
                    if start < i {
                        let entry = String::from_str(v.substring_char(start, i));
                        paths.push(entry);
                        assert(paths.deep_view() =~= before + seq![v@.subrange(start as int, i as int)]);
                    }
                    assert(v@.subrange(i + 1, i + 1) =~= Seq::<char>::empty());
                    start = i + 1;
                } else {
                    assert(v@.subrange(start as int, i + 1) =~= v@.subrange(start as int, i as int).push(
                        v@[i as int],
                    ));
                }
                i = i + 1;
            }
            let ghost before = paths.deep_view();
            assert(v@.skip(n as int) =~= Seq::<char>::empty());
            if start < n {
                let entry = String::from_str(v.substring_char(start, n));
                paths.push(entry);
                assert(paths.deep_view() =~= before + seq![v@.subrange(start as int, n as int)]);
            } else {
                assert(before + Seq::<Seq<char>>::empty() =~= before);
            }
        },
    }
    paths
}

/// The entry being read, when it is not empty.
pub open spec fn finished_entry(entry: Seq<char>) -> Seq<Seq<char>> {
    if entry.len() == 0 {
        Seq::empty()
    } else {
        seq![entry]
    }
}

/// A text without `;`, read after `current`, ends as the single entry
/// `current` followed by it, of whatever length, or as nothing when both
/// are empty.
pub proof fn lemma_list_entries_no_separator(s: Seq<char>, current: Seq<char>)
    requires
        !s.contains(';'),
    ensures
        list_entries(s, current) == finished_entry(current + s),
    decreases s.len(),
{
    if s.len() == 0 {
        assert(current + s =~= current);
    } else {
        assert(s[0] != ';') by {
            assert(s.contains(s[0]));
        }
        assert(!s.drop_first().contains(';')) by {
            if s.drop_first().contains(';') {
                let k = choose|k: int| 0 <= k < s.drop_first().len() && s.drop_first()[k] == ';';
                assert(s[k + 1] == ';');
            }
        }
        lemma_list_entries_no_separator(s.drop_first(), current.push(s[0]));
        assert(current.push(s[0]) + s.drop_first() =~= current + s);
    }
}

/// A `;` ends the entry before it: the entries of `a;b` (with `a` free of
/// `;`) are the entry `current` followed by `a`, if not empty, and then the
/// entries of `b`.
pub proof fn lemma_list_entries_split(a: Seq<char>, b: Seq<char>, current: Seq<char>)
    requires
        !a.contains(';'),
    ensures
        list_entries(a + seq![';'] + b, current) == finished_entry(current + a) + list_entries(
            b,
            Seq::empty(),
        ),
    decreases a.len(),
{
    let s = a + seq![';'] + b;
    if a.len() == 0 {
        assert(s[0] == ';');
        assert(s.drop_first() =~= b);
        assert(current + a =~= current);
    } else {
        assert(a[0] != ';') by {
            assert(a.contains(a[0]));
        }
        assert(!a.drop_first().contains(';')) by {
            if a.drop_first().contains(';') {
                let k = choose|k: int| 0 <= k < a.drop_first().len() && a.drop_first()[k] == ';';
                assert(a[k + 1] == ';');
            }
        }
        assert(s[0] == a[0]);
        assert(s.drop_first() =~= a.drop_first() + seq![';'] + b);
        lemma_list_entries_split(a.drop_first(), b, current.push(a[0]));
        assert(current.push(a[0]) + a.drop_first() =~= current + a);
    }
}

/// A non-empty value of `PATH` without `;` is its one entry, whatever its
/// length.
pub proof fn lemma_path_entries_single(value: Seq<char>)
    requires
        value.len() > 0,
        !value.contains(';'),
    ensures
        path_entries(Some(value)) == seq![value],
{
    lemma_list_entries_no_separator(value, Seq::empty());
    assert(Seq::<char>::empty() + value =~= value);
}

/// The entries of `PATH` are its `;`-separated parts in order, the empty
/// ones left out: the entries of `a;b`, with `a` free of `;`, are `a` (if
/// not empty) and then the entries of `b`.
pub proof fn lemma_path_entries_split(a: Seq<char>, b: Seq<char>)
    requires
        !a.contains(';'),
    ensures
        path_entries(Some(a + seq![';'] + b)) == finished_entry(a) + path_entries(Some(b)),
{
    lemma_list_entries_split(a, b, Seq::empty());
    assert(Seq::<char>::empty() + a =~= a);
}

/// Each entry read from a `;`-separated list is non-empty and holds no `;`.
pub proof fn lemma_list_entries_clean(s: Seq<char>, current: Seq<char>)
    requires
        !current.contains(';'),
    ensures
        forall|k: int|
            0 <= k < list_entries(s, current).len() ==> #[trigger] list_entries(s, current)[k].len() > 0
                && !list_entries(s, current)[k].contains(';'),
    decreases s.len(),
{
    if s.len() == 0 {
        if current.len() > 0 {
            assert(seq![current][0] == current);
        }
    } else if s[0] == ';' {
        lemma_list_entries_clean(s.drop_first(), Seq::empty());
        let head: Seq<Seq<char>> = if current.len() == 0 {
            Seq::empty()
        } else {
            seq![current]
        };
        let tail = list_entries(s.drop_first(), Seq::empty());
        assert(list_entries(s, current) == head + tail);
        assert forall|k: int| 0 <= k < (head + tail).len() implies #[trigger] (head + tail)[k].len() > 0
            && !(head + tail)[k].contains(';') by {
            if k >= head.len() {
                assert((head + tail)[k] == tail[k - head.len()]);
            } else {
                assert((head + tail)[k] == current);
            }
        }
    } else {
        assert forall|c: char| current.push(s[0]).contains(c) implies c != ';' by {
            let j = choose|j: int| 0 <= j < current.push(s[0]).len() && current.push(s[0])[j] == c;
            if j < current.len() {
                assert(current[j] == c);
            }
        }
        lemma_list_entries_clean(s.drop_first(), current.push(s[0]));
        assert(list_entries(s, current) == list_entries(s.drop_first(), current.push(s[0])));
    }
}

/// The entries of `PATH` are never empty and never hold `;`.
pub proof fn lemma_path_entries_clean(value: Option<Seq<char>>)
    ensures
        forall|k: int|
            0 <= k < path_entries(value).len() ==> #[trigger] path_entries(value)[k].len() > 0
                && !path_entries(value)[k].contains(';'),
{
    if let Some(v) = value {
        lemma_list_entries_clean(v, Seq::empty());
    }
}

} // verus!
