//! The regular expressions that recognise version numbers, and the trusted
//! calls into the `regex` crate that match them.

use vstd::prelude::*;

use crate::text::{is_ascii_number, occurs_in};

verus! {

/// A full version number anywhere in a text, with an optional leading `v`,
/// such as `v1.2.3` or `1.2.3`. Groups 1 to 3 hold the three numbers.
pub const VERSION_PATTERN: &'static str = "v?(\\d+)\\.(\\d+)\\.(\\d+)";

/// A whole version requirement: a major number, optionally followed by a
/// minor and a patch number, with an optional leading `v`.
pub const REQUIREMENT_PATTERN: &'static str = "^v?(\\d+)(?:\\.(\\d+))?(?:\\.(\\d+))?$";

/// Three dot-separated numbers anywhere in a text, as installation
/// directories and the active link are named.
pub const INSTALLED_PATTERN: &'static str = "(\\d+)\\.(\\d+)\\.(\\d+)";

/// The patterns of this library; each is a valid regular expression.
pub open spec fn is_known_pattern(p: Seq<char>) -> bool {
    p == VERSION_PATTERN@ || p == REQUIREMENT_PATTERN@ || p == INSTALLED_PATTERN@
}

/// What `regex::Regex::captures` reports for `pattern` on `haystack`: `None`
/// when there is no match, else the text of each capture group of the
/// leftmost-first match (group 0 being the whole match), `None` for a group
/// that did not take part in it.
pub uninterp spec fn regex_captures(pattern: Seq<char>, haystack: Seq<char>) -> Option<
    Seq<Option<Seq<char>>>,
>;

/// The prefix that a version may carry: nothing or `v`.
pub open spec fn is_version_prefix(p: Seq<char>) -> bool {
    p == Seq::<char>::empty() || p == seq!['v']
}

/// `prefix`, then one number.
pub open spec fn one_number(prefix: Seq<char>, d1: Seq<char>) -> Seq<char> {
    prefix + d1
}

/// `prefix`, then two numbers separated by a dot.
pub open spec fn two_numbers(prefix: Seq<char>, d1: Seq<char>, d2: Seq<char>) -> Seq<char> {
    prefix + d1 + seq!['.'] + d2
}

/// `prefix`, then three numbers separated by dots.
pub open spec fn three_numbers(prefix: Seq<char>, d1: Seq<char>, d2: Seq<char>, d3: Seq<char>) -> Seq<
    char,
> {
    prefix + d1 + seq!['.'] + d2 + seq!['.'] + d3
}

/// With the prefix `p`, the whole text `h` is the number in group 1,
/// followed by the dot and number of group 2 when that group took part, and
/// then by those of group 3 when that one took part too.
pub open spec fn requirement_shape_with(p: Seq<char>, h: Seq<char>, g: Seq<Option<Seq<char>>>) -> bool {
    ||| g[2] is None && g[3] is None && h == one_number(p, g[1]->0)
    ||| g[2] is Some && g[3] is None && h == two_numbers(p, g[1]->0, g[2]->0)
    ||| g[2] is Some && g[3] is Some && h == three_numbers(p, g[1]->0, g[2]->0, g[3]->0)
}

/// A match of the requirement pattern covers the whole text: an optional
/// `v`, then the numbers of the groups that took part.
pub open spec fn requirement_shape(h: Seq<char>, g: Seq<Option<Seq<char>>>) -> bool {
    &&& g.len() == 4
    &&& g[1] is Some
    &&& (requirement_shape_with(Seq::empty(), h, g) || requirement_shape_with(seq!['v'], h, g))
}

/// A match of the version pattern is an optional `v` and the three numbers
/// of groups 1 to 3 with dots between them, found somewhere in the text.
pub open spec fn version_shape(h: Seq<char>, g: Seq<Option<Seq<char>>>) -> bool {
    &&& g.len() == 4
    &&& g[0] is Some && g[1] is Some && g[2] is Some && g[3] is Some
    &&& (g[0]->0 == three_numbers(Seq::empty(), g[1]->0, g[2]->0, g[3]->0) || g[0]->0 == three_numbers(
        seq!['v'],
        g[1]->0,
        g[2]->0,
        g[3]->0,
    ))
    &&& occurs_in(h, g[0]->0)
}

/// Compiles `pattern` with `regex::Regex::new` and runs `Regex::captures` on
/// `haystack`, handing back the text of each group.
///
/// Trusted: the result is claimed to be `regex_captures` of the pattern and
/// the haystack, a function of those two alone. `Regex::new` fails only on an
/// invalid pattern or one over the size limits; the `requires` admits only
/// this library's three patterns, which are neither.
///
/// Also claimed, from the documented matching rules (`Captures::iter` yields
/// every group, a group that did not take part as `None`; a group outside
/// any `?` takes part in every match; `\d` matches every Unicode decimal
/// digit, the ASCII digits among them; `^` and `$` anchor at the ends of the
/// text; the leftmost match is taken, `?` and `+` greedy): each of the three
/// patterns has three groups besides group 0, which is the whole match;
/// groups 1 to 3 of the version patterns and group 1 of the requirement
/// pattern take part in every match; a match of the version pattern is an
/// optional `v` and its three groups joined by dots; a match of the
/// requirement pattern is the whole text, an optional `v` and the groups that
/// took part joined by dots, group 3 only with group 2; and on texts made
/// only of an optional `v`, runs of ASCII digits and the dots between them,
/// the whole text is the match and the groups are the digit runs.
#[verifier::external_body]
pub(crate) fn captures(pattern: &str, haystack: &str) -> (groups: Option<Vec<Option<String>>>)
    requires
        is_known_pattern(pattern@),
    ensures
        groups.deep_view() == regex_captures(pattern@, haystack@),
        groups.deep_view() matches Some(g) ==> g.len() == 4 && g[0] is Some && g[1] is Some,
        pattern@ != REQUIREMENT_PATTERN@ ==> (groups.deep_view() matches Some(g) ==> g[2] is Some
            && g[3] is Some),
        pattern@ == VERSION_PATTERN@ ==> (groups.deep_view() matches Some(g) ==> version_shape(
            haystack@,
            g,
        )),
        pattern@ == REQUIREMENT_PATTERN@ ==> (groups.deep_view() matches Some(g) ==> requirement_shape(
            haystack@,
            g,
        )),
        pattern@ == VERSION_PATTERN@ ==> forall|p: Seq<char>, d1: Seq<char>, d2: Seq<char>, d3: Seq<char>|
            is_version_prefix(p) && is_ascii_number(d1) && is_ascii_number(d2) && is_ascii_number(d3)
                && haystack@ == #[trigger] three_numbers(p, d1, d2, d3) ==> groups.deep_view()
                == Some(seq![Some(haystack@), Some(d1), Some(d2), Some(d3)]),
        pattern@ == INSTALLED_PATTERN@ ==> forall|d1: Seq<char>, d2: Seq<char>, d3: Seq<char>|
            is_ascii_number(d1) && is_ascii_number(d2) && is_ascii_number(d3) && haystack@
                == #[trigger] three_numbers(Seq::<char>::empty(), d1, d2, d3) ==> groups.deep_view()
                == Some(seq![Some(haystack@), Some(d1), Some(d2), Some(d3)]),
        pattern@ == REQUIREMENT_PATTERN@ ==> forall|p: Seq<char>, d1: Seq<char>|
            is_version_prefix(p) && is_ascii_number(d1) && haystack@ == #[trigger] one_number(p, d1)
                ==> groups.deep_view() == Some(seq![Some(haystack@), Some(d1), None, None]),
        pattern@ == REQUIREMENT_PATTERN@ ==> forall|p: Seq<char>, d1: Seq<char>, d2: Seq<char>|
            is_version_prefix(p) && is_ascii_number(d1) && is_ascii_number(d2) && haystack@
                == #[trigger] two_numbers(p, d1, d2) ==> groups.deep_view() == Some(
                seq![Some(haystack@), Some(d1), Some(d2), None],
            ),
        pattern@ == REQUIREMENT_PATTERN@ ==> forall|p: Seq<char>, d1: Seq<char>, d2: Seq<char>, d3: Seq<char>|
            is_version_prefix(p) && is_ascii_number(d1) && is_ascii_number(d2) && is_ascii_number(d3)
                && haystack@ == #[trigger] three_numbers(p, d1, d2, d3) ==> groups.deep_view()
                == Some(seq![Some(haystack@), Some(d1), Some(d2), Some(d3)]),
{
    let re = regex::Regex::new(pattern).unwrap();
    re.captures(haystack).map(|caps| caps.iter().map(|m| m.map(|m| m.as_str().to_string())).collect())
}

/// Compiles `pattern` with `regex::Regex::new` and runs `Regex::is_match` on
/// `haystack`.
///
/// Trusted: the result is claimed to be whether `Regex::captures` finds a
/// match (`regex_captures` is `Some`): both report whether the pattern
/// matches anywhere in the haystack. Also claimed: the installation pattern
/// matches three dot-separated runs of ASCII digits. As for `captures`, the
/// `requires` admits only valid patterns.
#[verifier::external_body]
pub(crate) fn is_match(pattern: &str, haystack: &str) -> (r: bool)
    requires
        is_known_pattern(pattern@),
    ensures
        r == regex_captures(pattern@, haystack@) is Some,
        pattern@ == INSTALLED_PATTERN@ ==> forall|d1: Seq<char>, d2: Seq<char>, d3: Seq<char>|
            is_ascii_number(d1) && is_ascii_number(d2) && is_ascii_number(d3) && haystack@
                == #[trigger] three_numbers(Seq::<char>::empty(), d1, d2, d3) ==> r,
{
    regex::Regex::new(pattern).unwrap().is_match(haystack)
}

} // verus!
