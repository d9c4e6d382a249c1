//! Regular-expression matching, through the `regex` crate.
use vstd::prelude::*;

verus! {

/// The name for what the `regex` crate finds: for a pattern that compiles,
/// the successive non-overlapping leftmost-first matches of `pattern` in
/// `haystack`, each as its capture groups (group 0 the whole match, a group
/// that took no part in the match `None`); `None` when the pattern does not
/// compile.
pub uninterp spec fn regex_matches(pattern: Seq<char>, haystack: Seq<char>) -> Option<Seq<Seq<Option<Seq<char>>>>>;

pub open spec fn groups_view(g: Vec<Option<String>>) -> Seq<Option<Seq<char>>> {
    g@.map_values(|x: Option<String>| match x {
        Some(s) => Some(s@),
        None => None,
    })
}

pub open spec fn matches_view(r: Option<Vec<Vec<Option<String>>>>) -> Option<Seq<Seq<Option<Seq<char>>>>> {
    match r {
        Some(ms) => Some(ms@.map_values(|g: Vec<Option<String>>| groups_view(g))),
        None => None,
    }
}

/// `regex::Regex::new(pattern)` and `Regex::captures_iter(haystack)`: every
/// match with all of its capture groups, as `regex_matches` names them;
/// `None` when the pattern does not compile.
#[verifier::external_body]
pub(crate) fn regex_captures_all(pattern: &str, haystack: &str) -> (r: Option<Vec<Vec<Option<String>>>>)
    ensures
        matches_view(r) == regex_matches(pattern@, haystack@),
{
    regex::Regex::new(pattern).ok().map(|re| {
        re.captures_iter(haystack).map(|c| c.iter().map(|m| m.map(|m| m.as_str().to_string())).collect()).collect()
    })
}

/// Group `group` of the first match, when the pattern compiles, there is a
/// match, and the group took part in it.
pub open spec fn first_match_group(matches: Option<Seq<Seq<Option<Seq<char>>>>>, group: int) -> Option<Seq<char>> {
    match matches {
        Some(ms) => if ms.len() > 0 && 0 <= group < ms[0].len() {
            ms[0][group]
        } else {
            None
        },
        None => None,
    }
}

/// Group `group` of the first match among the matches `ms`
/// (`first_match_group`).
pub fn first_match_group_of(ms: &Option<Vec<Vec<Option<String>>>>, group: usize) -> (r: Option<String>)
    ensures
        match first_match_group(matches_view(*ms), group as int) {
            Some(s) => r matches Some(t) && t@ == s,
            None => r is None,
        },
{
    match ms {
        Some(ms) => {
            if ms.len() > 0 && group < ms[0].len() {
                match &ms[0][group] {
                    Some(s) => Some(s.clone()),
                    None => None,
                }
            } else {
                None
            }
        },
        None => None,
    }
}

/// Group `group` of the first match of `pattern` in `haystack`.
pub fn first_capture(pattern: &str, haystack: &str, group: usize) -> (r: Option<String>)
    ensures
        match first_match_group(regex_matches(pattern@, haystack@), group as int) {
            Some(s) => r matches Some(t) && t@ == s,
            None => r is None,
        },
{
    let ms = regex_captures_all(pattern, haystack);
    first_match_group_of(&ms, group)
}

} // verus!
