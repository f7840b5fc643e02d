//! Regular-expression captures.

use vstd::prelude::*;

verus! {

/// The capture groups of the leftmost match of a regular expression in a text
/// (group 0 is the whole match; a group that took no part is absent), or none
/// when the expression does not compile or does not match.
pub uninterp spec fn regex_captures(pattern: Seq<char>, text: Seq<char>) -> Option<Seq<Option<Seq<char>>>>;

pub open spec fn groups_view(gs: Seq<Option<String>>) -> Seq<Option<Seq<char>>> {
    gs.map_values(|g: Option<String>| crate::markup::opt_text(g))
}

pub open spec fn captures_view(r: Option<Vec<Option<String>>>) -> Option<Seq<Option<Seq<char>>>> {
    match r {
        Some(gs) => Some(groups_view(gs@)),
        None => None,
    }
}

/// Relies on regex's `Regex::new` and `Regex::captures`: the expression is
/// compiled, and the groups of its leftmost match are handed back as text.
#[verifier::external_body]
fn captures(pattern: &str, text: &str) -> (r: Option<Vec<Option<String>>>)
    ensures
        captures_view(r) == regex_captures(pattern@, text@),
{
    let re = regex::Regex::new(pattern).ok()?;
    re.captures(text).map(|c| c.iter().map(|m| m.map(|m| String::from(m.as_str()))).collect())
}

/// Group `i` of a match, if there is a match and the group took part.
pub open spec fn group_of(caps: Option<Seq<Option<Seq<char>>>>, i: int) -> Option<Seq<char>> {
    match caps {
        Some(gs) => if 0 <= i < gs.len() { gs[i] } else { None },
        None => None,
    }
}

/// Group `i` of the leftmost match of `pattern` in `text`.
pub fn capture_group(pattern: &str, text: &str, i: usize) -> (r: Option<String>)
    ensures
        crate::markup::opt_text(r) == group_of(regex_captures(pattern@, text@), i as int),
{
    match captures(pattern, text) {
        Some(gs) => {
            if i < gs.len() {
                match &gs[i] {
                    Some(g) => Some(g.clone()),
                    None => None,
                }
            } else {
                None
            }
        },
        None => None,
    }
}

} // verus!
