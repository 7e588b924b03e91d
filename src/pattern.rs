//! Regular-expression searches, provided by the `regex` crate.
use vstd::prelude::*;

verus! {

/// The text of each string, in order.
pub open spec fn strings(v: Seq<String>) -> Seq<Seq<char>> {
    v.map_values(|s: String| s@)
}

/// The substrings that `regex::Regex::find_iter` yields for `pattern` on `hay`,
/// leftmost first and in order; none where `pattern` does not compile.
pub uninterp spec fn regex_matches(pattern: Seq<char>, hay: Seq<char>) -> Seq<Seq<char>>;

/// The texts of the capture groups (group 1 onwards, an empty text for a group
/// that took no part) of the first match of `pattern` in `hay`; `None` where
/// there is no match or `pattern` does not compile.
pub uninterp spec fn regex_groups(pattern: Seq<char>, hay: Seq<char>) -> Option<Seq<Seq<char>>>;

/// Relies on `regex::Regex::new` and `regex::Regex::find_iter`: the matched texts, in order.
#[verifier::external_body]
pub fn find_all(pattern: &str, hay: &str) -> (r: Vec<String>)
    ensures
        strings(r@) == regex_matches(pattern@, hay@),
{
    match regex::Regex::new(pattern) {
        Ok(re) => re.find_iter(hay).map(|m| m.as_str().to_string()).collect(),
        Err(_) => Vec::new(),
    }
}

/// Relies on `regex::Regex::new` and `regex::Regex::captures`: the group texts of the first match.
#[verifier::external_body]
pub fn first_groups(pattern: &str, hay: &str) -> (r: Option<Vec<String>>)
    ensures
        match r {
            Some(v) => regex_groups(pattern@, hay@) == Some(strings(v@)),
            None => regex_groups(pattern@, hay@) is None,
        },
{
    let re = match regex::Regex::new(pattern) {
        Ok(re) => re,
        Err(_) => return None,
    };
    re.captures(hay).map(
        |c| c.iter().skip(1).map(|m| m.map_or(String::new(), |m| m.as_str().to_string())).collect(),
    )
}

} // verus!
