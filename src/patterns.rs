use vstd::prelude::*;

verus! {

/// The groups of the leftmost match of the regular expression `pattern` in
/// `text`, group 0 (the whole match) first; a group that took no part in the
/// match is `None`. `None` where the pattern does not compile or does not match.
pub uninterp spec fn regex_captures(pattern: Seq<char>, text: Seq<char>) -> Option<Seq<Option<Seq<char>>>>;

/// The texts of the groups.
pub open spec fn group_texts(v: Seq<Option<String>>) -> Seq<Option<Seq<char>>> {
    v.map_values(
        |o: Option<String>|
            match o {
                Some(s) => Some(s@),
                None => None,
            },
    )
}

/// The texts of the groups, where there was a match.
pub open spec fn found_texts(c: Option<Vec<Option<String>>>) -> Option<Seq<Option<Seq<char>>>> {
    match c {
        Some(v) => Some(group_texts(v@)),
        None => None,
    }
}

/// Relies on regex's `Regex::new`, `Regex::captures` and `Captures::iter`:
/// the groups of the leftmost match, in order, group 0 always present.
#[verifier::external_body]
pub(crate) fn captures(pattern: &str, text: &str) -> (r: Option<Vec<Option<String>>>)
    ensures
        found_texts(r) == regex_captures(pattern@, text@),
        r matches Some(v) ==> v@.len() > 0 && v@[0] is Some,
{
    let re = regex::Regex::new(pattern).ok()?;
    let caps = re.captures(text)?;
    Some(caps.iter().map(|m| m.map(|m| m.as_str().to_string())).collect())
}


/// Whether the regular expression `pattern` matches somewhere in `text`;
/// false where the pattern does not compile.
pub uninterp spec fn regex_matches(pattern: Seq<char>, text: Seq<char>) -> bool;

/// Relies on regex's `Regex::new` and `Regex::is_match`.
#[verifier::external_body]
pub(crate) fn is_match(pattern: &str, text: &str) -> (r: bool)
    ensures
        r == regex_matches(pattern@, text@),
{
    match regex::Regex::new(pattern) {
        Ok(re) => re.is_match(text),
        Err(_) => false,
    }
}

/// `text` with every non-overlapping match of `pattern`, left to right,
/// replaced by `rep`; `text` itself where the pattern does not compile.
pub uninterp spec fn regex_replaced(pattern: Seq<char>, text: Seq<char>, rep: Seq<char>) -> Seq<char>;

/// Relies on regex's `Regex::new` and `Regex::replace_all`.
#[verifier::external_body]
pub(crate) fn replace_all(pattern: &str, text: &str, rep: &str) -> (r: String)
    ensures
        r@ == regex_replaced(pattern@, text@, rep@),
{
    match regex::Regex::new(pattern) {
        Ok(re) => re.replace_all(text, rep).into_owned(),
        Err(_) => text.to_string(),
    }
}


/// The matches of `pattern` in `text`, left to right and not overlapping,
/// each as the text before it and the text it covers; empty where the
/// pattern does not compile.
pub uninterp spec fn regex_finds(pattern: Seq<char>, text: Seq<char>) -> Seq<(Seq<char>, Seq<char>)>;

pub open spec fn pair_texts(v: Seq<(String, String)>) -> Seq<(Seq<char>, Seq<char>)> {
    v.map_values(|p: (String, String)| (p.0@, p.1@))
}

/// Relies on regex's `Regex::new`, `Regex::find_iter` and `Match::start` /
/// `Match::as_str`: each match is the part of `text` at its position.
#[verifier::external_body]
pub(crate) fn find_all(pattern: &str, text: &str) -> (r: Vec<(String, String)>)
    ensures
        pair_texts(r@) == regex_finds(pattern@, text@),
        forall|i: int|
            0 <= i < r@.len() ==> {
                let p = (#[trigger] r@[i]).0@ + r@[i].1@;
                p.len() <= text@.len() && text@.subrange(0, p.len() as int) == p
            },
{
    match regex::Regex::new(pattern) {
        Ok(re) => re.find_iter(text).map(|m| (text[..m.start()].to_string(), m.as_str().to_string())).collect(),
        Err(_) => Vec::new(),
    }
}

/// The groups of each match of `pattern` in `text`, left to right and not
/// overlapping (see `regex_captures`); empty where the pattern does not compile.
pub uninterp spec fn regex_all_captures(pattern: Seq<char>, text: Seq<char>) -> Seq<Seq<Option<Seq<char>>>>;

pub open spec fn all_group_texts(v: Seq<Vec<Option<String>>>) -> Seq<Seq<Option<Seq<char>>>> {
    v.map_values(|g: Vec<Option<String>>| group_texts(g@))
}

/// Relies on regex's `Regex::new`, `Regex::captures_iter` and `Captures::iter`.
#[verifier::external_body]
pub(crate) fn captures_all(pattern: &str, text: &str) -> (r: Vec<Vec<Option<String>>>)
    ensures
        all_group_texts(r@) == regex_all_captures(pattern@, text@),
{
    match regex::Regex::new(pattern) {
        Ok(re) => re
            .captures_iter(text)
            .map(|c| c.iter().map(|m| m.map(|m| m.as_str().to_string())).collect())
            .collect(),
        Err(_) => Vec::new(),
    }
}

} // verus!
