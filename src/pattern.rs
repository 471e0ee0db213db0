//! Pairing of inputs with outputs by the shape of output file names,
//! `(.*)_compressed_\d+\.mp4`, as the regex crate reads that pattern.

use vstd::prelude::*;
use crate::text::chars_of;
use crate::text::holds_at;
use regex::Regex;

verus! {

/// `_compressed_`, the text between a stem and its timestamp.
pub open spec fn marker() -> Seq<char> {
    seq!['_', 'c', 'o', 'm', 'p', 'r', 'e', 's', 's', 'e', 'd', '_']
}

/// What `Regex::captures` gives as group 1 of `(.*)_compressed_\d+\.mp4` in
/// `name`; none where the pattern does not match.
pub uninterp spec fn compressed_group_of(name: Seq<char>) -> Option<Seq<char>>;

/// Relies on `regex::Regex::captures` for the constant pattern
/// `(.*)_compressed_\d+\.mp4` (which `Regex::new` accepts): group 1 of the
/// match, which takes part in every match, or `None` where there is none.
#[verifier::external_body]
fn compressed_group(name: &str) -> (r: Option<String>)
    ensures
        r matches Some(c) ==> compressed_group_of(name@) == Some(c@),
        r is None ==> compressed_group_of(name@) is None,
{
    Regex::new(r"(.*)_compressed_\d+\.mp4").ok().and_then(
        |re| re.captures(name).and_then(|caps| caps.get(1)).map(|m| m.as_str().to_string()),
    )
}

/// The character view of an optional string.
pub open spec fn opt_view(o: Option<String>) -> Option<Seq<char>> {
    match o {
        Some(s) => Some(s@),
        None => None,
    }
}

/// An input named `in_name` pairs with an output whose captured group is
/// `group`: there is a group, and the input name starts with it.
pub open spec fn starts_with_group(in_name: Seq<char>, group: Option<Seq<char>>) -> bool {
    match group {
        Some(c) => c.len() <= in_name.len() && in_name.subrange(0, c.len() as int) == c,
        None => false,
    }
}

/// An input named `in_name` pairs with an output named `out_name`: the output
/// name matches the pattern and the input name starts with its group.
pub open spec fn names_pair(in_name: Seq<char>, out_name: Seq<char>) -> bool {
    starts_with_group(in_name, compressed_group_of(out_name))
}

/// An output name that does not match the pattern pairs with no input name.
pub proof fn lemma_unmatched_pairs_nothing(in_name: Seq<char>, out_name: Seq<char>)
    requires
        compressed_group_of(out_name) is None,
    ensures
        !names_pair(in_name, out_name),
{
}

/// Whether an input named `in_name` pairs with an output whose captured
/// group is `group`.
pub fn pairs_with_group(in_name: &str, group: Option<String>) -> (r: bool)
    ensures
        r == starts_with_group(in_name@, opt_view(group)),
{
    match group {
        Some(c) => {
            let sv = chars_of(in_name);
            let cv = chars_of(c.as_str());
            holds_at(&sv, 0, &cv)
        },
        None => false,
    }
}

/// Whether an input named `in_name` pairs with an output named `out_name`.
pub fn is_name_pair(in_name: &str, out_name: &str) -> (r: bool)
    ensures
        r == names_pair(in_name@, out_name@),
{
    let group = compressed_group(out_name);
    pairs_with_group(in_name, group)
}

} // verus!
