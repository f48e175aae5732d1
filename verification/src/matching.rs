//! Case-insensitive matching of a named entry and its keywords against a query.
use vstd::prelude::*;
use crate::text::{has_substring, lowercase, lowercase_contains};

verus! {

/// The characters of each string.
pub open spec fn strs_view(v: Seq<String>) -> Seq<Seq<char>> {
    v.map_values(|s: String| s@)
}

/// An entry matches a (lower-cased, trimmed) query key when its lower-cased
/// name, or one of its lower-cased keywords, contains the key.
pub open spec fn entry_matches(name: Seq<char>, keywords: Seq<Seq<char>>, key: Seq<char>) -> bool {
    ||| has_substring(lowercase(name), key)
    ||| exists|k: int| 0 <= k < keywords.len() && has_substring(lowercase(#[trigger] keywords[k]), key)
}

/// Whether an entry named `name` with `keywords` matches `key`.
pub fn entry_matches_exec(name: &String, keywords: &Vec<String>, key: &Vec<char>) -> (r: bool)
    ensures
        r == entry_matches(name@, strs_view(keywords@), key@),
{
    if lowercase_contains(name.as_str(), key) {
        return true;
    }
    let ghost kw = strs_view(keywords@);
    let n = keywords.len();
    let mut k: usize = 0;
    while k < n
        invariant
            k <= n,
            n == keywords.len(),
            kw == strs_view(keywords@),
            forall|j: int| 0 <= j < k ==> !has_substring(lowercase(#[trigger] kw[j]), key@),
        decreases n - k,
    {
        if lowercase_contains(keywords[k].as_str(), key) {
            assert(has_substring(lowercase(kw[k as int]), key@));
            return true;
        }
        k = k + 1;
    }
    false
}

/// Matching ignores case: an entry whose lower-cased name contains the key,
/// or one of whose keywords, lower-cased, contains it, matches; and an entry
/// matches only so.
pub proof fn law_entry_matches_by_name_or_keyword(name: Seq<char>, keywords: Seq<Seq<char>>, key: Seq<char>, k: int)
    ensures
        has_substring(lowercase(name), key) ==> entry_matches(name, keywords, key),
        0 <= k < keywords.len() && has_substring(lowercase(keywords[k]), key) ==> entry_matches(name, keywords, key),
        entry_matches(name, keywords, key) ==> has_substring(lowercase(name), key) || exists|j: int|
            0 <= j < keywords.len() && has_substring(lowercase(#[trigger] keywords[j]), key),
{
}

/// Whether an entry matches depends on its name and keywords only through
/// their lower-cased forms: two entries whose names, and whose keywords one by
/// one, lower-case alike match the same keys.
pub proof fn law_entry_matches_ignores_case(
    name1: Seq<char>,
    keywords1: Seq<Seq<char>>,
    name2: Seq<char>,
    keywords2: Seq<Seq<char>>,
    key: Seq<char>,
)
    requires
        lowercase(name1) == lowercase(name2),
        keywords1.len() == keywords2.len(),
        forall|k: int| 0 <= k < keywords1.len() ==> lowercase(#[trigger] keywords1[k]) == lowercase(keywords2[k]),
    ensures
        entry_matches(name1, keywords1, key) == entry_matches(name2, keywords2, key),
{
    if entry_matches(name1, keywords1, key) && !has_substring(lowercase(name1), key) {
        let k = choose|k: int| 0 <= k < keywords1.len() && has_substring(lowercase(#[trigger] keywords1[k]), key);
        assert(has_substring(lowercase(keywords2[k]), key));
    }
    if entry_matches(name2, keywords2, key) && !has_substring(lowercase(name2), key) {
        let k = choose|k: int| 0 <= k < keywords2.len() && has_substring(lowercase(#[trigger] keywords2[k]), key);
        assert(lowercase(keywords1[k]) == lowercase(keywords2[k]));
        assert(has_substring(lowercase(keywords1[k]), key));
    }
}

/// A copy of a list of strings.
pub fn clone_strings(v: &Vec<String>) -> (r: Vec<String>)
    ensures
        strs_view(r@) == strs_view(v@),
{
    let mut r: Vec<String> = Vec::new();
    let n = v.len();
    let mut k: usize = 0;
    while k < n
        invariant
            k <= n,
            n == v.len(),
            r@.len() == k,
            forall|j: int| 0 <= j < k ==> #[trigger] r@[j]@ == v@[j]@,
        decreases n - k,
    {
        r.push(v[k].clone());
        k = k + 1;
    }
    assert(strs_view(r@) =~= strs_view(v@));
    r
}

} // verus!
