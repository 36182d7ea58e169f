//! Audio-device selection: case-insensitive substring matching over the
//! enumerated device names.
//!
//! Device enumeration itself is I/O and happens outside this crate; the
//! selection rule — lowercase both sides, match a contiguous substring,
//! take the first match in enumeration order, fall back to the default
//! output device when nothing matches — is verified here.

use vstd::prelude::*;

verus! {

/// The lowercased form of a string, as `str::to_lowercase` computes it: a
/// function of the characters alone.
pub uninterp spec fn lower_of(s: Seq<char>) -> Seq<char>;

/// `needle` occurs in `hay` as a contiguous substring.
pub open spec fn contains_seq(hay: Seq<char>, needle: Seq<char>) -> bool {
    exists|i: int|
        0 <= i <= hay.len() - needle.len() && #[trigger] hay.subrange(i, i + needle.len())
            == needle
}

/// A device name matches a query when the lowercased query occurs inside
/// the lowercased name.
pub open spec fn name_matches(name: Seq<char>, query: Seq<char>) -> bool {
    contains_seq(lower_of(name), lower_of(query))
}

/// Relies on `str::to_lowercase`: the result depends on the characters
/// alone, and an empty string stays empty.
#[verifier::external_body]
fn lowercase(s: &str) -> (r: String)
    ensures
        r@ == lower_of(s@),
        s@.len() == 0 ==> r@.len() == 0,
{
    s.to_lowercase()
}

/// Relies on `str::contains` with a `&str` pattern: true exactly when the
/// pattern occurs as a contiguous substring.
#[verifier::external_body]
fn contains_str(hay: &str, needle: &str) -> (r: bool)
    ensures
        r == contains_seq(hay@, needle@),
{
    hay.contains(needle)
}

/// Indices of every device name that matches the query, in enumeration
/// order: each returned index matches, they are strictly increasing, and
/// every matching index is returned.
pub fn matching_indices(names: &Vec<String>, query: &String) -> (r: Vec<usize>)
    ensures
        forall|j: int|
            0 <= j < r@.len() ==> r@[j] < names@.len() && name_matches(
                names@[r@[j] as int]@,
                query@,
            ),
        forall|j1: int, j2: int| 0 <= j1 < j2 < r@.len() ==> r@[j1] < r@[j2],
        forall|i: int|
            0 <= i < names@.len() && #[trigger] name_matches(names@[i]@, query@) ==> (exists|j: int|
                0 <= j < r@.len() && r@[j] == i),
{
    let query_lower = lowercase(query.as_str());
    let mut r: Vec<usize> = Vec::new();
    let mut i: usize = 0;
    while i < names.len()
        invariant
            i <= names@.len(),
            query_lower@ == lower_of(query@),
            forall|j: int|
                0 <= j < r@.len() ==> r@[j] < i && name_matches(names@[r@[j] as int]@, query@),
            forall|j1: int, j2: int| 0 <= j1 < j2 < r@.len() ==> r@[j1] < r@[j2],
            forall|k: int|
                0 <= k < i && #[trigger] name_matches(names@[k]@, query@) ==> (exists|j: int|
                    0 <= j < r@.len() && r@[j] == k),
        decreases names@.len() - i,
    {
        let name_lower = lowercase(names[i].as_str());
        let matched = contains_str(name_lower.as_str(), query_lower.as_str());
        assert(matched == name_matches(names@[i as int]@, query@));
        let ghost before = r@;
        if matched {
            r.push(i);
            proof {
                assert forall|j: int| 0 <= j < r@.len() implies r@[j] < i + 1 && name_matches(
                    names@[r@[j] as int]@,
                    query@,
                ) by {
                    if j < r@.len() - 1 {
                        assert(r@[j] == before[j]);
                    } else {
                        assert(r@[j] == i);
                    }
                }
                assert forall|j1: int, j2: int| 0 <= j1 < j2 < r@.len() implies r@[j1] < r@[j2] by {
                    if j2 == r@.len() - 1 {
                        assert(r@[j1] == before[j1]);
                        assert(before[j1] < i);
                    } else {
                        assert(r@[j1] == before[j1]);
                        assert(r@[j2] == before[j2]);
                    }
                }
            }
        }
        proof {
            assert forall|k: int|
                0 <= k < i + 1 && #[trigger] name_matches(names@[k]@, query@) implies (exists|j: int|
                0 <= j < r@.len() && r@[j] == k) by {
                if k == i {
                    assert(r@[r@.len() - 1] == i);
                } else {
                    let j0 = choose|j: int| 0 <= j < before.len() && before[j] == k;
                    assert(r@[j0] == k);
                }
            }
        }
        i = i + 1;
    }
    r
}

/// The capture device for a query: the index of the first matching name in
/// enumeration order, or `None` when nothing matches.  When several names
/// match, the caller may warn and uses the first.
pub fn choose_input_device(names: &Vec<String>, query: &String) -> (r: Option<usize>)
    ensures
        r is None ==> (forall|i: int|
            0 <= i < names@.len() ==> !(#[trigger] name_matches(names@[i]@, query@))),
        (r matches Some(i) ==> i < names@.len() && name_matches(names@[i as int]@, query@) && (
        forall|k: int| 0 <= k < i ==> !(#[trigger] name_matches(names@[k]@, query@)))),
{
    let matches = matching_indices(names, query);
    if matches.len() == 0 {
        assert forall|i: int|
            0 <= i < names@.len() implies !(#[trigger] name_matches(names@[i]@, query@)) by {
            if name_matches(names@[i]@, query@) {
                assert(exists|j: int| 0 <= j < matches@.len() && matches@[j] == i);
            }
        }
        None
    } else {
        let first = matches[0];
        assert forall|k: int| 0 <= k < first implies !(#[trigger] name_matches(
            names@[k]@,
            query@,
        )) by {
            if name_matches(names@[k]@, query@) {
                let j = choose|j: int| 0 <= j < matches@.len() && matches@[j] == k;
                if j > 0 {
                    assert(matches@[0] < matches@[j]);
                }
            }
        }
        Some(first)
    }
}

/// Where playback goes for an optional output query.
#[derive(Clone, Copy, Debug, PartialEq, Eq, Structural)]
pub enum OutputChoice {
    /// Use the system default output device.
    Default,
    /// Use the named device at this enumeration index.
    Device(usize),
}

/// The playback device: with no query, the default; with a query, the
/// first matching name, falling back to the default when nothing matches.
pub fn choose_output_device(names: &Vec<String>, query: Option<&String>) -> (r: OutputChoice)
    ensures
        query is None ==> r is Default,
        (query matches Some(q) ==> ({
            ||| (r is Default && (forall|i: int|
                0 <= i < names@.len() ==> !(#[trigger] name_matches(names@[i]@, q@))))
            ||| (r matches OutputChoice::Device(i) && i < names@.len() && name_matches(
                names@[i as int]@,
                q@,
            ) && (forall|k: int| 0 <= k < i ==> !(#[trigger] name_matches(names@[k]@, q@))))
        })),
{
    match query {
        None => OutputChoice::Default,
        Some(q) => {
            match choose_input_device(names, q) {
                None => OutputChoice::Default,
                Some(i) => OutputChoice::Device(i),
            }
        },
    }
}

} // verus!
