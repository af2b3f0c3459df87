//! Small helpers on strings and lists of strings.

use vstd::prelude::*;

verus! {

/// The characters of each string of a list.
pub open spec fn strings_view(list: Seq<String>) -> Seq<Seq<char>> {
    list.map_values(|s: String| s@)
}

/// A copy of a list of strings.
pub fn clone_strings(list: &Vec<String>) -> (copy: Vec<String>)
    ensures
        strings_view(copy@) == strings_view(list@),
{
    let mut copy: Vec<String> = Vec::new();
    let mut i: usize = 0;
    while i < list.len()
        invariant
            i <= list.len(),
            copy.len() == i,
            forall|k: int| 0 <= k < i ==> copy[k]@ == list[k]@,
        decreases list.len() - i,
    {
        copy.push(list[i].clone());
        i += 1;
    }
    assert(strings_view(copy@) =~= strings_view(list@));
    copy
}

/// A copy of a string that may be absent.
pub fn clone_optional_string(text: &Option<String>) -> (copy: Option<String>)
    ensures
        copy is Some == text is Some,
        copy matches Some(c) ==> c@ == text->0@,
{
    match text {
        Some(t) => Some(t.clone()),
        None => None,
    }
}

/// Whether two strings hold the same characters.
pub fn same_text(a: &str, b: &str) -> (same: bool)
    ensures
        same == (a@ == b@),
{
    let left = a.to_owned();
    let right = b.to_owned();
    left == right
}

/// The characters of each string slice of a list.
pub open spec fn slices_view(list: Seq<&str>) -> Seq<Seq<char>> {
    list.map_values(|s: &str| s@)
}

/// A list of owned strings with the texts of `items`.
pub fn text_list(items: &[&str]) -> (list: Vec<String>)
    ensures
        strings_view(list@) == slices_view(items@),
{
    let mut list: Vec<String> = Vec::new();
    let mut i: usize = 0;
    while i < items.len()
        invariant
            i <= items.len(),
            list.len() == i,
            forall|k: int| 0 <= k < i ==> list[k]@ == items[k]@,
        decreases items.len() - i,
    {
        list.push(items[i].to_owned());
        i += 1;
    }
    assert(strings_view(list@) =~= slices_view(items@));
    list
}

} // verus!
