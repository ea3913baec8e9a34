//! What this library uses of `osmpbfreader::Tags`, with what it takes for granted of it.

use vstd::prelude::*;

verus! {

/// `osmpbfreader::Tags`: the tags of one OpenStreetMap object, a collection of
/// key/value string pairs in which no key occurs twice.
#[verifier::external_type_specification]
#[verifier::external_body]
pub struct ExTags(osmpbfreader::Tags);

/// Tags as a map: each key with its value.
pub type TagMap = Map<Seq<char>, Seq<char>>;

/// What a `Tags` value holds: each key with its value.
pub uninterp spec fn tags_view(tags: osmpbfreader::Tags) -> Map<Seq<char>, Seq<char>>;

/// `Tags::contains` looks the key up and compares what it finds with `value`:
/// it is true exactly when the key is present and carries that value.
pub assume_specification[ osmpbfreader::Tags::contains ](
    tags: &osmpbfreader::Tags,
    key: &str,
    value: &str,
) -> (found: bool)
    ensures
        found == (tags_view(*tags).contains_key(key@) && tags_view(*tags)[key@] == value@),
;

/// Whether `entries` lists the pairs of `tags`, each key once.
pub open spec fn lists_tags(entries: Seq<(&String, &String)>, tags: TagMap) -> bool {
    &&& forall|i: int, j: int|
        0 <= i < j < entries.len() ==> (#[trigger] entries[i]).0@ != (#[trigger] entries[j]).0@
    &&& forall|i: int|
        0 <= i < entries.len() ==> tags.contains_pair((#[trigger] entries[i]).0@, entries[i].1@)
    &&& forall|key: Seq<char>| #[trigger]
        tags.contains_key(key) ==> exists|i: int| 0 <= i < entries.len() && (#[trigger] entries[i]).0@ == key
}

/// The iterator of the map behind `Tags` (`FlatMap::iter`, reached through
/// `Deref`) walks the vector in which that map keeps its pairs, each key
/// once; the references that it yields are collected as they come.
#[verifier::external_body]
pub(crate) fn tag_entries<'a>(tags: &'a osmpbfreader::Tags) -> (entries: Vec<(&'a String, &'a String)>)
    ensures
        lists_tags(entries@, tags_view(*tags)),
{
    tags.iter().collect()
}

} // verus!
