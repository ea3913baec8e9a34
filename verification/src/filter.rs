//! Tag filters, and whether an object's tags pass them.

use crate::tags::{tags_view, TagMap};
use crate::value_set::ValueSet;
use vstd::prelude::*;

verus! {

/// Filters as a map: each tag name with the values that its filter accepts.
pub type FilterMap = Map<Seq<char>, Set<Seq<char>>>;

/// One filter: a tag name and the values that it accepts.
struct TagFilter {
    name: String,
    values: ValueSet,
}

/// A set of tag filters: for each tag name at most one set of accepted values.
///
/// An object passes the filters when it passes each of them, and it passes
/// one when it carries the tag with one of the accepted values.
pub struct TagFilters {
    entries: Vec<TagFilter>,
}

/// The names of `entries`, in order.
spec fn names(entries: Seq<TagFilter>) -> Seq<Seq<char>> {
    entries.map_values(|entry: TagFilter| entry.name@)
}

/// The filters of `entries` by name.
spec fn filter_map(entries: Seq<TagFilter>) -> FilterMap {
    Map::new(
        |name: Seq<char>| names(entries).contains(name),
        |name: Seq<char>| entries[names(entries).index_of(name)].values@,
    )
}

/// Where no name occurs twice, the entry at `i` is what the map holds for its name.
proof fn lemma_entry(entries: Seq<TagFilter>, i: int)
    requires
        names(entries).no_duplicates(),
        0 <= i < entries.len(),
    ensures
        filter_map(entries).contains_key(entries[i].name@),
        filter_map(entries)[entries[i].name@] == entries[i].values@,
{
    let all = names(entries);
    all.index_of_first_ensures(all[i]);
}

/// Each name of the map is the name of an entry.
proof fn lemma_key(entries: Seq<TagFilter>, name: Seq<char>) -> (i: int)
    requires
        filter_map(entries).contains_key(name),
    ensures
        0 <= i < entries.len(),
        entries[i].name@ == name,
        filter_map(entries)[name] == entries[i].values@,
{
    let all = names(entries);
    all.index_of_first_ensures(name);
    let i = all.index_of(name);
    i
}

/// An entry with a new name, put at the end, is one more filter.
proof fn lemma_push(entries: Seq<TagFilter>, entry: TagFilter)
    requires
        names(entries).no_duplicates(),
        !filter_map(entries).contains_key(entry.name@),
    ensures
        names(entries.push(entry)).no_duplicates(),
        filter_map(entries.push(entry)) == filter_map(entries).insert(entry.name@, entry.values@),
{
    let longer = entries.push(entry);
    assert(names(longer) =~= names(entries).push(entry.name@));
    let target = filter_map(entries).insert(entry.name@, entry.values@);
    assert forall|name: Seq<char>| filter_map(longer).contains_key(name) implies target.contains_key(name)
        && filter_map(longer)[name] == target[name] by {
        let i = lemma_key(longer, name);
        if i < entries.len() {
            lemma_entry(entries, i);
        }
    }
    assert forall|name: Seq<char>| target.contains_key(name) implies filter_map(longer).contains_key(
        name,
    ) by {
        if name == entry.name@ {
            lemma_entry(longer, entries.len() as int);
        } else {
            let i = lemma_key(entries, name);
            lemma_entry(longer, i);
        }
    }
}

/// An entry put in the place of one with the same name replaces that filter.
proof fn lemma_update(entries: Seq<TagFilter>, at: int, entry: TagFilter)
    requires
        names(entries).no_duplicates(),
        0 <= at < entries.len(),
        entries[at].name@ == entry.name@,
    ensures
        names(entries.update(at, entry)).no_duplicates(),
        filter_map(entries.update(at, entry)) == filter_map(entries).insert(entry.name@, entry.values@),
{
    let changed = entries.update(at, entry);
    assert(names(changed) =~= names(entries));
    let target = filter_map(entries).insert(entry.name@, entry.values@);
    assert forall|name: Seq<char>| filter_map(changed).contains_key(name) implies target.contains_key(name)
        && filter_map(changed)[name] == target[name] by {
        let i = lemma_key(changed, name);
        if i != at {
            assert(names(entries)[i] == name && names(entries)[at] == entry.name@);
            lemma_entry(entries, i);
        }
    }
    assert forall|name: Seq<char>| target.contains_key(name) implies filter_map(changed).contains_key(
        name,
    ) by {
        if name == entry.name@ {
            lemma_entry(changed, at);
        } else {
            let i = lemma_key(entries, name);
            lemma_entry(changed, i);
        }
    }
}

impl View for TagFilters {
    type V = FilterMap;

    closed spec fn view(&self) -> FilterMap {
        filter_map(self.entries@)
    }
}

/// Whether an object with the tags `tags` passes the filter on `name` that
/// accepts `values`.
pub open spec fn satisfies(tags: TagMap, name: Seq<char>, values: Set<Seq<char>>) -> bool {
    tags.contains_key(name) && values.contains(tags[name])
}

/// Whether an object with the tags `tags` passes every filter of `filters`.
pub open spec fn filters_match(filters: FilterMap, tags: TagMap) -> bool {
    forall|name: Seq<char>| #[trigger]
        filters.contains_key(name) ==> satisfies(tags, name, filters[name])
}

impl TagFilters {
    #[verifier::type_invariant]
    spec fn no_name_twice(&self) -> bool {
        names(self.entries@).no_duplicates()
    }

    /// No filters: every object passes.
    pub fn new() -> (filters: TagFilters)
        ensures
            filters@ =~= Map::empty(),
    {
        TagFilters { entries: Vec::new() }
    }

    /// The position of the filter on `name`, if there is one.
    fn position(&self, name: &String) -> (found: Option<usize>)
        ensures
            found is Some <==> self@.contains_key(name@),
            found matches Some(i) ==> i < self.entries@.len() && self.entries@[i as int].name@ == name@,
    {
        let mut i: usize = 0;
        while i < self.entries.len()
            invariant
                i <= self.entries.len(),
                forall|k: int| 0 <= k < i ==> #[trigger] names(self.entries@)[k] != name@,
            decreases self.entries.len() - i,
        {
            if self.entries[i].name == *name {
                assert(names(self.entries@)[i as int] == name@);
                return Some(i);
            }
            i += 1;
        }
        None
    }

    /// How many tag names the filters speak of.
    pub fn len(&self) -> (count: usize)
        ensures
            self@.dom().finite(),
            count == self@.dom().len(),
    {
        proof {
            use_type_invariant(self);
            names(self.entries@).unique_seq_to_set();
        }
        self.entries.len()
    }

    /// Whether there is a filter on `name`.
    pub fn contains_name(&self, name: &str) -> (found: bool)
        ensures
            found == self@.contains_key(name@),
    {
        let wanted = name.to_owned();
        self.position(&wanted).is_some()
    }

    /// Whether there is a filter on `name` that accepts `value`.
    pub fn accepts(&self, name: &str, value: &str) -> (accepted: bool)
        ensures
            accepted == (self@.contains_key(name@) && self@[name@].contains(value@)),
    {
        let wanted = name.to_owned();
        match self.position(&wanted) {
            Some(i) => {
                proof {
                    use_type_invariant(self);
                    lemma_entry(self.entries@, i as int);
                }
                self.entries[i].values.contains(value)
            },
            None => false,
        }
    }

    /// Sets the filter on `name` to accept exactly `values`. A filter that
    /// was there for the same name is replaced, not merged.
    pub fn insert(&mut self, name: String, values: ValueSet)
        ensures
            final(self)@ == old(self)@.insert(name@, values@),
    {
        let found = self.position(&name);
        proof {
            use_type_invariant(&*self);
        }
        let entry = TagFilter { name, values };
        // The vector is changed outside the struct: `push` may unwind, and
        // the struct has to be whole whenever that can happen.
        let mut entries: Vec<TagFilter> = Vec::new();
        core::mem::swap(&mut self.entries, &mut entries);
        match found {
            Some(i) => {
                proof {
                    lemma_update(entries@, i as int, entry);
                }
                entries.set(i, entry);
            },
            None => {
                proof {
                    lemma_push(entries@, entry);
                }
                entries.push(entry);
            },
        }
        core::mem::swap(&mut self.entries, &mut entries);
    }
}

/// Whether an object with the tags `tags` passes every filter of
/// `tag_filters`.
pub fn matches_tag_filters(tag_filters: &TagFilters, tags: &osmpbfreader::Tags) -> (matched: bool)
    ensures
        matched == filters_match(tag_filters@, tags_view(*tags)),
{
    proof {
        use_type_invariant(tag_filters);
    }
    let mut i: usize = 0;
    while i < tag_filters.entries.len()
        invariant
            i <= tag_filters.entries.len(),
            names(tag_filters.entries@).no_duplicates(),
            forall|k: int|
                0 <= k < i ==> satisfies(
                    tags_view(*tags),
                    (#[trigger] tag_filters.entries@[k]).name@,
                    tag_filters.entries@[k].values@,
                ),
        decreases tag_filters.entries.len() - i,
    {
        let entry = &tag_filters.entries[i];
        if !entry.values.holds_value_of(tags, entry.name.as_str()) {
            proof {
                lemma_entry(tag_filters.entries@, i as int);
            }
            return false;
        }
        i += 1;
    }
    proof {
        assert forall|name: Seq<char>| #[trigger] tag_filters@.contains_key(name) implies satisfies(
            tags_view(*tags),
            name,
            tag_filters@[name],
        ) by {
            lemma_key(tag_filters.entries@, name);
        }
    }
    true
}

/// Whether an object is to be read from a file: relations never are, and
/// another object is where its tags pass the filters.
pub open spec fn selected(filters: FilterMap, is_relation: bool, tags: TagMap) -> bool {
    !is_relation && filters_match(filters, tags)
}

/// Whether an object with the tags `tags` is to be read from a file.
pub fn selects(tag_filters: &TagFilters, is_relation: bool, tags: &osmpbfreader::Tags) -> (wanted: bool)
    ensures
        wanted == selected(tag_filters@, is_relation, tags_view(*tags)),
{
    !is_relation && matches_tag_filters(tag_filters, tags)
}

/// Filters are joined by "and": with a filter on `name` put in, an object
/// passes exactly where it passes that filter and every filter on another
/// name.
pub proof fn lemma_filters_are_conjoined(
    filters: FilterMap,
    name: Seq<char>,
    values: Set<Seq<char>>,
    tags: TagMap,
)
    ensures
        filters_match(filters.insert(name, values), tags) <==> satisfies(tags, name, values) && filters_match(
            filters.remove(name),
            tags,
        ),
{
    let more = filters.insert(name, values);
    let others = filters.remove(name);
    if filters_match(more, tags) {
        assert(more.contains_key(name));
        assert forall|other: Seq<char>| #[trigger] others.contains_key(other) implies satisfies(
            tags,
            other,
            others[other],
        ) by {
            assert(more.contains_key(other));
        }
    }
    if satisfies(tags, name, values) && filters_match(others, tags) {
        assert forall|other: Seq<char>| #[trigger] more.contains_key(other) implies satisfies(
            tags,
            other,
            more[other],
        ) by {
            if other != name {
                assert(others.contains_key(other));
            }
        }
    }
}

/// Without filters every object passes.
pub proof fn lemma_no_filter_matches_all(tags: TagMap)
    ensures
        filters_match(Map::empty(), tags),
{
}

} // verus!
