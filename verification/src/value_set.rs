//! Sets of strings.

use crate::tags::tags_view;
use vstd::prelude::*;

verus! {

/// The texts of a sequence of strings, in the same order.
pub open spec fn texts(strings: Seq<String>) -> Seq<Seq<char>> {
    strings.map_values(|s: String| s@)
}

/// A finite set of strings, such as the values that one tag filter accepts.
///
/// The strings are kept in the order in which they were first inserted, and
/// none is kept twice.
pub struct ValueSet {
    items: Vec<String>,
}

impl View for ValueSet {
    type V = Set<Seq<char>>;

    closed spec fn view(&self) -> Set<Seq<char>> {
        texts(self.items@).to_set()
    }
}

impl ValueSet {
    #[verifier::type_invariant]
    spec fn no_value_twice(&self) -> bool {
        texts(self.items@).no_duplicates()
    }

    /// The empty set.
    pub fn new() -> (set: ValueSet)
        ensures
            set@ == Set::<Seq<char>>::empty(),
    {
        let set = ValueSet { items: Vec::new() };
        set
    }

    /// How many strings the set holds.
    pub fn len(&self) -> (count: usize)
        ensures
            self@.finite(),
            count == self@.len(),
    {
        proof {
            use_type_invariant(self);
            texts(self.items@).unique_seq_to_set();
        }
        self.items.len()
    }

    /// Whether the set holds no string at all.
    pub fn is_empty(&self) -> (empty: bool)
        ensures
            empty == (self@ == Set::<Seq<char>>::empty()),
    {
        let empty = self.items.len() == 0;
        proof {
            if empty {
                assert(self@ =~= Set::<Seq<char>>::empty());
            } else {
                assert(texts(self.items@)[0] == self.items@[0]@);
                assert(self@.contains(self.items@[0]@));
            }
        }
        empty
    }

    /// Whether `value` is in the set.
    pub fn contains(&self, value: &str) -> (found: bool)
        ensures
            found == self@.contains(value@),
    {
        let wanted = value.to_owned();
        let mut i: usize = 0;
        while i < self.items.len()
            invariant
                i <= self.items.len(),
                wanted@ == value@,
                forall|k: int| 0 <= k < i ==> #[trigger] texts(self.items@)[k] != value@,
            decreases self.items.len() - i,
        {
            if self.items[i] == wanted {
                assert(texts(self.items@)[i as int] == value@);
                return true;
            }
            i += 1;
        }
        false
    }

    /// Puts `value` into the set; the result says whether it was new.
    pub fn insert(&mut self, value: String) -> (added: bool)
        ensures
            final(self)@ == old(self)@.insert(value@),
            added == !old(self)@.contains(value@),
    {
        if self.contains(value.as_str()) {
            false
        } else {
            proof {
                use_type_invariant(&*self);
                texts(self.items@).lemma_push_to_set_commute(value@);
                assert(texts(self.items@.push(value)) =~= texts(self.items@).push(value@));
            }
            // The vector is grown outside the struct: `push` may unwind, and
            // the struct has to be whole whenever that can happen.
            let mut items: Vec<String> = Vec::new();
            core::mem::swap(&mut self.items, &mut items);
            items.push(value);
            core::mem::swap(&mut self.items, &mut items);
            true
        }
    }

    /// Whether `tags` carries the tag `name` with a value that is in the set.
    pub fn holds_value_of(&self, tags: &osmpbfreader::Tags, name: &str) -> (held: bool)
        ensures
            held == (tags_view(*tags).contains_key(name@) && self@.contains(tags_view(*tags)[name@])),
    {
        let mut i: usize = 0;
        while i < self.items.len()
            invariant
                i <= self.items.len(),
                forall|k: int|
                    0 <= k < i ==> !(tags_view(*tags).contains_key(name@) && tags_view(*tags)[name@]
                        == #[trigger] texts(self.items@)[k]),
            decreases self.items.len() - i,
        {
            if tags.contains(name, self.items[i].as_str()) {
                assert(texts(self.items@)[i as int] == self.items@[i as int]@);
                return true;
            }
            i += 1;
        }
        false
    }
}

} // verus!
