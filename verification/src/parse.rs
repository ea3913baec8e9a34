//! The written form of a tag filter, `name=value|value|...`, and how it is read.

use crate::filter::{filters_match, satisfies, FilterMap};
use crate::tags::TagMap;
use crate::value_set::ValueSet;
use vstd::prelude::*;
use vstd::std_specs::iter::IteratorSpec;

verus! {

/// How many chars of `text` stand before its first `=`; all of them where
/// it has none.
pub open spec fn name_len(text: Seq<char>) -> nat
    decreases text.len(),
{
    if text.len() == 0 || text[0] == '=' {
        0
    } else {
        1 + name_len(text.drop_first())
    }
}

/// Whether `c` ends a value in a filter: `|` parts two values, and so does
/// every `=` after the first.
pub open spec fn ends_value(c: char) -> bool {
    c == '=' || c == '|'
}

/// How many chars of `text` stand before the first that ends a value; all of
/// them where there is none.
pub open spec fn value_len(text: Seq<char>) -> nat
    decreases text.len(),
{
    if text.len() == 0 || ends_value(text[0]) {
        0
    } else {
        1 + value_len(text.drop_first())
    }
}

/// The values that `text` lists: what stands between the chars that end a
/// value. With `n` such chars there are `n + 1` values, empty ones among them.
pub open spec fn listed_values(text: Seq<char>) -> Seq<Seq<char>>
    decreases text.len(),
{
    let n = value_len(text);
    if n >= text.len() {
        seq![text]
    } else {
        seq![text.take(n as int)] + listed_values(text.skip(n as int + 1))
    }
}

/// The tag name of the filter `arg`: what stands before its first `=`.
pub open spec fn filter_name(arg: Seq<char>) -> Seq<char> {
    arg.take(name_len(arg) as int)
}

/// The values that the filter `arg` accepts: those listed behind its first
/// `=`, and none where it has no `=`.
pub open spec fn filter_values(arg: Seq<char>) -> Set<Seq<char>> {
    if name_len(arg) >= arg.len() {
        Set::empty()
    } else {
        listed_values(arg.skip(name_len(arg) as int + 1)).to_set()
    }
}

/// The filters that `args` stand for. Where two of them have the same tag
/// name, the later one counts.
pub open spec fn parsed_filters(args: Seq<Seq<char>>) -> FilterMap
    decreases args.len(),
{
    if args.len() == 0 {
        Map::empty()
    } else {
        parsed_filters(args.drop_last()).insert(filter_name(args.last()), filter_values(args.last()))
    }
}

/// `name_len` is the place of the first `=`.
pub proof fn lemma_name_len(text: Seq<char>, n: int)
    requires
        0 <= n <= text.len(),
        forall|k: int| 0 <= k < n ==> text[k] != '=',
        n < text.len() ==> text[n] == '=',
    ensures
        name_len(text) == n,
    decreases n,
{
    if n > 0 {
        lemma_name_len(text.drop_first(), n - 1);
    }
}

/// `value_len` is the place of the first char that ends a value.
pub proof fn lemma_value_len(text: Seq<char>, n: int)
    requires
        0 <= n <= text.len(),
        forall|k: int| 0 <= k < n ==> !ends_value(text[k]),
        n < text.len() ==> ends_value(text[n]),
    ensures
        value_len(text) == n,
    decreases n,
{
    if n > 0 {
        lemma_value_len(text.drop_first(), n - 1);
    }
}

/// The chars of `text`, in order.
fn chars_of(text: &str) -> (chars: Vec<char>)
    ensures
        chars@ == text@,
{
    let mut chars: Vec<char> = Vec::new();
    for c in it: text.chars()
        invariant
            chars@ == it.seq().take(it.index()),
    {
        chars.push(c);
    }
    chars
}

/// Reads one filter of the form `name=value|value|...`.
pub fn parse_tag_filter(arg: &str) -> (parsed: (String, ValueSet))
    ensures
        parsed.0@ == filter_name(arg@),
        parsed.1@ == filter_values(arg@),
{
    let chars = chars_of(arg);
    let n = chars.len();
    let mut i: usize = 0;
    while i < n && chars[i] != '='
        invariant
            i <= n,
            n == chars@.len(),
            forall|k: int| 0 <= k < i ==> chars@[k] != '=',
        decreases n - i,
    {
        i += 1;
    }
    proof {
        lemma_name_len(arg@, i as int);
    }
    let name = arg.substring_char(0, i).to_owned();
    let mut values = ValueSet::new();
    if i < n {
        let ghost mut found: Seq<Seq<char>> = Seq::empty();
        let mut start: usize = i + 1;
        let mut at: usize = start;
        while at < n
            invariant
                i < start <= at <= n,
                n == chars@.len(),
                chars@ == arg@,
                forall|k: int| start <= k < at ==> !ends_value(chars@[k]),
                listed_values(arg@.skip(i + 1)) == found + listed_values(arg@.skip(start as int)),
                values@ == found.to_set(),
            decreases n - at,
        {
            let c = chars[at];
            if c == '=' || c == '|' {
                let piece = arg.substring_char(start, at).to_owned();
                proof {
                    let rest = arg@.skip(start as int);
                    lemma_value_len(rest, at - start);
                    assert(rest.take(at - start) =~= arg@.subrange(start as int, at as int));
                    assert(rest.skip(at - start + 1) =~= arg@.skip(at + 1));
                    found.lemma_push_to_set_commute(piece@);
                    assert(found + (seq![piece@] + listed_values(arg@.skip(at + 1))) =~= found.push(piece@)
                        + listed_values(arg@.skip(at + 1)));
                    found = found.push(piece@);
                }
                values.insert(piece);
                start = at + 1;
            }
            at += 1;
        }
        let piece = arg.substring_char(start, n).to_owned();
        proof {
            let rest = arg@.skip(start as int);
            lemma_value_len(rest, n - start);
            found.lemma_push_to_set_commute(piece@);
            assert(found + seq![piece@] =~= found.push(piece@));
        }
        values.insert(piece);
    }
    (name, values)
}

/// `values` written one behind the other with a `|` between each two.
pub open spec fn joined(values: Seq<Seq<char>>) -> Seq<char>
    decreases values.len(),
{
    if values.len() == 0 {
        Seq::empty()
    } else if values.len() == 1 {
        values[0]
    } else {
        values[0] + seq!['|'] + joined(values.drop_first())
    }
}

/// What is written is read back: values that hold neither `=` nor `|`,
/// joined by `|`, are listed as they were joined.
pub proof fn lemma_joined_values_are_listed(values: Seq<Seq<char>>)
    requires
        values.len() > 0,
        forall|i: int, k: int|
            0 <= i < values.len() && 0 <= k < values[i].len() ==> !ends_value(#[trigger] values[i][k]),
    ensures
        listed_values(joined(values)) == values,
    decreases values.len(),
{
    let first = values[0];
    if values.len() == 1 {
        lemma_value_len(first, first.len() as int);
    } else {
        let others = values.drop_first();
        let text = joined(values);
        lemma_joined_values_are_listed(others);
        lemma_value_len(text, first.len() as int);
        assert(text.take(first.len() as int) =~= first);
        assert(text.skip(first.len() as int + 1) =~= joined(others));
    }
}

/// A filter `name=v1|v2|...` accepts exactly the values written in it, and
/// passes exactly the objects that carry the tag `name` with one of them.
pub proof fn lemma_filter_of_values(name: Seq<char>, values: Seq<Seq<char>>, tags: TagMap)
    requires
        forall|i: int| 0 <= i < name.len() ==> name[i] != '=',
        values.len() > 0,
        forall|i: int, k: int|
            0 <= i < values.len() && 0 <= k < values[i].len() ==> !ends_value(#[trigger] values[i][k]),
    ensures
        ({
            let arg = name + seq!['='] + joined(values);
            &&& filter_name(arg) == name
            &&& filter_values(arg) == values.to_set()
            &&& filters_match(parsed_filters(seq![arg]), tags) <==> tags.contains_key(name)
                && values.contains(tags[name])
        }),
{
    let arg = name + seq!['='] + joined(values);
    lemma_name_len(arg, name.len() as int);
    assert(arg.take(name.len() as int) =~= name);
    assert(arg.skip(name.len() as int + 1) =~= joined(values));
    lemma_joined_values_are_listed(values);
    let only = seq![arg];
    assert(parsed_filters(only.drop_last()) =~= Map::empty());
    if filters_match(parsed_filters(only), tags) {
        assert(parsed_filters(only).contains_key(name));
    }
}

/// A filter `name=a|b` passes exactly the objects that carry the tag `name`
/// with the value `a` or the value `b`: not those without the tag, nor those
/// that carry it with another value.
pub proof fn lemma_filter_of_two_values(
    name: Seq<char>,
    a: Seq<char>,
    b: Seq<char>,
    tags: TagMap,
)
    requires
        forall|i: int| 0 <= i < name.len() ==> name[i] != '=',
        forall|i: int| 0 <= i < a.len() ==> !ends_value(a[i]),
        forall|i: int| 0 <= i < b.len() ==> !ends_value(b[i]),
    ensures
        ({
            let arg = name + seq!['='] + a + seq!['|'] + b;
            &&& filter_name(arg) == name
            &&& filter_values(arg) == set![a, b]
            &&& filters_match(parsed_filters(seq![arg]), tags) <==> tags.contains_key(name) && (tags[name]
                == a || tags[name] == b)
        }),
{
    let values = seq![a, b];
    assert(joined(values.drop_first()) == b);
    assert(name + seq!['='] + joined(values) =~= name + seq!['='] + a + seq!['|'] + b);
    lemma_filter_of_values(name, values, tags);
}

/// A filter accepts no value at all exactly where it has no `=`.
pub proof fn lemma_values_need_equals(arg: Seq<char>)
    ensures
        filter_values(arg) == Set::<Seq<char>>::empty() <==> forall|i: int|
            0 <= i < arg.len() ==> arg[i] != '=',
{
    lemma_name_len_bounds(arg);
    let n = name_len(arg) as int;
    if n < arg.len() {
        let listed = listed_values(arg.skip(n + 1));
        assert(listed.to_set().contains(listed[0]));
    }
}

/// `name_len` is within the text, no `=` stands before it, and where it is
/// short of the end an `=` stands at it.
pub proof fn lemma_name_len_bounds(text: Seq<char>)
    ensures
        name_len(text) <= text.len(),
        forall|k: int| 0 <= k < name_len(text) ==> text[k] != '=',
        name_len(text) < text.len() ==> text[name_len(text) as int] == '=',
    decreases text.len(),
{
    if text.len() > 0 && text[0] != '=' {
        let rest = text.drop_first();
        lemma_name_len_bounds(rest);
        assert forall|k: int| 0 <= k < name_len(text) implies text[k] != '=' by {
            if k > 0 {
                assert(text[k] == rest[k - 1]);
            }
        }
    }
}

/// Of filters with the same tag name the last counts: a filter of `args`
/// behind which none has its name is a filter of the result as it stands.
pub proof fn lemma_last_filter_counts(args: Seq<Seq<char>>, i: int)
    requires
        0 <= i < args.len(),
        forall|j: int| i < j < args.len() ==> filter_name(args[j]) != filter_name(args[i]),
    ensures
        parsed_filters(args).contains_key(filter_name(args[i])),
        parsed_filters(args)[filter_name(args[i])] == filter_values(args[i]),
    decreases args.len(),
{
    if i < args.len() - 1 {
        lemma_last_filter_counts(args.drop_last(), i);
    }
}

/// The tag names of the result are the tag names of `args`.
pub proof fn lemma_parsed_names(args: Seq<Seq<char>>, name: Seq<char>)
    ensures
        parsed_filters(args).contains_key(name) <==> exists|i: int|
            0 <= i < args.len() && filter_name(#[trigger] args[i]) == name,
    decreases args.len(),
{
    if args.len() > 0 {
        let before = args.drop_last();
        lemma_parsed_names(before, name);
        if exists|i: int| 0 <= i < args.len() && filter_name(#[trigger] args[i]) == name {
            let i = choose|i: int| 0 <= i < args.len() && filter_name(#[trigger] args[i]) == name;
            if i < args.len() - 1 {
                assert(filter_name(before[i]) == name);
            }
        }
    }
}

/// Where no two of `args` have the same tag name, an object passes the
/// filters that they stand for exactly where it passes each of them.
pub proof fn lemma_parsed_filters_conjoined(args: Seq<Seq<char>>, tags: TagMap)
    requires
        forall|i: int, j: int| 0 <= i < j < args.len() ==> filter_name(args[i]) != filter_name(args[j]),
    ensures
        filters_match(parsed_filters(args), tags) <==> forall|i: int|
            0 <= i < args.len() ==> satisfies(tags, filter_name(#[trigger] args[i]), filter_values(args[i])),
{
    let filters = parsed_filters(args);
    if filters_match(filters, tags) {
        assert forall|i: int| 0 <= i < args.len() implies satisfies(
            tags,
            filter_name(#[trigger] args[i]),
            filter_values(args[i]),
        ) by {
            lemma_last_filter_counts(args, i);
        }
    }
    if forall|i: int|
        0 <= i < args.len() ==> satisfies(tags, filter_name(#[trigger] args[i]), filter_values(args[i])) {
        assert forall|name: Seq<char>| #[trigger] filters.contains_key(name) implies satisfies(
            tags,
            name,
            filters[name],
        ) by {
            lemma_parsed_names(args, name);
            let i = choose|i: int| 0 <= i < args.len() && filter_name(#[trigger] args[i]) == name;
            lemma_last_filter_counts(args, i);
        }
    }
}

} // verus!
