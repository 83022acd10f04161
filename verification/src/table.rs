//! Lists of named entries: lookup by name.

use crate::text::{lemma_text_lt_total, lemma_text_lt_transitive, str_eq, str_lt, text_lt};
use vstd::prelude::*;

verus! {

/// The value of the first entry named `key`, if there is one.
pub open spec fn lookup<V>(entries: Seq<(Seq<char>, V)>, key: Seq<char>) -> Option<V> {
    let i = lookup_index(entries, key);
    if i < entries.len() {
        Some(entries[i].1)
    } else {
        None
    }
}

/// The index of the first entry named `key`, or the number of entries.
pub open spec fn lookup_index<V>(entries: Seq<(Seq<char>, V)>, key: Seq<char>) -> int
    decreases entries.len(),
{
    if entries.len() == 0 {
        0
    } else if entries[0].0 == key {
        0
    } else {
        1 + lookup_index(entries.drop_first(), key)
    }
}

/// [`lookup_index`] is the least index of an entry named `key`.
pub proof fn lemma_lookup_index<V>(entries: Seq<(Seq<char>, V)>, key: Seq<char>)
    ensures
        0 <= lookup_index(entries, key) <= entries.len(),
        lookup_index(entries, key) < entries.len() ==> entries[lookup_index(entries, key)].0
            == key,
        forall|i: int| 0 <= i < lookup_index(entries, key) ==> (#[trigger] entries[i]).0 != key,
    decreases entries.len(),
{
    if entries.len() > 0 && entries[0].0 != key {
        let rest = entries.drop_first();
        lemma_lookup_index(rest, key);
        assert forall|i: int| 0 <= i < lookup_index(entries, key) implies (#[trigger] entries[i]).0
            != key by {
            if i > 0 {
                assert(rest[i - 1] == entries[i]);
            }
        }
    }
}

/// An index whose entry is named `key`, with no such entry before it, is
/// [`lookup_index`].
pub proof fn lemma_lookup_index_is<V>(entries: Seq<(Seq<char>, V)>, key: Seq<char>, i: int)
    requires
        0 <= i <= entries.len(),
        i < entries.len() ==> entries[i].0 == key,
        forall|k: int| 0 <= k < i ==> (#[trigger] entries[k]).0 != key,
    ensures
        lookup_index(entries, key) == i,
{
    lemma_lookup_index(entries, key);
}

/// The values of a list of named items, entry by entry.
pub open spec fn named_views<T: View>(entries: Seq<(String, T)>) -> Seq<(Seq<char>, T::V)> {
    Seq::new(entries.len(), |i: int| (entries[i].0@, entries[i].1@))
}

/// The index of the first entry named `key`.
pub fn find<T: View>(entries: &Vec<(String, T)>, key: &str) -> (r: Option<usize>)
    ensures
        match r {
            Some(i) => i < entries.len() && i == lookup_index(named_views(entries@), key@),
            None => lookup_index(named_views(entries@), key@) == entries.len(),
        },
{
    let mut i: usize = 0;
    while i < entries.len()
        invariant
            i <= entries.len(),
            forall|k: int| 0 <= k < i ==> (#[trigger] named_views(entries@)[k]).0 != key@,
        decreases entries.len() - i,
    {
        if str_eq(entries[i].0.as_str(), key) {
            proof {
                lemma_lookup_index_is(named_views(entries@), key@, i as int);
            }
            return Some(i);
        }
        i += 1;
    }
    proof {
        lemma_lookup_index_is(named_views(entries@), key@, i as int);
    }
    None
}

/// Whether the names of the entries stand in strictly rising order.
pub open spec fn strictly_sorted<V>(entries: Seq<(Seq<char>, V)>) -> bool {
    forall|i: int, j: int|
        0 <= i < j < entries.len() ==> text_lt((#[trigger] entries[i]).0, (#[trigger] entries[j]).0)
}

/// The index of the first entry, from `from` on, whose name does not come
/// before `key`, or the number of entries.
pub open spec fn insertion_point<V>(entries: Seq<(Seq<char>, V)>, key: Seq<char>, from: int) -> int
    decreases entries.len() - from,
{
    if from < 0 || from >= entries.len() {
        entries.len() as int
    } else if !text_lt(entries[from].0, key) {
        from
    } else {
        insertion_point(entries, key, from + 1)
    }
}

/// The entries with one more, put before the first whose name does not come
/// before its name.
pub open spec fn inserted<V>(entries: Seq<(Seq<char>, V)>, key: Seq<char>, value: V) -> Seq<
    (Seq<char>, V),
> {
    entries.insert(insertion_point(entries, key, 0), (key, value))
}

/// The entries put in the order of their names, one after the other; `None`
/// where a name occurs twice.
pub open spec fn sorted_by_name<V>(entries: Seq<(Seq<char>, V)>) -> Option<Seq<(Seq<char>, V)>>
    decreases entries.len(),
{
    if entries.len() == 0 {
        Some(seq![])
    } else {
        match sorted_by_name(entries.drop_last()) {
            None => None,
            Some(before) => if lookup_index(before, entries.last().0) < before.len() {
                None
            } else {
                Some(inserted(before, entries.last().0, entries.last().1))
            },
        }
    }
}

/// [`insertion_point`] is the least index, from `from` on, of an entry whose
/// name does not come before `key`.
pub proof fn lemma_insertion_point<V>(entries: Seq<(Seq<char>, V)>, key: Seq<char>, from: int)
    requires
        0 <= from <= entries.len(),
    ensures
        from <= insertion_point(entries, key, from) <= entries.len(),
        insertion_point(entries, key, from) < entries.len() ==> !text_lt(
            entries[insertion_point(entries, key, from)].0,
            key,
        ),
        forall|k: int|
            from <= k < insertion_point(entries, key, from) ==> text_lt(
                (#[trigger] entries[k]).0,
                key,
            ),
    decreases entries.len() - from,
{
    if from < entries.len() && text_lt(entries[from].0, key) {
        lemma_insertion_point(entries, key, from + 1);
    }
}

/// Putting a new name into a sorted list keeps the list sorted.
pub proof fn lemma_inserted_is_sorted<V>(entries: Seq<(Seq<char>, V)>, key: Seq<char>, value: V)
    requires
        strictly_sorted(entries),
        lookup_index(entries, key) == entries.len(),
    ensures
        strictly_sorted(inserted(entries, key, value)),
{
    let p = insertion_point(entries, key, 0);
    lemma_insertion_point(entries, key, 0);
    lemma_lookup_index(entries, key);
    assert forall|j: int| p <= j < entries.len() implies text_lt(key, (#[trigger] entries[j]).0) by {
        lemma_text_lt_total(entries[p].0, key);
        if p < j {
            lemma_text_lt_transitive(key, entries[p].0, entries[j].0);
        }
    }
}

/// What [`sorted_by_name`] returns is sorted by name.
pub proof fn lemma_sorted_by_name<V>(entries: Seq<(Seq<char>, V)>)
    ensures
        sorted_by_name(entries) is Some ==> strictly_sorted(sorted_by_name(entries).unwrap())
            && sorted_by_name(entries).unwrap().len() == entries.len(),
    decreases entries.len(),
{
    if entries.len() > 0 {
        lemma_sorted_by_name(entries.drop_last());
        if sorted_by_name(entries) is Some {
            let before = sorted_by_name(entries.drop_last()).unwrap();
            lemma_lookup_index(before, entries.last().0);
            lemma_insertion_point(before, entries.last().0, 0);
            lemma_inserted_is_sorted(before, entries.last().0, entries.last().1);
        }
    }
}

/// The place of a name in a list in the order of names.
fn find_place<T: View>(entries: &Vec<(String, T)>, key: &str) -> (i: usize)
    ensures
        i <= entries.len(),
        i == insertion_point(named_views(entries@), key@, 0),
{
    let ghost before = named_views(entries@);
    let mut i: usize = 0;
    while i < entries.len()
        invariant
            i <= entries.len(),
            before == named_views(entries@),
            insertion_point(before, key@, 0) == insertion_point(before, key@, i as int),
        decreases entries.len() - i,
    {
        if !str_lt(entries[i].0.as_str(), key) {
            return i;
        }
        i += 1;
    }
    i
}

/// Puts an entry into a list at its place in the order of names.
pub fn insert_sorted<T: View>(entries: &mut Vec<(String, T)>, key: String, value: T)
    ensures
        named_views(final(entries)@) == inserted(named_views(old(entries)@), key@, value@),
{
    let i = find_place(entries, key.as_str());
    entries.insert(i, (key, value));
}

/// Where a name occurs twice among the first entries, it does so among all.
pub proof fn lemma_sorted_by_name_of_prefix<V>(entries: Seq<(Seq<char>, V)>, k: int)
    requires
        0 <= k <= entries.len(),
        sorted_by_name(entries.take(k)) is None,
    ensures
        sorted_by_name(entries) is None,
    decreases entries.len() - k,
{
    if k < entries.len() {
        let next = entries.take(k + 1);
        assert(next.drop_last() =~= entries.take(k));
        lemma_sorted_by_name_of_prefix(entries, k + 1);
    } else {
        assert(entries.take(k) =~= entries);
    }
}

/// What holds of every entry holds of every entry after sorting.
pub proof fn lemma_sorted_by_name_keeps<V>(
    entries: Seq<(Seq<char>, V)>,
    holds: spec_fn((Seq<char>, V)) -> bool,
)
    requires
        sorted_by_name(entries) is Some,
        forall|j: int| 0 <= j < entries.len() ==> holds(#[trigger] entries[j]),
    ensures
        forall|i: int|
            0 <= i < sorted_by_name(entries).unwrap().len() ==> holds(
                #[trigger] sorted_by_name(entries).unwrap()[i],
            ),
    decreases entries.len(),
{
    if entries.len() > 0 {
        let rest = entries.drop_last();
        lemma_sorted_by_name_keeps(rest, holds);
        let before = sorted_by_name(rest).unwrap();
        lemma_insertion_point(before, entries.last().0, 0);
    }
}

/// Looking a name up in a list with one more entry at its end.
pub proof fn lemma_lookup_push<V>(entries: Seq<(Seq<char>, V)>, key: Seq<char>)
    requires
        entries.len() > 0,
    ensures
        lookup(entries, key) == (if lookup(entries.drop_last(), key) is Some {
            lookup(entries.drop_last(), key)
        } else if entries.last().0 == key {
            Some(entries.last().1)
        } else {
            None
        }),
{
    let rest = entries.drop_last();
    lemma_lookup_index(rest, key);
    let j = lookup_index(rest, key);
    assert forall|k: int| 0 <= k < j implies (#[trigger] entries[k]).0 != key by {
        assert(entries[k] == rest[k]);
    }
    if j < rest.len() {
        lemma_lookup_index_is(entries, key, j);
    } else if entries.last().0 == key {
        lemma_lookup_index_is(entries, key, j);
    } else {
        lemma_lookup_index_is(entries, key, j + 1);
    }
}

/// Looking a name up in a list without its first entry.
pub proof fn lemma_lookup_rest<V>(entries: Seq<(Seq<char>, V)>, key: Seq<char>)
    requires
        entries.len() > 0,
        entries[0].0 != key,
    ensures
        lookup(entries, key) == lookup(entries.drop_first(), key),
{
    let rest = entries.drop_first();
    lemma_lookup_index(rest, key);
}

/// Looking a name up in a sorted list after one more entry was put in.
pub proof fn lemma_lookup_inserted<V>(
    entries: Seq<(Seq<char>, V)>,
    key: Seq<char>,
    value: V,
    other: Seq<char>,
)
    requires
        lookup_index(entries, key) == entries.len(),
    ensures
        lookup(inserted(entries, key, value), other) == (if other == key {
            Some(value)
        } else {
            lookup(entries, other)
        }),
{
    let p = insertion_point(entries, key, 0);
    let after = inserted(entries, key, value);
    lemma_insertion_point(entries, key, 0);
    lemma_lookup_index(entries, other);
    let j = lookup_index(entries, other);
    if other == key {
        lemma_lookup_index_is(after, other, p);
    } else {
        let at = if j < p {
            j
        } else {
            j + 1
        };
        lemma_lookup_index_is(after, other, at);
    }
}

/// Sorting keeps what stands under each name.
pub proof fn lemma_sorted_by_name_lookup<V>(entries: Seq<(Seq<char>, V)>, key: Seq<char>)
    requires
        sorted_by_name(entries) is Some,
    ensures
        lookup(sorted_by_name(entries).unwrap(), key) == lookup(entries, key),
    decreases entries.len(),
{
    if entries.len() > 0 {
        let rest = entries.drop_last();
        let before = sorted_by_name(rest).unwrap();
        let last = entries.last();
        lemma_sorted_by_name_lookup(rest, key);
        lemma_lookup_index(before, last.0);
        lemma_lookup_inserted(before, last.0, last.1, key);
        lemma_lookup_push(entries, key);
    }
}

/// Two sorted lists that hold the same under every name are the same list.
pub proof fn lemma_sorted_lists_agree<V>(a: Seq<(Seq<char>, V)>, b: Seq<(Seq<char>, V)>)
    requires
        strictly_sorted(a),
        strictly_sorted(b),
        forall|key: Seq<char>| #[trigger] lookup(a, key) == lookup(b, key),
    ensures
        a == b,
    decreases a.len(),
{
    if a.len() > 0 && b.len() > 0 {
        assert(lookup(a, a[0].0) == lookup(b, a[0].0));
        assert(lookup(a, b[0].0) == lookup(b, b[0].0));
        lemma_lookup_index(b, a[0].0);
        lemma_lookup_index(a, b[0].0);
        let i = lookup_index(b, a[0].0);
        let j = lookup_index(a, b[0].0);
        assert(a[0].0 == b[0].0) by {
            if i > 0 && j > 0 {
                lemma_text_lt_transitive(b[0].0, b[i].0, a[j].0);
                lemma_text_lt_total(b[0].0, b[0].0);
            }
        }
        let ra = a.drop_first();
        let rb = b.drop_first();
        assert forall|key: Seq<char>| #[trigger] lookup(ra, key) == lookup(rb, key) by {
            if key == a[0].0 {
                lemma_lookup_index(ra, key);
                lemma_lookup_index(rb, key);
                let x = lookup_index(ra, key);
                let y = lookup_index(rb, key);
                if x < ra.len() {
                    lemma_text_lt_total(key, key);
                }
                if y < rb.len() {
                    lemma_text_lt_total(key, key);
                }
            } else {
                lemma_lookup_rest(a, key);
                lemma_lookup_rest(b, key);
            }
        }
        lemma_sorted_lists_agree(ra, rb);
        assert(b =~= seq![b[0]] + rb);
    }
}

/// The order in which the entries are listed does not matter: two lists
/// that hold the same under every name come out of the sorting as the same
/// list.
pub proof fn lemma_order_of_source_is_irrelevant<V>(a: Seq<(Seq<char>, V)>, b: Seq<(Seq<char>, V)>)
    requires
        sorted_by_name(a) is Some,
        sorted_by_name(b) is Some,
        forall|key: Seq<char>| #[trigger] lookup(a, key) == lookup(b, key),
    ensures
        sorted_by_name(a) == sorted_by_name(b),
{
    let sa = sorted_by_name(a).unwrap();
    let sb = sorted_by_name(b).unwrap();
    lemma_sorted_by_name(a);
    lemma_sorted_by_name(b);
    assert forall|key: Seq<char>| #[trigger] lookup(sa, key) == lookup(sb, key) by {
        lemma_sorted_by_name_lookup(a, key);
        lemma_sorted_by_name_lookup(b, key);
    }
    lemma_sorted_lists_agree(sa, sb);
}

/// Whether the names of the entries stand in strictly rising order.
pub fn is_strictly_sorted<T: View>(entries: &Vec<(String, T)>) -> (r: bool)
    ensures
        r == strictly_sorted(named_views(entries@)),
{
    let ghost views = named_views(entries@);
    let mut i: usize = 1;
    while i < entries.len()
        invariant
            1 <= i,
            views == named_views(entries@),
            forall|a: int, b: int|
                0 <= a < b < i && b < views.len() ==> text_lt(
                    (#[trigger] views[a]).0,
                    (#[trigger] views[b]).0,
                ),
        decreases entries.len() - i,
    {
        assert(views[i - 1].0 == entries@[i - 1].0@ && views[i as int].0 == entries@[i as int].0@);
        if !str_lt(entries[i - 1].0.as_str(), entries[i].0.as_str()) {
            return false;
        }
        proof {
            assert forall|a: int, b: int| 0 <= a < b < i + 1 && b < views.len() implies text_lt(
                (#[trigger] views[a]).0,
                (#[trigger] views[b]).0,
            ) by {
                if b == i && a < i - 1 {
                    lemma_text_lt_transitive(views[a].0, views[i - 1].0, views[i as int].0);
                }
            }
        }
        i += 1;
    }
    true
}

} // verus!
