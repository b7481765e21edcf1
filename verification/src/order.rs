//! The order of texts by code point, and sorting by it.

use crate::text::{chars_of, views};
use vstd::prelude::*;

verus! {

/// Whether `a` stands before `b` in the order of their code points.
pub open spec fn precedes(a: Seq<char>, b: Seq<char>) -> bool
    decreases a.len(),
{
    if b.len() == 0 {
        false
    } else if a.len() == 0 {
        true
    } else if a[0] != b[0] {
        a[0] < b[0]
    } else {
        precedes(a.skip(1), b.skip(1))
    }
}

/// Of two texts, one precedes the other unless they are the same.
pub proof fn precedes_is_total(a: Seq<char>, b: Seq<char>)
    ensures
        a == b ==> !precedes(a, b),
        a != b ==> (precedes(a, b) <==> !precedes(b, a)),
    decreases a.len(),
{
    if a.len() > 0 && b.len() > 0 && a[0] == b[0] {
        precedes_is_total(a.skip(1), b.skip(1));
        if a.skip(1) == b.skip(1) {
            assert(a =~= seq![a[0]] + a.skip(1));
            assert(b =~= seq![b[0]] + b.skip(1));
        }
    } else if a.len() == 0 && b.len() == 0 {
        assert(a =~= b);
    }
}

/// A text that precedes a second, which precedes a third, precedes the third.
pub proof fn precedes_is_transitive(a: Seq<char>, b: Seq<char>, c: Seq<char>)
    requires
        precedes(a, b),
        precedes(b, c),
    ensures
        precedes(a, c),
    decreases a.len(),
{
    if a.len() > 0 && b.len() > 0 && c.len() > 0 && a[0] == b[0] && b[0] == c[0] {
        precedes_is_transitive(a.skip(1), b.skip(1), c.skip(1));
    }
}

/// Whether `left` precedes `right`.
pub fn text_precedes(left: &str, right: &str) -> (yes: bool)
    ensures
        yes == precedes(left@, right@),
{
    let a = chars_of(left);
    let b = chars_of(right);
    let mut i: usize = 0;
    assert(a@.skip(0) =~= a@ && b@.skip(0) =~= b@);
    loop
        invariant
            a@ == left@,
            b@ == right@,
            i <= a@.len(),
            i <= b@.len(),
            precedes(left@, right@) == precedes(a@.skip(i as int), b@.skip(i as int)),
        decreases a@.len() - i,
    {
        if i == b.len() {
            return false;
        }
        if i == a.len() {
            return true;
        }
        if a[i] != b[i] {
            return a[i] < b[i];
        }
        assert(a@.skip(i as int).skip(1) =~= a@.skip(i as int + 1));
        assert(b@.skip(i as int).skip(1) =~= b@.skip(i as int + 1));
        i += 1;
    }
}

/// A thing that a text names and orders.
pub trait Named: Sized {
    /// The text that names the thing.
    spec fn key(&self) -> Seq<char>;
}

/// A thing whose name can be read.
pub trait Keyed: Named {
    /// The text that names the thing.
    fn key_text(&self) -> (key: &str)
        ensures
            key@ == self.key(),
    ;
}

/// How many leading items of `sorted` stand before `key`.
pub open spec fn place_of<T: Named>(sorted: Seq<T>, key: Seq<char>) -> int
    decreases sorted.len(),
{
    if sorted.len() == 0 || !precedes(sorted[0].key(), key) {
        0
    } else {
        1 + place_of(sorted.skip(1), key)
    }
}

/// `items` in the order of their keys; items with one key keep their order.
pub open spec fn sorted_by_key<T: Named>(items: Seq<T>) -> Seq<T>
    decreases items.len(),
{
    if items.len() == 0 {
        seq![]
    } else {
        let rest = sorted_by_key(items.skip(1));
        rest.insert(place_of(rest, items[0].key()), items[0])
    }
}

/// Whether no item's key precedes that of an earlier item.
pub open spec fn in_key_order<T: Named>(items: Seq<T>) -> bool {
    forall|i: int, j: int|
        0 <= i < j < items.len() ==> !precedes(
            (#[trigger] items[j]).key(),
            (#[trigger] items[i]).key(),
        )
}

proof fn place_of_bounds<T: Named>(sorted: Seq<T>, key: Seq<char>)
    ensures
        0 <= place_of(sorted, key) <= sorted.len(),
        forall|k: int|
            0 <= k < place_of(sorted, key) ==> precedes((#[trigger] sorted[k]).key(), key),
        place_of(sorted, key) < sorted.len() ==> !precedes(
            sorted[place_of(sorted, key)].key(),
            key,
        ),
    decreases sorted.len(),
{
    if sorted.len() != 0 && precedes(sorted[0].key(), key) {
        place_of_bounds(sorted.skip(1), key);
        assert forall|k: int| 0 <= k < place_of(sorted, key) implies precedes(
            (#[trigger] sorted[k]).key(),
            key,
        ) by {
            if k > 0 {
                assert(sorted.skip(1)[k - 1] == sorted[k]);
            }
        }
    }
}

proof fn place_of_is<T: Named>(sorted: Seq<T>, key: Seq<char>, at: int)
    requires
        0 <= at <= sorted.len(),
        forall|k: int| 0 <= k < at ==> precedes((#[trigger] sorted[k]).key(), key),
        at < sorted.len() ==> !precedes(sorted[at].key(), key),
    ensures
        place_of(sorted, key) == at,
    decreases sorted.len(),
{
    place_of_bounds(sorted, key);
    let other = place_of(sorted, key);
    if other < at {
        assert(precedes(sorted[other].key(), key));
    }
}

/// Sorting keeps the items, and puts them in the order of their keys.
pub proof fn sorted_by_key_is_sorted<T: Named>(items: Seq<T>)
    ensures
        in_key_order(sorted_by_key(items)),
        sorted_by_key(items).to_multiset() == items.to_multiset(),
        sorted_by_key(items).len() == items.len(),
    decreases items.len(),
{
    broadcast use vstd::seq_lib::group_to_multiset_ensures;

    if items.len() == 0 {
        assert(items =~= seq![]);
    } else {
        let rest = sorted_by_key(items.skip(1));
        let item = items[0];
        let at = place_of(rest, item.key());
        sorted_by_key_is_sorted(items.skip(1));
        place_of_bounds(rest, item.key());
        let whole = rest.insert(at, item);
        assert forall|i: int, j: int| 0 <= i < j < whole.len() implies !precedes(
            (#[trigger] whole[j]).key(),
            (#[trigger] whole[i]).key(),
        ) by {
            if i < at && j == at {
                assert(whole[i] == rest[i]);
                assert(precedes(rest[i].key(), item.key()));
                precedes_is_total(rest[i].key(), item.key());
            } else if i == at && j > at {
                assert(whole[j] == rest[j - 1]);
                let here = rest[at].key();
                let there = rest[j - 1].key();
                precedes_is_total(here, item.key());
                precedes_is_total(here, there);
                if j - 1 > at {
                    assert(!precedes(there, here));
                }
                if precedes(there, item.key()) {
                    if here == there {
                    } else {
                        precedes_is_transitive(here, there, item.key());
                    }
                }
            } else {
                let a = if i < at {
                    i
                } else {
                    i - 1
                };
                let b = if j < at {
                    j
                } else {
                    j - 1
                };
                assert(whole[i] == rest[a] && whole[j] == rest[b]);
            }
        }
        assert(rest.insert(at, item).to_multiset() =~= rest.to_multiset().insert(item));
        assert(items =~= seq![item] + items.skip(1));
        assert(items.to_multiset() =~= items.skip(1).to_multiset().insert(item)) by {
            vstd::seq_lib::lemma_multiset_commutative(seq![item], items.skip(1));
            assert(seq![item] =~= Seq::<T>::empty().push(item));
        }
    }
}

/// Whether no two items share a key.
pub open spec fn keys_differ<T: Named>(items: Seq<T>) -> bool {
    forall|i: int, j: int|
        0 <= i < items.len() && 0 <= j < items.len() && i != j ==> (#[trigger] items[i]).key() != (
        #[trigger] items[j]).key()
}

/// Two lists of the same items, in the order of their keys, are one, where the keys differ.
proof fn ordered_lists_agree<T: Named>(a: Seq<T>, b: Seq<T>)
    requires
        in_key_order(a),
        in_key_order(b),
        keys_differ(a),
        a.to_multiset() == b.to_multiset(),
    ensures
        a == b,
    decreases a.len(),
{
    broadcast use vstd::seq_lib::group_to_multiset_ensures;

    assert(a.len() == a.to_multiset().len());
    assert(b.len() == b.to_multiset().len());
    if a.len() == 0 {
        assert(a =~= b);
    } else {
        let x = a[0];
        let y = b[0];
        assert(a.contains(x));
        assert(a.to_multiset().contains(x));
        assert(b.contains(x));
        assert(b.contains(y));
        assert(b.to_multiset().contains(y));
        assert(a.contains(y));
        let i = choose|i: int| 0 <= i < b.len() && b[i] == x;
        let j = choose|j: int| 0 <= j < a.len() && a[j] == y;
        if x != y {
            assert(a[j].key() != a[0].key());
            assert(!precedes(a[j].key(), a[0].key()));
            assert(!precedes(b[i].key(), b[0].key()));
            precedes_is_total(x.key(), y.key());
        }
        let a1 = a.skip(1);
        let b1 = b.skip(1);
        assert(a1 =~= a.remove(0));
        assert(b1 =~= b.remove(0));
        assert forall|p: int, q: int| 0 <= p < q < a1.len() implies !precedes(
            (#[trigger] a1[q]).key(),
            (#[trigger] a1[p]).key(),
        ) by {
            assert(a1[p] == a[p + 1] && a1[q] == a[q + 1]);
        }
        assert forall|p: int, q: int| 0 <= p < q < b1.len() implies !precedes(
            (#[trigger] b1[q]).key(),
            (#[trigger] b1[p]).key(),
        ) by {
            assert(b1[p] == b[p + 1] && b1[q] == b[q + 1]);
        }
        assert forall|p: int, q: int|
            0 <= p < a1.len() && 0 <= q < a1.len() && p != q implies (#[trigger] a1[p]).key() != (
        #[trigger] a1[q]).key() by {
            assert(a1[p] == a[p + 1] && a1[q] == a[q + 1]);
        }
        ordered_lists_agree(a1, b1);
        assert(a =~= seq![x] + a1);
        assert(b =~= seq![y] + b1);
    }
}

/// Sorting keeps keys apart that are.
pub proof fn sorting_keeps_keys_apart<T: Named>(items: Seq<T>)
    requires
        keys_differ(items),
    ensures
        keys_differ(sorted_by_key(items)),
{
    broadcast use vstd::seq_lib::group_to_multiset_ensures;

    let sorted = sorted_by_key(items);
    sorted_by_key_is_sorted(items);
    assert(items.no_duplicates());
    items.lemma_multiset_has_no_duplicates();
    sorted.lemma_multiset_has_no_duplicates_conv();
    assert forall|i: int, j: int|
        0 <= i < sorted.len() && 0 <= j < sorted.len() && i != j implies (
    #[trigger] sorted[i]).key() != (#[trigger] sorted[j]).key() by {
        assert(sorted.contains(sorted[i]) && sorted.contains(sorted[j]));
        assert(items.to_multiset().contains(sorted[i]));
        assert(items.to_multiset().contains(sorted[j]));
        assert(items.contains(sorted[i]) && items.contains(sorted[j]));
        let p = choose|p: int| 0 <= p < items.len() && items[p] == sorted[i];
        let q = choose|q: int| 0 <= q < items.len() && items[q] == sorted[j];
        assert(items[p] != items[q]);
    }
}

/// Items whose keys differ once they are sorted have keys that differ.
pub proof fn keys_apart_before_sorting<T: Named>(items: Seq<T>)
    requires
        keys_differ(sorted_by_key(items)),
    ensures
        keys_differ(items),
{
    broadcast use vstd::seq_lib::group_to_multiset_ensures;

    let sorted = sorted_by_key(items);
    sorted_by_key_is_sorted(items);
    assert(sorted.no_duplicates());
    sorted.lemma_multiset_has_no_duplicates();
    items.lemma_multiset_has_no_duplicates_conv();
    assert forall|i: int, j: int|
        0 <= i < items.len() && 0 <= j < items.len() && i != j implies (
    #[trigger] items[i]).key() != (#[trigger] items[j]).key() by {
        assert(items.contains(items[i]) && items.contains(items[j]));
        assert(sorted.to_multiset().contains(items[i]));
        assert(sorted.to_multiset().contains(items[j]));
        assert(sorted.contains(items[i]) && sorted.contains(items[j]));
        let p = choose|p: int| 0 <= p < sorted.len() && sorted[p] == items[i];
        let q = choose|q: int| 0 <= q < sorted.len() && sorted[q] == items[j];
        assert(items[i] != items[j]);
    }
}

/// Sorting items whose keys differ gives the same list, in whatever order they come.
pub proof fn sorting_ignores_order<T: Named>(a: Seq<T>, b: Seq<T>)
    requires
        a.to_multiset() == b.to_multiset(),
        keys_differ(a),
    ensures
        sorted_by_key(a) == sorted_by_key(b),
{
    sorted_by_key_is_sorted(a);
    sorted_by_key_is_sorted(b);
    sorting_keeps_keys_apart(a);
    ordered_lists_agree(sorted_by_key(a), sorted_by_key(b));
}

/// Sorting items and then taking the view of each is taking the views and sorting those,
/// where a view has the key of its item.
pub proof fn sorting_passes_through_views<T: Named, U: Named>(items: Seq<T>, view: spec_fn(T) -> U)
    requires
        forall|item: T| #[trigger] view(item).key() == item.key(),
    ensures
        sorted_by_key(items).map_values(view) == sorted_by_key(items.map_values(view)),
    decreases items.len(),
{
    let mapped = items.map_values(view);
    if items.len() == 0 {
        assert(sorted_by_key(items).map_values(view) =~= sorted_by_key(mapped));
    } else {
        let rest = sorted_by_key(items.skip(1));
        let item = items[0];
        sorting_passes_through_views(items.skip(1), view);
        assert(mapped.skip(1) =~= items.skip(1).map_values(view));
        place_passes_through_views(rest, item.key(), view);
        place_of_bounds(rest, item.key());
        let at = place_of(rest, item.key());
        assert(rest.insert(at, item).map_values(view) =~= rest.map_values(view).insert(
            at,
            view(item),
        ));
    }
}

proof fn place_passes_through_views<T: Named, U: Named>(
    sorted: Seq<T>,
    key: Seq<char>,
    view: spec_fn(T) -> U,
)
    requires
        forall|item: T| #[trigger] view(item).key() == item.key(),
    ensures
        place_of(sorted.map_values(view), key) == place_of(sorted, key),
    decreases sorted.len(),
{
    if sorted.len() > 0 {
        assert(sorted.map_values(view).skip(1) =~= sorted.skip(1).map_values(view));
        assert(sorted.map_values(view)[0] == view(sorted[0]));
        place_passes_through_views(sorted.skip(1), key, view);
    }
}

/// Whether the keys of neighbours differ.
pub open spec fn neighbours_differ<T: Named>(items: Seq<T>) -> bool {
    forall|i: int| 0 <= i < items.len() - 1 ==> (#[trigger] items[i]).key() != items[i + 1].key()
}

/// In a list in the order of its keys, the keys differ where those of neighbours do.
pub proof fn neighbours_tell_keys_apart<T: Named>(items: Seq<T>)
    requires
        in_key_order(items),
        neighbours_differ(items),
    ensures
        keys_differ(items),
{
    assert forall|i: int, j: int|
        0 <= i < items.len() && 0 <= j < items.len() && i != j implies (
    #[trigger] items[i]).key() != (#[trigger] items[j]).key() by {
        if i < j {
            later_keys_follow(items, i, j);
            precedes_is_total(items[i].key(), items[j].key());
        } else {
            later_keys_follow(items, j, i);
            precedes_is_total(items[i].key(), items[j].key());
        }
    }
}

proof fn later_keys_follow<T: Named>(items: Seq<T>, i: int, j: int)
    requires
        in_key_order(items),
        neighbours_differ(items),
        0 <= i < j < items.len(),
    ensures
        precedes(items[i].key(), items[j].key()),
    decreases j - i,
{
    assert(items[j - 1].key() != items[j - 1 + 1].key());
    assert(!precedes(items[j].key(), items[j - 1].key()));
    precedes_is_total(items[j - 1].key(), items[j].key());
    if i < j - 1 {
        later_keys_follow(items, i, j - 1);
        precedes_is_transitive(items[i].key(), items[j - 1].key(), items[j].key());
    }
}

/// Sorts `items` by their keys.
pub fn sort_by_key<T: Keyed>(items: Vec<T>) -> (out: Vec<T>)
    ensures
        out@ == sorted_by_key(items@),
{
    let mut rest: Vec<T> = items;
    let mut out: Vec<T> = Vec::new();
    assert(items@.skip(items@.len() as int) =~= seq![]);
    loop
        invariant
            rest@ == items@.take(rest@.len() as int),
            rest@.len() <= items@.len(),
            out@ == sorted_by_key(items@.skip(rest@.len() as int)),
        ensures
            rest@.len() == 0,
            out@ == sorted_by_key(items@.skip(0)),
        decreases rest@.len(),
    {
        let ghost before = rest@;
        match rest.pop() {
            None => {
                break;
            },
            Some(item) => {
                let ghost n = before.len() - 1;
                let ghost suffix = items@.skip(n);
                assert(suffix.skip(1) =~= items@.skip(n + 1));
                assert(suffix[0] == item);
                let ghost sorted = out@;
                let mut at: usize = 0;
                while at < out.len() && text_precedes(out[at].key_text(), item.key_text())
                    invariant
                        at <= out@.len(),
                        forall|k: int|
                            0 <= k < at ==> precedes((#[trigger] out@[k]).key(), item.key()),
                    decreases out@.len() - at,
                {
                    at += 1;
                }
                proof {
                    place_of_is(out@, item.key(), at as int);
                }
                out.insert(at, item);
                assert(rest@ =~= items@.take(n as int));
            },
        }
    }
    assert(items@.skip(0) =~= items@);
    out
}

/// Whether each text of `list` precedes the next.
pub open spec fn strictly_increasing(list: Seq<Seq<char>>) -> bool {
    forall|i: int, j: int|
        0 <= i < j < list.len() ==> precedes(#[trigger] list[i], #[trigger] list[j])
}

/// Whether `out` holds the texts of `list`, each once, in order.
pub open spec fn is_sorted_set_of(out: Seq<Seq<char>>, list: Seq<Seq<char>>) -> bool {
    &&& strictly_increasing(out)
    &&& forall|text: Seq<char>| #[trigger] out.contains(text) <==> list.contains(text)
}

/// A sorted list without duplicates is determined by the texts that it holds.
pub proof fn sorted_set_is_unique(a: Seq<Seq<char>>, b: Seq<Seq<char>>)
    requires
        strictly_increasing(a),
        strictly_increasing(b),
        forall|text: Seq<char>| #[trigger] a.contains(text) <==> b.contains(text),
    ensures
        a == b,
    decreases a.len(),
{
    if a.len() == 0 {
        if b.len() > 0 {
            assert(b.contains(b[0]));
            assert(a.contains(b[0]));
        }
        assert(a =~= b);
    } else if b.len() == 0 {
        assert(a.contains(a[0]));
        assert(b.contains(a[0]));
    } else {
        last_is_greatest(a, b);
        last_is_greatest(b, a);
        precedes_is_total(a.last(), b.last());
        let a1 = a.drop_last();
        let b1 = b.drop_last();
        assert forall|text: Seq<char>| #[trigger] a1.contains(text) <==> b1.contains(text) by {
            drop_last_contains(a, text);
            drop_last_contains(b, text);
        }
        sorted_set_is_unique(a1, b1);
        assert(a =~= a1.push(a.last()));
        assert(b =~= b1.push(b.last()));
    }
}

proof fn last_is_greatest(a: Seq<Seq<char>>, b: Seq<Seq<char>>)
    requires
        strictly_increasing(a),
        a.len() > 0,
        b.len() > 0,
        forall|text: Seq<char>| #[trigger] a.contains(text) <==> b.contains(text),
    ensures
        a.last() == b.last() || precedes(b.last(), a.last()),
{
    assert(b.contains(b.last()));
    assert(a.contains(b.last()));
    let i = choose|i: int| 0 <= i < a.len() && a[i] == b.last();
    if i < a.len() - 1 {
        assert(precedes(a[i], a[a.len() - 1]));
    }
}

proof fn drop_last_contains(a: Seq<Seq<char>>, text: Seq<char>)
    requires
        strictly_increasing(a),
        a.len() > 0,
    ensures
        a.drop_last().contains(text) <==> (a.contains(text) && text != a.last()),
{
    let a1 = a.drop_last();
    if a1.contains(text) {
        let i = choose|i: int| 0 <= i < a1.len() && a1[i] == text;
        assert(a[i] == text);
        assert(precedes(a[i], a[a.len() - 1]));
        precedes_is_total(text, a.last());
    }
    if a.contains(text) && text != a.last() {
        let i = choose|i: int| 0 <= i < a.len() && a[i] == text;
        assert(a1[i] == text);
    }
}

impl Named for Seq<char> {
    open spec fn key(&self) -> Seq<char> {
        *self
    }
}

/// The texts of `list`, sorted, each once.
pub open spec fn sorted_set_of(list: Seq<Seq<char>>) -> Seq<Seq<char>> {
    choose|out: Seq<Seq<char>>| is_sorted_set_of(out, list)
}

/// Every list has the list of its texts, sorted, each once.
pub proof fn sorted_set_exists(list: Seq<Seq<char>>)
    ensures
        is_sorted_set_of(sorted_set_of(list), list),
    decreases list.len(),
{
    if list.len() == 0 {
        assert(is_sorted_set_of(list, list));
    } else {
        let earlier = list.drop_last();
        let text = list.last();
        sorted_set_exists(earlier);
        let before = sorted_set_of(earlier);
        assert(list =~= earlier.push(text));
        if before.contains(text) {
            assert forall|x: Seq<char>| #[trigger] before.contains(x) <==> list.contains(x) by {
                push_contains(earlier, text, x);
            }
            assert(is_sorted_set_of(before, list));
        } else {
            let at = place_of(before, text);
            place_of_bounds(before, text);
            if at < before.len() {
                assert(before.contains(before[at]));
            }
            insert_keeps_order(before, text, at);
            let out = before.insert(at, text);
            assert forall|x: Seq<char>| #[trigger] out.contains(x) <==> list.contains(x) by {
                push_contains(earlier, text, x);
                insert_contains(before, at, text, x);
            }
            assert(is_sorted_set_of(out, list));
        }
    }
}

/// The sorted list of the texts of `list` is the only one.
pub proof fn sorted_set_is(out: Seq<Seq<char>>, list: Seq<Seq<char>>)
    requires
        is_sorted_set_of(out, list),
    ensures
        sorted_set_of(list) == out,
{
    sorted_set_is_unique(sorted_set_of(list), out);
}

/// Lists of the same texts, in any order and number, have one sorted list.
pub proof fn same_elements_same_set(a: Seq<Seq<char>>, b: Seq<Seq<char>>)
    requires
        forall|text: Seq<char>| #[trigger] a.contains(text) <==> b.contains(text),
    ensures
        sorted_set_of(a) == sorted_set_of(b),
{
    sorted_set_exists(a);
    let out = sorted_set_of(a);
    assert forall|text: Seq<char>| #[trigger] out.contains(text) <==> b.contains(text) by {
        assert(a.contains(text) <==> b.contains(text));
    }
    sorted_set_is(out, b);
}

/// The texts of `list`, sorted, each once.
pub fn sorted_set(list: &[String]) -> (out: Vec<String>)
    ensures
        is_sorted_set_of(views(out@), views(list@)),
        views(out@) == sorted_set_of(views(list@)),
{
    let mut out: Vec<String> = Vec::new();
    let mut i: usize = 0;
    assert(views(list@).take(0) =~= seq![]);
    while i < list.len()
        invariant
            i <= list@.len(),
            is_sorted_set_of(views(out@), views(list@).take(i as int)),
        decreases list@.len() - i,
    {
        let ghost seen = views(list@).take(i as int);
        let ghost next = views(list@).take(i as int + 1);
        assert(next =~= seen.push(list@[i as int]@));
        let mut at: usize = 0;
        while at < out.len() && text_precedes(out[at].as_str(), list[i].as_str())
            invariant
                i < list@.len(),
                at <= out@.len(),
                forall|k: int|
                    0 <= k < at ==> precedes(#[trigger] views(out@)[k], list@[i as int]@),
            decreases out@.len() - at,
        {
            assert(views(out@)[at as int] == out@[at as int]@);
            at += 1;
        }
        let ghost before = views(out@);
        let ghost text = list@[i as int]@;
        if at < out.len() && out[at] == list[i] {
            proof {
                assert(before[at as int] == text);
                assert(before.contains(text));
                assert forall|x: Seq<char>| #[trigger] before.contains(x) <==> next.contains(x) by {
                    push_contains(seen, text, x);
                }
            }
        } else {
            out.insert(at, list[i].clone());
            proof {
                assert(views(out@) =~= before.insert(at as int, text));
                insert_keeps_order(before, text, at as int);
                assert forall|x: Seq<char>| #[trigger] views(out@).contains(x) <==> next.contains(
                    x,
                ) by {
                    push_contains(seen, text, x);
                    insert_contains(before, at as int, text, x);
                }
            }
        }
        i += 1;
    }
    assert(views(list@).take(list@.len() as int) =~= views(list@));
    proof {
        sorted_set_is(views(out@), views(list@));
    }
    out
}

proof fn push_contains(s: Seq<Seq<char>>, item: Seq<char>, x: Seq<char>)
    ensures
        s.push(item).contains(x) <==> (s.contains(x) || x == item),
{
    let t = s.push(item);
    if s.contains(x) {
        let k = choose|k: int| 0 <= k < s.len() && s[k] == x;
        assert(t[k] == x);
    }
    assert(t[s.len() as int] == item);
}

proof fn insert_contains(s: Seq<Seq<char>>, at: int, item: Seq<char>, x: Seq<char>)
    requires
        0 <= at <= s.len(),
    ensures
        s.insert(at, item).contains(x) <==> (s.contains(x) || x == item),
{
    let t = s.insert(at, item);
    if s.contains(x) {
        let k = choose|k: int| 0 <= k < s.len() && s[k] == x;
        if k < at {
            assert(t[k] == x);
        } else {
            assert(t[k + 1] == x);
        }
    }
    assert(t[at] == item);
    if t.contains(x) && x != item {
        let k = choose|k: int| 0 <= k < t.len() && t[k] == x;
        if k < at {
            assert(s[k] == x);
        } else {
            assert(s[k - 1] == x);
        }
    }
}

proof fn insert_keeps_order(s: Seq<Seq<char>>, item: Seq<char>, at: int)
    requires
        strictly_increasing(s),
        0 <= at <= s.len(),
        forall|k: int| 0 <= k < at ==> precedes(#[trigger] s[k], item),
        at < s.len() ==> !precedes(s[at], item) && s[at] != item,
    ensures
        strictly_increasing(s.insert(at, item)),
{
    let t = s.insert(at, item);
    assert forall|i: int, j: int| 0 <= i < j < t.len() implies precedes(
        #[trigger] t[i],
        #[trigger] t[j],
    ) by {
        if j < at {
            assert(t[i] == s[i] && t[j] == s[j]);
        } else if j == at {
            assert(t[i] == s[i]);
        } else if i == at {
            precedes_is_total(s[at], item);
            if j - 1 > at {
                assert(precedes(s[at], s[j - 1]));
                precedes_is_transitive(item, s[at], s[j - 1]);
            }
        } else {
            let a = if i < at {
                i
            } else {
                i - 1
            };
            assert(t[i] == s[a] && t[j] == s[j - 1]);
        }
    }
}

/// A text precedes another where they agree up to some place, at which the first has ended or
/// has the smaller code point.
pub proof fn precedes_goes_by_code_point(a: Seq<char>, b: Seq<char>, at: int)
    requires
        0 <= at <= a.len(),
        at < b.len(),
        a.take(at) == b.take(at),
        at == a.len() || a[at] < b[at],
    ensures
        precedes(a, b),
        !precedes(b, a),
    decreases a.len(),
{
    if at > 0 {
        assert(a.take(at)[0] == a[0] && b.take(at)[0] == b[0]);
        assert(a.skip(1).take(at - 1) =~= a.take(at).skip(1));
        assert(b.skip(1).take(at - 1) =~= b.take(at).skip(1));
        precedes_goes_by_code_point(a.skip(1), b.skip(1), at - 1);
    }
    precedes_is_total(a, b);
}

/// Sorting leaves what is in order as it is: items with one key keep their order.
pub proof fn sorting_keeps_what_is_sorted<T: Named>(items: Seq<T>)
    requires
        forall|i: int, j: int|
            0 <= i < j < items.len() ==> !precedes(
                (#[trigger] items[j]).key(),
                (#[trigger] items[i]).key(),
            ),
    ensures
        sorted_by_key(items) == items,
    decreases items.len(),
{
    if items.len() > 0 {
        let rest = items.skip(1);
        assert forall|i: int, j: int| 0 <= i < j < rest.len() implies !precedes(
            (#[trigger] rest[j]).key(),
            (#[trigger] rest[i]).key(),
        ) by {
            assert(!precedes(items[j + 1].key(), items[i + 1].key()));
        }
        sorting_keeps_what_is_sorted(rest);
        if rest.len() > 0 {
            assert(!precedes(items[1].key(), items[0].key()));
        }
        assert(place_of(rest, items[0].key()) == 0);
        assert(rest.insert(0, items[0]) =~= items);
    } else {
        assert(sorted_by_key(items) =~= items);
    }
}

/// A sorted list holds the texts that it is made of and no others, and each stands after those
/// that precede it.
pub proof fn sorted_sets_hold_each_text_once(list: Seq<Seq<char>>, text: Seq<char>)
    ensures
        sorted_set_of(list).contains(text) <==> list.contains(text),
        forall|i: int, j: int|
            0 <= i < j < sorted_set_of(list).len() ==> precedes(
                #[trigger] sorted_set_of(list)[i],
                #[trigger] sorted_set_of(list)[j],
            ),
{
    sorted_set_exists(list);
}

} // verus!
