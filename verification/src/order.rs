//! Stable sorting by a key, and cutting a list into batches.

use crate::text::{text_at_most, text_le, lemma_text_le_total, lemma_text_le_trans};
use vstd::prelude::*;

verus! {

/// What a list is sorted by: two numbers, then a text.
pub struct SortKey {
    pub first: i64,
    pub second: i64,
    pub name: String,
}

/// `a` comes before `b`, or the two are equal.
pub open spec fn key_le(a: SortKey, b: SortKey) -> bool {
    ||| a.first < b.first
    ||| a.first == b.first && a.second < b.second
    ||| a.first == b.first && a.second == b.second && text_le(a.name@, b.name@)
}

/// Every index below `n` stands in `order` exactly once.
pub open spec fn is_permutation(order: Seq<usize>, n: nat) -> bool {
    &&& order.len() == n
    &&& forall|i: int| 0 <= i < order.len() ==> #[trigger] order[i] < n
    &&& forall|i: int, j: int|
        0 <= i < j < order.len() ==> #[trigger] order[i] != #[trigger] order[j]
}

/// The indices of `keys` in the order of the keys, equal keys keeping their
/// places relative to each other.
pub open spec fn is_sorted_order(order: Seq<usize>, keys: Seq<SortKey>) -> bool {
    &&& is_permutation(order, keys.len())
    &&& forall|i: int, j: int|
        0 <= i < j < order.len() ==> precedes(keys, #[trigger] order[i], #[trigger] order[j])
}

/// Index `a` belongs before index `b`.
pub open spec fn precedes(keys: Seq<SortKey>, a: usize, b: usize) -> bool {
    key_le(keys[a as int], keys[b as int]) && (key_le(keys[b as int], keys[a as int]) ==> a < b)
}

pub fn key_at_most(a: &SortKey, b: &SortKey) -> (r: bool)
    ensures
        r == key_le(*a, *b),
{
    if a.first != b.first {
        a.first < b.first
    } else if a.second != b.second {
        a.second < b.second
    } else {
        text_at_most(a.name.as_str(), b.name.as_str())
    }
}

proof fn lemma_key_le_trans(a: SortKey, b: SortKey, c: SortKey)
    requires
        key_le(a, b),
        key_le(b, c),
    ensures
        key_le(a, c),
{
    if a.first == b.first && b.first == c.first && a.second == b.second && b.second == c.second {
        lemma_text_le_trans(a.name@, b.name@, c.name@);
    }
}

/// The indices of `keys`, sorted stably.
pub fn sorted_order(keys: &Vec<SortKey>) -> (order: Vec<usize>)
    ensures
        is_sorted_order(order@, keys@),
{
    let mut order: Vec<usize> = Vec::new();
    let mut n: usize = 0;
    while n < keys.len()
        invariant
            n <= keys.len(),
            order.len() == n,
            forall|i: int| 0 <= i < n ==> #[trigger] order@[i] < n,
            forall|i: int, j: int|
                0 <= i < j < n ==> #[trigger] order@[i] != #[trigger] order@[j],
            forall|i: int, j: int|
                0 <= i < j < n ==> precedes(keys@, #[trigger] order@[i], #[trigger] order@[j]),
        decreases keys.len() - n,
    {
        let mut at: usize = n;
        while at > 0 && !key_at_most(&keys[order[at - 1]], &keys[n])
            invariant
                at <= n < keys.len(),
                order.len() == n,
                forall|i: int| 0 <= i < n ==> #[trigger] order@[i] < n,
                forall|i: int| at <= i < n ==> !key_le(keys@[#[trigger] order@[i] as int], keys@[n as int]),
            decreases at,
        {
            at = at - 1;
        }
        let ghost before = order@;
        order.insert(at, n);
        proof {
            lemma_inserted(before, keys@, n, at);
            assert(order@ == before.insert(at as int, n));
        }
        n = n + 1;
    }
    order
}

proof fn lemma_inserted(order: Seq<usize>, keys: Seq<SortKey>, n: usize, at: usize)
    requires
        at <= n < keys.len(),
        order.len() == n,
        forall|i: int| 0 <= i < n ==> #[trigger] order[i] < n,
        forall|i: int, j: int| 0 <= i < j < n ==> #[trigger] order[i] != #[trigger] order[j],
        forall|i: int, j: int|
            0 <= i < j < n ==> precedes(keys, #[trigger] order[i], #[trigger] order[j]),
        forall|i: int| at <= i < n ==> !key_le(keys[#[trigger] order[i] as int], keys[n as int]),
        at > 0 ==> key_le(keys[order[at - 1] as int], keys[n as int]),
    ensures
        ({
            let out = order.insert(at as int, n);
            &&& forall|i: int| 0 <= i < n + 1 ==> #[trigger] out[i] < n + 1
            &&& forall|i: int, j: int|
                0 <= i < j < n + 1 ==> #[trigger] out[i] != #[trigger] out[j]
            &&& forall|i: int, j: int|
                0 <= i < j < n + 1 ==> precedes(keys, #[trigger] out[i], #[trigger] out[j])
        }),
{
    let out = order.insert(at as int, n);
    assert forall|i: int, j: int| 0 <= i < j < n + 1 implies precedes(
        keys,
        #[trigger] out[i],
        #[trigger] out[j],
    ) by {
        let a = if i < at { order[i] } else if i == at { n } else { order[i - 1] };
        let b = if j < at { order[j] } else if j == at { n } else { order[j - 1] };
        assert(out[i] == a && out[j] == b);
        if j == at {
            if i < at - 1 {
                assert(precedes(keys, order[i], order[at - 1]));
                lemma_key_le_trans(
                    keys[order[i] as int],
                    keys[order[at - 1] as int],
                    keys[n as int],
                );
            }
        } else if i == at {
            let k = keys[order[j - 1] as int];
            lemma_text_le_total(k.name@, keys[n as int].name@);
        }
    }
}

/// The list rearranged: the element at `i` is the one that stood at `order[i]`.
pub fn rearranged<T>(list: Vec<T>, order: &Vec<usize>) -> (out: Vec<T>)
    requires
        is_permutation(order@, list@.len()),
    ensures
        out.len() == list.len(),
        forall|i: int| 0 <= i < out.len() ==> #[trigger] out@[i] == list@[order@[i] as int],
{
    let ghost input = list@;
    let mut slots: Vec<Option<T>> = Vec::new();
    let mut list = list;
    while list.len() > 0
        invariant
            slots.len() + list.len() == input.len(),
            forall|k: int| 0 <= k < list.len() ==> list@[k] == input[k],
            forall|k: int|
                0 <= k < slots.len() ==> #[trigger] slots@[k] == Some(input[input.len() - 1 - k]),
        decreases list.len(),
    {
        let x = list.pop();
        slots.push(x);
    }
    let mut out: Vec<T> = Vec::new();
    let mut i: usize = 0;
    while i < order.len()
        invariant
            i <= order.len(),
            order.len() == input.len(),
            slots.len() == input.len(),
            is_permutation(order@, input.len()),
            out.len() == i,
            forall|k: int| 0 <= k < i ==> #[trigger] out@[k] == input[order@[k] as int],
            forall|k: int|
                0 <= k < slots.len() && (forall|q: int|
                    0 <= q < i ==> #[trigger] order@[q] != input.len() - 1 - k) ==> (
                #[trigger] slots@[k]) == Some(input[input.len() - 1 - k]),
        decreases order.len() - i,
    {
        let at: usize = slots.len() - 1 - order[i];
        let ghost before = slots@;
        assert(forall|q: int| 0 <= q < i ==> #[trigger] order@[q] != order@[i as int]);
        assert(before[at as int] == Some(input[order@[i as int] as int]));
        let mut x: Option<T> = None;
        slots.push(x);
        x = slots.swap_remove(at);
        match x {
            Some(y) => {
                out.push(y);
            },
            None => {
                assert(false);
            },
        }
        assert forall|k: int|
            0 <= k < slots.len() && (forall|q: int|
                0 <= q < i + 1 ==> #[trigger] order@[q] != input.len() - 1 - k) implies (
        #[trigger] slots@[k]) == Some(input[input.len() - 1 - k]) by {
            assert(order@[i as int] != input.len() - 1 - k);
            assert(k != at);
            assert(slots@[k] == before[k]);
        }
        i = i + 1;
    }
    out
}

/// A list cut into batches of `size`, the last one possibly shorter.
pub open spec fn batches<T>(s: Seq<T>, size: nat) -> Seq<Seq<T>>
    decreases s.len(),
{
    if s.len() == 0 || size == 0 {
        Seq::empty()
    } else if s.len() <= size {
        seq![s]
    } else {
        seq![s.take(size as int)] + batches(s.skip(size as int), size)
    }
}

pub open spec fn inner<T>(v: Seq<Vec<T>>) -> Seq<Seq<T>> {
    v.map_values(|b: Vec<T>| b@)
}

/// The ids in batches of at most `size`.
pub fn batched(ids: &Vec<i64>, size: usize) -> (out: Vec<Vec<i64>>)
    requires
        size > 0,
    ensures
        inner(out@) == batches(ids@, size as nat),
{
    let mut out: Vec<Vec<i64>> = Vec::new();
    let mut at: usize = 0;
    assert(ids@.skip(0) =~= ids@);
    assert(inner(out@) + batches(ids@, size as nat) =~= batches(ids@, size as nat));
    while at < ids.len()
        invariant
            at <= ids.len(),
            size > 0,
            inner(out@) + batches(ids@.skip(at as int), size as nat) == batches(
                ids@,
                size as nat,
            ),
        decreases ids.len() - at,
    {
        let end: usize = if ids.len() - at > size {
            at + size
        } else {
            ids.len()
        };
        let mut one: Vec<i64> = Vec::new();
        let mut i: usize = at;
        while i < end
            invariant
                at <= i <= end <= ids.len(),
                one@ == ids@.subrange(at as int, i as int),
            decreases end - i,
        {
            one.push(ids[i]);
            assert(one@ =~= ids@.subrange(at as int, i as int + 1));
            i = i + 1;
        }
        let ghost rest = ids@.skip(at as int);
        let ghost before = inner(out@);
        let ghost tail = batches(ids@.skip(end as int), size as nat);
        proof {
            if rest.len() > size {
                assert(rest.take(size as int) =~= one@);
                assert(rest.skip(size as int) =~= ids@.skip(end as int));
            } else {
                assert(rest =~= one@);
                assert(ids@.skip(end as int) =~= Seq::<i64>::empty());
            }
            assert(batches(rest, size as nat) =~= seq![one@] + tail);
        }
        out.push(one);
        assert(inner(out@) =~= before.push(one@));
        assert(before + (seq![one@] + tail) =~= inner(out@) + tail);
        at = end;
    }
    assert(ids@.skip(at as int) =~= Seq::<i64>::empty());
    assert(inner(out@) + batches(ids@.skip(at as int), size as nat) =~= inner(out@));
    out
}

/// Batches lose nothing and keep the order: put end to end they are the list.
/// None is empty, and none is longer than the limit.
pub proof fn law_batches_cover<T>(s: Seq<T>, size: nat)
    requires
        size > 0,
    ensures
        batches(s, size).flatten() == s,
        forall|i: int|
            0 <= i < batches(s, size).len() ==> 0 < (#[trigger] batches(s, size)[i]).len() <= size,
    decreases s.len(),
{
    let b = batches(s, size);
    if s.len() == 0 {
        assert(b.flatten() =~= s);
    } else if s.len() <= size {
        b.lemma_flatten_one_element();
    } else {
        let rest = batches(s.skip(size as int), size);
        law_batches_cover(s.skip(size as int), size);
        assert(b.drop_first() =~= rest);
        assert(b.first() == s.take(size as int));
        assert(b.flatten() =~= s);
        assert forall|i: int| 0 <= i < b.len() implies 0 < (#[trigger] b[i]).len() <= size by {
            if i > 0 {
                assert(b[i] == rest[i - 1]);
            }
        }
    }
}


/// The list back to front.
pub fn flipped<T>(list: Vec<T>) -> (out: Vec<T>)
    ensures
        out@ == list@.reverse(),
{
    let ghost input = list@;
    let mut list = list;
    let mut out: Vec<T> = Vec::new();
    while list.len() > 0
        invariant
            list.len() + out.len() == input.len(),
            forall|k: int| 0 <= k < list.len() ==> list@[k] == input[k],
            forall|k: int| 0 <= k < out.len() ==> #[trigger] out@[k] == input[input.len() - 1 - k],
        decreases list.len(),
    {
        match list.pop() {
            Some(x) => out.push(x),
            None => {},
        }
    }
    assert(out@ =~= input.reverse());
    out
}


/// Every index occurs in a permutation.
pub proof fn lemma_permutation_hits(order: Seq<usize>, n: nat, j: usize)
    requires
        is_permutation(order, n),
        j < n,
    ensures
        exists|p: int| 0 <= p < order.len() && order[p] == j,
{
    if !(exists|p: int| 0 <= p < order.len() && order[p] == j) {
        let ints = order.map_values(|x: usize| x as int);
        assert forall|a: int, b: int| 0 <= a < b < ints.len() implies ints[a] != ints[b] by {
            assert(order[a] != order[b]);
        }
        let range = Set::new(|x: int| 0 <= x < n as int && x != j as int);
        let full = vstd::set_lib::set_int_range(0, n as int);
        vstd::set_lib::lemma_int_range(0, n as int);
        assert(range =~= full.remove(j as int));
        assert(ints.no_duplicates());
        ints.unique_seq_to_set();
        assert(ints.to_set().subset_of(range)) by {
            assert forall|x: int| ints.to_set().contains(x) implies range.contains(x) by {
                let p = choose|p: int| 0 <= p < ints.len() && ints[p] == x;
                assert(order[p] < n);
            }
        }
        vstd::set_lib::lemma_len_subset(ints.to_set(), range);
        assert(false);
    }
}

} // verus!
