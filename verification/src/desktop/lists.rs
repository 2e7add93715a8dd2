//! Lists of ids that the user keeps: pins, subscriptions and the like.

use crate::text::{is_listed, lists, same, texts};
use vstd::prelude::*;

verus! {

/// The list with a text at its end, unless it is there already.
pub open spec fn with_text(list: Seq<Seq<char>>, t: Seq<char>) -> Seq<Seq<char>> {
    if list.contains(t) {
        list
    } else {
        list.push(t)
    }
}

/// The list without a text, wherever it stood.
pub open spec fn without_text(list: Seq<Seq<char>>, t: Seq<char>) -> Seq<Seq<char>>
    decreases list.len(),
{
    if list.len() == 0 {
        Seq::empty()
    } else {
        let before = without_text(list.drop_last(), t);
        if list.last() == t {
            before
        } else {
            before.push(list.last())
        }
    }
}

/// The list with a text put in or taken out: out where it stands first, in at
/// the end.
pub open spec fn toggled_text(list: Seq<Seq<char>>, t: Seq<char>) -> Seq<Seq<char>> {
    if list.contains(t) {
        list.remove(list.index_of_first(t)->0)
    } else {
        list.push(t)
    }
}

pub proof fn lemma_lists(list: Seq<String>, t: Seq<char>)
    ensures
        lists(list, t) == texts(list).contains(t),
{
    if lists(list, t) {
        let i = choose|i: int| 0 <= i < list.len() && (#[trigger] list[i])@ == t;
        assert(texts(list)[i] == t);
    }
    if texts(list).contains(t) {
        let i = choose|i: int| 0 <= i < texts(list).len() && texts(list)[i] == t;
        assert(list[i]@ == t);
    }
}

/// Put a text at the end of a list, unless it is there already.
pub fn add_text(list: &mut Vec<String>, t: &str)
    ensures
        texts(final(list)@) == with_text(texts(old(list)@), t@),
{
    let ghost before = list@;
    proof {
        lemma_lists(before, t@);
    }
    if !is_listed(list, t) {
        list.push(t.to_owned());
        assert(texts(list@) =~= texts(before).push(t@));
    }
}

/// Take a text out of a list, wherever it stands.
pub fn drop_text(list: &mut Vec<String>, t: &str)
    ensures
        texts(final(list)@) == without_text(texts(old(list)@), t@),
{
    let ghost before = texts(list@);
    let mut kept: Vec<String> = Vec::new();
    let mut i: usize = 0;
    assert(before.take(0) =~= Seq::<Seq<char>>::empty());
    assert(texts(kept@) =~= Seq::<Seq<char>>::empty());
    while i < list.len()
        invariant
            i <= list.len(),
            before == texts(list@),
            texts(kept@) == without_text(before.take(i as int), t@),
        decreases list.len() - i,
    {
        assert(before.take(i as int + 1).drop_last() =~= before.take(i as int));
        assert(before.take(i as int + 1).last() == list@[i as int]@);
        let ghost so_far = kept@;
        if !same(list[i].as_str(), t) {
            kept.push(list[i].clone());
            assert(texts(kept@) =~= texts(so_far).push(list@[i as int]@));
        }
        i = i + 1;
    }
    assert(before.take(before.len() as int) =~= before);
    *list = kept;
}

/// Where a text stands first in a list.
fn first_place(list: &Vec<String>, t: &str) -> (r: Option<usize>)
    ensures
        match r {
            Some(i) => i < list.len() && texts(list@)[i as int] == t@ && forall|k: int|
                0 <= k < i ==> texts(list@)[k] != t@,
            None => !texts(list@).contains(t@),
        },
{
    let mut i: usize = 0;
    while i < list.len()
        invariant
            i <= list.len(),
            forall|k: int| 0 <= k < i ==> texts(list@)[k] != t@,
        decreases list.len() - i,
    {
        if same(list[i].as_str(), t) {
            return Some(i);
        }
        i = i + 1;
    }
    None
}

/// Put a text into a list, or take it out.
pub fn toggle_text(list: &mut Vec<String>, t: &str)
    ensures
        texts(final(list)@) == toggled_text(texts(old(list)@), t@),
{
    let ghost before = list@;
    match first_place(list, t) {
        Some(i) => {
            proof {
                let v = texts(before);
                v.index_of_first_ensures(t@);
                let k = v.index_of_first(t@)->0;
                assert(v[i as int] == t@);
                assert(v.contains(t@));
                assert(k == i);
            }
            list.remove(i);
            assert(texts(list@) =~= texts(before).remove(i as int));
        },
        None => {
            list.push(t.to_owned());
            assert(texts(list@) =~= texts(before).push(t@));
        },
    }
}

/// Putting a text in and taking it out again leaves the list as it was.
pub proof fn law_toggling_twice_changes_nothing(list: Seq<Seq<char>>, t: Seq<char>)
    requires
        !list.contains(t),
    ensures
        toggled_text(toggled_text(list, t), t) == list,
        toggled_text(list, t).contains(t),
{
    let once = list.push(t);
    assert(once[list.len() as int] == t);
    once.index_of_first_ensures(t);
    let k = once.index_of_first(t)->0;
    assert(k == list.len()) by {
        if k < list.len() {
            assert(list[k] == t);
        }
    }
    assert(once.remove(k) =~= list);
}

/// A text that was taken out is not there any more, and every other text is.
pub proof fn law_dropped_texts_are_gone(list: Seq<Seq<char>>, t: Seq<char>, other: Seq<char>)
    ensures
        !without_text(list, t).contains(t),
        other != t ==> without_text(list, t).contains(other) == list.contains(other),
    decreases list.len(),
{
    if list.len() > 0 {
        let head = list.drop_last();
        law_dropped_texts_are_gone(head, t, other);
        let before = without_text(head, t);
        if list.contains(other) && other != t {
            let i = choose|i: int| 0 <= i < list.len() && list[i] == other;
            if i < head.len() {
                assert(head[i] == other);
                let k = choose|k: int| 0 <= k < before.len() && before[k] == other;
                if list.last() != t {
                    assert(before.push(list.last())[k] == other);
                }
            } else {
                assert(before.push(list.last())[before.len() as int] == other);
            }
        }
        if without_text(list, t).contains(other) {
            let k = choose|k: int|
                0 <= k < without_text(list, t).len() && without_text(list, t)[k] == other;
            if k < before.len() {
                assert(before[k] == other);
                if other != t {
                    let i = choose|i: int| 0 <= i < head.len() && head[i] == other;
                    assert(list[i] == other);
                }
            } else {
                assert(list[list.len() - 1] == other);
            }
        }
        if without_text(list, t).contains(t) {
            let k = choose|k: int|
                0 <= k < without_text(list, t).len() && without_text(list, t)[k] == t;
            if k < before.len() {
                assert(before[k] == t);
            }
        }
    }
}

/// What is put into a list is there once more than before at most, at its end, and
/// everything else stays where it is.
pub proof fn law_added_texts_are_there(list: Seq<Seq<char>>, t: Seq<char>)
    ensures
        with_text(list, t).contains(t),
        list.is_prefix_of(with_text(list, t)),
        list.contains(t) ==> with_text(list, t) == list,
        !list.contains(t) ==> with_text(list, t) == list.push(t),
{
    if !list.contains(t) {
        assert(list.push(t)[list.len() as int] == t);
    }
    assert(list =~= with_text(list, t).subrange(0, list.len() as int));
}

/// Taking a text out keeps the others in their order.
pub proof fn law_dropping_keeps_the_order(list: Seq<Seq<char>>, t: Seq<char>)
    ensures
        without_text(list, t) == list.filter(|x: Seq<char>| x != t),
    decreases list.len(),
{
    reveal(Seq::filter);
    if list.len() > 0 {
        law_dropping_keeps_the_order(list.drop_last(), t);
    }
    assert(without_text(list, t) =~= list.filter(|x: Seq<char>| x != t));
}

} // verus!
