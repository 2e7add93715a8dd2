//! The library: what was played most, from the history that is kept here.

use crate::desktop::adapters::{duration_text, fmt_duration};
use crate::order::{is_permutation, precedes, sorted_order, SortKey};
use crate::text::cat2;
use vstd::prelude::*;

verus! {

/// What is kept of a place that was played.
pub struct PlayEntry {
    pub place_id: String,
    pub name: String,
    pub playtime_secs: u64,
    pub launches: u32,
}

/// A line of the list of games played most. Its bar is `part / whole` long.
pub struct PlayStat {
    pub id: String,
    pub name: String,
    pub value: String,
    pub part: u64,
    pub whole: u64,
}

/// The library as it is shown.
pub struct LibraryView {
    pub most_played: Vec<PlayStat>,
    pub total_playtime: String,
    pub games_played: usize,
    pub total_launches: u32,
}

/// How many games the list shows.
pub const MOST_PLAYED: usize = 10;

pub open spec fn total_secs(entries: Seq<PlayEntry>) -> nat
    decreases entries.len(),
{
    if entries.len() == 0 {
        0
    } else {
        total_secs(entries.drop_last()) + entries.last().playtime_secs as nat
    }
}

pub open spec fn total_launches(entries: Seq<PlayEntry>) -> nat
    decreases entries.len(),
{
    if entries.len() == 0 {
        0
    } else {
        total_launches(entries.drop_last()) + entries.last().launches as nat
    }
}

/// The entries from the one played longest, equals in the order they had.
pub open spec fn longest_first(order: Seq<usize>, entries: Seq<PlayEntry>) -> bool {
    &&& is_permutation(order, entries.len())
    &&& forall|i: int, j: int|
        0 <= i < j < order.len() ==> {
            let a = entries[(#[trigger] order[i]) as int].playtime_secs;
            let b = entries[(#[trigger] order[j]) as int].playtime_secs;
            a > b || (a == b && order[i] < order[j])
        }
}

/// The name of a game, or its place where it has none.
pub open spec fn entry_name(e: PlayEntry) -> Seq<char> {
    if e.name@.len() == 0 {
        "Place "@ + e.place_id@
    } else {
        e.name@
    }
}

pub open spec fn stat_shows(s: PlayStat, e: PlayEntry, top: u64) -> bool {
    &&& s.id@ == e.place_id@
    &&& s.name@ == entry_name(e)
    &&& s.value@ == duration_text(e.playtime_secs as nat)
    &&& s.part == e.playtime_secs
    &&& s.whole == top
}

/// The library shows these entries, in this order.
pub open spec fn library_shows(v: LibraryView, entries: Seq<PlayEntry>, order: Seq<usize>) -> bool {
    let rows = v.most_played@;
    &&& longest_first(order, entries)
    &&& rows.len() <= entries.len()
    &&& rows.len() <= MOST_PLAYED
    &&& forall|k: int|
        0 <= k < rows.len() ==> stat_shows(
            #[trigger] rows[k],
            entries[order[k] as int],
            entries[order[0] as int].playtime_secs,
        )
    &&& forall|k: int|
        0 <= k < rows.len() ==> entries[(#[trigger] order[k]) as int].playtime_secs > 0
    &&& rows.len() < MOST_PLAYED ==> forall|k: int|
        rows.len() <= k < entries.len() ==> entries[(#[trigger] order[k]) as int].playtime_secs == 0
    &&& v.total_playtime@ == duration_text(total_secs(entries))
    &&& v.games_played == entries.len()
    &&& v.total_launches == total_launches(entries)
}

fn order_of(entries: &Vec<PlayEntry>) -> (order: Vec<usize>)
    ensures
        longest_first(order@, entries@),
{
    let mut keys: Vec<SortKey> = Vec::new();
    let mut i: usize = 0;
    while i < entries.len()
        invariant
            i <= entries.len(),
            keys.len() == i,
            forall|k: int|
                0 <= k < i ==> (#[trigger] keys@[k]).name@.len() == 0 && keys@[k].first == -(
                entries@[k].playtime_secs / 0x1_0000_0000) && keys@[k].second == -(
                entries@[k].playtime_secs % 0x1_0000_0000),
        decreases entries.len() - i,
    {
        let secs: u64 = entries[i].playtime_secs;
        let high: i64 = (secs / 0x1_0000_0000) as i64;
        let low: i64 = (secs % 0x1_0000_0000) as i64;
        keys.push(SortKey { first: -high, second: -low, name: String::new() });
        i = i + 1;
    }
    let order = sorted_order(&keys);
    proof {
        assert forall|i: int, j: int| 0 <= i < j < order.len() implies {
            let a = entries@[(#[trigger] order@[i]) as int].playtime_secs;
            let b = entries@[(#[trigger] order@[j]) as int].playtime_secs;
            a > b || (a == b && order@[i] < order@[j])
        } by {
            let x = order@[i];
            let y = order@[j];
            assert(precedes(keys@, x, y));
            assert(keys@[x as int].name@ =~= keys@[y as int].name@);
            crate::text::lemma_text_le_total(keys@[x as int].name@, keys@[y as int].name@);
        }
    }
    order
}

proof fn lemma_totals_grow(entries: Seq<PlayEntry>, i: int)
    requires
        0 <= i <= entries.len(),
    ensures
        total_secs(entries.take(i)) <= total_secs(entries),
        total_launches(entries.take(i)) <= total_launches(entries),
    decreases entries.len() - i,
{
    if i < entries.len() {
        lemma_totals_grow(entries, i + 1);
        assert(entries.take(i + 1).drop_last() =~= entries.take(i));
    } else {
        assert(entries.take(i) =~= entries);
    }
}

/// The library of these entries. Their order is that in which they are kept.
pub fn render_library(entries: &Vec<PlayEntry>) -> (v: LibraryView)
    requires
        total_secs(entries@) <= u64::MAX,
        total_launches(entries@) <= u32::MAX,
    ensures
        exists|order: Seq<usize>| #[trigger] library_shows(v, entries@, order),
{
    let order = order_of(entries);
    let mut total: u64 = 0;
    let mut launches: u32 = 0;
    let mut i: usize = 0;
    assert(entries@.take(0) =~= Seq::<PlayEntry>::empty());
    while i < entries.len()
        invariant
            i <= entries.len(),
            total_secs(entries@) <= u64::MAX,
            total_launches(entries@) <= u32::MAX,
            total == total_secs(entries@.take(i as int)),
            launches == total_launches(entries@.take(i as int)),
        decreases entries.len() - i,
    {
        assert(entries@.take(i as int + 1).drop_last() =~= entries@.take(i as int));
        proof {
            lemma_totals_grow(entries@, i as int + 1);
        }
        total = total + entries[i].playtime_secs;
        launches = launches + entries[i].launches;
        i = i + 1;
    }
    assert(entries@.take(entries@.len() as int) =~= entries@);
    let mut rows: Vec<PlayStat> = Vec::new();
    let mut k: usize = 0;
    while k < entries.len() && k < MOST_PLAYED && entries[order[k]].playtime_secs > 0
        invariant
            k <= entries.len(),
            k <= MOST_PLAYED,
            rows.len() == k,
            longest_first(order@, entries@),
            forall|j: int|
                0 <= j < k ==> stat_shows(
                    #[trigger] rows@[j],
                    entries@[order@[j] as int],
                    entries@[order@[0] as int].playtime_secs,
                ),
            forall|j: int| 0 <= j < k ==> entries@[(#[trigger] order@[j]) as int].playtime_secs > 0,
        decreases entries.len() - k,
    {
        let e = &entries[order[k]];
        rows.push(
            PlayStat {
                id: e.place_id.clone(),
                name: if e.name.as_str().is_empty() {
                    cat2("Place ", e.place_id.as_str())
                } else {
                    e.name.clone()
                },
                value: fmt_duration(e.playtime_secs),
                part: e.playtime_secs,
                whole: entries[order[0]].playtime_secs,
            },
        );
        k = k + 1;
    }
    let v = LibraryView {
        most_played: rows,
        total_playtime: fmt_duration(total),
        games_played: entries.len(),
        total_launches: launches,
    };
    assert(library_shows(v, entries@, order@));
    v
}

/// What is shown without a history.
pub fn empty_library() -> (v: LibraryView)
    ensures
        v.most_played@.len() == 0,
        v.total_playtime@ == "0m"@,
        v.games_played == 0,
        v.total_launches == 0,
{
    LibraryView {
        most_played: Vec::new(),
        total_playtime: "0m".to_owned(),
        games_played: 0,
        total_launches: 0,
    }
}

/// No bar is longer than the first, and the first is full.
pub proof fn law_bars_are_shares_of_the_longest(
    v: LibraryView,
    entries: Seq<PlayEntry>,
    order: Seq<usize>,
    k: int,
)
    requires
        library_shows(v, entries, order),
        0 <= k < v.most_played@.len(),
    ensures
        0 < v.most_played@[k].part <= v.most_played@[k].whole,
        v.most_played@[0].part == v.most_played@[0].whole,
{
    assert(stat_shows(
        v.most_played@[k],
        entries[order[k] as int],
        entries[order[0] as int].playtime_secs,
    ));
    assert(stat_shows(
        v.most_played@[0],
        entries[order[0] as int],
        entries[order[0] as int].playtime_secs,
    ));
    assert(order[0] < entries.len() && order[k] < entries.len());
}

/// Times and launches add up over the places.
pub proof fn law_totals_add_up(entries: Seq<PlayEntry>, e: PlayEntry)
    ensures
        total_secs(Seq::empty()) == 0,
        total_launches(Seq::empty()) == 0,
        total_secs(entries.push(e)) == total_secs(entries) + e.playtime_secs,
        total_launches(entries.push(e)) == total_launches(entries) + e.launches,
{
    assert(entries.push(e).drop_last() =~= entries);
}

/// The library lists the places played longest first, ten at most and none that was
/// not played; each by its name, or by its number where it has none.
pub proof fn law_what_was_played_longest(
    v: LibraryView,
    entries: Seq<PlayEntry>,
    order: Seq<usize>,
    i: int,
    j: int,
)
    requires
        library_shows(v, entries, order),
        0 <= i < v.most_played@.len(),
    ensures
        ({
            let e = entries[order[i] as int];
            let row = v.most_played@[i];
            &&& order[i] < entries.len()
            &&& row.id@ == e.place_id@
            &&& e.name@.len() > 0 ==> row.name@ == e.name@
            &&& e.name@.len() == 0 ==> row.name@ == "Place "@ + e.place_id@
            &&& row.value@ == duration_text(e.playtime_secs as nat)
            &&& row.part == e.playtime_secs
            &&& e.playtime_secs > 0
            &&& row.whole == v.most_played@[0].part
        }),
        i < j < v.most_played@.len() ==> v.most_played@[i].part >= v.most_played@[j].part,
        v.most_played@.len() <= 10,
        i < j < entries.len() ==> entries[order[i] as int].playtime_secs
            >= entries[order[j] as int].playtime_secs,
        i < j < entries.len() && entries[order[i] as int].playtime_secs
            == entries[order[j] as int].playtime_secs ==> order[i] < order[j],
        v.total_playtime@ == duration_text(total_secs(entries)),
        v.games_played == entries.len(),
        v.total_launches == total_launches(entries),
{
    assert(stat_shows(
        v.most_played@[i],
        entries[order[i] as int],
        entries[order[0] as int].playtime_secs,
    ));
    assert(stat_shows(
        v.most_played@[0],
        entries[order[0] as int],
        entries[order[0] as int].playtime_secs,
    ));
    if i < j < entries.len() {
        assert(order[i] != order[j]);
    }
    if i < j < v.most_played@.len() {
        assert(stat_shows(
            v.most_played@[j],
            entries[order[j] as int],
            entries[order[0] as int].playtime_secs,
        ));
    }
}

} // verus!
