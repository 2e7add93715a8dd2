//! The playtime chart.
//!
//! The window fits the data: a short history is drawn in hours, a longer one in
//! days, and never more of them than are kept. A game keeps one tint over the
//! whole chart, by its rank over all of it, so that the eye can follow it.

use crate::desktop::adapters::{duration_text, fmt_duration};
use crate::number::{decimal, nat_text};
use crate::text::{cat2, cat3, trim, trimmed};
use vstd::prelude::*;

verus! {

/// How many tints there are before the last is used again.
pub const TINTS: usize = 6;

/// The time spent in one game.
#[derive(Debug, Clone)]
pub struct GameTime {
    pub universe_id: i64,
    pub name: String,
    pub secs: u64,
}

/// One column: the time of an hour or a day.
#[derive(Debug, Clone)]
pub struct TimeBucket {
    pub label: String,
    pub total_secs: u64,
    /// The games, most played first.
    pub games: Vec<GameTime>,
}

/// A slice of a column. It starts `start_secs` above the axis and is `size_secs`
/// high, on a scale of `ceiling_secs`.
pub struct GraphSegment {
    pub day: i32,
    pub start_secs: u64,
    pub size_secs: u64,
    pub ceiling_secs: u64,
    pub tint: i32,
    pub name: String,
    pub label: String,
    pub day_label: String,
    /// The slice is the highest of its column.
    pub top: bool,
}

pub struct GraphDay {
    pub label: String,
    pub total: String,
    pub played: bool,
}

pub struct GraphLegend {
    pub name: String,
    pub label: String,
    pub tint: i32,
}

/// Everything the chart shows.
pub struct GraphModel {
    pub segments: Vec<GraphSegment>,
    pub days: Vec<GraphDay>,
    pub legend: Vec<GraphLegend>,
    pub ceiling: String,
    pub total: String,
    pub range: String,
    pub empty: bool,
}

/// The window of the chart.
#[derive(Debug, Clone, Copy, PartialEq, Eq, Structural)]
pub enum Window {
    Hours(i64),
    Days(u32),
}

pub open spec fn clamped(n: int, low: int, high: int) -> int {
    if n < low {
        low
    } else if n > high {
        high
    } else {
        n
    }
}

/// The window for a history that spans `span` seconds: hours below two days,
/// with a few more for context, else days with two more, and never more days
/// than are kept. Without any history it is a week.
pub open spec fn window_for(any: bool, span: int, retention_days: u32) -> Window {
    if any && span < 172_800 {
        Window::Hours(clamped(span / 3_600 + 4, 6, 48) as i64)
    } else if any {
        let days = (span / 86_400 + 2) % 0x1_0000_0000;
        let most = if retention_days < 1 {
            1
        } else {
            retention_days
        };
        Window::Days(if days < most { days as u32 } else { most })
    } else {
        Window::Days(7)
    }
}

/// The window that fits a history.
pub fn graph_window(any: bool, span: i64, retention_days: u32) -> (w: Window)
    requires
        span >= 0,
    ensures
        w == window_for(any, span as int, retention_days),
{
    if any && span < 172_800 {
        let hours: i64 = span / 3_600 + 4;
        Window::Hours(
            if hours < 6 {
                6
            } else if hours > 48 {
                48
            } else {
                hours
            },
        )
    } else if any {
        let days: u64 = (span as u64 / 86_400 + 2) % 0x1_0000_0000;
        let most: u32 = if retention_days < 1 {
            1
        } else {
            retention_days
        };
        Window::Days(
            if days < most as u64 {
                days as u32
            } else {
                most
            },
        )
    } else {
        Window::Days(7)
    }
}

/// A window of hours is of six to forty-eight. A window of days never exceeds the
/// days that are kept, or one where none is; without any history it is a week.
pub proof fn law_the_window_fits(any: bool, span: int, retention_days: u32)
    requires
        0 <= span <= i64::MAX,
    ensures
        match window_for(any, span, retention_days) {
            Window::Hours(h) => any && span < 172_800 && 6 <= h <= 48,
            Window::Days(d) => if any {
                d <= retention_days || d <= 1
            } else {
                d == 7
            },
        },
{
}

/// Where a game stands last in the ranking.
pub open spec fn rank_in(overall: Seq<GameTime>, universe: i64) -> Option<int>
    decreases overall.len(),
{
    if overall.len() == 0 {
        None
    } else if overall.last().universe_id == universe {
        Some(overall.len() - 1)
    } else {
        rank_in(overall.drop_last(), universe)
    }
}

/// A game's tint: its rank, and the last tint from there on.
pub open spec fn tint_for(overall: Seq<GameTime>, universe: i64, unknown: i32) -> i32 {
    match rank_in(overall, universe) {
        Some(i) => if i < TINTS - 1 {
            i as i32
        } else {
            (TINTS - 1) as i32
        },
        None => unknown,
    }
}

fn tint_of(overall: &Vec<GameTime>, universe: i64, unknown: i32) -> (t: i32)
    ensures
        t == tint_for(overall@, universe, unknown),
{
    let mut n: usize = overall.len();
    assert(overall@.take(overall@.len() as int) =~= overall@);
    while n > 0
        invariant
            n <= overall.len(),
            rank_in(overall@, universe) == rank_in(overall@.take(n as int), universe),
        decreases n,
    {
        assert(overall@.take(n as int).last() == overall@[n - 1]);
        assert(overall@.take(n as int).drop_last() =~= overall@.take(n - 1));
        if overall[n - 1].universe_id == universe {
            let i: usize = n - 1;
            return if i < TINTS - 1 {
                i as i32
            } else {
                5
            };
        }
        n = n - 1;
    }
    unknown
}

/// A game's name, or words for one that is hidden.
pub open spec fn label_for(name: Seq<char>) -> Seq<char> {
    if trimmed(name).len() == 0 {
        "Hidden game"@
    } else {
        name
    }
}

/// A name for a game the platform would not identify.
pub fn game_label(name: &str) -> (r: String)
    ensures
        r@ == label_for(name@),
{
    if trim(name).as_str().is_empty() {
        "Hidden game".to_owned()
    } else {
        name.to_owned()
    }
}

/// The games of a column that take any time, by their place in it.
pub open spec fn drawn(games: Seq<GameTime>) -> Seq<int>
    decreases games.len(),
{
    if games.len() == 0 {
        Seq::empty()
    } else {
        let earlier = drawn(games.drop_last());
        if games.last().secs > 0 {
            earlier.push(games.len() - 1)
        } else {
            earlier
        }
    }
}

/// The time of the first `n` games.
pub open spec fn secs_before(games: Seq<GameTime>, n: int) -> nat
    decreases n,
{
    if n <= 0 {
        0
    } else {
        secs_before(games, n - 1) + games[n - 1].secs as nat
    }
}

/// The slices of the columns below `n`: column and place in it.
pub open spec fn slices(buckets: Seq<TimeBucket>, n: nat) -> Seq<(int, int)>
    decreases n,
{
    if n == 0 {
        Seq::empty()
    } else {
        slices(buckets, (n - 1) as nat) + drawn(buckets[n - 1].games@).map_values(
            |g: int| (n - 1, g),
        )
    }
}

/// The slice shows this game of this column.
pub open spec fn segment_shows(
    s: GraphSegment,
    buckets: Seq<TimeBucket>,
    overall: Seq<GameTime>,
    ceiling: u64,
    at: (int, int),
) -> bool {
    let b = buckets[at.0];
    let g = b.games@[at.1];
    &&& s.day == at.0
    &&& s.start_secs == secs_before(b.games@, at.1)
    &&& s.size_secs == g.secs
    &&& s.ceiling_secs == ceiling
    &&& s.tint == tint_for(overall, g.universe_id, (TINTS - 1) as i32)
    &&& s.name@ == label_for(g.name@)
    &&& s.label@ == duration_text(g.secs as nat)
    &&& s.day_label@ == b.label@
    &&& s.top == (drawn(b.games@).last() == at.1)
}

/// How many columns there are for each label.
pub open spec fn stride(n: nat) -> nat {
    if n / 12 < 1 {
        1
    } else {
        n / 12
    }
}

pub open spec fn day_shows(d: GraphDay, b: TimeBucket, i: int, n: nat) -> bool {
    &&& d.label@ == (if i % stride(n) as int == 0 || n <= 12 {
        b.label@
    } else {
        Seq::empty()
    })
    &&& d.total@ == duration_text(b.total_secs as nat)
    &&& d.played == (b.total_secs > 0)
}

pub open spec fn total_of(buckets: Seq<TimeBucket>) -> nat
    decreases buckets.len(),
{
    if buckets.len() == 0 {
        0
    } else {
        total_of(buckets.drop_last()) + buckets.last().total_secs as nat
    }
}

/// No more than the first `n`.
pub open spec fn at_most(s: Seq<int>, n: nat) -> Seq<int> {
    if s.len() > n {
        s.take(n as int)
    } else {
        s
    }
}

pub open spec fn legend_shows(l: GraphLegend, overall: Seq<GameTime>, i: int) -> bool {
    &&& l.name@ == label_for(overall[i].name@)
    &&& l.label@ == duration_text(overall[i].secs as nat)
    &&& l.tint == tint_for(overall, overall[i].universe_id, 0)
}

pub open spec fn range_text(hourly: bool, n: nat) -> Seq<char> {
    if hourly {
        "last "@ + decimal(n) + " hours"@
    } else if n == 1 {
        "today"@
    } else {
        "last "@ + decimal(n) + " days"@
    }
}

/// The chart shows these columns, with this ranking and scale.
pub open spec fn graph_shows(
    m: GraphModel,
    buckets: Seq<TimeBucket>,
    overall: Seq<GameTime>,
    ceiling: u64,
    window: Window,
) -> bool {
    let all = slices(buckets, buckets.len());
    let named = at_most(drawn(overall), TINTS as nat);
    &&& m.segments.len() == all.len()
    &&& forall|k: int|
        0 <= k < all.len() ==> segment_shows(
            #[trigger] m.segments@[k],
            buckets,
            overall,
            ceiling,
            all[k],
        )
    &&& m.days.len() == buckets.len()
    &&& forall|i: int|
        0 <= i < buckets.len() ==> day_shows(#[trigger] m.days@[i], buckets[i], i, buckets.len())
    &&& m.legend.len() == named.len()
    &&& forall|k: int|
        0 <= k < named.len() ==> legend_shows(#[trigger] m.legend@[k], overall, named[k])
    &&& m.ceiling@ == duration_text(ceiling as nat)
    &&& m.total@ == duration_text(total_of(buckets)) + " total"@
    &&& m.range@ == range_text(window is Hours, buckets.len())
    &&& m.empty == (total_of(buckets) == 0)
}

proof fn lemma_secs_grow(games: Seq<GameTime>, a: int, b: int)
    requires
        0 <= a <= b <= games.len(),
    ensures
        secs_before(games, a) <= secs_before(games, b),
    decreases b - a,
{
    if a < b {
        lemma_secs_grow(games, a, b - 1);
    }
}

proof fn lemma_drawn_prefix(games: Seq<GameTime>, n: int)
    requires
        0 <= n <= games.len(),
    ensures
        drawn(games.take(n)).len() <= drawn(games).len(),
        forall|k: int|
            0 <= k < drawn(games.take(n)).len() ==> #[trigger] drawn(games.take(n))[k] == drawn(
                games,
            )[k],
        forall|k: int|
            drawn(games.take(n)).len() <= k < drawn(games).len() ==> #[trigger] drawn(games)[k]
                >= n,
    decreases games.len() - n,
{
    if n < games.len() {
        lemma_drawn_prefix(games, n + 1);
        assert(games.take(n + 1).drop_last() =~= games.take(n));
        assert(games.take(n + 1).last() == games[n]);
        let a = drawn(games.take(n));
        let b = drawn(games.take(n + 1));
        assert forall|k: int| a.len() <= k < drawn(games).len() implies #[trigger] drawn(games)[k]
            >= n by {
            if k < b.len() {
                assert(b[k] == drawn(games)[k]);
                assert(b[k] == n);
            }
        }
        assert forall|k: int| 0 <= k < a.len() implies #[trigger] a[k] == drawn(games)[k] by {
            assert(b[k] == a[k]);
        }
    } else {
        assert(games.take(n) =~= games);
    }
}

/// Append the slices of one column.
fn push_column(
    segments: &mut Vec<GraphSegment>,
    buckets: &Vec<TimeBucket>,
    day: usize,
    overall: &Vec<GameTime>,
    ceiling: u64,
)
    requires
        day < buckets.len() <= i32::MAX,
        secs_before(buckets@[day as int].games@, buckets@[day as int].games.len() as int)
            <= u64::MAX,
    ensures
        ({
            let games = buckets@[day as int].games@;
            let n = old(segments)@.len();
            &&& final(segments)@.len() == n + drawn(games).len()
            &&& forall|k: int| 0 <= k < n ==> final(segments)@[k] == old(segments)@[k]
            &&& forall|k: int|
                0 <= k < drawn(games).len() ==> segment_shows(
                    #[trigger] final(segments)@[n + k],
                    buckets@,
                    overall@,
                    ceiling,
                    (day as int, drawn(games)[k]),
                )
        }),
{
    let ghost before = segments@;
    let bucket = &buckets[day];
    let ghost games = bucket.games@;
    let mut last: Option<usize> = None;
    let mut j: usize = 0;
    assert(games.take(0) =~= Seq::<GameTime>::empty());
    while j < bucket.games.len()
        invariant
            j <= bucket.games.len(),
            games == bucket.games@,
            match last {
                Some(l) => drawn(games.take(j as int)).len() > 0 && drawn(
                    games.take(j as int),
                ).last() == l,
                None => drawn(games.take(j as int)).len() == 0,
            },
        decreases bucket.games.len() - j,
    {
        assert(games.take(j as int + 1).drop_last() =~= games.take(j as int));
        assert(games.take(j as int + 1).last() == games[j as int]);
        if bucket.games[j].secs > 0 {
            last = Some(j);
        }
        j = j + 1;
    }
    assert(games.take(games.len() as int) =~= games);
    let mut start: u64 = 0;
    let mut i: usize = 0;
    while i < bucket.games.len()
        invariant
            i <= bucket.games.len(),
            day < buckets.len() <= i32::MAX,
            *bucket == buckets@[day as int],
            games == bucket.games@,
            secs_before(games, games.len() as int) <= u64::MAX,
            start == secs_before(games, i as int),
            match last {
                Some(l) => drawn(games).len() > 0 && drawn(games).last() == l,
                None => drawn(games).len() == 0,
            },
            segments.len() == before.len() + drawn(games.take(i as int)).len(),
            forall|k: int| 0 <= k < before.len() ==> segments@[k] == before[k],
            forall|k: int|
                0 <= k < drawn(games.take(i as int)).len() ==> segment_shows(
                    #[trigger] segments@[before.len() + k],
                    buckets@,
                    overall@,
                    ceiling,
                    (day as int, drawn(games.take(i as int))[k]),
                ),
        decreases bucket.games.len() - i,
    {
        let g = &bucket.games[i];
        proof {
            assert(games.take(i as int + 1).drop_last() =~= games.take(i as int));
            assert(games.take(i as int + 1).last() == games[i as int]);
            lemma_secs_grow(games, i as int + 1, games.len() as int);
            lemma_drawn_prefix(games, i as int + 1);
        }
        if g.secs > 0 {
            let top = match last {
                Some(l) => l == i,
                None => false,
            };
            assert(drawn(games.take(i as int + 1)).last() == i);
            segments.push(
                GraphSegment {
                    day: day as i32,
                    start_secs: start,
                    size_secs: g.secs,
                    ceiling_secs: ceiling,
                    tint: tint_of(overall, g.universe_id, 5),
                    name: game_label(g.name.as_str()),
                    label: fmt_duration(g.secs),
                    day_label: bucket.label.clone(),
                    top,
                },
            );
        }
        start = start + g.secs;
        i = i + 1;
    }
}

/// The time of every column can be added up.
pub open spec fn times_add_up(buckets: Seq<TimeBucket>) -> bool {
    &&& buckets.len() <= i32::MAX
    &&& total_of(buckets) <= u64::MAX
    &&& forall|i: int|
        0 <= i < buckets.len() ==> secs_before(
            (#[trigger] buckets[i]).games@,
            buckets[i].games.len() as int,
        ) <= u64::MAX
}

proof fn lemma_total_grows(buckets: Seq<TimeBucket>, i: int)
    requires
        0 <= i <= buckets.len(),
    ensures
        total_of(buckets.take(i)) <= total_of(buckets),
    decreases buckets.len() - i,
{
    if i < buckets.len() {
        lemma_total_grows(buckets, i + 1);
        assert(buckets.take(i + 1).drop_last() =~= buckets.take(i));
    } else {
        assert(buckets.take(i) =~= buckets);
    }
}

fn all_segments(buckets: &Vec<TimeBucket>, overall: &Vec<GameTime>, ceiling: u64) -> (segments: Vec<
    GraphSegment,
>)
    requires
        times_add_up(buckets@),
    ensures
        segments.len() == slices(buckets@, buckets@.len()).len(),
        forall|k: int|
            0 <= k < segments.len() ==> segment_shows(
                #[trigger] segments@[k],
                buckets@,
                overall@,
                ceiling,
                slices(buckets@, buckets@.len())[k],
            ),
{
    let mut segments: Vec<GraphSegment> = Vec::new();
    let mut day: usize = 0;
    while day < buckets.len()
        invariant
            day <= buckets.len(),
            times_add_up(buckets@),
            segments.len() == slices(buckets@, day as nat).len(),
            forall|k: int|
                0 <= k < segments.len() ==> segment_shows(
                    #[trigger] segments@[k],
                    buckets@,
                    overall@,
                    ceiling,
                    slices(buckets@, day as nat)[k],
                ),
        decreases buckets.len() - day,
    {
        let ghost before = segments@;
        let ghost n = before.len();
        push_column(&mut segments, buckets, day, overall, ceiling);
        proof {
            let games = buckets@[day as int].games@;
            let next = slices(buckets@, (day + 1) as nat);
            assert forall|k: int| 0 <= k < segments.len() implies segment_shows(
                #[trigger] segments@[k],
                buckets@,
                overall@,
                ceiling,
                next[k],
            ) by {
                if k >= n {
                    assert(segments@[k] == segments@[n + (k - n)]);
                    assert(next[k] == (day as int, drawn(games)[k - n]));
                } else {
                    assert(segments@[k] == before[k]);
                    assert(next[k] == slices(buckets@, day as nat)[k]);
                }
            }
        }
        day = day + 1;
    }
    segments
}

fn all_days(buckets: &Vec<TimeBucket>) -> (days: Vec<GraphDay>)
    ensures
        days.len() == buckets.len(),
        forall|i: int|
            0 <= i < buckets.len() ==> day_shows(
                #[trigger] days@[i],
                buckets@[i],
                i,
                buckets@.len(),
            ),
{
    let n: usize = buckets.len();
    let step: usize = if n / 12 < 1 {
        1
    } else {
        n / 12
    };
    let mut days: Vec<GraphDay> = Vec::new();
    let mut i: usize = 0;
    while i < n
        invariant
            i <= n == buckets.len(),
            step == stride(n as nat),
            step >= 1,
            days.len() == i,
            forall|k: int|
                0 <= k < i ==> day_shows(#[trigger] days@[k], buckets@[k], k, buckets@.len()),
        decreases n - i,
    {
        let b = &buckets[i];
        days.push(
            GraphDay {
                label: if i % step == 0 || n <= 12 {
                    b.label.clone()
                } else {
                    String::new()
                },
                total: fmt_duration(b.total_secs),
                played: b.total_secs > 0,
            },
        );
        i = i + 1;
    }
    days
}

fn full_legend(overall: &Vec<GameTime>) -> (legend: Vec<GraphLegend>)
    ensures
        legend.len() == at_most(drawn(overall@), TINTS as nat).len(),
        forall|k: int|
            0 <= k < legend.len() ==> legend_shows(
                #[trigger] legend@[k],
                overall@,
                at_most(drawn(overall@), TINTS as nat)[k],
            ),
{
    let mut legend: Vec<GraphLegend> = Vec::new();
    let mut i: usize = 0;
    assert(overall@.take(0) =~= Seq::<GameTime>::empty());
    while i < overall.len() && legend.len() < TINTS
        invariant
            i <= overall.len(),
            legend.len() <= TINTS,
            legend.len() == drawn(overall@.take(i as int)).len(),
            forall|k: int|
                0 <= k < legend.len() ==> legend_shows(
                    #[trigger] legend@[k],
                    overall@,
                    drawn(overall@.take(i as int))[k],
                ),
        decreases overall.len() - i,
    {
        assert(overall@.take(i as int + 1).drop_last() =~= overall@.take(i as int));
        assert(overall@.take(i as int + 1).last() == overall@[i as int]);
        let g = &overall[i];
        if g.secs > 0 {
            legend.push(
                GraphLegend {
                    name: game_label(g.name.as_str()),
                    label: fmt_duration(g.secs),
                    tint: tint_of(overall, g.universe_id, 0),
                },
            );
        }
        i = i + 1;
    }
    proof {
        lemma_drawn_prefix(overall@, i as int);
        assert(overall@.take(overall@.len() as int) =~= overall@);
        let all = drawn(overall@);
        let part = drawn(overall@.take(i as int));
        assert forall|k: int| 0 <= k < legend.len() implies legend_shows(
            #[trigger] legend@[k],
            overall@,
            at_most(all, TINTS as nat)[k],
        ) by {
            assert(part[k] == all[k]);
        }
    }
    legend
}

/// Build the chart from its columns. `overall` ranks the games over the whole
/// window, `ceiling` is the top of the scale, and `window` says what a column is.
pub fn build_graph(
    buckets: &Vec<TimeBucket>,
    overall: &Vec<GameTime>,
    ceiling: u64,
    window: Window,
) -> (m: GraphModel)
    requires
        times_add_up(buckets@),
    ensures
        graph_shows(m, buckets@, overall@, ceiling, window),
{
    let segments = all_segments(buckets, overall, ceiling);
    let days = all_days(buckets);
    let legend = full_legend(overall);
    let mut played: u64 = 0;
    let mut i: usize = 0;
    assert(buckets@.take(0) =~= Seq::<TimeBucket>::empty());
    while i < buckets.len()
        invariant
            i <= buckets.len(),
            total_of(buckets@) <= u64::MAX,
            played == total_of(buckets@.take(i as int)),
        decreases buckets.len() - i,
    {
        assert(buckets@.take(i as int + 1).drop_last() =~= buckets@.take(i as int));
        proof {
            lemma_total_grows(buckets@, i as int + 1);
        }
        played = played + buckets[i].total_secs;
        i = i + 1;
    }
    assert(buckets@.take(buckets@.len() as int) =~= buckets@);
    let n: usize = buckets.len();
    let hourly = match window {
        Window::Hours(_) => true,
        Window::Days(_) => false,
    };
    let range = if hourly {
        cat3("last ", nat_text(n as u64).as_str(), " hours")
    } else if n == 1 {
        "today".to_owned()
    } else {
        cat3("last ", nat_text(n as u64).as_str(), " days")
    };
    GraphModel {
        segments,
        days,
        legend,
        ceiling: fmt_duration(ceiling),
        total: cat2(fmt_duration(played).as_str(), " total"),
        range,
        empty: played == 0,
    }
}

/// Slices never run over the top: within the scale of its column, a slice starts
/// where the ones before it end and stays below the column's whole time.
pub proof fn law_slices_stack(games: Seq<GameTime>, a: int, b: int)
    requires
        0 <= a < b < games.len(),
    ensures
        secs_before(games, a) + games[a].secs <= secs_before(games, b),
        secs_before(games, b) + games[b].secs <= secs_before(games, games.len() as int),
{
    assert(secs_before(games, a + 1) == secs_before(games, a) + games[a].secs);
    assert(secs_before(games, b + 1) == secs_before(games, b) + games[b].secs);
    lemma_secs_grow(games, a + 1, b);
    lemma_secs_grow(games, b + 1, games.len() as int);
}

/// A game keeps one tint: it depends on the ranking and the game, not on the
/// column; and tints never run out.
pub proof fn law_tints_never_run_out(overall: Seq<GameTime>, universe: i64)
    ensures
        0 <= tint_for(overall, universe, (TINTS - 1) as i32) < TINTS,
{
    lemma_rank_range(overall, universe);
}

proof fn lemma_rank_range(overall: Seq<GameTime>, universe: i64)
    ensures
        rank_in(overall, universe) matches Some(i) ==> 0 <= i < overall.len(),
    decreases overall.len(),
{
    if overall.len() > 0 && overall.last().universe_id != universe {
        lemma_rank_range(overall.drop_last(), universe);
    }
}

/// The window: hours for a history of less than two days, four more than it spans, six
/// at least and forty-eight at most; days from there on, two more than it spans, as far
/// as they are kept; and a week without any history.
pub proof fn law_which_window_is_shown(span: int, retention_days: u32)
    requires
        0 <= span <= 0xffff_ffff,
    ensures
        window_for(false, span, retention_days) == Window::Days(7),
        span < 7_200 ==> window_for(true, span, retention_days) == Window::Hours(6),
        7_200 <= span < 158_400 ==> window_for(true, span, retention_days) == Window::Hours(
            (span / 3_600 + 4) as i64,
        ),
        158_400 <= span < 172_800 ==> window_for(true, span, retention_days) == Window::Hours(48),
        span >= 172_800 && span / 86_400 + 2 < retention_days ==> window_for(
            true,
            span,
            retention_days,
        ) == Window::Days((span / 86_400 + 2) as u32),
        span >= 172_800 && retention_days >= 1 && span / 86_400 + 2 >= retention_days
            ==> window_for(true, span, retention_days) == Window::Days(retention_days),
        TINTS == 6,
{
    if span >= 172_800 {
        assert((span / 86_400 + 2) % 0x1_0000_0000 == span / 86_400 + 2);
    }
}

/// The tint of a game is its rank, where it stands once in the ranking, and the last
/// tint from the sixth on; one that is not ranked has the tint for those.
pub proof fn law_tints_follow_the_ranking(overall: Seq<GameTime>, i: int, universe: i64, unknown: i32)
    ensures
        0 <= i < overall.len() && overall[i].universe_id == universe && (forall|j: int|
            i < j < overall.len() ==> (#[trigger] overall[j]).universe_id != universe) ==> tint_for(
            overall,
            universe,
            unknown,
        ) == (if i < 5 {
            i as i32
        } else {
            5
        }),
        (forall|j: int| 0 <= j < overall.len() ==> (#[trigger] overall[j]).universe_id != universe)
            ==> tint_for(overall, universe, unknown) == unknown,
    decreases overall.len(),
{
    lemma_rank_in(overall, universe, i);
}

proof fn lemma_rank_in(overall: Seq<GameTime>, universe: i64, i: int)
    ensures
        0 <= i < overall.len() && overall[i].universe_id == universe && (forall|j: int|
            i < j < overall.len() ==> (#[trigger] overall[j]).universe_id != universe) ==> rank_in(
            overall,
            universe,
        ) == Some(i),
        (forall|j: int| 0 <= j < overall.len() ==> (#[trigger] overall[j]).universe_id != universe)
            ==> rank_in(overall, universe) is None,
    decreases overall.len(),
{
    if overall.len() > 0 {
        let n = overall.len() - 1;
        let fewer = overall.drop_last();
        lemma_rank_in(fewer, universe, i);
        assert(overall.last() == overall[n]);
        assert(forall|j: int| 0 <= j < n ==> #[trigger] fewer[j] == overall[j]);
        if overall[n].universe_id == universe && 0 <= i < n {
            assert(!(forall|j: int|
                i < j < overall.len() ==> (#[trigger] overall[j]).universe_id != universe));
        }
    }
}

/// A game without a name is called a hidden one.
pub proof fn law_names_on_the_chart(name: Seq<char>)
    ensures
        trimmed(name).len() == 0 ==> label_for(name) == "Hidden game"@,
        trimmed(name).len() > 0 ==> label_for(name) == name,
{
}

/// A game is drawn that was played at all, and games are stacked in their order.
pub proof fn law_which_games_are_drawn(games: Seq<GameTime>, g: GameTime)
    ensures
        drawn(Seq::empty()).len() == 0,
        drawn(games.push(g)) == (if g.secs > 0 {
            drawn(games).push(games.len() as int)
        } else {
            drawn(games)
        }),
        secs_before(games, 0) == 0,
        forall|n: int|
            0 <= n < games.len() ==> #[trigger] secs_before(games, n + 1) == secs_before(games, n)
                + games[n].secs,
{
    assert(games.push(g).drop_last() =~= games);
}

/// What a slice of a column shows: when, how much of which game, and in which tint.
pub proof fn law_what_a_slice_shows(
    s: GraphSegment,
    buckets: Seq<TimeBucket>,
    overall: Seq<GameTime>,
    ceiling: u64,
    at: (int, int),
)
    requires
        segment_shows(s, buckets, overall, ceiling, at),
    ensures
        ({
            let b = buckets[at.0];
            let g = b.games@[at.1];
            &&& s.day == at.0
            &&& s.day_label@ == b.label@
            &&& s.start_secs == secs_before(b.games@, at.1)
            &&& s.size_secs == g.secs
            &&& s.ceiling_secs == ceiling
            &&& s.name@ == label_for(g.name@)
            &&& s.label@ == duration_text(g.secs as nat)
            &&& s.tint == tint_for(overall, g.universe_id, 5)
            &&& s.top <==> drawn(b.games@).last() == at.1
        }),
{
}

/// The slices come column by column, and within a column as they are stacked.
pub proof fn law_slices_come_column_by_column(buckets: Seq<TimeBucket>, n: nat)
    requires
        n < buckets.len(),
    ensures
        slices(buckets, 0).len() == 0,
        slices(buckets, n + 1).len() == slices(buckets, n).len() + drawn(
            buckets[n as int].games@,
        ).len(),
        forall|k: int|
            0 <= k < slices(buckets, n).len() ==> slices(buckets, n + 1)[k] == #[trigger] slices(
                buckets,
                n,
            )[k],
        forall|k: int|
            0 <= k < drawn(buckets[n as int].games@).len() ==> slices(buckets, n + 1)[slices(
                buckets,
                n,
            ).len() + k] == (n as int, #[trigger] drawn(buckets[n as int].games@)[k]),
{
}

/// Up to twelve columns each have a label, and of more every so many; a column shows
/// its time, and whether there was any.
pub proof fn law_what_a_column_shows(d: GraphDay, b: TimeBucket, i: int, n: nat)
    requires
        day_shows(d, b, i, n),
        0 <= i < n,
    ensures
        n <= 12 ==> d.label@ == b.label@,
        i == 0 ==> d.label@ == b.label@,
        24 <= n < 36 ==> (i % 2 == 0 ==> d.label@ == b.label@) && (i % 2 == 1 ==> d.label@.len()
            == 0),
        n == 48 ==> (i % 4 == 0 ==> d.label@ == b.label@) && (i % 4 != 0 ==> d.label@.len() == 0),
        d.total@ == duration_text(b.total_secs as nat),
        d.played <==> b.total_secs > 0,
{
}

/// The times of the columns add up.
pub proof fn law_times_add_up(buckets: Seq<TimeBucket>, b: TimeBucket)
    ensures
        total_of(Seq::empty()) == 0,
        total_of(buckets.push(b)) == total_of(buckets) + b.total_secs,
{
    assert(buckets.push(b).drop_last() =~= buckets);
}

/// What is written beside the chart: the scale, the whole time, the window, and up to
/// six games, each with its time and its tint.
pub proof fn law_what_is_written_beside_the_chart(
    m: GraphModel,
    buckets: Seq<TimeBucket>,
    overall: Seq<GameTime>,
    ceiling: u64,
    window: Window,
)
    requires
        graph_shows(m, buckets, overall, ceiling, window),
    ensures
        m.ceiling@ == duration_text(ceiling as nat),
        m.total@ == duration_text(total_of(buckets)) + " total"@,
        m.empty <==> total_of(buckets) == 0,
        window is Hours ==> m.range@ == "last "@ + decimal(buckets.len()) + " hours"@,
        window is Days && buckets.len() == 1 ==> m.range@ == "today"@,
        window is Days && buckets.len() != 1 ==> m.range@ == "last "@ + decimal(buckets.len())
            + " days"@,
        m.legend.len() <= 6,
        drawn(overall).len() <= 6 ==> m.legend.len() == drawn(overall).len(),
        forall|k: int|
            0 <= k < m.legend.len() ==> {
                let g = overall[drawn(overall)[k]];
                (#[trigger] m.legend@[k]).name@ == label_for(g.name@) && m.legend@[k].label@
                    == duration_text(g.secs as nat) && m.legend@[k].tint == tint_for(
                    overall,
                    g.universe_id,
                    0,
                )
            },
        m.days.len() == buckets.len(),
{
    let named = at_most(drawn(overall), 6);
    assert forall|k: int| 0 <= k < m.legend.len() implies ({
        let g = overall[drawn(overall)[k]];
        (#[trigger] m.legend@[k]).name@ == label_for(g.name@) && m.legend@[k].label@
            == duration_text(g.secs as nat) && m.legend@[k].tint == tint_for(
            overall,
            g.universe_id,
            0,
        )
    }) by {
        assert(legend_shows(m.legend@[k], overall, named[k]));
        assert(named[k] == drawn(overall)[k]);
    }
}

} // verus!
