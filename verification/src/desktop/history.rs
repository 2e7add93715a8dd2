//! The player-history chart of a game.

use crate::clock::{day_stamp, is_stamp};
use crate::desktop::adapters::{compact, compact_text};
use crate::number::{decimal, decimal_int, int_text, nat_text};
use crate::roblox::models::{share_of_votes, vote_percent};
use crate::text::{cat2, cat3, cat4};
use vstd::prelude::*;

verus! {

/// How many columns are drawn: enough to read as a trend, and few enough to
/// point at.
pub const HISTORY_COLUMNS: usize = 150;

/// What a game looked like at one moment.
#[derive(Debug, Clone, Copy)]
pub struct Sample {
    pub at: i64,
    pub universe_id: i64,
    pub playing: i64,
    pub visits: i64,
    pub upvotes: i64,
    pub downvotes: i64,
}

impl Sample {
    /// The votes can be added up.
    pub open spec fn wf(&self) -> bool {
        i64::MIN <= self.upvotes + self.downvotes <= i64::MAX
    }

    /// The share of positive votes in percent, or nothing when nobody has voted.
    pub fn rating(&self) -> (r: Option<i32>)
        requires
            self.wf(),
        ensures
            r == vote_percent(self.upvotes as int, self.downvotes as int),
    {
        share_of_votes(self.upvotes, self.downvotes)
    }
}

/// One column of the chart: `x_part / x_whole` of the way along, and
/// `height_part / height_whole` of the way up.
pub struct HistoryPoint {
    pub x_part: u64,
    pub x_whole: u64,
    pub height_part: i64,
    pub height_whole: i64,
    pub label: String,
}

pub struct HistoryStat {
    pub label: String,
    pub value: String,
}

/// The chart of a game's players, and the tiles beside it.
pub struct HistoryModel {
    pub points: Vec<HistoryPoint>,
    pub stats: Vec<HistoryStat>,
    pub peak: String,
    pub range: String,
}

/// The range buttons below the last, by how many days are covered: a label and a
/// number of days.
pub open spec fn earned_ranges(covered: int) -> Seq<(Seq<char>, i64)> {
    let none = Seq::<(Seq<char>, i64)>::empty();
    let a = if covered >= 2 { none.push(("24h"@, 1)) } else { none };
    let b = if covered >= 10 { a.push(("7d"@, 7)) } else { a };
    let c = if covered >= 40 { b.push(("30d"@, 30)) } else { b };
    if covered >= 400 {
        c.push(("1y"@, 365))
    } else {
        c
    }
}

/// What the button for everything is called. It is named for how much there is.
pub open spec fn everything_label(covered: int) -> Seq<char> {
    if covered == 0 {
        "So far"@
    } else if covered == 1 {
        "Today"@
    } else if covered < 10 {
        decimal_int(covered) + "d"@
    } else {
        "All"@
    }
}

pub open spec fn ranges_for(covered: int) -> Seq<(Seq<char>, i64)> {
    earned_ranges(covered).push((everything_label(covered), 0i64))
}

pub open spec fn range_views(v: Seq<(String, i64)>) -> Seq<(Seq<char>, i64)> {
    v.map_values(|p: (String, i64)| (p.0@, p.1))
}

/// The range buttons worth offering. A range appears once there is enough data
/// for it to differ from the next one down, and everything is always last; zero
/// days stand for everything.
pub fn history_ranges(covered_days: i64) -> (out: Vec<(String, i64)>)
    ensures
        range_views(out@) == ranges_for(covered_days as int),
{
    let mut out: Vec<(String, i64)> = Vec::new();
    if covered_days >= 2 {
        out.push(("24h".to_owned(), 1));
    }
    if covered_days >= 10 {
        out.push(("7d".to_owned(), 7));
    }
    if covered_days >= 40 {
        out.push(("30d".to_owned(), 30));
    }
    if covered_days >= 400 {
        out.push(("1y".to_owned(), 365));
    }
    let name = if covered_days == 0 {
        "So far".to_owned()
    } else if covered_days == 1 {
        "Today".to_owned()
    } else if covered_days < 10 {
        cat2(int_text(covered_days).as_str(), "d")
    } else {
        "All".to_owned()
    };
    out.push((name, 0));
    assert(range_views(out@) =~= ranges_for(covered_days as int));
    out
}

/// Everything is always reachable, as the last range; a year is never offered
/// without more than a year of data; and no range is wider than the data.
pub proof fn law_ranges_are_earned(covered: int, i: int)
    requires
        0 <= i < ranges_for(covered).len(),
    ensures
        ranges_for(covered).last().1 == 0,
        ranges_for(covered)[i].1 == 365 ==> covered >= 400,
        ranges_for(covered)[i].1 == 0 || ranges_for(covered)[i].1 < covered,
        ranges_for(covered)[i].1 == 0 ==> i == ranges_for(covered).len() - 1,
{
}

/// The days that a chart covers: all there are, one at least, where everything
/// is asked for.
pub fn history_window(days: i64, covered: i64) -> (r: i64)
    ensures
        r == (if days == 0 {
            if covered < 1 {
                1
            } else {
                covered
            }
        } else {
            days
        }),
{
    if days == 0 {
        if covered < 1 {
            1
        } else {
            covered
        }
    } else {
        days
    }
}

/// The most players of any column, and zero where there is none.
pub open spec fn peak_of(buckets: Seq<Sample>) -> i64
    decreases buckets.len(),
{
    if buckets.len() == 0 {
        0
    } else if buckets.len() == 1 {
        buckets[0].playing
    } else {
        let before = peak_of(buckets.drop_last());
        if buckets.last().playing >= before {
            buckets.last().playing
        } else {
            before
        }
    }
}

fn peak(buckets: &Vec<Sample>) -> (r: i64)
    ensures
        r == peak_of(buckets@),
{
    if buckets.len() == 0 {
        return 0;
    }
    let mut best: i64 = buckets[0].playing;
    let mut i: usize = 1;
    assert(buckets@.take(1) =~= seq![buckets@[0]]);
    while i < buckets.len()
        invariant
            1 <= i <= buckets.len(),
            best == peak_of(buckets@.take(i as int)),
        decreases buckets.len() - i,
    {
        assert(buckets@.take(i as int + 1).drop_last() =~= buckets@.take(i as int));
        assert(buckets@.take(i as int + 1).last() == buckets@[i as int]);
        if buckets[i].playing >= best {
            best = buckets[i].playing;
        }
        i = i + 1;
    }
    assert(buckets@.take(buckets@.len() as int) =~= buckets@);
    best
}

/// A tile: its label and its value.
pub open spec fn stat_views(v: Seq<HistoryStat>) -> Seq<(Seq<char>, Seq<char>)> {
    v.map_values(|s: HistoryStat| (s.label@, s.value@))
}

/// The tiles: what was seen last, the peak, and how much was seen. A tile without
/// anything to say is left out.
pub open spec fn stats_for(
    latest: Option<Sample>,
    peak: i64,
    observations: nat,
) -> Seq<(Seq<char>, Seq<char>)> {
    let none = Seq::<(Seq<char>, Seq<char>)>::empty();
    let a = match latest {
        Some(s) => none.push(("Playing"@, compact_text(s.playing as int))),
        None => none,
    };
    let b = if peak > 0 { a.push(("Peak seen"@, compact_text(peak as int))) } else { a };
    let c = match latest {
        Some(s) => if s.visits > 0 {
            b.push(("Visits"@, compact_text(s.visits as int)))
        } else {
            b
        },
        None => b,
    };
    let d = match latest {
        Some(s) => match vote_percent(s.upvotes as int, s.downvotes as int) {
            Some(r) => c.push(("Rating"@, decimal_int(r as int) + "%"@)),
            None => c,
        },
        None => c,
    };
    if observations > 0 {
        d.push(("Observations"@, decimal(observations)))
    } else {
        d
    }
}

fn push_stat(stats: &mut Vec<HistoryStat>, label: &str, value: String)
    ensures
        stat_views(final(stats)@) == stat_views(old(stats)@).push((label@, value@)),
{
    let ghost v = value@;
    stats.push(HistoryStat { label: label.to_owned(), value });
    assert(stat_views(stats@) =~= stat_views(old(stats)@).push((label@, v)));
}

fn stats(latest: Option<Sample>, peak: i64, observations: usize) -> (out: Vec<HistoryStat>)
    requires
        latest matches Some(s) ==> s.wf(),
    ensures
        stat_views(out@) == stats_for(latest, peak, observations as nat),
{
    let mut out: Vec<HistoryStat> = Vec::new();
    assert(stat_views(out@) =~= Seq::<(Seq<char>, Seq<char>)>::empty());
    match latest {
        Some(s) => {
            push_stat(&mut out, "Playing", compact(s.playing));
        },
        None => {},
    }
    if peak > 0 {
        push_stat(&mut out, "Peak seen", compact(peak));
    }
    match latest {
        Some(s) => {
            if s.visits > 0 {
                push_stat(&mut out, "Visits", compact(s.visits));
            }
            match s.rating() {
                Some(r) => {
                    push_stat(&mut out, "Rating", cat2(int_text(r as i64).as_str(), "%"));
                },
                None => {},
            }
        },
        None => {},
    }
    if observations > 0 {
        push_stat(&mut out, "Observations", nat_text(observations as u64));
    }
    out
}

pub open spec fn range_name(days: i64, covered: i64) -> Seq<char> {
    if days == 0 && covered >= 2 {
        "everything so far · "@ + decimal_int(covered as int) + " days"@
    } else if days == 0 {
        "everything so far"@
    } else if days == 1 {
        "last 24 hours"@
    } else if days == 365 {
        "last year"@
    } else {
        "last "@ + decimal_int(days as int) + " days"@
    }
}

/// The point is the column `i` of the chart. Columns are placed by number:
/// empty ones were dropped, and spacing by time would leave holes.
pub open spec fn point_is(p: HistoryPoint, buckets: Seq<Sample>, i: int, stamp: Seq<char>) -> bool {
    let n = buckets.len();
    let top = peak_of(buckets);
    &&& n > 1 ==> p.x_part == i && p.x_whole == n - 1
    &&& n <= 1 ==> p.x_part == 0 && p.x_whole == 1
    &&& p.height_part == buckets[i].playing
    &&& p.height_whole == (if top < 1 { 1 } else { top })
    &&& p.label@ == stamp + " · "@ + compact_text(buckets[i].playing as int) + " playing"@
}

/// The chart shows these columns and this window.
pub open spec fn history_shows(
    m: HistoryModel,
    buckets: Seq<Sample>,
    stamps: Seq<String>,
    latest: Option<Sample>,
    observations: nat,
    covered: i64,
    days: i64,
) -> bool {
    let top = peak_of(buckets);
    &&& m.points.len() == buckets.len()
    &&& forall|i: int|
        0 <= i < buckets.len() ==> point_is(#[trigger] m.points@[i], buckets, i, stamps[i]@)
    &&& stat_views(m.stats@) == stats_for(latest, top, observations)
    &&& m.peak@ == (if top > 0 {
        "peak "@ + compact_text(top as int) + " in this window"@
    } else {
        Seq::empty()
    })
    &&& m.range@ == range_name(days, covered)
}

/// The sample that was taken last: the last of the window or, where it has none,
/// the last of all.
pub open spec fn newest(series: Seq<Sample>, samples: Seq<Sample>) -> Option<Sample> {
    if series.len() > 0 {
        Some(series.last())
    } else if samples.len() > 0 {
        Some(samples.last())
    } else {
        None
    }
}

fn latest(series: &Vec<Sample>, samples: &Vec<Sample>) -> (r: Option<Sample>)
    ensures
        r == newest(series@, samples@),
{
    if series.len() > 0 {
        Some(series[series.len() - 1])
    } else if samples.len() > 0 {
        Some(samples[samples.len() - 1])
    } else {
        None
    }
}

/// Build the chart of one window. `samples` is all that was seen, `series` the
/// part of it in the window, and `buckets` that part cut into columns; `stamps`
/// are the moments of the columns in words.
///
/// Heights are taken against the window's own peak: the question is the shape of
/// this game's week.
pub fn history_model(
    samples: &Vec<Sample>,
    series: &Vec<Sample>,
    buckets: &Vec<Sample>,
    stamps: &Vec<String>,
    covered: i64,
    days: i64,
) -> (m: HistoryModel)
    requires
        stamps.len() == buckets.len(),
        newest(series@, samples@) matches Some(s) ==> s.wf(),
    ensures
        history_shows(
            m,
            buckets@,
            stamps@,
            newest(series@, samples@),
            samples@.len(),
            covered,
            days,
        ),
{
    let top: i64 = peak(buckets);
    let ceiling: i64 = if top < 1 {
        1
    } else {
        top
    };
    let n: usize = buckets.len();
    let mut points: Vec<HistoryPoint> = Vec::new();
    let mut i: usize = 0;
    while i < n
        invariant
            i <= n == buckets.len(),
            stamps.len() == n,
            top == peak_of(buckets@),
            ceiling == (if top < 1 { 1 } else { top }),
            points.len() == i,
            forall|k: int|
                0 <= k < i ==> point_is(#[trigger] points@[k], buckets@, k, stamps@[k]@),
        decreases n - i,
    {
        points.push(
            HistoryPoint {
                x_part: if n > 1 {
                    i as u64
                } else {
                    0
                },
                x_whole: if n > 1 {
                    (n - 1) as u64
                } else {
                    1
                },
                height_part: buckets[i].playing,
                height_whole: ceiling,
                label: cat4(
                    stamps[i].as_str(),
                    " · ",
                    compact(buckets[i].playing).as_str(),
                    " playing",
                ),
            },
        );
        i = i + 1;
    }
    HistoryModel {
        points,
        stats: stats(latest(series, samples), top, samples.len()),
        peak: if top > 0 {
            cat3("peak ", compact(top).as_str(), " in this window")
        } else {
            String::new()
        },
        range: if days == 0 && covered >= 2 {
            cat3("everything so far · ", int_text(covered).as_str(), " days")
        } else if days == 0 {
            "everything so far".to_owned()
        } else if days == 1 {
            "last 24 hours".to_owned()
        } else if days == 365 {
            "last year".to_owned()
        } else {
            cat3("last ", int_text(days).as_str(), " days")
        },
    }
}

/// Each column has the stamp of its moment.
pub open spec fn stamps_fit(stamps: Seq<String>, buckets: Seq<Sample>) -> bool {
    forall|i: int| 0 <= i < stamps.len() ==> is_stamp((#[trigger] stamps[i])@, buckets[i].at)
}

/// Build the chart of one window, with the local time of each column.
pub fn build_history(
    samples: &Vec<Sample>,
    series: &Vec<Sample>,
    buckets: &Vec<Sample>,
    covered: i64,
    days: i64,
) -> (m: HistoryModel)
    requires
        newest(series@, samples@) matches Some(s) ==> s.wf(),
    ensures
        exists|stamps: Seq<String>|
            stamps.len() == buckets.len() && stamps_fit(stamps, buckets@) && #[trigger] history_shows(
                m,
                buckets@,
                stamps,
                newest(series@, samples@),
                samples@.len(),
                covered,
                days,
            ),
{
    let mut stamps: Vec<String> = Vec::new();
    let mut i: usize = 0;
    while i < buckets.len()
        invariant
            i <= buckets.len(),
            stamps.len() == i,
            forall|k: int| 0 <= k < i ==> is_stamp((#[trigger] stamps@[k])@, buckets@[k].at),
        decreases buckets.len() - i,
    {
        stamps.push(day_stamp(buckets[i].at));
        i = i + 1;
    }
    history_model(samples, series, buckets, &stamps, covered, days)
}

proof fn lemma_peak(buckets: Seq<Sample>, i: int)
    requires
        0 <= i < buckets.len(),
    ensures
        buckets[i].playing <= peak_of(buckets),
    decreases buckets.len(),
{
    if i < buckets.len() - 1 {
        lemma_peak(buckets.drop_last(), i);
        assert(buckets.drop_last()[i] == buckets[i]);
    }
}

/// Heights stay within the plot, and positions run along it in order, from one
/// end to the other.
pub proof fn law_points_stay_in_the_plot(
    m: HistoryModel,
    buckets: Seq<Sample>,
    stamps: Seq<String>,
    latest: Option<Sample>,
    observations: nat,
    covered: i64,
    days: i64,
    i: int,
    j: int,
)
    requires
        history_shows(m, buckets, stamps, latest, observations, covered, days),
        0 <= i < j < buckets.len(),
    ensures
        m.points@[i].height_part <= m.points@[i].height_whole,
        m.points@[i].height_whole > 0,
        m.points@[i].x_part < m.points@[j].x_part <= m.points@[j].x_whole,
        m.points@[0].x_part == 0,
        m.points@[buckets.len() - 1].x_part == m.points@[buckets.len() - 1].x_whole,
{
    lemma_peak(buckets, i);
    assert(point_is(m.points@[i], buckets, i, stamps[i]@));
    assert(point_is(m.points@[j], buckets, j, stamps[j]@));
    assert(point_is(m.points@[0], buckets, 0, stamps[0]@));
    assert(point_is(
        m.points@[buckets.len() - 1],
        buckets,
        buckets.len() - 1,
        stamps[buckets.len() - 1]@,
    ));
}

/// A range is offered once there is enough to show in it: a day with two days, a week
/// with ten, a month with forty and a year with four hundred. Everything is offered
/// always, named by how much that is.
pub proof fn law_which_ranges_are_offered(covered: int)
    ensures
        ranges_for(covered).contains(("24h"@, 1i64)) <==> covered >= 2,
        ranges_for(covered).contains(("7d"@, 7i64)) <==> covered >= 10,
        ranges_for(covered).contains(("30d"@, 30i64)) <==> covered >= 40,
        ranges_for(covered).contains(("1y"@, 365i64)) <==> covered >= 400,
        ranges_for(covered).last() == (everything_label(covered), 0i64),
        covered == 0 ==> everything_label(covered) == "So far"@,
        covered == 1 ==> everything_label(covered) == "Today"@,
        2 <= covered < 10 ==> everything_label(covered) == decimal_int(covered) + "d"@,
        covered >= 10 ==> everything_label(covered) == "All"@,
        HISTORY_COLUMNS == 150,
{
    let out = ranges_for(covered);
    if covered >= 2 {
        assert(out[0] == ("24h"@, 1i64));
    }
    if covered >= 10 {
        assert(out[1] == ("7d"@, 7i64));
    }
    if covered >= 40 {
        assert(out[2] == ("30d"@, 30i64));
    }
    if covered >= 400 {
        assert(out[3] == ("1y"@, 365i64));
    }
    assert forall|i: int| 0 <= i < out.len() implies (#[trigger] out[i].1 == 1 ==> covered >= 2)
        && (out[i].1 == 7 ==> covered >= 10) && (out[i].1 == 30 ==> covered >= 40) && (out[i].1
        == 365 ==> covered >= 400) by {}
}

/// The peak is the number of players of one of the columns, and none has more.
pub proof fn law_the_peak_of_a_window(buckets: Seq<Sample>)
    ensures
        buckets.len() == 0 ==> peak_of(buckets) == 0,
        forall|i: int| 0 <= i < buckets.len() ==> (#[trigger] buckets[i]).playing <= peak_of(buckets),
        buckets.len() > 0 ==> exists|i: int|
            0 <= i < buckets.len() && (#[trigger] buckets[i]).playing == peak_of(buckets),
    decreases buckets.len(),
{
    assert forall|i: int| 0 <= i < buckets.len() implies (#[trigger] buckets[i]).playing <= peak_of(
        buckets,
    ) by {
        lemma_peak(buckets, i);
    }
    if buckets.len() == 1 {
        assert(buckets[0].playing == peak_of(buckets));
    } else if buckets.len() > 1 {
        let fewer = buckets.drop_last();
        law_the_peak_of_a_window(fewer);
        if buckets.last().playing >= peak_of(fewer) {
            assert(buckets[buckets.len() - 1].playing == peak_of(buckets));
        } else {
            let i = choose|i: int|
                0 <= i < fewer.len() && (#[trigger] fewer[i]).playing == peak_of(fewer);
            assert(buckets[i] == fewer[i]);
        }
    }
}

/// The tiles beside the chart, each where there is something to say: how many play,
/// the peak, the visits, the rating, and how often the game was looked at.
pub proof fn law_tiles_beside_the_chart(latest: Option<Sample>, peak: i64, observations: nat)
    ensures
        ({
            let out = stats_for(latest, peak, observations);
            &&& latest matches Some(s) ==> out.len() > 0 && out[0] == (
                "Playing"@,
                compact_text(s.playing as int),
            )
            &&& latest matches Some(s) ==> (peak > 0 ==> out[1] == (
                "Peak seen"@,
                compact_text(peak as int),
            ))
            &&& latest matches Some(s) ==> (s.visits > 0 ==> out.contains(
                ("Visits"@, compact_text(s.visits as int)),
            ))
            &&& latest matches Some(s) ==> (vote_percent(s.upvotes as int, s.downvotes as int) matches Some(
                r,
            ) ==> out.contains(("Rating"@, decimal_int(r as int) + "%"@)))
            &&& observations > 0 ==> out.len() > 0 && out.last() == (
                "Observations"@,
                decimal(observations),
            )
            &&& latest is None && peak > 0 ==> out.len() > 0 && out[0] == (
                "Peak seen"@,
                compact_text(peak as int),
            )
            &&& latest is None && peak <= 0 && observations == 0 ==> out.len() == 0
        }),
{
    let out = stats_for(latest, peak, observations);
    if latest is Some {
        let s = latest->0;
        let at: int = if peak > 0 {
            2
        } else {
            1
        };
        if s.visits > 0 {
            assert(out[at] == ("Visits"@, compact_text(s.visits as int)));
        }
        match vote_percent(s.upvotes as int, s.downvotes as int) {
            Some(r) => {
                let k: int = if s.visits > 0 {
                    at + 1
                } else {
                    at
                };
                assert(out[k] == ("Rating"@, decimal_int(r as int) + "%"@));
            },
            None => {},
        }
    }
}

/// What a window is called.
pub proof fn law_names_of_windows(days: i64, covered: i64)
    ensures
        days == 0 && covered >= 2 ==> range_name(days, covered) == "everything so far · "@
            + decimal_int(covered as int) + " days"@,
        days == 0 && covered < 2 ==> range_name(days, covered) == "everything so far"@,
        days == 1 ==> range_name(days, covered) == "last 24 hours"@,
        days == 365 ==> range_name(days, covered) == "last year"@,
        days == 7 || days == 30 ==> range_name(days, covered) == "last "@ + decimal_int(days as int)
            + " days"@,
{
}

/// What stands at a column of the chart: its height against the peak, and its moment
/// with the number of players.
pub proof fn law_what_a_column_shows(
    m: HistoryModel,
    buckets: Seq<Sample>,
    stamps: Seq<String>,
    latest: Option<Sample>,
    observations: nat,
    covered: i64,
    days: i64,
    i: int,
)
    requires
        history_shows(m, buckets, stamps, latest, observations, covered, days),
        0 <= i < buckets.len(),
    ensures
        m.points.len() == buckets.len(),
        m.points@[i].height_part == buckets[i].playing,
        peak_of(buckets) >= 1 ==> m.points@[i].height_whole == peak_of(buckets),
        m.points@[i].label@ == stamps[i]@ + " · "@ + compact_text(buckets[i].playing as int)
            + " playing"@,
        peak_of(buckets) > 0 ==> m.peak@ == "peak "@ + compact_text(peak_of(buckets) as int)
            + " in this window"@,
        peak_of(buckets) <= 0 ==> m.peak@.len() == 0,
        m.range@ == range_name(days, covered),
        stat_views(m.stats@) == stats_for(latest, peak_of(buckets), observations),
{
    assert(point_is(m.points@[i], buckets, i, stamps[i]@));
}

/// What was seen last is the last sample of the window, or else the last there is.
pub proof fn law_what_was_seen_last(series: Seq<Sample>, samples: Seq<Sample>)
    ensures
        series.len() > 0 ==> newest(series, samples) == Some(series[series.len() - 1]),
        series.len() == 0 && samples.len() > 0 ==> newest(series, samples) == Some(
            samples[samples.len() - 1],
        ),
        series.len() == 0 && samples.len() == 0 ==> newest(series, samples) is None,
{
}

} // verus!
