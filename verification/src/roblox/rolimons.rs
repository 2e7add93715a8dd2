//! Historical game statistics, as a third party publishes them.
//!
//! The service tells a client what a game looks like now and keeps its past to
//! itself. Rolimons has been sampling public game stats since 2019 and embeds
//! the whole series in the page of a game, in a block of its own; this reads
//! that block. The user's session is never sent there.
//!
//! Sampling density is not uniform: six hours apart in the early years, about
//! ten minutes recently. So nothing here assumes an interval, and the chart
//! buckets by time.

use crate::number::{decimal_int, int_text};
use crate::ratio::{
    below_one, divide, lemma_nearest_positive, lemma_products_keep_order, lemma_two_to, multiply,
    nearest, over, round_ratio, scaled_view, times, truncate, two_to, value_below, whole, Scaled,
    HIGH, LOW,
};
use crate::roblox::error::Error;
use crate::roblox::models::{share_of_votes, vote_percent};
use crate::text::{
    cat2, cat4, chars_of, find_from, is_space_spec, law_trimming_takes_the_padding, lemma_find_from,
    occurs_at, opt_text, position, range_text, trim_chars, trimmed, string_of,
};
use vstd::prelude::*;
use vstd::string::*;

verus! {

/// Enough of a browser to be served.
pub const BROWSER_UA: &'static str =
    "Mozilla/5.0 (X11; Linux x86_64) AppleWebKit/537.36 (KHTML, like Gecko) Chrome/120.0.0.0 Safari/537.36";

/// One game's history. Every series runs parallel to `timestamps`; a sample that
/// was not taken is missing rather than zero.
#[derive(Debug, Clone, Default)]
pub struct History {
    /// Unix seconds, ascending.
    pub timestamps: Vec<i64>,
    pub players: Vec<Option<i64>>,
    /// Minutes, each as the bits of a double.
    pub avg_playtime: Vec<Option<u64>>,
    pub visits: Vec<Option<i64>>,
    pub upvotes: Vec<Option<i64>>,
    pub downvotes: Vec<Option<i64>>,
    pub favorites: Vec<Option<i64>>,
}

/// The last value of a series that is there.
pub open spec fn last_known<T>(series: Seq<Option<T>>) -> Option<T>
    decreases series.len(),
{
    if series.len() == 0 {
        None
    } else if series.last() is Some {
        series.last()
    } else {
        last_known(series.drop_last())
    }
}

/// The samples of the first `n` that are no older than `cutoff` and were taken.
pub open spec fn samples_since(h: History, cutoff: int, n: nat) -> Seq<(i64, i64)>
    decreases n,
{
    if n == 0 {
        Seq::empty()
    } else {
        let i = n - 1;
        let before = samples_since(h, cutoff, i as nat);
        match h.players@[i] {
            Some(p) => if h.timestamps@[i] >= cutoff {
                before.push((h.timestamps@[i], p))
            } else {
                before
            },
            None => before,
        }
    }
}

/// How many samples have both a time and a number of players.
pub open spec fn paired(h: History) -> nat {
    if h.timestamps.len() < h.players.len() {
        h.timestamps@.len()
    } else {
        h.players@.len()
    }
}

/// The oldest moment within the last `days`, one day at least.
pub open spec fn window_start(days: i64, now: i64) -> int {
    now - (if days < 1 { 1 } else { days as int }) * 86_400
}

/// The last of the samples with the most players.
pub open spec fn busiest(samples: Seq<(i64, i64)>) -> Option<(i64, i64)>
    decreases samples.len(),
{
    if samples.len() == 0 {
        None
    } else {
        match busiest(samples.drop_last()) {
            Some(b) => if samples.last().1 >= b.1 {
                Some(samples.last())
            } else {
                Some(b)
            },
            None => Some(samples.last()),
        }
    }
}

fn latest<T: Copy>(series: &Vec<Option<T>>) -> (r: Option<T>)
    ensures
        r == last_known(series@),
{
    let mut n: usize = series.len();
    assert(series@.take(series@.len() as int) =~= series@);
    while n > 0
        invariant
            n <= series.len(),
            last_known(series@) == last_known(series@.take(n as int)),
        decreases n,
    {
        assert(series@.take(n as int).last() == series@[n - 1]);
        assert(series@.take(n as int).drop_last() =~= series@.take(n - 1));
        match series[n - 1] {
            Some(x) => {
                return Some(x);
            },
            None => {},
        }
        n = n - 1;
    }
    None
}

impl History {
    pub fn is_empty(&self) -> (r: bool)
        ensures
            r == (self.timestamps@.len() == 0),
    {
        self.timestamps.len() == 0
    }

    /// The window's start is a 64-bit moment.
    pub open spec fn window_fits(days: i64, now: i64) -> bool {
        &&& (if days < 1 { 1 } else { days as int }) * 86_400 <= i64::MAX
        &&& i64::MIN <= window_start(days, now)
    }

    /// Samples no older than `days`, as `(timestamp, players)`. The two series
    /// should run parallel; where they do not, the longer one is cut.
    pub fn recent_players(&self, days: i64, now: i64) -> (out: Vec<(i64, i64)>)
        requires
            History::window_fits(days, now),
        ensures
            out@ == samples_since(*self, window_start(days, now), paired(*self)),
    {
        let span: i64 = if days < 1 {
            1
        } else {
            days
        };
        let cutoff: i64 = now - span * 86_400;
        let n: usize = if self.timestamps.len() < self.players.len() {
            self.timestamps.len()
        } else {
            self.players.len()
        };
        let mut out: Vec<(i64, i64)> = Vec::new();
        let mut i: usize = 0;
        while i < n
            invariant
                i <= n <= self.timestamps.len(),
                n <= self.players.len(),
                out@ == samples_since(*self, cutoff as int, i as nat),
            decreases n - i,
        {
            if self.timestamps[i] >= cutoff {
                match self.players[i] {
                    Some(p) => {
                        out.push((self.timestamps[i], p));
                    },
                    None => {},
                }
            }
            i = i + 1;
        }
        out
    }

    pub fn latest_players(&self) -> (r: Option<i64>)
        ensures
            r == last_known(self.players@),
    {
        latest(&self.players)
    }

    pub fn latest_visits(&self) -> (r: Option<i64>)
        ensures
            r == last_known(self.visits@),
    {
        latest(&self.visits)
    }

    /// Minutes, as the bits of a double.
    pub fn latest_avg_playtime(&self) -> (r: Option<u64>)
        ensures
            r == last_known(self.avg_playtime@),
    {
        latest(&self.avg_playtime)
    }

    /// Rating as a percentage of votes that are positive.
    pub fn latest_rating(&self) -> (r: Option<i32>)
        requires
            (last_known(self.upvotes@), last_known(self.downvotes@)) matches (
                Some(up),
                Some(down),
            ) ==> i64::MIN <= up + down <= i64::MAX,
        ensures
            r == (match (last_known(self.upvotes@), last_known(self.downvotes@)) {
                (Some(up), Some(down)) => vote_percent(up as int, down as int),
                _ => None,
            }),
    {
        match (latest(&self.upvotes), latest(&self.downvotes)) {
            (Some(up), Some(down)) => share_of_votes(up, down),
            _ => None,
        }
    }

    /// The busiest sample in a window, and when it happened.
    pub fn peak(&self, days: i64, now: i64) -> (r: Option<(i64, i64)>)
        requires
            History::window_fits(days, now),
        ensures
            r == busiest(samples_since(*self, window_start(days, now), paired(*self))),
    {
        let samples = self.recent_players(days, now);
        let mut best: Option<(i64, i64)> = None;
        let mut i: usize = 0;
        assert(samples@.take(0) =~= Seq::<(i64, i64)>::empty());
        while i < samples.len()
            invariant
                i <= samples.len(),
                best == busiest(samples@.take(i as int)),
            decreases samples.len() - i,
        {
            assert(samples@.take(i as int + 1).drop_last() =~= samples@.take(i as int));
            assert(samples@.take(i as int + 1).last() == samples@[i as int]);
            let s: (i64, i64) = samples[i];
            best = match best {
                Some(b) => if s.1 >= b.1 {
                    Some(s)
                } else {
                    Some(b)
                },
                None => Some(s),
            };
            i = i + 1;
        }
        assert(samples@.take(samples@.len() as int) =~= samples@);
        best
    }

    /// The span the data actually covers, in days.
    pub fn covered_days(&self) -> (r: i64)
        requires
            self.timestamps@.len() > 0 ==> i64::MIN <= self.timestamps@.last()
                - self.timestamps@[0] <= i64::MAX,
        ensures
            r == (if self.timestamps@.len() > 0 && self.timestamps@.last() > self.timestamps@[0] {
                (self.timestamps@.last() - self.timestamps@[0]) / 86_400
            } else {
                0
            }),
    {
        let n: usize = self.timestamps.len();
        if n == 0 {
            return 0;
        }
        let span: i64 = self.timestamps[n - 1] - self.timestamps[0];
        if span > 0 {
            span / 86_400
        } else {
            0
        }
    }
}

/// The page of a game. It is keyed on the root place id: a universe id would give
/// somebody else's game or nothing at all.
pub fn history_url(root_place_id: i64) -> (r: std::result::Result<String, Error>)
    ensures
        match r {
            Ok(url) => root_place_id > 0 && url@ == "https://www.rolimons.com/game/"@ + decimal_int(
                root_place_id as int,
            ),
            Err(Error::Api(e)) => root_place_id <= 0 && e@ == "no place id to look up"@,
            Err(_) => false,
        },
{
    if root_place_id <= 0 {
        return Err(Error::Api("no place id to look up".to_owned()));
    }
    Ok(cat2("https://www.rolimons.com/game/", int_text(root_place_id).as_str()))
}

/// The page was refused with this status.
pub fn history_refused(status: &str, root_place_id: i64) -> (r: Error)
    ensures
        r matches Error::Api(e) && e@ == "Rolimons returned "@ + status@ + " for place "@
            + decimal_int(root_place_id as int),
{
    Error::Api(
        cat4("Rolimons returned ", status, " for place ", int_text(root_place_id).as_str()),
    )
}

/// What a page that was served came to: its history, unless there is none in it.
pub fn history_of(parsed: Option<History>) -> (r: std::result::Result<History, Error>)
    ensures
        match r {
            Ok(h) => parsed == Some(h) && h.timestamps@.len() > 0,
            Err(Error::Api(e)) => (parsed is None || parsed->0.timestamps@.len() == 0) && e@
                == "Rolimons served a page with no history in it"@,
            Err(_) => false,
        },
{
    match usable(parsed) {
        Some(h) => Ok(h),
        None => Err(Error::Api("Rolimons served a page with no history in it".to_owned())),
    }
}

/// A history with no samples counts as none.
pub fn usable(parsed: Option<History>) -> (r: Option<History>)
    ensures
        r == (if parsed is Some && parsed->0.timestamps@.len() > 0 {
            parsed
        } else {
            None
        }),
{
    match parsed {
        Some(h) => if h.is_empty() {
            None
        } else {
            Some(h)
        },
        None => None,
    }
}

/// Where the block with the history starts.
pub const OPEN: &'static str = "<script id=\"game_history_json\"";

/// The data embedded in the page: what stands between the end of the block's
/// opening tag and its closing tag, without the white space around it.
pub open spec fn embedded(html: Seq<char>) -> Option<Seq<char>> {
    match find_from(html, OPEN@, 0) {
        None => None,
        Some(start) => match find_from(html, ">"@, start) {
            None => None,
            Some(close) => match find_from(html, "</script>"@, close + 1) {
                None => None,
                Some(end) => Some(trimmed(html.subrange(close + 1, end))),
            },
        },
    }
}

/// Pull the embedded data out of the page.
pub fn extract(html: &str) -> (r: Option<String>)
    ensures
        opt_text(r) == embedded(html@),
{
    let v = chars_of(html);
    let open = chars_of(OPEN);
    let close_tag = chars_of(">");
    let end_tag = chars_of("</script>");
    proof {
        reveal_strlit(">");
    }
    match position(&v, &open, 0) {
        None => None,
        Some(start) => match position(&v, &close_tag, start) {
            None => None,
            Some(close) => match position(&v, &end_tag, close + 1) {
                None => None,
                Some(end) => {
                    let inside = chars_of(range_text(&v, close + 1, end).as_str());
                    Some(string_of(&trim_chars(&inside)))
                },
            },
        },
    }
}

/// One column of the chart.
#[derive(Debug, Clone, Copy, PartialEq, Eq)]
pub struct Bucket {
    /// Start of the bucket, unix seconds.
    pub at: i64,
    pub players: i64,
}

/// The width of one of `columns` columns over `span` seconds, one second at
/// least.
pub open spec fn column_width(span: nat, columns: nat) -> (nat, int) {
    let w = over(nearest(span, 1), nearest(columns, 1));
    if value_below(w, 1) {
        nearest(1, 1)
    } else {
        w
    }
}

/// The column of a sample `offset` seconds behind the first.
pub open spec fn column_of(offset: int, width: (nat, int), columns: nat) -> int {
    if offset < 0 {
        0
    } else {
        let k = whole(over(nearest(offset as nat, 1), width)) as int;
        if k < columns {
            k
        } else {
            columns - 1
        }
    }
}

/// Where a column starts, in seconds behind the first sample.
pub open spec fn column_start(i: nat, width: (nat, int)) -> int {
    let k = whole(times(nearest(i, 1), width));
    if k > i64::MAX {
        i64::MAX as int
    } else {
        k as int
    }
}

pub open spec fn sum_in(points: Seq<(i64, i64)>, first: i64, w: (nat, int), columns: nat, i: int) -> int
    decreases points.len(),
{
    if points.len() == 0 {
        0
    } else {
        sum_in(points.drop_last(), first, w, columns, i) + (if column_of(
            points.last().0 - first,
            w,
            columns,
        ) == i {
            points.last().1 as int
        } else {
            0
        })
    }
}

pub open spec fn count_in(
    points: Seq<(i64, i64)>,
    first: i64,
    w: (nat, int),
    columns: nat,
    i: int,
) -> nat
    decreases points.len(),
{
    if points.len() == 0 {
        0
    } else {
        count_in(points.drop_last(), first, w, columns, i) + (if column_of(
            points.last().0 - first,
            w,
            columns,
        ) == i {
            1nat
        } else {
            0nat
        })
    }
}

/// `sum / count`, cut towards zero.
pub open spec fn mean(sum: int, count: nat) -> int {
    if sum >= 0 {
        sum / count as int
    } else {
        -((-sum) / count as int)
    }
}

/// The columns below `n` that hold samples, each with the mean of its samples.
pub open spec fn columns_below(
    points: Seq<(i64, i64)>,
    first: i64,
    w: (nat, int),
    columns: nat,
    n: nat,
) -> Seq<Bucket>
    decreases n,
{
    if n == 0 {
        Seq::empty()
    } else {
        let i = (n - 1) as nat;
        let before = columns_below(points, first, w, columns, i);
        let count = count_in(points, first, w, columns, i as int);
        if count == 0 {
            before
        } else {
            before.push(
                (Bucket {
                    at: (first + column_start(i, w)) as i64,
                    players: mean(sum_in(points, first, w, columns, i as int), count) as i64,
                }),
            )
        }
    }
}

pub open spec fn span_of(points: Seq<(i64, i64)>) -> nat {
    let d = points.last().0 - points[0].0;
    if d < 1 {
        1
    } else {
        d as nat
    }
}

/// A series in at most `columns` columns.
pub open spec fn bucketed(points: Seq<(i64, i64)>, columns: nat) -> Seq<Bucket> {
    if points.len() == 0 || columns == 0 {
        Seq::empty()
    } else if points.len() <= columns {
        points.map_values(|p: (i64, i64)| (Bucket { at: p.0, players: p.1 }))
    } else {
        columns_below(
            points,
            points[0].0,
            column_width(span_of(points), columns),
            columns,
            columns,
        )
    }
}

/// The offsets of a series, and the starts of its columns, are 64-bit moments.
pub open spec fn series_fits(points: Seq<(i64, i64)>, columns: nat) -> bool {
    &&& forall|k: int|
        0 <= k < points.len() ==> i64::MIN <= (#[trigger] points[k]).0 - points[0].0 <= i64::MAX
    &&& points.len() > columns && columns > 0 ==> forall|i: nat|
        i < columns && count_in(
            points,
            points[0].0,
            column_width(span_of(points), columns),
            columns,
            i as int,
        ) > 0 ==> points[0].0 + #[trigger] column_start(
            i,
            column_width(span_of(points), columns),
        ) <= i64::MAX
}

fn column_index(offset: i64, width: &Scaled, columns: usize) -> (k: usize)
    requires
        columns > 0,
        LOW <= width.m <= HIGH,
        -300 <= width.e <= 300,
    ensures
        k == column_of(offset as int, scaled_view(*width), columns as nat),
        k < columns,
{
    if offset < 0 {
        return 0;
    }
    let a = round_ratio(offset as u64, 1);
    let q = divide(&a, width);
    let k: u64 = truncate(&q);
    if k < columns as u64 {
        k as usize
    } else {
        columns - 1
    }
}

fn whole_mean(sum: i128, count: u64) -> (r: i64)
    requires
        count > 0,
        i64::MIN * count <= sum <= i64::MAX * count,
    ensures
        r == mean(sum as int, count as nat),
{
    if sum >= 0 {
        let q: u128 = (sum as u128) / (count as u128);
        assert(q <= i64::MAX) by (nonlinear_arith)
            requires
                q == (sum as u128) / (count as u128),
                0 <= sum <= i64::MAX * count,
                count > 0,
        ;
        q as i64
    } else {
        let neg: u128 = (-sum) as u128;
        let q: u128 = neg / (count as u128);
        assert(q <= 0x8000_0000_0000_0000u128) by (nonlinear_arith)
            requires
                q == neg / (count as u128),
                neg == -sum,
                i64::MIN * count <= sum,
                count > 0,
        ;
        if q == 0x8000_0000_0000_0000u128 {
            i64::MIN
        } else {
            -(q as i64)
        }
    }
}

proof fn lemma_sums_bounded(
    points: Seq<(i64, i64)>,
    first: i64,
    w: (nat, int),
    columns: nat,
    i: int,
)
    ensures
        count_in(points, first, w, columns, i) <= points.len(),
        i64::MIN * count_in(points, first, w, columns, i) <= sum_in(points, first, w, columns, i)
            <= i64::MAX * count_in(points, first, w, columns, i),
    decreases points.len(),
{
    if points.len() > 0 {
        lemma_sums_bounded(points.drop_last(), first, w, columns, i);
        let c = count_in(points.drop_last(), first, w, columns, i) as int;
        assert(i64::MIN * (c + 1) == i64::MIN * c + i64::MIN) by (nonlinear_arith);
        assert(i64::MAX * (c + 1) == i64::MAX * c + i64::MAX) by (nonlinear_arith);
    }
}

/// Reduce a series to at most `columns` evenly spaced buckets.
///
/// Buckets are spaced by time, not by sample count, so the axis stays linear,
/// and each holds the mean of the samples inside it. Empty buckets are dropped
/// rather than drawn as zero: no sample is not the same as nobody playing.
pub fn bucket_players(points: &Vec<(i64, i64)>, columns: usize) -> (out: Vec<Bucket>)
    requires
        series_fits(points@, columns as nat),
    ensures
        out@ == bucketed(points@, columns as nat),
{
    let mut out: Vec<Bucket> = Vec::new();
    if points.len() == 0 || columns == 0 {
        assert(out@ =~= bucketed(points@, columns as nat));
        return out;
    }
    if points.len() <= columns {
        let mut i: usize = 0;
        while i < points.len()
            invariant
                i <= points.len(),
                out.len() == i,
                forall|k: int|
                    0 <= k < i ==> #[trigger] out@[k] == (Bucket {
                        at: points@[k].0,
                        players: points@[k].1,
                    }),
            decreases points.len() - i,
        {
            out.push(Bucket { at: points[i].0, players: points[i].1 });
            i = i + 1;
        }
        assert(out@ =~= bucketed(points@, columns as nat));
        return out;
    }
    let first: i64 = points[0].0;
    let last: i64 = points[points.len() - 1].0;
    assert(points@.last() == points@[points@.len() - 1]);
    let d: i64 = last - first;
    let span: u64 = if d < 1 {
        1
    } else {
        d as u64
    };
    let a = round_ratio(span, 1);
    let b = round_ratio(columns as u64, 1);
    let w = divide(&a, &b);
    let width = if below_one(&w) {
        round_ratio(1, 1)
    } else {
        w
    };
    let ghost wv = scaled_view(width);
    assert(wv == column_width(span_of(points@), columns as nat));

    let mut sums: Vec<i128> = Vec::new();
    let mut counts: Vec<u64> = Vec::new();
    let mut c: usize = 0;
    let ghost none = points@.take(0);
    while c < columns
        invariant
            c <= columns,
            sums.len() == c,
            counts.len() == c,
            none.len() == 0,
            forall|i: int|
                0 <= i < c ==> #[trigger] sums@[i] == sum_in(none, first, wv, columns as nat, i),
            forall|i: int|
                0 <= i < c ==> #[trigger] counts@[i] == count_in(
                    none,
                    first,
                    wv,
                    columns as nat,
                    i,
                ),
        decreases columns - c,
    {
        sums.push(0);
        counts.push(0);
        c = c + 1;
    }
    let mut n: usize = 0;
    while n < points.len()
        invariant
            n <= points.len(),
            columns > 0,
            sums.len() == columns,
            counts.len() == columns,
            first == points@[0].0,
            wv == scaled_view(width),
            LOW <= width.m <= HIGH,
            -300 <= width.e <= 300,
            forall|k: int|
                0 <= k < points.len() ==> i64::MIN <= (#[trigger] points@[k]).0 - points@[0].0
                    <= i64::MAX,
            forall|i: int|
                0 <= i < columns ==> #[trigger] sums@[i] == sum_in(
                    points@.take(n as int),
                    first,
                    wv,
                    columns as nat,
                    i,
                ),
            forall|i: int|
                0 <= i < columns ==> #[trigger] counts@[i] == count_in(
                    points@.take(n as int),
                    first,
                    wv,
                    columns as nat,
                    i,
                ),
        decreases points.len() - n,
    {
        let at: i64 = points[n].0;
        let players: i64 = points[n].1;
        let idx: usize = column_index(at - first, &width, columns);
        proof {
            assert(points@.take(n as int + 1).drop_last() =~= points@.take(n as int));
            assert(points@.take(n as int + 1).last() == points@[n as int]);
            lemma_sums_bounded(points@.take(n as int), first, wv, columns as nat, idx as int);
            let c = counts@[idx as int] as int;
            assert(i64::MIN * c + i64::MIN >= i64::MIN * 0xffff_ffff_ffff_ffff) by (nonlinear_arith)
                requires
                    0 <= c < 0xffff_ffff_ffff_ffff,
            ;
            assert(i64::MAX * c + i64::MAX <= i64::MAX * 0xffff_ffff_ffff_ffff) by (nonlinear_arith)
                requires
                    0 <= c < 0xffff_ffff_ffff_ffff,
            ;
        }
        let s: i128 = sums[idx] + players as i128;
        sums.set(idx, s);
        let m: u64 = counts[idx] + 1;
        counts.set(idx, m);
        n = n + 1;
    }
    assert(points@.take(points@.len() as int) =~= points@);
    let mut i: usize = 0;
    while i < columns
        invariant
            i <= columns,
            columns > 0,
            points.len() > columns,
            sums.len() == columns,
            counts.len() == columns,
            first == points@[0].0,
            wv == scaled_view(width),
            wv == column_width(span_of(points@), columns as nat),
            LOW <= width.m <= HIGH,
            -300 <= width.e <= 300,
            series_fits(points@, columns as nat),
            forall|k: int|
                0 <= k < columns ==> #[trigger] sums@[k] == sum_in(
                    points@,
                    first,
                    wv,
                    columns as nat,
                    k,
                ),
            forall|k: int|
                0 <= k < columns ==> #[trigger] counts@[k] == count_in(
                    points@,
                    first,
                    wv,
                    columns as nat,
                    k,
                ),
            out@ == columns_below(points@, first, wv, columns as nat, i as nat),
        decreases columns - i,
    {
        if counts[i] > 0 {
            proof {
                lemma_sums_bounded(points@, first, wv, columns as nat, i as int);
            }
            let k = round_ratio(i as u64, 1);
            let start: u64 = truncate(&multiply(&k, &width));
            let start: i64 = if start > 0x7fff_ffff_ffff_ffff {
                i64::MAX
            } else {
                start as i64
            };
            assert(start == column_start(i as nat, wv));
            let players: i64 = whole_mean(sums[i], counts[i]);
            out.push(Bucket { at: first + start, players });
        }
        i = i + 1;
    }
    out
}

/// A chart never has more columns than were asked for.
pub proof fn law_no_more_columns_than_asked(points: Seq<(i64, i64)>, columns: nat)
    ensures
        bucketed(points, columns).len() <= columns,
{
    if points.len() > columns && columns > 0 {
        lemma_columns_below_len(
            points,
            points[0].0,
            column_width(span_of(points), columns),
            columns,
            columns,
        );
    }
}

proof fn lemma_columns_below_len(
    points: Seq<(i64, i64)>,
    first: i64,
    w: (nat, int),
    columns: nat,
    n: nat,
)
    ensures
        columns_below(points, first, w, columns, n).len() <= n,
    decreases n,
{
    if n > 0 {
        lemma_columns_below_len(points, first, w, columns, (n - 1) as nat);
    }
}

/// The width of a column is not zero.
proof fn lemma_width_positive(span: nat, columns: nat)
    ensures
        column_width(span, columns).0 > 0,
{
    let w = over(nearest(span, 1), nearest(columns, 1));
    lemma_nearest_positive(1);
    if !value_below(w, 1) && w.0 == 0 {
        if w.1 >= 0 {
            assert(0 * two_to(w.1 as nat) == 0);
        } else {
            lemma_two_to((-w.1) as nat);
        }
    }
}

/// A later column starts no earlier.
proof fn lemma_starts_ordered(i: nat, j: nat, w: (nat, int))
    requires
        i <= j,
        w.0 > 0,
    ensures
        0 <= column_start(i, w) <= column_start(j, w),
{
    lemma_products_keep_order(i, j, w);
}

/// The columns below `n` come in time order, and none starts behind the next.
proof fn lemma_columns_ordered(
    points: Seq<(i64, i64)>,
    first: i64,
    w: (nat, int),
    columns: nat,
    n: nat,
)
    requires
        w.0 > 0,
        n <= columns,
        forall|i: nat|
            i < columns && count_in(points, first, w, columns, i as int) > 0 ==> first
                + #[trigger] column_start(i, w) <= i64::MAX,
    ensures
        ({
            let out = columns_below(points, first, w, columns, n);
            &&& forall|a: int, b: int|
                0 <= a <= b < out.len() ==> (#[trigger] out[a]).at <= (#[trigger] out[b]).at
            &&& forall|a: int|
                0 <= a < out.len() ==> (#[trigger] out[a]).at <= first + column_start(n, w)
        }),
    decreases n,
{
    if n > 0 {
        let i = (n - 1) as nat;
        lemma_columns_ordered(points, first, w, columns, i);
        lemma_starts_ordered(i, n, w);
        let before = columns_below(points, first, w, columns, i);
        let out = columns_below(points, first, w, columns, n);
        if count_in(points, first, w, columns, i as int) > 0 {
            let at = (first + column_start(i, w)) as i64;
            assert(at == first + column_start(i, w));
            assert(out.last().at == at);
            assert(out.drop_last() =~= before);
            assert forall|a: int, b: int| 0 <= a <= b < out.len() implies (#[trigger] out[a]).at <= (
            #[trigger] out[b]).at by {
                if a < before.len() {
                    assert(out[a] == before[a]);
                }
                if b < before.len() {
                    assert(out[b] == before[b]);
                }
            }
            assert forall|a: int| 0 <= a < out.len() implies (#[trigger] out[a]).at <= first
                + column_start(n, w) by {
                if a < before.len() {
                    assert(out[a] == before[a]);
                }
            }
        }
    }
}

/// The columns of a chart come in time order, as the samples do.
pub proof fn law_buckets_stay_in_time_order(
    points: Seq<(i64, i64)>,
    columns: nat,
    i: int,
    j: int,
)
    requires
        series_fits(points, columns),
        forall|a: int, b: int|
            0 <= a <= b < points.len() ==> (#[trigger] points[a]).0 <= (#[trigger] points[b]).0,
        0 <= i < j < bucketed(points, columns).len(),
    ensures
        bucketed(points, columns)[i].at <= bucketed(points, columns)[j].at,
{
    if points.len() > columns {
        let w = column_width(span_of(points), columns);
        lemma_width_positive(span_of(points), columns);
        lemma_columns_ordered(points, points[0].0, w, columns, columns);
    } else {
        assert(bucketed(points, columns)[i].at == points[i].0);
        assert(bucketed(points, columns)[j].at == points[j].0);
    }
}

/// The latest value of a series is the last one that was taken.
pub proof fn law_the_last_sample_counts<T>(series: Seq<Option<T>>, k: int)
    requires
        -1 <= k < series.len(),
        k >= 0 ==> series[k] is Some,
        forall|j: int| k < j < series.len() ==> (#[trigger] series[j]) is None,
    ensures
        last_known(series) == (if k >= 0 {
            series[k]
        } else {
            None
        }),
    decreases series.len(),
{
    if series.len() > 0 {
        if k < series.len() - 1 {
            assert(series[series.len() - 1] is None);
            assert forall|j: int| k < j < series.drop_last().len() implies (
            #[trigger] series.drop_last()[j]) is None by {
                assert(series.drop_last()[j] == series[j]);
            }
            law_the_last_sample_counts(series.drop_last(), k);
        }
    }
}

/// The samples of a window are those that were taken within it, each as it was, in
/// their order. A window of `days` goes back so many times 86400 seconds.
pub proof fn law_samples_of_a_window(h: History, days: i64, now: i64, n: nat)
    requires
        n <= paired(h),
    ensures
        ({
            let out = samples_since(h, window_start(days, now), n);
            let oldest = now - 86_400 * (if days > 1 {
                days as int
            } else {
                1
            });
            &&& forall|i: int|
                0 <= i < n && h.timestamps@[i] >= oldest && (#[trigger] h.players@[i]) is Some
                    ==> out.contains((h.timestamps@[i], h.players@[i]->0))
            &&& forall|k: int|
                0 <= k < out.len() ==> (#[trigger] out[k]).0 >= oldest && exists|i: int|
                    0 <= i < n && h.timestamps@[i] == out[k].0 && #[trigger] h.players@[i] == Some(
                        out[k].1,
                    )
            &&& out.len() <= n
        }),
    decreases n,
{
    if n > 0 {
        let m = (n - 1) as nat;
        law_samples_of_a_window(h, days, now, m);
        let cutoff = window_start(days, now);
        let before = samples_since(h, cutoff, m);
        let out = samples_since(h, cutoff, n);
        let oldest = now - 86_400 * (if days > 1 {
            days as int
        } else {
            1
        });
        assert(cutoff == oldest);
        assert forall|i: int|
            0 <= i < n && h.timestamps@[i] >= oldest && (#[trigger] h.players@[i]) is Some implies out.contains(
            (h.timestamps@[i], h.players@[i]->0),
        ) by {
            let p = (h.timestamps@[i], h.players@[i]->0);
            if i < m {
                assert(before.contains(p));
                let k = choose|k: int| 0 <= k < before.len() && before[k] == p;
                assert(out[k] == p);
            } else {
                assert(out[before.len() as int] == p);
            }
        }
        assert forall|k: int| 0 <= k < out.len() implies (#[trigger] out[k]).0 >= oldest && exists|
            i: int,
        |
            0 <= i < n && h.timestamps@[i] == out[k].0 && #[trigger] h.players@[i] == Some(
                out[k].1,
            ) by {
            if k < before.len() {
                assert(out[k] == before[k]);
            } else {
                assert(h.players@[m as int] == Some(out[k].1));
            }
        }
    }
}

/// The peak is one of the samples, none has more players, and of several as busy it
/// is the last.
pub proof fn law_the_peak_is_the_busiest(samples: Seq<(i64, i64)>)
    ensures
        samples.len() == 0 <==> busiest(samples) is None,
        busiest(samples) matches Some(b) ==> exists|k: int|
            0 <= k < samples.len() && #[trigger] samples[k] == b && (forall|j: int|
                0 <= j < samples.len() ==> (#[trigger] samples[j]).1 <= b.1) && (forall|j: int|
                k < j < samples.len() ==> (#[trigger] samples[j]).1 < b.1),
    decreases samples.len(),
{
    if samples.len() > 0 {
        let fewer = samples.drop_last();
        let n = samples.len() - 1;
        law_the_peak_is_the_busiest(fewer);
        assert(samples.last() == samples[n]);
        assert(forall|j: int| 0 <= j < n ==> #[trigger] samples[j] == fewer[j]);
        let b = busiest(samples)->0;
        if busiest(fewer) is Some && samples.last().1 < (busiest(fewer)->0).1 {
            let k = choose|k: int|
                0 <= k < fewer.len() && #[trigger] fewer[k] == b && (forall|j: int|
                    0 <= j < fewer.len() ==> (#[trigger] fewer[j]).1 <= b.1) && (forall|j: int|
                    k < j < fewer.len() ==> (#[trigger] fewer[j]).1 < b.1);
            assert(samples[k] == b);
        } else {
            assert(samples[n] == b);
        }
    }
}

/// The history is what stands in its block of the page, whatever stands around the
/// block and whatever white space is within it.
pub proof fn law_the_embedded_history_reads_back(
    head: Seq<char>,
    attributes: Seq<char>,
    left: Seq<char>,
    data: Seq<char>,
    right: Seq<char>,
    rest: Seq<char>,
)
    requires
        !head.contains('<'),
        !attributes.contains('>'),
        !data.contains('<'),
        data.len() > 0,
        !is_space_spec(data[0]),
        !is_space_spec(data.last()),
        forall|i: int| 0 <= i < left.len() ==> is_space_spec(#[trigger] left[i]),
        forall|i: int| 0 <= i < right.len() ==> is_space_spec(#[trigger] right[i]),
    ensures
        embedded(
            head + "<script id=\"game_history_json\""@ + attributes + seq!['>'] + left + data + right
                + "</script>"@ + rest,
        ) == Some(data),
{
    let open = "<script id=\"game_history_json\""@;
    let html = head + open + attributes + seq!['>'] + left + data + right + "</script>"@ + rest;
    reveal_strlit("<script id=\"game_history_json\"");
    reveal_strlit(">");
    reveal_strlit("</script>");
    let h = head.len() as int;
    let c = h + open.len() + attributes.len();
    let inside = left + data + right;
    let e = c + 1 + inside.len();
    lemma_find_from(html, open, 0);
    assert(html.subrange(h, h + open.len()) =~= open);
    assert(occurs_at(html, open, h));
    assert forall|j: int| 0 <= j < h implies !occurs_at(html, open, j) by {
        if occurs_at(html, open, j) {
            assert(html.subrange(j, j + open.len())[0] == '<');
            assert(html[j] == head[j]);
        }
    }
    assert(find_from(html, open, 0) == Some(h));
    lemma_find_from(html, ">"@, h);
    assert(html[c] == '>');
    assert(html.subrange(c, c + 1) =~= ">"@);
    assert(occurs_at(html, ">"@, c));
    assert forall|j: int| h <= j < c implies !occurs_at(html, ">"@, j) by {
        if occurs_at(html, ">"@, j) {
            assert(html.subrange(j, j + 1)[0] == '>');
            if j < h + open.len() {
                assert(html[j] == open[j - h]);
            } else {
                assert(html[j] == attributes[j - h - open.len()]);
            }
        }
    }
    assert(find_from(html, ">"@, h) == Some(c));
    lemma_find_from(html, "</script>"@, c + 1);
    assert(html.subrange(e, e + 9) =~= "</script>"@);
    assert(occurs_at(html, "</script>"@, e));
    assert forall|j: int| c + 1 <= j < e implies !occurs_at(html, "</script>"@, j) by {
        if occurs_at(html, "</script>"@, j) {
            assert(html.subrange(j, j + 9)[0] == '<');
            let k = j - c - 1;
            assert(html[j] == inside[k]);
            if k < left.len() {
                assert(is_space_spec(left[k]));
            } else if k < left.len() + data.len() {
                assert(inside[k] == data[k - left.len()]);
            } else {
                assert(is_space_spec(right[k - left.len() - data.len()]));
            }
        }
    }
    assert(html.subrange(c + 1, e) =~= inside);
    law_trimming_takes_the_padding(left, data, right);
}

/// A mean lies within what it is a mean of: so many times it is the sum, but for less
/// than one each, and it is cut towards zero.
pub proof fn law_means_are_cut(sum: int, count: nat)
    requires
        count > 0,
    ensures
        sum >= 0 ==> 0 <= sum - mean(sum, count) * count < count,
        sum <= 0 ==> mean(sum, count) == -mean(-sum, count),
{
    if sum >= 0 {
        assert(0 <= sum - sum / (count as int) * count < count) by (nonlinear_arith)
            requires
                sum >= 0,
                count > 0,
        ;
    } else {
        assert((-sum) / count as int >= 0) by (nonlinear_arith)
            requires
                sum < 0,
                count > 0,
        ;
    }
}

/// A series that fits is drawn as it is, one column for each sample; without columns
/// there is no chart.
pub proof fn law_short_series_are_drawn_as_they_are(points: Seq<(i64, i64)>, columns: nat)
    requires
        points.len() <= columns,
    ensures
        bucketed(points, columns).len() == points.len(),
        forall|i: int|
            0 <= i < points.len() ==> (#[trigger] bucketed(points, columns)[i]).at == points[i].0
                && bucketed(points, columns)[i].players == points[i].1,
        bucketed(points, 0).len() == 0,
{
}

proof fn lemma_counts_of_columns(
    points: Seq<(i64, i64)>,
    first: i64,
    w: (nat, int),
    columns: nat,
    n: nat,
)
    requires
        n <= columns,
        columns > 0,
    ensures
        counted(points, first, w, columns, n) <= points.len(),
        n == columns ==> counted(points, first, w, columns, n) == points.len(),
    decreases points.len(),
{
    if points.len() == 0 {
        lemma_counted_none(points, first, w, columns, n);
    } else {
        lemma_counts_of_columns(points.drop_last(), first, w, columns, n);
        lemma_counted_one_more(points, first, w, columns, n);
    }
}

proof fn lemma_counted_none(
    points: Seq<(i64, i64)>,
    first: i64,
    w: (nat, int),
    columns: nat,
    n: nat,
)
    requires
        points.len() == 0,
    ensures
        counted(points, first, w, columns, n) == 0,
    decreases n,
{
    if n > 0 {
        lemma_counted_none(points, first, w, columns, (n - 1) as nat);
    }
}

proof fn lemma_counted_one_more(
    points: Seq<(i64, i64)>,
    first: i64,
    w: (nat, int),
    columns: nat,
    n: nat,
)
    requires
        points.len() > 0,
        columns > 0,
    ensures
        counted(points, first, w, columns, n) == counted(
            points.drop_last(),
            first,
            w,
            columns,
            n,
        ) + (if column_of(points.last().0 - first, w, columns) < n {
            1nat
        } else {
            0nat
        }),
        0 <= column_of(points.last().0 - first, w, columns) < columns,
    decreases n,
{
    if n > 0 {
        lemma_counted_one_more(points, first, w, columns, (n - 1) as nat);
    }
}

/// How many samples the first `n` columns hold.
pub open spec fn counted(
    points: Seq<(i64, i64)>,
    first: i64,
    w: (nat, int),
    columns: nat,
    n: nat,
) -> nat
    decreases n,
{
    if n == 0 {
        0
    } else {
        counted(points, first, w, columns, (n - 1) as nat) + count_in(
            points,
            first,
            w,
            columns,
            n - 1,
        )
    }
}

/// Every sample is in one column, and in one only: the columns together hold as many
/// samples as there are.
pub proof fn law_every_sample_is_in_one_column(
    points: Seq<(i64, i64)>,
    first: i64,
    w: (nat, int),
    columns: nat,
)
    requires
        columns > 0,
    ensures
        counted(points, first, w, columns, columns) == points.len(),
{
    lemma_counts_of_columns(points, first, w, columns, columns);
}

/// Where the block with the history starts in a page.
pub proof fn law_where_the_history_starts()
    ensures
        OPEN@ == "<script id=\"game_history_json\""@,
{
}

} // verus!
