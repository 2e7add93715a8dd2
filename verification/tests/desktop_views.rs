//! What the window shows: numbers, dates, friends, charts and the settings
//! search.

use rojoin::clock::{day_stamp, stamp, today_label, LocalTime, Moment};
use rojoin::desktop::adapters::{
    ago_label, badges, compact, detail_data, fmt_date, fmt_duration, greeting, passes, servers,
    sub_places, tile_from_detail, tile_from_omni, time_ago, time_ago_at, time_ago_unix,
};
use rojoin::desktop::friends::{
    friend_rows, friend_rows_at, presence_label, presence_rank, subtitle_at, subtitle_for,
    FriendInput,
};
use rojoin::desktop::graph::{
    build_graph, game_label, graph_window, GameTime, GraphModel, TimeBucket, Window, TINTS,
};
use rojoin::desktop::history::{
    build_history, history_model, history_ranges, history_window, HistoryModel, Sample,
    HISTORY_COLUMNS,
};
use rojoin::desktop::settings::{
    search_settings, split_words, SETTINGS_CATEGORIES, SETTINGS_INDEX,
};
use rojoin::roblox::friends::{Presence, PresenceKind};
use rojoin::roblox::models::{Badge, GameDetail, GamePass, Place, Server, Votes};
use rojoin::roblox::search::OmniGame;

#[test]
fn compact_counts_read_the_way_people_expect() {
    assert_eq!(compact(0), "0");
    assert_eq!(compact(999), "999");
    assert_eq!(compact(1_000), "1.0K");
    assert_eq!(compact(12_400), "12K");
    assert_eq!(compact(1_500_000), "1.5M");
    assert_eq!(compact(45_000_000), "45M");
    assert_eq!(compact(8_200_000_000), "8.2B");
}

#[test]
fn compact_never_renders_a_negative() {
    assert_eq!(compact(-5), "0");
}

/// Rounds the way a double printed with one or no decimals does.
fn compact_by_float(n: i64) -> String {
    let f = n as f64;
    if n < 0 {
        "0".to_string()
    } else if n < 1_000 {
        n.to_string()
    } else if n >= 1_000_000_000 {
        format!("{:.1}B", f / 1e9)
    } else {
        let (scaled, letter) = if n < 1_000_000 { (f / 1e3, "K") } else { (f / 1e6, "M") };
        if scaled < 10.0 {
            format!("{scaled:.1}{letter}")
        } else {
            format!("{scaled:.0}{letter}")
        }
    }
}

#[test]
fn compact_rounds_like_a_printed_double() {
    for n in [
        1_049, 1_050, 1_051, 1_149, 1_150, 1_250, 1_350, 9_949, 9_950, 9_999, 10_499, 10_500,
        10_501, 11_500, 999_499, 999_500, 999_999, 1_049_999, 1_050_000, 1_250_000, 9_950_000,
        9_999_999, 10_500_000, 999_999_999, 1_050_000_000, 1_250_000_000, 999_500_000_000,
    ] {
        assert_eq!(compact(n), compact_by_float(n), "{n}");
    }
    let mut n: i64 = 1;
    while n < 4_000_000_000 {
        assert_eq!(compact(n), compact_by_float(n), "{n}");
        n = n * 3 / 2 + 7;
    }
}

#[test]
fn dates_fall_back_to_empty_not_a_raw_timestamp() {
    assert_eq!(fmt_date("2020-01-02T03:04:05Z"), "2 Jan 2020");
    assert_eq!(fmt_date("garbage"), "");
    assert_eq!(fmt_date(""), "");
}

#[test]
fn durations_never_render_a_zero_component() {
    assert_eq!(fmt_duration(0), "0m");
    assert_eq!(fmt_duration(30), "30s");
    assert_eq!(fmt_duration(90), "1m");
    assert_eq!(fmt_duration(3_600), "1h");
    assert_eq!(fmt_duration(3_600 + 1_200), "1h 20m");
    assert_eq!(fmt_duration(86_400), "24h");
}

#[test]
fn greeting_covers_every_hour() {
    for h in 0..24 {
        assert!(!greeting(h).is_empty(), "hour {h} produced no greeting");
    }
    assert_eq!(greeting(9), "Good morning");
    assert_eq!(greeting(14), "Good afternoon");
    assert_eq!(greeting(20), "Good evening");
    assert_eq!(greeting(3), "Good evening");
}

#[test]
fn server_fill_is_clamped_and_safe_at_zero_capacity() {
    let s = Server { id: "a".into(), max_players: 0, playing: 5, ..Default::default() };
    let row = &servers(&vec![s])[0];
    assert_eq!(row.fill_part as f32 / row.fill_whole as f32, 0.0, "must not divide by zero");

    let s = Server { id: "b".into(), max_players: 10, playing: 20, ..Default::default() };
    let row = &servers(&vec![s])[0];
    assert_eq!(
        row.fill_part as f32 / row.fill_whole as f32,
        1.0,
        "over-full must clamp, not overflow the bar"
    );
}

#[test]
fn server_fill_is_the_share_of_taken_seats() {
    let s = Server { id: "d".into(), max_players: 40, playing: 10, ..Default::default() };
    let row = &servers(&vec![s])[0];
    assert_eq!(row.fill_part as f32 / row.fill_whole as f32, 0.25);
    assert_eq!(row.id, "d");
    assert_eq!((row.playing, row.max), (10, 40));
    assert_eq!(row.label, "10 / 40");
}

#[test]
fn server_more_count_never_goes_negative() {
    let s = Server {
        id: "c".into(),
        max_players: 30,
        playing: 2,
        player_tokens: Some(vec!["a".into(), "b".into(), "c".into(), "d".into()]),
        ..Default::default()
    };
    assert_eq!(servers(&vec![s])[0].more, 0);
}

#[test]
fn sub_place_description_is_trimmed_to_one_short_line() {
    let p = Place {
        id: 1,
        universe_id: 2,
        name: "Arena".into(),
        description: Some(format!("first line\nsecond line{}", "x".repeat(200))),
    };
    let out = sub_places(&vec![p]);
    assert_eq!(out[0].description, "first line");
}

#[test]
fn ids_survive_as_strings_beyond_i32() {
    let d = GameDetail { root_place_id: 6_068_496_210, ..Default::default() };
    let t = tile_from_detail(&d, None, false);
    assert_eq!(t.id, "6068496210");
}

#[test]
fn unvoted_game_gets_negative_rating_sentinel() {
    let d = GameDetail::default();
    assert_eq!(tile_from_detail(&d, None, false).rating, -1);

    let v = Votes { id: 1, up_votes: 0, down_votes: 0 };
    assert_eq!(tile_from_detail(&d, Some(&v), false).rating, -1);
}

#[test]
fn a_game_page_carries_every_number_it_shows() {
    let mut d = GameDetail {
        id: 5,
        root_place_id: 50,
        name: "Arena".into(),
        playing: 1_200,
        visits: 3_400_000,
        favorited_count: 12,
        max_players: 30,
        created: "2020-01-02T03:04:05Z".into(),
        updated: "nope".into(),
        is_favorited_by_user: true,
        ..Default::default()
    };
    d.creator.name = "Maker".into();
    d.creator.id = 9;
    let v = Votes { id: 5, up_votes: 3, down_votes: 1 };
    let r = detail_data(&d, Some(&v), true);
    assert_eq!((r.universe_id.as_str(), r.root_place_id.as_str()), ("5", "50"));
    assert_eq!((r.name.as_str(), r.creator.as_str()), ("Arena", "Maker"));
    assert_eq!(r.creator_id, "9");
    assert_eq!((r.playing.as_str(), r.visits.as_str()), ("1.2K", "3.4M"));
    assert_eq!((r.favorites.as_str(), r.max_players.as_str()), ("12", "30"));
    assert_eq!((r.created.as_str(), r.updated.as_str()), ("2 Jan 2020", ""));
    assert_eq!(r.rating, 75);
    assert!(r.favorited && r.notify);
}

#[test]
fn a_found_game_becomes_a_tile() {
    let g = OmniGame {
        universe_id: 7,
        root_place_id: 70,
        name: "Found".into(),
        player_count: 999,
        total_up_votes: 1,
        total_down_votes: 2,
        creator_name: "Someone".into(),
        ..Default::default()
    };
    let t = tile_from_omni(&g);
    assert_eq!((t.id.as_str(), t.universe_id.as_str()), ("70", "7"));
    assert_eq!((t.name.as_str(), t.creator.as_str()), ("Found", "Someone"));
    assert_eq!((t.playing.as_str(), t.rating, t.favorited), ("999", 33, false));
}

#[test]
fn passes_and_badges_tell_their_kind() {
    let p = GamePass { id: 3, name: "VIP".into(), price: Some(100) };
    let rows = passes(&vec![p]);
    assert_eq!((rows[0].id.as_str(), rows[0].name.as_str(), rows[0].kind), ("3", "VIP", 2));
    let b = Badge { id: 4, name: "Won".into(), description: Some("You won".into()), enabled: true };
    let rows = badges(&vec![b]);
    assert_eq!((rows[0].id.as_str(), rows[0].subtitle.as_str(), rows[0].kind), ("4", "You won", 3));
}

fn friend(id: i64, name: &str, presence: i32) -> FriendInput {
    FriendInput {
        id,
        name: name.into(),
        username: name.to_lowercase(),
        presence,
        location: if presence == 2 { "Jailbreak".into() } else { String::new() },
        last_online: String::new(),
        place_id: if presence == 2 { Some(606849621) } else { None },
        game_id: None,
        avatar_url: String::new(),
        joinable: presence == 2,
    }
}

fn empty() -> Vec<String> {
    Vec::new()
}

#[test]
fn groups_are_ordered_in_game_then_online_then_offline() {
    let friends = vec![friend(1, "Offliner", 0), friend(2, "Gamer", 2), friend(3, "Onliner", 1)];
    let view = friend_rows(&friends, &empty(), &empty(), "", false);

    let headers: Vec<String> =
        view.rows.iter().filter(|r| r.is_header).map(|r| r.header_label.to_string()).collect();
    assert_eq!(headers, vec!["IN GAME", "ONLINE", "OFFLINE"]);
    assert_eq!(view.in_game, 1);
    assert_eq!(view.online, 1);
}

#[test]
fn pinned_friends_appear_once_only() {
    let friends = vec![friend(1, "Alice", 2), friend(2, "Bob", 1)];
    let mut pins = empty();
    pins.push("1".to_string());

    let view = friend_rows(&friends, &pins, &empty(), "", false);
    let alice_rows = view.rows.iter().filter(|r| !r.is_header && r.id == "1").count();
    assert_eq!(alice_rows, 1, "pinned friend was listed twice");

    assert!(view.rows[0].is_header);
    assert_eq!(view.rows[0].header_label, "PINNED");
    assert_eq!(view.rows[1].id, "1");
}

#[test]
fn collapsed_offline_group_keeps_its_header_but_drops_its_rows() {
    let friends = vec![friend(1, "Ghost", 0), friend(2, "Live", 1)];
    let view = friend_rows(&friends, &empty(), &empty(), "", true);

    assert!(view.rows.iter().any(|r| r.is_header && r.header_label == "OFFLINE"));
    assert!(
        !view.rows.iter().any(|r| !r.is_header && r.id == "1"),
        "collapsed group must not render its rows"
    );
    assert!(view.rows.iter().any(|r| !r.is_header && r.id == "2"));
}

#[test]
fn filter_matches_display_name_and_username_case_insensitively() {
    let friends = vec![friend(1, "Alice", 1), friend(2, "Bob", 1)];

    let view = friend_rows(&friends, &empty(), &empty(), "ALI", false);
    let ids: Vec<String> =
        view.rows.iter().filter(|r| !r.is_header).map(|r| r.id.to_string()).collect();
    assert_eq!(ids, vec!["1"]);

    assert_eq!(view.online, 2);
}

#[test]
fn the_filter_lowers_letters_beyond_ascii() {
    let friends = vec![friend(1, "Ärla", 1), friend(2, "Bob", 1)];
    let view = friend_rows(&friends, &empty(), &empty(), "ÄR", false);
    let ids: Vec<String> =
        view.rows.iter().filter(|r| !r.is_header).map(|r| r.id.to_string()).collect();
    assert_eq!(ids, vec!["1"]);
}

#[test]
fn online_count_includes_in_studio_like_the_group_does() {
    let friends = vec![friend(1, "Web", 1), friend(2, "Studio", 3)];
    let view = friend_rows(&friends, &empty(), &empty(), "", false);
    assert_eq!(view.online, 2);
}

#[test]
fn empty_groups_emit_no_header() {
    let friends = vec![friend(1, "OnlyOnline", 1)];
    let view = friend_rows(&friends, &empty(), &empty(), "", false);
    assert!(!view.rows.iter().any(|r| r.is_header && r.header_label == "IN GAME"));
    assert!(!view.rows.iter().any(|r| r.is_header && r.header_label == "OFFLINE"));
}

#[test]
fn the_whole_list_comes_out_in_one_settled_order() {
    let friends = vec![
        friend(1, "zoe", 0),
        friend(2, "Adam", 0),
        friend(3, "mia", 2),
        friend(4, "Lea", 3),
        friend(5, "kim", 1),
    ];
    let pins = vec!["1".to_string(), "3".to_string()];
    let bells = vec!["5".to_string()];
    let now = Moment { secs: 1_700_000_000, nanos: 0 };
    let view = friend_rows_at(&friends, &pins, &bells, "", false, now);
    let shown: Vec<String> = view
        .rows
        .iter()
        .map(|r| if r.is_header { r.header_label.clone() } else { r.id.clone() })
        .collect();
    assert_eq!(shown, vec!["PINNED", "3", "1", "ONLINE", "5", "4", "OFFLINE", "2"]);
    assert!(view.rows[1].pinned && !view.rows[1].notify);
    assert!(view.rows[4].notify && !view.rows[4].pinned);
    assert_eq!(view.rows[1].place_id, "606849621");
    assert_eq!((view.in_game, view.online), (1, 2));
}

#[test]
fn subtitles_describe_what_the_friend_is_doing() {
    assert_eq!(subtitle_for(&friend(1, "A", 2)), "Playing Jailbreak");
    assert_eq!(subtitle_for(&friend(1, "A", 1)), "Online");
    assert_eq!(subtitle_for(&friend(1, "A", 3)), "In Studio");
    assert_eq!(subtitle_for(&friend(1, "A", 0)), "Offline");
}

#[test]
fn in_game_with_no_location_still_reads_sensibly() {
    let mut f = friend(1, "A", 2);
    f.location = String::new();
    assert_eq!(subtitle_for(&f), "In game");
}

#[test]
fn an_offline_friend_says_when_they_were_last_seen() {
    let mut f = friend(1, "A", 0);
    f.last_online = "2023-11-14T20:13:20Z".into();
    let now = Moment { secs: 1_700_000_000, nanos: 0 };
    assert_eq!(subtitle_at(&f, now), "Last seen 2h ago");
}

#[test]
fn presence_reads_the_same_on_a_profile() {
    let p = Presence {
        user_id: 1,
        kind: PresenceKind::InGame,
        location: "Jailbreak".into(),
        place_id: None,
        root_place_id: None,
        game_id: None,
        universe_id: None,
        last_online: None,
    };
    assert_eq!(presence_label(Some(&p)), "Playing Jailbreak");
    assert_eq!(presence_label(None), "");
    assert!(presence_rank(2) < presence_rank(1));
    assert!(presence_rank(1) < presence_rank(0));
}

#[test]
fn time_ago_is_empty_for_garbage_and_scales_otherwise() {
    assert_eq!(time_ago("nonsense"), "");
    assert_eq!(time_ago(""), "");

    let recent = (chrono::Utc::now() - chrono::Duration::minutes(5)).to_rfc3339();
    assert_eq!(time_ago(&recent), "5m ago");

    let older = (chrono::Utc::now() - chrono::Duration::hours(3)).to_rfc3339();
    assert_eq!(time_ago(&older), "3h ago");

    let days = (chrono::Utc::now() - chrono::Duration::days(4)).to_rfc3339();
    assert_eq!(time_ago(&days), "4d ago");
}

#[test]
fn a_future_timestamp_does_not_produce_negative_time() {
    let future = (chrono::Utc::now() + chrono::Duration::hours(2)).to_rfc3339();
    assert_eq!(time_ago(&future), "just now");
}

#[test]
fn elapsed_time_is_measured_from_the_given_moment() {
    let now = Moment { secs: 1_700_000_000, nanos: 0 };
    assert_eq!(time_ago_at("2023-11-14T22:08:20Z", now), "5m ago");
    assert_eq!(time_ago_at("2023-11-14T22:08:20+00:00", now), "5m ago");
    assert_eq!(time_ago_at("2022-11-14T22:08:20Z", now), "12mo ago");
    assert_eq!(ago_label(59), "just now");
    assert_eq!(ago_label(60), "1m ago");
    assert_eq!(ago_label(-1), "just now");
}

#[test]
fn a_stamp_drops_the_clock_outside_this_year() {
    let t = LocalTime {
        year: 2024,
        with_time: "14 Aug 10:00".into(),
        with_year: "14 Aug 2024".into(),
    };
    assert_eq!(stamp(Some(t), 2024), "14 Aug 10:00");
    let t = LocalTime {
        year: 2024,
        with_time: "14 Aug 10:00".into(),
        with_year: "14 Aug 2024".into(),
    };
    assert_eq!(stamp(Some(t), 2025), "14 Aug 2024");
    assert_eq!(stamp(None, 2025), "");
    assert!(day_stamp(1_500_000_000).ends_with("2017"));
    let today = today_label();
    let (weekday, date) = today.split_once(", ").unwrap();
    let (day, month) = date.split_once(' ').unwrap();
    assert!(weekday.ends_with("day"));
    assert!((1..=31).contains(&day.parse::<u32>().unwrap()) && !day.starts_with('0'));
    assert!(month.len() >= 3 && month.chars().all(|c| c.is_ascii_alphabetic()));
}

/// One stay in one game.
#[derive(Clone)]
struct Stay {
    universe_id: i64,
    name: String,
    start: i64,
    end: i64,
}

fn session(universe: i64, name: &str, start: i64, secs: i64) -> Stay {
    Stay { universe_id: universe, name: name.into(), start, end: start + secs }
}

/// The time of each game between two moments, the longest first.
fn games_between(stays: &[Stay], from: i64, to: i64) -> Vec<GameTime> {
    let mut games: Vec<GameTime> = Vec::new();
    for s in stays {
        let secs = (s.end.min(to) - s.start.max(from)).max(0) as u64;
        match games.iter().position(|g| g.universe_id == s.universe_id) {
            Some(i) => games[i].secs += secs,
            None => games.push(GameTime {
                universe_id: s.universe_id,
                name: s.name.clone(),
                secs,
            }),
        }
    }
    games.sort_by(|a, b| b.secs.cmp(&a.secs));
    games
}

/// Cuts the stays into the columns of the window that fits them, and draws.
fn chart(stays: &[Stay], retention_days: u32, now: i64) -> GraphModel {
    let first = stays.iter().map(|s| s.start).min().unwrap_or(0);
    let last = stays.iter().map(|s| s.end).max().unwrap_or(0);
    let window = graph_window(!stays.is_empty(), last - first, retention_days);
    let (width, columns) = match window {
        Window::Hours(n) => (3_600, n),
        Window::Days(n) => (86_400, n as i64),
    };
    let mut buckets = Vec::new();
    for i in 0..columns {
        let to = now - (columns - 1 - i) * width;
        let games = games_between(stays, to - width, to);
        buckets.push(TimeBucket {
            label: format!("c{i}"),
            total_secs: games.iter().map(|g| g.secs).sum(),
            games,
        });
    }
    let ceiling = buckets.iter().map(|b| b.total_secs).max().unwrap_or(0).max(1);
    build_graph(&buckets, &games_between(stays, i64::MIN, i64::MAX), ceiling, window)
}

/// Midday, so a session in the same day cannot spill over a boundary.
fn midday() -> i64 {
    1_700_000_000
}

#[test]
fn an_empty_history_reports_empty() {
    let g = chart(&[], 7, midday());
    assert!(g.empty);
    assert!(g.segments.is_empty());
    assert_eq!(g.days.len(), 7, "the axis still spans the window");
}

#[test]
fn segments_stack_without_overflowing_the_ceiling() {
    let g = chart(
        &[session(1, "Alpha", midday() - 7200, 3600), session(2, "Beta", midday() - 3600, 1800)],
        3,
        midday(),
    );
    assert!(!g.empty);
    // Everything on one day, so the stack tops out at start+size <= 1.
    let top = g
        .segments
        .iter()
        .map(|s| (s.start_secs + s.size_secs) as f32 / s.ceiling_secs as f32)
        .fold(0.0_f32, f32::max);
    assert!(top <= 1.0001, "stack overflowed the plot: {top}");
    assert!(top > 0.0);
}

#[test]
fn a_game_keeps_one_tint_across_days() {
    let g = chart(
        &[
            session(1, "Alpha", midday() - 86_400 - 3600, 3600),
            session(2, "Beta", midday() - 86_400 - 7200, 600),
            session(1, "Alpha", midday() - 3600, 1800),
        ],
        3,
        midday(),
    );
    let alpha: Vec<i32> =
        g.segments.iter().filter(|s| s.name == "Alpha").map(|s| s.tint).collect();
    assert!(alpha.len() >= 2, "Alpha should appear on two days");
    assert!(alpha.iter().all(|t| *t == alpha[0]), "one game, one colour: {alpha:?}");
}

#[test]
fn the_biggest_game_overall_gets_the_first_tint() {
    let g = chart(
        &[session(2, "Small", midday() - 7200, 600), session(1, "Big", midday() - 3600, 7200)],
        2,
        midday(),
    );
    let big = g.segments.iter().find(|s| s.name == "Big").unwrap();
    assert_eq!(big.tint, 0);
    assert_eq!(g.legend[0].name, "Big");
}

#[test]
fn more_games_than_tints_reuse_the_last_step() {
    let sessions: Vec<Stay> = (1..=9)
        .map(|i| session(i, &format!("G{i}"), midday() - i * 600, 600 - i))
        .collect();
    let g = chart(&sessions, 2, midday());
    assert!(g.segments.iter().all(|s| s.tint < TINTS as i32));
    assert_eq!(g.legend.len(), TINTS, "legend stops at the palette size");
}

#[test]
fn a_hidden_game_is_labelled_rather_than_blank() {
    let mut s = session(0, "", midday() - 3600, 1800);
    s.name = String::new();
    let g = chart(&[s], 2, midday());
    assert!(g.segments.iter().any(|s| s.name == "Hidden game"));
    assert_eq!(game_label("   "), "Hidden game");
    assert_eq!(game_label(" x "), " x ");
}

#[test]
fn zero_length_sessions_do_not_become_invisible_segments() {
    let g = chart(&[session(1, "Alpha", midday() - 60, 0)], 2, midday());
    assert!(g.segments.is_empty(), "a zero-length slice is not drawn");
}

#[test]
fn exactly_one_slice_per_column_is_capped() {
    let now = 1_700_000_000;
    let g = chart(
        &[
            session(1, "Alpha", now - 7200, 3600),
            session(2, "Beta", now - 3600, 1800),
            session(3, "Gamma", now - 1800, 600),
        ],
        2,
        now,
    );
    for day in 0..2 {
        let caps = g.segments.iter().filter(|s| s.day == day && s.top).count();
        let any = g.segments.iter().any(|s| s.day == day);
        assert_eq!(caps, if any { 1 } else { 0 }, "day {day} caps");
    }
    for day in 0..g.days.len() as i32 {
        let caps = g.segments.iter().filter(|s| s.day == day && s.top).count();
        let any = g.segments.iter().any(|s| s.day == day);
        assert_eq!(caps, if any { 1 } else { 0 }, "day {day} caps");
    }
}

#[test]
fn the_cap_is_the_highest_slice() {
    let now = 1_700_000_000;
    let g = chart(
        &[session(1, "Alpha", now - 7200, 3600), session(2, "Beta", now - 3600, 1800)],
        1,
        now,
    );
    let top = g.segments.iter().find(|s| s.top).unwrap();
    let highest = g.segments.iter().max_by_key(|s| s.start_secs + s.size_secs).unwrap();
    assert_eq!(top.name, highest.name);
}

#[test]
fn slices_stand_on_the_ones_before_them() {
    let buckets = vec![TimeBucket {
        label: "today".into(),
        total_secs: 5400,
        games: vec![
            GameTime { universe_id: 1, name: "Alpha".into(), secs: 3600 },
            GameTime { universe_id: 2, name: "Beta".into(), secs: 1800 },
        ],
    }];
    let overall = buckets[0].games.clone();
    let g = build_graph(&buckets, &overall, 7200, Window::Days(2));
    let top = g.segments.iter().find(|s| s.top).unwrap();
    let highest = g.segments.iter().max_by_key(|s| s.start_secs + s.size_secs).unwrap();
    assert_eq!(top.name, highest.name);
    assert_eq!(g.range, "today");
    assert_eq!(g.ceiling, "2h");
    assert_eq!(g.total, "1h 30m total");
    assert_eq!((g.segments[1].start_secs, g.segments[1].size_secs), (3600, 1800));
    assert_eq!(g.segments[1].label, "30m");
}

#[test]
fn every_slice_knows_its_day_for_the_hover_readout() {
    let now = 1_700_000_000;
    let g = chart(&[session(1, "Alpha", now - 3600, 1800)], 3, now);
    assert!(g.segments.iter().all(|s| !s.day_label.is_empty()));
}

#[test]
fn scales_from_minutes_to_weeks() {
    let now = 1_700_000_000;
    assert_eq!(time_ago_unix(now - 10, now), "just now");
    assert_eq!(time_ago_unix(now - 600, now), "10m ago");
    assert_eq!(time_ago_unix(now - 7200, now), "2h ago");
    assert_eq!(time_ago_unix(now - 3 * 86_400, now), "3d ago");
    assert_eq!(time_ago_unix(now - 21 * 86_400, now), "3w ago");
}

#[test]
fn a_clock_that_went_backwards_does_not_produce_a_negative() {
    let now = 1_700_000_000;
    assert_eq!(time_ago_unix(now + 5000, now), "just now");
}

fn series(n: i64, now: i64) -> Vec<Sample> {
    (0..n)
        .map(|i| Sample {
            at: now - (n - i) * 3600,
            universe_id: 7,
            playing: 1000 + i * 10,
            visits: 5_000_000,
            upvotes: 900,
            downvotes: 100,
        })
        .collect()
}

/// Cuts the samples of the asked window into columns, and draws.
fn history(samples: &[Sample], days: i64, now: i64) -> HistoryModel {
    let covered = match (samples.first(), samples.last()) {
        (Some(a), Some(b)) => (b.at - a.at) / 86_400,
        _ => 0,
    };
    let window = history_window(days, covered);
    let recent: Vec<Sample> =
        samples.iter().copied().filter(|s| s.at >= now - window * 86_400).collect();
    let columns: Vec<Sample> = if recent.len() > HISTORY_COLUMNS {
        (0..HISTORY_COLUMNS)
            .map(|i| recent[(i + 1) * recent.len() / HISTORY_COLUMNS - 1])
            .collect()
    } else {
        recent.clone()
    };
    build_history(&samples.to_vec(), &recent, &columns, covered, days)
}

#[test]
fn a_brand_new_game_offers_only_everything() {
    // A minute of data must not offer a year.
    let r = history_ranges(0);
    assert_eq!(r.len(), 1);
    assert_eq!(r[0].0, "So far");
    assert_eq!(r[0].1, 0);
}

#[test]
fn ranges_appear_as_the_data_earns_them() {
    assert_eq!(history_ranges(1).len(), 1, "a day");
    assert_eq!(history_ranges(3).len(), 2, "24h + all");
    assert_eq!(history_ranges(15).len(), 3, "+ 7d");
    assert_eq!(history_ranges(60).len(), 4, "+ 30d");
    assert_eq!(history_ranges(500).len(), 5, "+ 1y");
}

#[test]
fn a_year_is_never_offered_without_a_year_of_data() {
    for d in [0, 1, 30, 100, 399] {
        assert!(!history_ranges(d).iter().any(|(l, _)| l == "1y"), "offered 1y with {d} days");
    }
    assert!(history_ranges(400).iter().any(|(l, _)| l == "1y"));
}

#[test]
fn everything_is_always_reachable() {
    for d in [0, 1, 5, 50, 5000] {
        let r = history_ranges(d);
        assert_eq!(r.last().unwrap().1, 0, "no way to see all of {d} days");
    }
}

#[test]
fn the_all_button_is_named_for_how_little_there_is() {
    assert_eq!(history_ranges(0).last().unwrap().0, "So far");
    assert_eq!(history_ranges(1).last().unwrap().0, "Today");
    assert_eq!(history_ranges(5).last().unwrap().0, "5d");
    assert_eq!(history_ranges(500).last().unwrap().0, "All");
}

#[test]
fn heights_are_normalised_into_the_plot() {
    let now = 1_700_000_000;
    let m = history(&series(500, now), 30, now);
    assert!(!m.points.is_empty());
    let heights: Vec<f32> =
        m.points.iter().map(|p| p.height_part as f32 / p.height_whole as f32).collect();
    assert!(heights.iter().all(|h| *h >= 0.0 && *h <= 1.0));
    assert!(heights.iter().any(|h| *h > 0.99), "the peak fills the plot");
}

#[test]
fn x_positions_span_the_plot_in_order() {
    let now = 1_700_000_000;
    let m = history(&series(500, now), 30, now);
    let xs: Vec<f32> = m.points.iter().map(|p| p.x_part as f32 / p.x_whole as f32).collect();
    assert!((xs.first().unwrap() - 0.0).abs() < 0.001);
    assert!((xs.last().unwrap() - 1.0).abs() < 0.001);
    assert!(xs.windows(2).all(|w| w[0] <= w[1]));
}

#[test]
fn a_long_series_is_capped_at_the_column_count() {
    let now = 1_700_000_000;
    let m = history(&series(5000, now), 0, now);
    assert!(m.points.len() <= HISTORY_COLUMNS, "got {}", m.points.len());
}

#[test]
fn a_single_sample_does_not_divide_by_zero() {
    let now = 1_700_000_000;
    let m = history(&series(1, now), 30, now);
    assert_eq!(m.points.len(), 1);
    assert_eq!(m.points[0].x_part as f32 / m.points[0].x_whole as f32, 0.0);
}

#[test]
fn an_empty_history_yields_an_empty_chart_not_a_panic() {
    let m = history(&[], 30, 1_700_000_000);
    assert!(m.points.is_empty());
    assert!(m.peak.is_empty());
}

#[test]
fn the_stat_tiles_carry_what_we_have_observed() {
    let now = 1_700_000_000;
    let m = history(&series(100, now), 30, now);
    let labels: Vec<String> = m.stats.iter().map(|s| s.label.to_string()).collect();
    assert!(labels.contains(&"Playing".to_string()));
    assert!(labels.contains(&"Peak seen".to_string()));
    assert!(labels.contains(&"Observations".to_string()));
    let rating = m.stats.iter().find(|s| s.label == "Rating").unwrap();
    assert_eq!(rating.value.to_string(), "90%");
}

#[test]
fn a_game_with_no_votes_simply_has_no_rating_tile() {
    let now = 1_700_000_000;
    let mut s = series(50, now);
    for x in &mut s {
        x.upvotes = 0;
        x.downvotes = 0;
    }
    let m = history(&s, 30, now);
    assert!(m.stats.iter().all(|st| st.label != "Rating"));
}

#[test]
fn a_history_chart_says_what_it_covers() {
    let s = series(2, 1_700_000_000);
    let stamps = vec!["14 Nov 20:13".to_string(), "14 Nov 21:13".to_string()];
    let m = history_model(&s, &s, &s, &stamps, 3, 0);
    assert_eq!(m.range, "everything so far · 3 days");
    assert_eq!(m.peak, "peak 1.0K in this window");
    assert_eq!(m.points[1].label, "14 Nov 21:13 · 1.0K playing");
    assert_eq!((m.points[1].x_part, m.points[1].x_whole), (1, 1));
    assert_eq!((m.points[0].height_part, m.points[0].height_whole), (1000, 1010));
    assert_eq!(m.stats[2].label, "Visits");
    assert_eq!(m.stats[2].value, "5.0M");
    for (days, range) in [
        (1, "last 24 hours"),
        (7, "last 7 days"),
        (30, "last 30 days"),
        (365, "last year"),
    ] {
        let m = history_model(&s, &s, &s, &stamps, 3, days);
        assert_eq!(m.range, range);
    }
    let none: Vec<Sample> = Vec::new();
    let m = history_model(&none, &none, &none, &Vec::new(), 1, 0);
    assert_eq!(m.range, "everything so far");
    assert!(m.stats.is_empty());
    assert_eq!(history_window(0, 0), 1);
    assert_eq!(history_window(7, 0), 7);
}

#[test]
fn the_latest_sample_is_the_windows_last_or_else_the_last_of_all() {
    let all = series(3, 1_700_000_000);
    let window = vec![all[1]];
    let stamps = vec!["14 Nov".to_string()];
    let m = history_model(&all, &window, &window, &stamps, 0, 1);
    assert_eq!(m.stats[0].label, "Playing");
    assert_eq!(m.stats[0].value, "1.0K");
    let mut late = all.clone();
    late[2].playing = 42;
    let m = history_model(&late, &Vec::new(), &Vec::new(), &Vec::new(), 0, 1);
    assert_eq!(m.stats[0].value, "42");
    let seen = m.stats.last().unwrap();
    assert_eq!((seen.label.as_str(), seen.value.as_str()), ("Observations", "3"));
    assert!(m.points.is_empty());
    assert_eq!(m.peak, "");
}

#[test]
fn an_empty_query_matches_nothing() {
    assert!(search_settings("").is_empty());
    assert!(search_settings("   ").is_empty());
}

#[test]
fn a_label_is_found_by_its_own_words() {
    let hits = search_settings("dark theme");
    assert_eq!(hits.len(), 1);
    assert_eq!(hits[0].name.to_string(), "Dark theme");
    assert_eq!(hits[0].subtitle.to_string(), "Interface");
}

#[test]
fn keywords_find_settings_whose_label_does_not_contain_them() {
    // Nobody looking for this types "Start with my session".
    let hits = search_settings("boot");
    assert!(hits.iter().any(|h| h.name.to_string() == "Start with my session"));

    let hits = search_settings("tray");
    assert!(hits.iter().any(|h| h.name.to_string() == "Keep running when closed"));

    let hits = search_settings("wipe");
    assert!(hits.iter().any(|h| h.name.to_string() == "Delete all data"));
}

#[test]
fn search_is_case_insensitive() {
    assert!(!search_settings("FFLAGS").is_empty());
    assert!(!search_settings("fflags").is_empty());
}

#[test]
fn every_word_must_match_so_extra_words_narrow() {
    let broad = search_settings("delete").len();
    let narrow = search_settings("delete playtime").len();
    assert!(broad > narrow, "{broad} vs {narrow}");
    assert_eq!(narrow, 1);
}

#[test]
fn nonsense_matches_nothing() {
    assert!(search_settings("xyzzy").is_empty());
}

#[test]
fn every_hit_carries_a_category_that_exists() {
    for entry in SETTINGS_INDEX {
        let idx = entry.0 as usize;
        assert!(
            idx < SETTINGS_CATEGORIES.len(),
            "{} points at category {idx}, which has no name",
            entry.1
        );
    }
}

#[test]
fn the_jump_target_matches_the_category_shown() {
    // `kind` drives the jump and `subtitle` is what the user reads; if they
    // disagree the row sends you somewhere other than where it says.
    for hit in search_settings("delete") {
        let named = SETTINGS_CATEGORIES[hit.kind as usize];
        assert_eq!(hit.subtitle.to_string(), named);
    }
}

#[test]
fn queries_split_at_any_blank() {
    assert_eq!(split_words("  a\u{3000}b\tc\u{a0}"), vec!["a", "b", "c"]);
    assert!(split_words(" \n ").is_empty());
}

#[test]
fn one_short_session_is_drawn_as_hours_not_as_ninety_days() {
    let now = 1_700_000_000;
    let s = [Stay { universe_id: 1, name: "Deepwoken".into(), start: now - 1800, end: now - 960 }];

    let g = chart(&s, 90, now);
    assert!(g.days.len() <= 48, "got {} columns", g.days.len());
    assert!(g.range.contains("hours"), "range said {:?}", g.range);
    assert!(!g.empty);
    assert!(g.segments.iter().any(|seg| seg.name == "Deepwoken"));
}

/// One stay of the given length at the end of each of the last `n` days.
fn daily_stays(n: i64, secs: i64, now: i64) -> Vec<Stay> {
    (0..n)
        .map(|i| Stay {
            universe_id: 1,
            name: "G".into(),
            start: now - (n - i) * 86_400,
            end: now - (n - i) * 86_400 + secs,
        })
        .collect()
}

#[test]
fn a_long_history_is_still_drawn_as_days() {
    let now = 1_700_000_000;
    let g = chart(&daily_stays(20, 3600, now), 90, now);
    assert!(g.range.contains("days"), "range said {:?}", g.range);
    assert!(g.days.len() >= 20 && g.days.len() <= 23, "got {}", g.days.len());
}

#[test]
fn the_window_never_exceeds_what_retention_keeps() {
    let now = 1_700_000_000;
    let g = chart(&daily_stays(200, 600, now), 30, now);
    assert!(g.days.len() <= 30, "got {} with 30-day retention", g.days.len());
}

#[test]
fn crowded_axes_drop_most_of_their_labels() {
    let now = 1_700_000_000;
    let g = chart(&daily_stays(60, 600, now), 90, now);
    let labelled = g.days.iter().filter(|d| !d.label.is_empty()).count();
    assert!(labelled <= 14, "{labelled} labels is a smear");
    assert!(labelled >= 2, "should still be readable, got {labelled}");
}

#[test]
fn a_dozen_columns_keep_every_label() {
    let now = 1_700_000_000;
    let s = [Stay {
        universe_id: 1,
        name: "G".into(),
        start: now - 5 * 86_400,
        end: now - 5 * 86_400 + 600,
    }];
    let g = chart(&s, 90, now);
    assert!(g.days.iter().all(|d| !d.label.is_empty()));
}

#[test]
fn no_sessions_still_yields_an_axis_rather_than_nothing() {
    let g = chart(&[], 90, 1_700_000_000);
    assert!(g.empty);
    assert!(!g.days.is_empty(), "an empty chart still needs an axis");
}

#[test]
fn windows_follow_the_span_of_the_sessions() {
    assert_eq!(graph_window(false, 0, 90), Window::Days(7));
    assert_eq!(graph_window(true, 0, 90), Window::Hours(6));
    assert_eq!(graph_window(true, 2 * 86_400 - 1, 90), Window::Hours(48));
    assert_eq!(graph_window(true, 2 * 86_400, 90), Window::Days(4));
    assert_eq!(graph_window(true, 400 * 86_400, 30), Window::Days(30));
    assert_eq!(graph_window(true, 400 * 86_400, 0), Window::Days(1));
}

#[test]
fn a_filter_leaves_rows_out_and_nothing_else() {
    let friends = vec![
        friend(1, "Marcus", 2),
        friend(2, "Nova", 0),
        friend(3, "Ann", 1),
        friend(4, "Anna", 0),
        friend(5, "Joann", 3),
    ];
    let pins = vec!["4".to_string()];
    let now = Moment { secs: 1_700_000_000, nanos: 0 };
    let all = friend_rows_at(&friends, &pins, &empty(), "", false, now);
    let some = friend_rows_at(&friends, &pins, &empty(), " ANN ", false, now);
    assert_eq!((some.in_game, some.online), (all.in_game, all.online));
    let kept: Vec<String> = all
        .rows
        .iter()
        .filter(|r| !r.is_header && r.name.to_lowercase().contains("ann"))
        .map(|r| r.id.clone())
        .collect();
    let shown: Vec<String> =
        some.rows.iter().filter(|r| !r.is_header).map(|r| r.id.clone()).collect();
    assert_eq!(shown, kept);
    assert_eq!(shown, vec!["4", "3", "5"]);
}

#[test]
fn more_words_find_a_part_of_what_fewer_found_in_the_same_order() {
    let names = |q: &str| -> Vec<String> {
        search_settings(q).into_iter().map(|i| i.name).collect()
    };
    for (short, more) in [("key", "macro"), ("n", "e"), ("show", "  tray "), ("friend", "")] {
        let fewer = names(&format!("{short} {more}"));
        let mut rest = names(short).into_iter();
        assert!(fewer.iter().all(|f| rest.any(|r| r == *f)), "{short} {more}");
    }
    assert!(names("n boot").len() < names("n").len());
}

#[test]
fn the_letter_case_of_a_query_does_not_matter() {
    let ids = |q: &str| -> Vec<String> { search_settings(q).into_iter().map(|i| i.id).collect() };
    assert_eq!(ids("DARK Theme"), ids("dark tHEME"));
    assert_eq!(ids(" TrAy"), ids("tray"));
    assert!(!ids("TRAY").is_empty());
}

#[test]
fn a_moment_has_a_stamp_exactly_where_the_calendar_has_it() {
    let (first, last) = (-8_334_601_228_800, 8_210_266_876_799);
    for unix in [first, -1, 0, 1_700_000_000, 253_402_300_799, last] {
        assert!(day_stamp(unix).len() >= 10, "{unix}");
    }
    for unix in [i64::MIN, first - 1, last + 1, i64::MAX] {
        assert_eq!(day_stamp(unix), "", "{unix}");
    }
}

#[test]
fn a_readable_time_is_shown_at_every_moment_of_the_calendar() {
    let iso = "2020-01-02T03:04:05Z";
    let at = |secs: i64, nanos: u32| time_ago_at(iso, Moment { secs, nanos });
    assert_eq!(at(-8_334_601_228_800, 0), "just now");
    assert!(at(8_210_266_876_799, 999_999_999).ends_with("mo ago"));
    assert!(!at(1_700_000_039, 1_500_000_000).is_empty());
    assert_eq!(at(1_700_000_040, 1_500_000_000), "");
    assert_eq!(at(1_700_000_039, 2_000_000_000), "");
    assert_eq!(at(-8_334_601_228_801, 0), "");
    assert_eq!(at(8_210_266_876_800, 0), "");
    let mut f = friend(1, "A", 0);
    f.last_online = iso.into();
    assert!(subtitle_for(&f).starts_with("Last seen "));
}

#[test]
fn a_stamp_is_the_day_of_its_moment_in_some_time_zone() {
    let days = |s: &str, of: &[&str]| of.iter().any(|d| s == *d);
    assert!(days(&day_stamp(951_825_600), &["28 Feb 2000", "29 Feb 2000", "1 Mar 2000"]));
    assert!(days(&day_stamp(0), &["31 Dec 1969", "1 Jan 1970", "2 Jan 1970"]));
    assert!(day_stamp(8_210_266_876_799 - 2 * 86_400).ends_with(" +262142"));
    assert!(day_stamp(-8_334_601_228_800 + 2 * 86_400).ends_with(" -262143"));
}
