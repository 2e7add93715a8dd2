//! Friends, games, search, thumbnails and statistics.

use rojoin::clock::Moment;
use rojoin::roblox::friends::{
    action_url, counts, presence_of, requests_url, FindItem, FindPage, FriendWalk, PresenceKind,
    RawPresence, SocialAction, FRIENDS_CAP,
};
use rojoin::roblox::games::{
    detail, free_slots, group_games_url, join_ids, nearest_allowed_limit, servers_url,
    sort_servers, sub_places, universe_of, user_favorites_url, PlaceWalk, ServerSort,
};
use rojoin::roblox::groups::{member, role_members_url, roles, MemberRow, Role};
use rojoin::roblox::models::{GameDetail, Page, Place, Server, Thumbnail, User, Votes};
use rojoin::roblox::page_limit;
use rojoin::roblox::rolimons::{
    bucket_players, extract, history_of, history_refused, history_url, usable, Bucket, History,
};
use rojoin::roblox::search::{
    game_search_page, games_url, query_param, resolve_join_target, resolve_place_id, urlencode,
    OmniGame, OmniGroup,
};
use rojoin::roblox::thumbnails::{
    avatar_when_ready, collect_art, collect_ready, join, pictures_url, place_answers,
    token_request_id, GameThumbGroup, Look, Picture, TokenItem,
};
use rojoin::roblox::users::{account_age_years, account_age_years_at};
use serde_json::Value;
use std::collections::HashMap;

#[test]
fn presence_codes_map_correctly() {
    assert_eq!(PresenceKind::from_code(0), PresenceKind::Offline);
    assert_eq!(PresenceKind::from_code(1), PresenceKind::Online);
    assert_eq!(PresenceKind::from_code(2), PresenceKind::InGame);
    assert_eq!(PresenceKind::from_code(3), PresenceKind::InStudio);
    assert_eq!(PresenceKind::from_code(4), PresenceKind::Invisible);
    assert_eq!(PresenceKind::from_code(99), PresenceKind::Offline);
}

#[test]
fn only_in_game_is_joinable() {
    assert!(PresenceKind::InGame.is_joinable());
    for k in [
        PresenceKind::Online,
        PresenceKind::Offline,
        PresenceKind::InStudio,
        PresenceKind::Invisible,
    ] {
        assert!(!k.is_joinable(), "{k:?} must not offer a Join button");
    }
}

#[test]
fn presence_ranking_puts_joinable_friends_first() {
    let mut kinds = vec![
        PresenceKind::Offline,
        PresenceKind::InGame,
        PresenceKind::InStudio,
        PresenceKind::Online,
    ];
    kinds.sort_by_key(|k| k.rank());
    assert_eq!(kinds[0], PresenceKind::InGame);
    assert_eq!(kinds[1], PresenceKind::Online);
}

#[test]
fn a_hidden_presence_becomes_an_offline_one() {
    let p = presence_of(RawPresence { user_id: 156, ..Default::default() });
    assert_eq!(p.user_id, 156);
    assert_eq!(p.kind, PresenceKind::Offline);
    assert_eq!(p.location, "");
    assert!(p.place_id.is_none() && p.game_id.is_none());
}

fn page(ids: &[i64], next: Option<&str>) -> FindPage {
    FindPage {
        page_items: ids.iter().map(|id| FindItem { id: *id }).collect(),
        next_cursor: next.map(|s| s.to_string()),
    }
}

#[test]
fn a_friends_walk_follows_cursors_and_unites_the_flat_list() {
    let mut w = FriendWalk::new();
    assert!(w.url(7).contains("/users/7/friends/find"), "{}", w.url(7));
    w.absorb(Some(page(&[1, 2], Some("abc"))));
    assert!(!w.over);
    assert!(w.url(7).contains("abc"));
    w.absorb(Some(page(&[3], None)));
    assert!(w.over);
    let flat = vec![
        User { id: 2, ..Default::default() },
        User { id: 9, ..Default::default() },
    ];
    let list = w.finish(Some(&flat));
    assert!(list.complete);
    assert_eq!(list.ids, vec![1, 2, 3, 9]);
}

#[test]
fn an_interrupted_walk_is_not_complete() {
    let mut w = FriendWalk::new();
    w.absorb(Some(page(&[1], Some("more"))));
    w.absorb(None);
    let list = w.finish(None);
    assert!(!list.complete);
    assert_eq!(list.ids, vec![1]);
}

#[test]
fn a_walk_that_holds_enough_is_cut_short_and_not_complete() {
    let many: Vec<i64> = (0..FRIENDS_CAP as i64).collect();
    let mut w = FriendWalk::new();
    w.absorb(Some(page(&many, Some("more"))));
    assert!(w.over && !w.complete);
    let mut w = FriendWalk::new();
    w.absorb(Some(page(&many, None)));
    assert!(w.over && w.complete);
    assert_eq!(w.ids, many);
    let mut w = FriendWalk::new();
    w.absorb(Some(page(&[5, 3], Some("a"))));
    w.absorb(Some(page(&[], Some("b"))));
    w.absorb(Some(page(&[4], Some(""))));
    assert!(w.over && w.complete);
    assert_eq!(w.ids, vec![5, 3, 4]);
}

#[test]
fn every_paged_call_asks_for_an_allowed_page() {
    assert_eq!(
        user_favorites_url(7, 12),
        "https://games.roblox.com/v2/users/7/favorite/games?limit=25&sortOrder=Asc"
    );
    assert_eq!(
        group_games_url(8, 12),
        "https://games.roblox.com/v2/groups/8/games?limit=25&sortOrder=Asc"
    );
    assert_eq!(
        requests_url(30),
        "https://friends.roblox.com/v1/my/friends/requests?limit=50&sortOrder=Desc"
    );
    assert!(user_favorites_url(7, 50).contains("limit=50&"));
    assert!(group_games_url(8, 1_000).contains("limit=100&"));
    assert!(requests_url(0).contains("limit=10&"));
}

#[test]
fn missing_counts_are_zero() {
    let c = counts(Some(3), None, Some(5));
    assert_eq!((c.friends, c.followers, c.following), (3, 0, 5));
    assert!(action_url(SocialAction::Accept, 5).contains("/users/5/"));
    assert_ne!(action_url(SocialAction::Accept, 5), action_url(SocialAction::Decline, 5));
}

#[test]
fn server_limits_snap_to_allowed_values() {
    assert_eq!(nearest_allowed_limit(1), 10);
    assert_eq!(nearest_allowed_limit(20), 25);
    assert_eq!(nearest_allowed_limit(30), 25);
    assert_eq!(nearest_allowed_limit(60), 50);
    assert_eq!(nearest_allowed_limit(1000), 100);
}

fn server(playing: i32, max: i32) -> Server {
    Server {
        id: format!("{playing}"),
        max_players: max,
        playing,
        ping: None,
        fps: None,
        player_tokens: None,
    }
}

#[test]
fn fullest_sort_prefers_nearly_full_servers() {
    let v = vec![server(2, 30), server(29, 30), server(15, 30)];
    assert_eq!(free_slots(&v[1]), 1);
    let v = sort_servers(v, ServerSort::Fullest);
    assert_eq!(v.iter().map(|s| s.playing).collect::<Vec<_>>(), vec![29, 15, 2]);
}

#[test]
fn emptiest_and_default_sorts_are_stable() {
    let v = sort_servers(vec![server(5, 9), server(2, 30), server(2, 10)], ServerSort::Emptiest);
    assert_eq!(
        v.iter().map(|s| (s.playing, s.max_players)).collect::<Vec<_>>(),
        vec![(2, 30), (2, 10), (5, 9)]
    );
    let v = sort_servers(vec![server(5, 9), server(2, 30)], ServerSort::Default);
    assert_eq!(v[0].playing, 5);
}

fn place(id: i64, name: &str) -> Place {
    Place { id, universe_id: 9, name: name.into(), description: None }
}

#[test]
fn subplace_filter_drops_only_the_root() {
    let all = vec![place(1, "Lobby"), place(2, "Arena"), place(3, "Shop")];
    let subs = sub_places(all, 1);
    assert_eq!(subs.len(), 2);
    assert!(subs.iter().all(|p| p.id != 1));
}

#[test]
fn id_joining_matches_roblox_query_format() {
    assert_eq!(join_ids(&vec![1, 2, 3]), "1,2,3");
    assert_eq!(join_ids(&vec![]), "");
}

#[test]
fn a_walk_over_places_ends_with_the_cursor() {
    let mut w = PlaceWalk::new();
    w.absorb(Page { data: vec![place(1, "a")], next_page_cursor: Some("n".into()) });
    assert!(!w.over);
    assert!(w.url(5).ends_with("&cursor=n"), "{}", w.url(5));
    w.absorb(Page { data: vec![place(2, "b")], next_page_cursor: None });
    assert!(w.over);
    assert_eq!(w.places.len(), 2);
}

#[test]
fn a_place_without_a_universe_is_an_error() {
    assert_eq!(universe_of(7, Some(3)).unwrap(), 3);
    assert!(universe_of(7, None).is_err());
    assert!(detail(4, vec![]).is_err());
    let d = detail(4, vec![GameDetail { id: 4, ..Default::default() }]).unwrap();
    assert_eq!(d.id, 4);
    assert!(servers_url(5, 30).ends_with("limit=25"));
}

#[test]
fn the_rank_ladder_runs_from_the_top() {
    let role = |id: i64, rank: i32| Role { id, rank, ..Default::default() };
    let list = roles(vec![role(1, 1), role(2, 255), role(3, 100), role(4, 255)]);
    assert_eq!(list.iter().map(|r| r.id).collect::<Vec<_>>(), vec![2, 4, 3, 1]);
    let m = member(MemberRow { user_id: 5, username: "u".into(), ..Default::default() });
    assert_eq!((m.id, m.name.as_str()), (5, "u"));
    assert!(role_members_url(1, 2, 30).ends_with("/users?limit=50&sortOrder=Asc"));
}

#[test]
fn vote_percentage_handles_the_unvoted_game() {
    let v = Votes { id: 1, up_votes: 0, down_votes: 0 };
    assert_eq!(v.percent(), None, "0/0 must not render as 0% approval");

    let v = Votes { id: 1, up_votes: 9, down_votes: 1 };
    assert_eq!(v.percent(), Some(90));
}

#[test]
fn vote_percentages_round_as_doubles_do() {
    let mut up: i64 = 0;
    while up < 400 {
        let mut down: i64 = 0;
        while down < 400 {
            if up + down > 0 {
                let expect = (up as f64 / (up + down) as f64 * 100.0).round() as i32;
                assert_eq!(Votes { id: 1, up_votes: up, down_votes: down }.percent(), Some(expect));
            }
            down += 7;
        }
        up += 3;
    }
    for (up, down) in [(3_143_500_i64, 423_920_i64), (1, 199), (i64::MAX / 4, 1), (1, 2)] {
        let expect = (up as f64 / (up + down) as f64 * 100.0).round() as i32;
        assert_eq!(Votes { id: 1, up_votes: up, down_votes: down }.percent(), Some(expect));
    }
}

#[test]
fn missing_data_key_deserializes_as_empty() {
    let parsed: Page<Votes> = Page::default();
    assert!(parsed.data.is_empty());
    assert!(parsed.next_page_cursor.is_none());
}

#[test]
fn pending_thumbnail_yields_no_url() {
    let t = Thumbnail {
        target_id: 1,
        state: "Pending".into(),
        image_url: Some("https://example/placeholder.png".into()),
    };
    assert_eq!(t.ready_url(), None);

    let t = Thumbnail {
        target_id: 1,
        state: "Completed".into(),
        image_url: Some("https://example/real.png".into()),
    };
    assert_eq!(t.ready_url(), Some("https://example/real.png"));
}

const PAGE: &str = r#"<html><head></head><body>
    <script>var x = 1;</script>
    <script id="game_history_json" type="application/json">{
      "num_points":4,
      "timestamps":[1572847200,1572868800,1572890400,1572912000],
      "players":[8767,14026,24438,20000],
      "avg_playtime":[null,null,12.5,14.0],
      "visits":[3047335550,3047603819,3048113991,3048200000],
      "upvotes":[3143011,3143136,3143405,3143500],
      "downvotes":[423881,423902,423919,423920],
      "favorites":[12690922,12691390,12692302,12692400]
    }</script>
    </body></html>"#;

fn whole(v: &Value, key: &str) -> Vec<Option<i64>> {
    v[key].as_array().map(|a| a.iter().map(|x| x.as_i64()).collect()).unwrap_or_default()
}

fn history(html: &str) -> Option<History> {
    let json = extract(html)?;
    let v: Value = serde_json::from_str(&json).ok()?;
    usable(Some(History {
        timestamps: v["timestamps"]
            .as_array()
            .map(|a| a.iter().filter_map(|x| x.as_i64()).collect())
            .unwrap_or_default(),
        players: whole(&v, "players"),
        avg_playtime: v["avg_playtime"]
            .as_array()
            .map(|a| a.iter().map(|x| x.as_f64().map(f64::to_bits)).collect())
            .unwrap_or_default(),
        visits: whole(&v, "visits"),
        upvotes: whole(&v, "upvotes"),
        downvotes: whole(&v, "downvotes"),
        favorites: whole(&v, "favorites"),
    }))
}

fn parsed() -> History {
    history(PAGE).expect("the real page shape must parse")
}

#[test]
fn the_embedded_series_are_all_read() {
    let h = parsed();
    assert_eq!(h.timestamps.len(), 4);
    assert_eq!(h.players.len(), 4);
    assert_eq!(h.latest_players(), Some(20000));
    assert_eq!(h.latest_visits(), Some(3048200000));
    assert_eq!(h.latest_avg_playtime().map(f64::from_bits), Some(14.0));
}

#[test]
fn a_series_that_starts_null_still_yields_its_latest_value() {
    assert_eq!(parsed().latest_avg_playtime().map(f64::from_bits), Some(14.0));
}

#[test]
fn rating_is_the_share_of_positive_votes() {
    assert_eq!(parsed().latest_rating(), Some(88));
}

#[test]
fn a_game_with_no_votes_has_no_rating_rather_than_zero_percent() {
    let h = History {
        upvotes: vec![Some(0)],
        downvotes: vec![Some(0)],
        ..Default::default()
    };
    assert_eq!(h.latest_rating(), None);
}

#[test]
fn the_window_filters_by_age() {
    let h = parsed();
    let now = 1572912000;
    assert_eq!(h.recent_players(365 * 20, now).len(), 4);
    assert!(h.recent_players(1, now + 400 * 86_400).is_empty());
}

#[test]
fn the_peak_is_the_busiest_sample_not_the_last() {
    let (_, peak) = parsed().peak(365 * 20, 1572912000).unwrap();
    assert_eq!(peak, 24438, "24438 is the high point, 20000 is merely latest");
}

#[test]
fn mismatched_series_lengths_cannot_panic() {
    let h = History {
        timestamps: vec![1, 2, 3, 4, 5],
        players: vec![Some(10)],
        ..Default::default()
    };
    assert_eq!(h.recent_players(365 * 100, 5), vec![(1, 10)]);
}

#[test]
fn a_page_without_the_block_is_none_not_a_panic() {
    assert!(history("<html><body>nothing here</body></html>").is_none());
    assert!(history("").is_none());
    assert!(history(r#"<script id="game_history_json">{"timesta"#).is_none());
}

#[test]
fn an_empty_series_counts_as_no_history() {
    let page = r#"<script id="game_history_json">{"timestamps":[]}</script>"#;
    assert!(history(page).is_none(), "empty history is not usable history");
}

#[test]
fn nulls_where_arrays_are_expected_do_not_fail_the_parse() {
    let page = r#"<script id="game_history_json">
        {"timestamps":[1],"players":null,"visits":null}</script>"#;
    let h = history(page).expect("a null series must not fail the whole page");
    assert!(h.players.is_empty());
}

#[test]
fn covered_days_reports_the_real_span() {
    let h = History { timestamps: vec![0, 10 * 86_400], ..Default::default() };
    assert_eq!(h.covered_days(), 10);
    assert_eq!(History::default().covered_days(), 0);
}

#[test]
fn a_history_is_asked_for_by_a_real_place() {
    assert!(history_url(606849621).unwrap().contains("606849621"));
    assert!(history_url(0).is_err());
    assert!(history_refused("404 Not Found", 5).message().contains("404 Not Found"));
    assert!(history_of(None).is_err());
    assert!(history_of(Some(parsed())).is_ok());
}

#[test]
fn nothing_in_nothing_out() {
    assert!(bucket_players(&vec![], 10).is_empty());
    assert!(bucket_players(&vec![(1, 1)], 0).is_empty());
}

#[test]
fn a_short_series_passes_through_untouched() {
    let pts = vec![(0, 5), (100, 7), (200, 9)];
    let out = bucket_players(&pts, 10);
    assert_eq!(out.len(), 3);
    assert_eq!(out[0].players, 5);
    assert_eq!(out[2].players, 9);
}

#[test]
fn a_long_series_is_reduced_to_the_column_count() {
    let pts: Vec<(i64, i64)> = (0..1000).map(|i| (i * 600, 100 + i % 50)).collect();
    let out = bucket_players(&pts, 60);
    assert!(out.len() <= 60, "got {} columns", out.len());
    assert!(out.len() > 50, "should fill most columns: {}", out.len());
}

#[test]
fn buckets_hold_the_mean_of_what_is_inside_them() {
    let pts = vec![(0, 10), (1, 30)];
    let out = bucket_players(&pts, 1);
    assert_eq!(out.len(), 1);
    assert_eq!(out[0].players, 20);
}

#[test]
fn buckets_stay_in_time_order() {
    let pts: Vec<(i64, i64)> = (0..500).map(|i| (i * 3600, i)).collect();
    let out = bucket_players(&pts, 40);
    assert!(out.windows(2).all(|w| w[0].at <= w[1].at));
}

#[test]
fn a_gap_in_sampling_leaves_a_gap_rather_than_a_zero() {
    let mut pts: Vec<(i64, i64)> = (0..50).map(|i| (i * 60, 500)).collect();
    pts.extend((0..50).map(|i| (100_000 + i * 60, 500)));
    let out = bucket_players(&pts, 20);
    assert!(out.iter().all(|b| b.players == 500), "no invented zeroes");
    assert!(out.len() < 20, "the empty middle buckets are dropped");
}

#[test]
fn an_unsorted_input_cannot_index_out_of_bounds() {
    let pts = vec![(1000, 5), (0, 9)];
    let out = bucket_players(&pts, 4);
    assert!(out.len() <= 4);
}

#[test]
fn buckets_agree_with_double_arithmetic() {
    let series: Vec<(i64, i64)> =
        (0..700).map(|i: i64| (1_572_847_200 + i * 4_321 + i % 17, (i * 7919) % 5_000)).collect();
    for columns in [1_usize, 3, 7, 60, 150, 699] {
        let first = series[0].0;
        let span = (series[series.len() - 1].0 - first).max(1);
        let width = (span as f64 / columns as f64).max(1.0);
        let mut sums = vec![0_i64; columns];
        let mut counts = vec![0_i64; columns];
        for (at, players) in &series {
            let i = ((((at - first) as f64) / width) as usize).min(columns - 1);
            sums[i] += players;
            counts[i] += 1;
        }
        let expect: Vec<Bucket> = (0..columns)
            .filter(|i| counts[*i] > 0)
            .map(|i| Bucket {
                at: first + (i as f64 * width) as i64,
                players: sums[i] / counts[i],
            })
            .collect();
        assert_eq!(bucket_players(&series, columns), expect, "{columns} columns");
    }
}

#[test]
fn encodes_spaces_and_symbols() {
    assert_eq!(urlencode("tower defense"), "tower%20defense");
    assert_eq!(urlencode("a&b=c"), "a%26b%3Dc");
    assert_eq!(urlencode("plain-Text_1.0~"), "plain-Text_1.0~");
    assert_eq!(urlencode("é"), "%C3%A9");
}

#[test]
fn a_server_link_carries_the_instance_through() {
    let t = resolve_join_target(
        "https://www.roblox.com/games/start?placeId=606849621&gameInstanceId=1a2b3c4d-5e6f-7890-abcd-ef1234567890",
    )
    .unwrap();
    assert_eq!(t.place_id, 606_849_621);
    assert_eq!(t.job_id.as_deref(), Some("1a2b3c4d-5e6f-7890-abcd-ef1234567890"));
    assert!(t.access_code.is_none() && t.link_code.is_none());
}

#[test]
fn a_vip_link_carries_its_code() {
    let t = resolve_join_target(
        "https://www.roblox.com/games/606849621/Jailbreak?privateServerLinkCode=abc123XYZ",
    )
    .unwrap();
    assert_eq!(t.place_id, 606_849_621);
    assert_eq!(t.link_code.as_deref(), Some("abc123XYZ"));
    assert!(t.access_code.is_none(), "a share link is a link code, not an access code");
}

#[test]
fn a_plain_game_link_names_no_server() {
    let t = resolve_join_target("https://www.roblox.com/games/606849621/Jailbreak").unwrap();
    assert_eq!(t.place_id, 606_849_621);
    assert!(t.job_id.is_none() && t.access_code.is_none() && t.link_code.is_none());
}

#[test]
fn a_deep_link_works_the_same_way() {
    let t = resolve_join_target(
        "roblox://experiences/start?placeId=920587237&gameInstanceId=deadbeef-0000-1111-2222-333344445555",
    )
    .unwrap();
    assert_eq!(t.place_id, 920_587_237);
    assert!(t.job_id.is_some());
}

#[test]
fn a_param_is_not_found_inside_a_longer_name() {
    assert_eq!(query_param("https://x/y?rootPlaceId=5", "placeId"), None);
    assert_eq!(query_param("https://x/y?placeId=5", "placeId").as_deref(), Some("5"));
}

#[test]
fn a_truncated_instance_id_is_rejected_rather_than_joined() {
    let t =
        resolve_join_target("https://www.roblox.com/games/start?placeId=1&gameInstanceId=x").unwrap();
    assert!(t.job_id.is_none());
}

#[test]
fn resolves_game_links() {
    assert_eq!(
        resolve_place_id("https://www.roblox.com/games/606849621/Jailbreak"),
        Some(606849621)
    );
    assert_eq!(
        resolve_place_id("https://www.roblox.com/games/start?placeId=606849621"),
        Some(606849621)
    );
}

#[test]
fn bare_long_id_resolves_but_short_digits_stay_a_search() {
    assert_eq!(resolve_place_id("606849621"), Some(606849621));
    assert_eq!(resolve_place_id("99"), None);
    assert_eq!(resolve_place_id("1234567"), None, "7 digits is below the floor");
}

#[test]
fn plain_words_are_never_place_ids() {
    assert_eq!(resolve_place_id("jailbreak"), None);
    assert_eq!(resolve_place_id(""), None);
}

#[test]
fn omni_percent_handles_unvoted() {
    let g = OmniGame { total_up_votes: 0, total_down_votes: 0, ..Default::default() };
    assert_eq!(g.percent(), None);

    let g = OmniGame { total_up_votes: 3, total_down_votes: 1, ..Default::default() };
    assert_eq!(g.percent(), Some(75));
}

#[test]
fn omni_parsing_skips_non_game_groups_and_sponsored() {
    let game = |id: i64, name: &str, ad: bool| OmniGame {
        universe_id: id,
        name: name.into(),
        is_sponsored: ad,
        ..Default::default()
    };
    let groups = vec![
        OmniGroup {
            content_group_type: "Game".into(),
            contents: vec![game(1, "Real", false), game(2, "Ad", true)],
        },
        OmniGroup { content_group_type: "Creator".into(), contents: vec![game(3, "X", false)] },
    ];
    let page = game_search_page(groups, Some("tok".into()));
    assert_eq!(page.games.len(), 1);
    assert_eq!(page.games[0].name, "Real");
    assert_eq!(page.next.as_deref(), Some("tok"));
    assert!(games_url("a b", "s", None).contains("searchQuery=a%20b&sessionId=s"));
}

#[test]
fn only_ever_asks_for_a_size_roblox_accepts() {
    for requested in 0..=200u32 {
        assert!(
            matches!(page_limit(requested), 10 | 25 | 50 | 100),
            "{requested} produced a limit Roblox rejects"
        );
    }
}

#[test]
fn rounds_up_so_a_request_is_never_short_changed() {
    assert_eq!(page_limit(8), 10);
    assert_eq!(page_limit(12), 25);
    assert_eq!(page_limit(50), 50);
    assert_eq!(page_limit(500), 100);
}

fn thumb(id: i64, state: &str, url: Option<&str>) -> Thumbnail {
    Thumbnail { target_id: id, state: state.into(), image_url: url.map(|u| u.to_string()) }
}

#[test]
fn pending_thumbnails_are_dropped_not_cached() {
    let list = vec![
        thumb(1, "Completed", Some("https://img/1.png")),
        thumb(2, "Pending", Some("https://img/placeholder.png")),
        thumb(3, "Blocked", None),
    ];
    let mut ready: HashMap<i64, String> = HashMap::new();
    collect_ready(&mut ready, &list);
    assert_eq!(ready.len(), 1);
    assert_eq!(ready[&1], "https://img/1.png");
    assert!(!ready.contains_key(&2), "pending must not be cached as final");
}

#[test]
fn game_art_picks_the_first_ready_thumbnail_per_universe() {
    let groups = vec![
        GameThumbGroup {
            universe_id: 10,
            thumbnails: vec![
                thumb(1, "Pending", None),
                thumb(2, "Completed", Some("https://img/real.png")),
            ],
        },
        GameThumbGroup { universe_id: 11, thumbnails: vec![] },
    ];
    let mut out = HashMap::new();
    collect_art(&mut out, &groups);
    assert_eq!(out[&10], "https://img/real.png");
    assert!(!out.contains_key(&11), "empty thumbnail list must yield nothing");
}

#[test]
fn ids_join_in_roblox_query_format() {
    assert_eq!(join(&vec![1, 2, 3]), "1,2,3");
    assert!(pictures_url(Picture::Headshot, &vec![4, 5]).contains("4,5"));
}

#[test]
fn answers_find_their_own_slot_and_strays_are_dropped() {
    let item = |id: &str, state: &str, url: Option<&str>| TokenItem {
        request_id: id.into(),
        state: state.into(),
        image_url: url.map(|u| u.to_string()),
    };
    let mut out: Vec<Option<String>> = vec![None, None, None];
    place_answers(
        &mut out,
        vec![
            item("2", "Completed", Some("c")),
            item("0", "Completed", Some("a")),
            item("1", "Pending", Some("x")),
            item("9", "Completed", Some("stray")),
            item("no", "Completed", Some("stray")),
        ],
    );
    assert_eq!(out, vec![Some("a".to_string()), None, Some("c".to_string())]);
    assert_eq!(token_request_id(2, 5), "205");
}

#[test]
fn account_age_rejects_garbage_rather_than_panicking() {
    assert_eq!(account_age_years("not a date"), None);
    assert_eq!(account_age_years(""), None);
}

#[test]
fn account_age_parses_roblox_timestamps() {
    let age = account_age_years("2006-02-27T21:06:40.3Z");
    assert!(age.is_some());
    assert!(age.unwrap() >= 19, "Roblox launched in 2006; got {age:?}");
}

#[test]
fn account_age_counts_whole_years() {
    // 2006-02-27 to 2026-01-01.
    let now = Moment { secs: 1_767_225_600, nanos: 0 };
    assert_eq!(account_age_years_at("2006-02-27T21:06:40.3Z", now), Some(19));
    assert_eq!(account_age_years_at("2025-12-31T00:00:00Z", now), Some(0));
}

#[test]
fn a_redrawn_avatar_is_looked_for_five_times() {
    let mut pictures: HashMap<i64, String> = HashMap::new();
    pictures.insert(2, "https://t/2.png".into());
    for (looks, wait) in [(0, 0), (1, 700), (2, 1_500), (3, 2_500), (4, 4_000)] {
        assert!(matches!(avatar_when_ready(looks, &pictures, 1), Look::Wait(ms) if ms == wait));
    }
    assert!(matches!(avatar_when_ready(5, &pictures, 1), Look::GiveUp));
    assert!(matches!(avatar_when_ready(9, &pictures, 2), Look::Found(u) if u == "https://t/2.png"));
}
