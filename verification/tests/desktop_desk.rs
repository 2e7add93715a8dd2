//! What a click does: macros, hotkeys, lists, pages, sign-in, grids, requests,
//! the wardrobe, profiles, launches, searches and preferences.

use rojoin::clock::Moment;
use rojoin::desktop::adapters::{DetailItem, GameDetailData, GameTile};
use rojoin::desktop::demo::{self, Wish};
use rojoin::desktop::fflags::{parse, Flag};
use rojoin::desktop::find::{any_token, face_tokens, group_rows, player_rows, server_sort, Finder};
use rojoin::desktop::friends::{friend_rows_at, FriendInput};
use rojoin::desktop::gameclient::{
    added_value, client_settings, render_flag_rows, set_client_flag, set_client_graphics,
};
use rojoin::desktop::home::{
    favorite_failed, favorited_ids, favorites_loaded, home_sections, order_by_recency,
    picture_fits, picture_jobs, plain_tiles, rated_tiles, resolved, toggle_favorite, Grids,
};
use rojoin::desktop::hotkeys::{bind_key, panic_key, HotkeyDesk, HotkeyRules, Refresh};
use rojoin::desktop::launch::{
    deep_link, history_key, join_server, play_game, play_sub_place, top_submit, Launch,
    LaunchAction, Submit,
};
use rojoin::desktop::library::{empty_library, render_library, PlayEntry};
use rojoin::desktop::lists::{add_text, drop_text, toggle_text};
use rojoin::desktop::macros::{
    edit, import_status, initial, render_editor, render_macros, toggle_enabled, toggle_run, Edit,
    Toggled,
};
use rojoin::desktop::nav::{
    current_id, current_url, inspect_badge, report, shortcut_ids, toggle_notify, Generation,
    PageIds, Screen, Toast, CLIENT_PAGE, GAME_PAGE, GROUP_PAGE, NAV, NO_PAGE, PROFILE_PAGE,
};
use rojoin::desktop::options::{
    account_ids, remove_shortcut, render_settings, switch_account, Account, Choice, Preferences,
    UpdateCheck,
};
use rojoin::desktop::profile::{
    answer_request, find_membership, group_joined, group_left, is_own, open_creator, open_group,
    profile_data_at, profile_join, unfriend, unfriended, Bio, Page, ProfileData,
};
use rojoin::desktop::requests::{Reply, Requests};
use rojoin::desktop::roster::{
    avatar_url, fetch_friends, find_friend, join_friend, remembered, row_pictures, to_resolve,
    CachedUser,
};
use rojoin::desktop::session::{new_session_id, GameLoad, Session};
use rojoin::desktop::shortcut::Entry;
use rojoin::desktop::signin::{
    check_client_account, persist_refreshed_cookie, Polled, Restore, Restored, SignIn,
    SignInPhase, BUDGET,
};
use rojoin::desktop::updater::Status;
use rojoin::desktop::wardrobe::{
    category_at, new_outfit_name, outfit_name, outfit_rows, Wardrobe, WearItem, TRUST_MS,
};
use rojoin::launcher;
use rojoin::launcher::{Backend, JoinRequest};
use rojoin::macroeng::focus::Focus;
use rojoin::macroeng::hotkeys::HotkeyEvent;
use rojoin::macroeng::keys::Key;
use rojoin::macroeng::process::MAX_FREEZE_MS;
use rojoin::macroeng::{Engine, Macro, Mode, Step};
use rojoin::roblox::auth::{self, LoginCode, LoginStatus};
use rojoin::roblox::avatar::{Avatar, InventoryItem, Outfit, WornAsset};
use rojoin::roblox::error::Error;
use rojoin::roblox::friends::{Presence, PresenceKind, SocialCounts};
use rojoin::roblox::games::ServerSort;
use rojoin::roblox::groups::{Group, GroupOwner, Membership};
use rojoin::roblox::models::{
    AuthedUser, GameDetail, GamePass, GroupSearchResult, Place, Server, User, UserSearchResult,
    Votes,
};
use rojoin::roblox::search::OmniGame;
use std::collections::HashMap;

// Macros.

fn tapper(id: &str, mode: Mode) -> Macro {
    Macro {
        id: id.into(),
        name: id.to_uppercase(),
        mode,
        hotkey: Some(Key::F6),
        steps: vec![Step::Tap { key: Key::Space, hold_ms: 20 }, Step::Wait { ms: 30 }],
        cycle_gap_ms: 10,
        ..Default::default()
    }
}

#[test]
fn a_macro_runs_until_it_is_pressed_again() {
    let macros = vec![tapper("a", Mode::Toggle)];
    let mut engine = Engine::new();
    assert_eq!(toggle_run(&mut engine, &macros, "a"), Toggled::Started(0));
    assert!(render_macros(&macros, &engine)[0].running);
    assert_eq!(toggle_run(&mut engine, &macros, "a"), Toggled::Stopped);
    assert!(engine.should_stop("a"));
    assert_eq!(toggle_run(&mut engine, &macros, "missing"), Toggled::Nothing);
}

#[test]
fn switching_a_macro_off_stops_it() {
    let mut macros = vec![tapper("a", Mode::Toggle)];
    let mut engine = Engine::new();
    toggle_run(&mut engine, &macros, "a");
    toggle_enabled(&mut macros, &mut engine, "a");
    assert!(!macros[0].enabled);
    assert!(engine.should_stop("a"));
    toggle_enabled(&mut macros, &mut engine, "a");
    assert!(macros[0].enabled);
}

#[test]
fn a_macro_row_says_what_it_does() {
    let macros = vec![tapper("a", Mode::Hold)];
    let row = &render_macros(&macros, &Engine::new())[0];
    assert_eq!((row.id.as_str(), row.name.as_str()), ("a", "A"));
    assert_eq!(row.hotkey, Key::F6.label());
    assert!(row.enabled && !row.running);
    assert!(row.cycle.contains("60"), "{}", row.cycle);
}

#[test]
fn a_first_start_offers_the_presets() {
    assert!(!initial(Vec::new()).is_empty());
    assert_eq!(initial(vec![tapper("a", Mode::Once)]).len(), 1);
    assert!(import_status(1).contains('1'));
    assert_ne!(import_status(1), import_status(2));
}

#[test]
fn edits_change_one_thing_and_can_be_undone() {
    let mut macros = vec![tapper("a", Mode::Once)];
    let open = Some("a".to_string());
    assert!(edit(&mut macros, &open, &Edit::Add(7)));
    assert_eq!(macros[0].steps.len(), 3);
    assert_eq!(macros[0].steps[2], Step::Freeze { ms: 250 });
    assert!(edit(&mut macros, &open, &Edit::Amount { at: 2, value: 9_000 }));
    assert_eq!(macros[0].steps[2], Step::Freeze { ms: MAX_FREEZE_MS });
    assert!(edit(&mut macros, &open, &Edit::Shift { at: 2, delta: -2 }));
    assert_eq!(macros[0].steps[0], Step::Freeze { ms: MAX_FREEZE_MS });
    assert!(edit(&mut macros, &open, &Edit::Shift { at: 0, delta: 2 }));
    assert!(edit(&mut macros, &open, &Edit::Remove(2)));
    assert_eq!(macros[0].steps, tapper("a", Mode::Once).steps);
    assert!(edit(&mut macros, &open, &Edit::Mode(1)));
    assert_eq!(macros[0].mode, Mode::Hold);
    assert!(edit(&mut macros, &open, &Edit::Gap(-5)));
    assert_eq!(macros[0].cycle_gap_ms, 0);
    assert!(!edit(&mut macros, &open, &Edit::Key { at: 0, label: "no such key".into() }));
    assert!(edit(&mut macros, &open, &Edit::Key { at: 0, label: "w".into() }));
    assert_eq!(macros[0].steps[0], Step::Tap { key: Key::W, hold_ms: 20 });
    assert!(edit(&mut macros, &open, &Edit::Add(6)));
    assert!(edit(&mut macros, &open, &Edit::Delta { at: 2, dx: -3, dy: 4 }));
    assert_eq!(macros[0].steps[2], Step::MouseMove { dx: -3, dy: 4 });
}

#[test]
fn the_editor_shows_every_step() {
    let macros = vec![tapper("a", Mode::Once)];
    let view = render_editor(&macros, &Some("a".into())).unwrap();
    assert_eq!((view.mode, view.gap, view.steps.len()), (0, 10, 2));
    assert_eq!((view.steps[0].kind, view.steps[0].amount), (2, 20));
    assert_eq!(view.steps[0].key, Key::Space.label());
    assert_eq!((view.steps[1].kind, view.steps[1].label.as_str()), (3, "Wait"));
    assert!(render_editor(&macros, &None).is_none());
    assert!(render_editor(&macros, &Some("gone".into())).is_none());
}

// Hotkeys.

struct Desk {
    desk: HotkeyDesk,
    engine: Engine,
    macros: Vec<Macro>,
    editing: Option<String>,
    panic: String,
    rules: HotkeyRules,
}

impl Desk {
    fn new(macros: Vec<Macro>) -> Desk {
        Desk {
            desk: HotkeyDesk::new(),
            engine: Engine::new(),
            macros,
            editing: None,
            panic: "F8".into(),
            rules: HotkeyRules { enabled: true, only_when_focused: true },
        }
    }

    fn send(&mut self, focus: Focus, event: HotkeyEvent) -> Refresh {
        self.desk
            .handle(
                &mut self.engine,
                &mut self.macros,
                &self.editing,
                &mut self.panic,
                &self.rules,
                focus,
                event,
            )
            .refresh
    }
}

#[test]
fn a_held_key_runs_its_macro_until_it_is_let_go() {
    let mut d = Desk::new(vec![tapper("a", Mode::Hold)]);
    d.send(Focus::Game, HotkeyEvent::Pressed(Key::F6));
    assert!(d.engine.is_running("a") && !d.engine.should_stop("a"));
    d.send(Focus::Game, HotkeyEvent::Released(Key::F6));
    assert!(d.engine.should_stop("a"));
    assert!(d.desk.held.is_empty());
}

#[test]
fn hotkeys_do_nothing_behind_another_window() {
    let mut d = Desk::new(vec![tapper("a", Mode::Toggle)]);
    d.send(Focus::Other, HotkeyEvent::Pressed(Key::F6));
    assert!(!d.engine.is_running("a"));
    d.rules.only_when_focused = false;
    d.send(Focus::Other, HotkeyEvent::Pressed(Key::F6));
    assert!(d.engine.is_running("a"));
    let mut d = Desk::new(vec![tapper("a", Mode::Toggle)]);
    d.rules.enabled = false;
    d.send(Focus::Game, HotkeyEvent::Pressed(Key::F6));
    assert!(!d.engine.is_running("a"));
}

#[test]
fn the_panic_key_stops_everything_from_anywhere() {
    let mut d = Desk::new(vec![tapper("a", Mode::Toggle)]);
    d.send(Focus::Game, HotkeyEvent::Pressed(Key::F6));
    d.rules.enabled = false;
    d.send(Focus::Other, HotkeyEvent::Pressed(Key::F8));
    assert!(d.engine.should_stop("a"));
    assert_eq!(panic_key("f8"), Key::F8);
    assert_eq!(panic_key("no such key"), Key::F8);
}

#[test]
fn capturing_binds_the_next_key_to_the_open_macro() {
    let mut d = Desk::new(vec![tapper("a", Mode::Toggle), tapper("b", Mode::Toggle)]);
    d.editing = Some("b".into());
    d.desk.capturing = true;
    assert_eq!(d.send(Focus::Other, HotkeyEvent::Pressed(Key::F6)), Refresh::Editor);
    assert_eq!(d.macros[1].hotkey, Some(Key::F6));
    assert_eq!(d.macros[0].hotkey, None);
    assert!(!d.desk.capturing);

    d.desk.binding_panic = true;
    assert_eq!(d.send(Focus::Other, HotkeyEvent::Pressed(Key::F7)), Refresh::Settings);
    assert_eq!(d.panic, Key::F7.label());
    let mut macros = vec![tapper("a", Mode::Once)];
    bind_key(&mut macros, "a", None);
    assert_eq!(macros[0].hotkey, None);
}

// Lists.

#[test]
fn toggling_a_text_twice_leaves_the_list() {
    let mut list = vec!["a".to_string(), "b".to_string()];
    toggle_text(&mut list, "c");
    assert_eq!(list, vec!["a", "b", "c"]);
    toggle_text(&mut list, "c");
    assert_eq!(list, vec!["a", "b"]);
    add_text(&mut list, "a");
    assert_eq!(list, vec!["a", "b"]);
    drop_text(&mut list, "a");
    assert_eq!(list, vec!["b"]);
}

// Pages.

#[test]
fn going_back_leads_to_the_section_a_page_was_opened_from() {
    let mut v = Screen::new();
    v.navigate(3);
    v.push_view(GAME_PAGE);
    v.push_view(PROFILE_PAGE);
    assert!(v.can_back);
    v.nav_back();
    assert_eq!((v.section, v.kind, v.can_back), (3, NO_PAGE, false));
    let here = v;
    v.nav_back();
    assert_eq!(v, here);
    v.open_settings();
    assert_eq!(v.section, 6);
    v.open_search();
    assert_eq!((v.section, v.kind), (1, NO_PAGE));
    v.enter(99);
    assert!((v.section as usize) < NAV.len());
}

#[test]
fn a_page_knows_its_id_and_its_address() {
    let ids = PageIds { game: "1".into(), profile: "2".into(), group: "3".into() };
    assert_eq!(current_id(GAME_PAGE, &ids), "1");
    assert_eq!(current_id(PROFILE_PAGE, &ids), "2");
    assert_eq!(current_id(GROUP_PAGE, &ids), "3");
    assert_eq!(current_id(CLIENT_PAGE, &ids), "");
    assert!(current_url(GAME_PAGE, &ids).ends_with("/games/1"));
    assert!(current_url(PROFILE_PAGE, &ids).contains("/users/2"));
    let mut t = Toast { text: String::new(), nonce: i32::MAX };
    t.copied("link");
    assert_eq!((t.text.as_str(), t.nonce), ("Copied link", i32::MIN));
}

fn game(universe: &str, place: &str) -> GameDetailData {
    GameDetailData {
        universe_id: universe.into(),
        root_place_id: place.into(),
        ..Default::default()
    }
}

#[test]
fn watching_a_game_is_switched_on_and_off() {
    let mut g = game("7", "70");
    let mut watched = Vec::new();
    assert!(toggle_notify(&mut g, &mut watched));
    assert!(g.notify);
    assert_eq!(watched, vec!["7"]);
    assert!(toggle_notify(&mut g, &mut watched));
    assert!(!g.notify && watched.is_empty());
    let mut none = game("", "");
    assert!(!toggle_notify(&mut none, &mut watched));
    assert_eq!(shortcut_ids(&g), Some((70, 7)));
    assert_eq!(shortcut_ids(&none), None);
}

fn row(id: &str) -> DetailItem {
    DetailItem { id: id.into(), name: format!("n{id}"), subtitle: format!("s{id}"), kind: 3 }
}

#[test]
fn a_badge_is_inspected_by_its_id() {
    let rows = vec![row("1"), row("2")];
    assert_eq!(inspect_badge(&rows, "2"), Some(("n2".into(), "s2".into())));
    assert_eq!(inspect_badge(&rows, "3"), None);
    assert!(report(&Error::Expired));
    assert!(!report(&Error::RateLimited));
    let mut g = Generation { now: 4 };
    let old = g.next();
    let new = g.next();
    assert!(!g.is_current(old) && g.is_current(new));
}

// Signing in.

fn code() -> LoginCode {
    LoginCode {
        code: "ABC123".into(),
        private_key: "k".into(),
        expiration_time: String::new(),
        image_path: String::new(),
    }
}

#[test]
fn a_sign_in_goes_from_the_code_to_the_account() {
    let mut s = SignIn::new();
    s.start();
    assert_eq!(s.phase, SignInPhase::Requesting);
    s.created(Ok(code()));
    assert_eq!(s.phase, SignInPhase::Waiting);
    assert!(s.browser_url().ends_with("?code=ABC123"));
    assert!(s.tick());
    assert!(matches!(s.polled(Ok((LoginStatus::Pending, None))), Polled::Again));
    assert!(matches!(s.polled(Err(Error::RateLimited)), Polled::Again));
    let next = s.polled(Ok((LoginStatus::Validated, Some("me".into()))));
    assert!(matches!(next, Polled::Redeem(Some(n)) if n == "me"));
    let cookie = s.redeemed(Ok(auth::Session { cookie: "c".into(), account_name: None }));
    assert_eq!(cookie.as_deref(), Some("c"));
    assert!(s.identified(&Ok(AuthedUser { id: 1, ..Default::default() })));
    assert_eq!(s.phase, SignInPhase::Approved);
    assert!(s.attempt.is_none());
}

#[test]
fn a_sign_in_says_why_it_failed() {
    let mut s = SignIn::new();
    s.created(Err(Error::Http("down".into())));
    assert_eq!(s.error, "Could not reach Roblox: network: down");
    s.created(Ok(code()));
    assert!(matches!(s.polled(Ok((LoginStatus::Cancelled, None))), Polled::Over));
    assert_eq!(s.error, "That sign-in was declined.");
    assert!(s.redeemed(Err(Error::RateLimited)).is_none());
    assert_eq!(s.error, "Approved, but the sign-in did not complete: rate limited");
    assert!(!s.identified(&Err(Error::Expired)));
    assert_eq!(s.error, "Signed in, but Roblox rejected the session: session expired");
    s.created(Ok(code()));
    let mut polls = 0;
    while s.waited <= BUDGET && s.tick() {
        polls += 1;
    }
    assert!(polls > 0);
    assert_eq!(s.phase, SignInPhase::Failed);
    assert_eq!(s.error, "That code expired. Get a new one to try again.");
    s.cancel();
    assert_eq!((s.phase, s.code.as_str()), (SignInPhase::Idle, ""));
    s.add_account();
    assert_eq!(s.phase, SignInPhase::Idle);
}

#[test]
fn a_saved_session_is_only_given_up_when_it_has_ended() {
    let mut r = Restore::new();
    for wait in [2, 5, 15] {
        match r.answer(Err(Error::RateLimited)) {
            Restored::Again(secs) => assert_eq!(secs, wait),
            other => panic!("expected another try, got {other:?}"),
        }
    }
    assert!(matches!(r.answer(Err(Error::RateLimited)), Restored::GaveUp(w)
        if w.contains("rate limited") && w.contains("still here")));
    assert!(matches!(Restore::new().answer(Err(Error::Expired)), Restored::SignedOut(_)));
    let me = AuthedUser { id: 9, ..Default::default() };
    assert!(matches!(Restore::new().answer(Ok(me)), Restored::Enter(u) if u.id == 9));
}

#[test]
fn a_game_signed_in_as_somebody_else_is_noticed() {
    let s = |t: &str| Some(t.to_string());
    assert_eq!(check_client_account(&s("a"), s("b")), s("b"));
    assert_eq!(check_client_account(&s("a"), s("a")), None);
    assert_eq!(check_client_account(&None, s("b")), None);
    assert_eq!(persist_refreshed_cookie(s("c"), &s("1")), Some(("1".into(), "c".into())));
    assert_eq!(persist_refreshed_cookie(s("c"), &None), None);
    assert_eq!(persist_refreshed_cookie(None, &s("1")), None);
}

// The home page.

fn tile(universe: &str, favorited: bool) -> GameTile {
    GameTile { universe_id: universe.into(), favorited, ..Default::default() }
}

#[test]
fn a_star_turns_on_every_tile_of_the_game_and_back_when_it_fails() {
    let mut g = Grids::new();
    g.recent.push(tile("7", false));
    g.related.push(tile("7", false));
    g.related.push(tile("8", false));
    let mut page = game("7", "70");
    assert_eq!(toggle_favorite(&mut g, &mut page, "7"), Some((7, true)));
    assert!(g.recent[0].favorited && g.related[0].favorited && !g.related[1].favorited);
    assert!(page.favorited);
    favorite_failed(&mut g, &mut page, "7", true);
    assert!(!g.recent[0].favorited && !g.related[0].favorited && !page.favorited);
    assert_eq!(toggle_favorite(&mut g, &mut page, "x"), None);
    assert_eq!(g.tile_favorited("8"), Some(false));
    assert_eq!(g.tile_favorited("9"), None);
}

#[test]
fn loaded_favourites_star_what_is_already_shown() {
    let mut g = Grids::new();
    g.recent.push(tile("7", false));
    let d = GameDetail { id: 7, root_place_id: 70, name: "Seven".into(), ..Default::default() };
    favorites_loaded(&mut g, &vec![d.clone()]);
    assert!(g.recent[0].favorited);
    assert_eq!(g.favorites.len(), 1);
    assert_eq!(favorited_ids(&g.favorites), vec![7]);
    let tiles = plain_tiles(&vec![d.clone()], false);
    assert_eq!((tiles[0].name.as_str(), tiles[0].rating), ("Seven", -1));
    let votes = vec![Votes { id: 7, up_votes: 1, down_votes: 1 }];
    let tiles = rated_tiles(&vec![d], &votes, &vec![7]);
    assert_eq!((tiles[0].rating, tiles[0].favorited), (50, true));
}

#[test]
fn recent_games_keep_the_order_they_were_played_in() {
    let d = |id: i64| GameDetail { id, ..Default::default() };
    let out = order_by_recency(vec![d(1), d(2), d(3)], &vec![3, 1, 2]);
    let ids: Vec<i64> = out.iter().map(|x| x.id).collect();
    assert_eq!(ids, vec![3, 1, 2]);
    assert_eq!(resolved(&vec![Some(1), None, Some(2)]), vec![1, 2]);
    let s = home_sections(&vec![0, 3]);
    assert!(!(s.friends && s.hero && s.pinned && s.recent && s.favorites));
}

#[test]
fn a_picture_goes_to_the_tile_it_was_fetched_for() {
    let art: HashMap<i64, String> = HashMap::from([(1, "u1".to_string()), (3, "u3".to_string())]);
    let jobs = picture_jobs(&vec![1, 2, 3], &vec![10, 20, 30], &art);
    assert_eq!(jobs.len(), 2);
    assert_eq!((jobs[1].index, jobs[1].expect_id.as_str(), jobs[1].url.as_str()), (2, "30", "u3"));
    assert!(picture_fits(Some("30"), "30"));
    assert!(!picture_fits(Some("31"), "30"));
    assert!(!picture_fits(None, "30"));
}

// The library.

#[test]
fn the_library_lists_the_longest_played_first() {
    let e = |id: &str, secs: u64, launches: u32| PlayEntry {
        place_id: id.into(),
        name: format!("n{id}"),
        playtime_secs: secs,
        launches,
    };
    let v = render_library(&vec![e("1", 60, 1), e("2", 3_600, 2), e("3", 0, 3)]);
    let ids: Vec<&str> = v.most_played.iter().map(|s| s.id.as_str()).collect();
    assert_eq!(ids, vec!["2", "1"]);
    assert_eq!((v.most_played[1].part, v.most_played[1].whole), (60, 3_600));
    assert_eq!(v.most_played[0].value, "1h");
    assert_eq!((v.total_playtime.as_str(), v.games_played, v.total_launches), ("1h 1m", 3, 6));
    assert_eq!(empty_library().total_playtime, "0m");
}

// Friend requests.

fn user(id: i64, name: &str) -> User {
    User { id, name: name.to_lowercase(), display_name: name.into(), ..Default::default() }
}

#[test]
fn an_answered_request_stays_away() {
    let mut r = Requests::new(Vec::new());
    let users = vec![user(1, "Ann"), user(2, "Bob")];
    r.loaded(&users);
    assert_eq!(r.count(), 2);
    assert_eq!(r.respond("1", true), Some(Reply::Accept(1)));
    assert_eq!(r.respond("2", false), None);
    assert_eq!(r.status, "One at a time — still working on the last one.");
    assert!(r.responded(1, &Ok(())));
    assert_eq!(r.count(), 1);
    r.loaded(&users);
    assert_eq!(r.count(), 1);
    assert_eq!(r.rows[0].id, "2");
    assert_eq!(r.respond("2", false), Some(Reply::Decline(2)));
    assert!(!r.responded(2, &Err(Error::RateLimited)));
    assert!(r.status.contains("rate-limiting"));
    assert!(!r.responded(2, &Err(Error::Api("no".into()))));
    assert_eq!(r.status, "Could not do that: roblox: no");
    assert_eq!(r.count(), 1);
    assert_eq!(r.respond("x", true), None);
}

// The roster.

fn cached(name: &str) -> CachedUser {
    CachedUser {
        username: name.to_lowercase(),
        display_name: name.into(),
        avatar_url: "old".into(),
        verified: false,
        ts: 1,
    }
}

fn at_play(user_id: i64) -> Presence {
    Presence {
        user_id,
        kind: PresenceKind::InGame,
        location: "Doors".into(),
        place_id: Some(11),
        root_place_id: Some(10),
        game_id: Some("job".into()),
        universe_id: Some(9),
        last_online: None,
    }
}

#[test]
fn friends_are_put_together_from_what_is_known() {
    let known: HashMap<i64, CachedUser> = HashMap::from([(1, cached("Ann"))]);
    assert_eq!(to_resolve(&vec![1, 2], &known), vec![2]);
    let faces: HashMap<i64, String> = HashMap::from([(2, "new".to_string())]);
    assert_eq!(avatar_url(1, &faces, &known), "old");
    assert_eq!(avatar_url(2, &faces, &known), "new");
    let c = remembered(&user(2, "Bob"), &faces, &known, 77);
    assert_eq!((c.display_name.as_str(), c.avatar_url.as_str(), c.ts), ("Bob", "new", 77));
    let list = fetch_friends(
        &vec![1, 2, 3],
        &vec![user(2, "Bob")],
        &vec![at_play(2)],
        &faces,
        &known,
    );
    assert_eq!((list[0].name.as_str(), list[1].name.as_str()), ("Ann", "Bob"));
    assert_eq!((list[1].presence, list[1].location.as_str()), (2, "Doors"));
    assert_eq!(find_friend(&list, 2).unwrap().name, "Bob");
    assert!(find_friend(&list, 4).is_none());
    let req = join_friend(&list, "2").unwrap();
    assert_eq!(req.job_id.as_deref(), Some("job"));
    assert!(join_friend(&list, "1").is_none());
    let now = Moment { secs: 0, nanos: 0 };
    let rows = friend_rows_at(&list, &Vec::new(), &Vec::new(), "", false, now).rows;
    let pictures = row_pictures(&rows, &list);
    assert_eq!(pictures.len(), rows.len());
    assert_eq!(pictures[0], None);
    assert_eq!(pictures[1].as_deref(), Some("new"));
}

// The wardrobe.

fn item(id: &str) -> WearItem {
    WearItem { id: id.into(), name: format!("n{id}"), category: "Hat".into(), worn: false }
}

#[test]
fn wearing_and_taking_off_are_shown_at_once_and_undone_when_refused() {
    let mut w = Wardrobe::new();
    w.items.push(item("5"));
    let change = w.toggle("5").unwrap();
    assert_eq!((change.before.clone(), change.after.clone()), (vec![], vec![5]));
    assert!(w.items[0].worn && w.busy && w.writing);
    assert_eq!(w.worn_rows[0].id, "5");
    assert!(w.toggle("5").is_none(), "one change at a time");
    w.toggled(change, false, 0);
    assert!(!w.items[0].worn && !w.busy && !w.writing);
    assert!(w.worn.is_empty());
}

#[test]
fn a_stale_read_does_not_undo_what_was_just_written() {
    let mut w = Wardrobe::new();
    w.items.push(item("5"));
    let change = w.toggle("5").unwrap();
    w.toggled(change, true, 1_000);
    let empty = Avatar { player_avatar_type: "R6".into(), ..Default::default() };
    w.loaded(&empty, 1_000 + TRUST_MS - 1);
    assert_eq!(w.worn, vec![5]);
    assert!(!w.is_r15);
    w.loaded(&empty, 1_000 + TRUST_MS);
    assert!(w.worn.is_empty());
    let mut av = Avatar { player_avatar_type: "R15".into(), ..Default::default() };
    av.assets.push(WornAsset { id: 6, name: "Cap".into(), ..Default::default() });
    w.loaded(&av, 1_000 + TRUST_MS);
    assert_eq!(w.worn, vec![6]);
    assert_eq!((w.worn_rows[0].name.as_str(), w.worn_rows[0].kind), ("Cap", 7));
    let worn = w.worn.clone();
    let have = InventoryItem { asset_id: 6, asset_name: "Cap".into(), ..Default::default() };
    w.items_loaded(&vec![have], &worn);
    assert!(w.items[0].worn);
}

#[test]
fn outfits_and_body_types_are_sent_one_at_a_time() {
    let mut w = Wardrobe::new();
    assert!(!w.set_type(true));
    assert!(w.set_type(false));
    w.type_set(false, true);
    assert!(!w.is_r15);
    w.begin();
    assert!(w.busy);
    w.outfit_worn(Some(&vec![1, 2]), 5);
    assert_eq!((w.worn.clone(), w.busy), (vec![1, 2], false));
    w.begin();
    w.outfit_saved();
    assert!(!w.busy);
    assert!(category_at(0).is_some());
    assert_eq!(category_at(-1), category_at(0));
    assert!(category_at(13).is_none());
    let rows = outfit_rows(&vec![Outfit { id: 3, name: "Red".into(), is_editable: true }]);
    assert_eq!((rows[0].id.as_str(), rows[0].kind), ("3", 9));
    assert_eq!(outfit_name("x"), "RoJoin x");
    assert!(new_outfit_name().starts_with("RoJoin "));
    let name = new_outfit_name();
    let shape: String = name
        .chars()
        .skip(7)
        .map(|c| if c.is_ascii_digit() { '0' } else if c.is_ascii_alphabetic() { 'a' } else { c })
        .collect();
    assert_eq!(shape, "00 aaa 00:00");
}

// Profiles and groups.

#[test]
fn a_profile_says_how_one_stands_to_it() {
    let mut requests = Requests::new(Vec::new());
    requests.loaded(&vec![user(2, "Bob")]);
    let mut u = user(2, "Bob");
    u.created = Some("2013-11-14T00:00:00Z".into());
    let counts = SocialCounts { friends: 1_500, followers: 2, following: 3 };
    let now = Moment { secs: 1_700_000_000, nanos: 0 };
    let p = at_play(2);
    let d = profile_data_at(
        &u,
        &vec!["old1".into(), "old2".into()],
        &counts,
        Some(&p),
        &Vec::new(),
        &requests,
        2,
        1,
        now,
    );
    assert_eq!((d.id.as_str(), d.name.as_str(), d.username.as_str()), ("2", "Bob", "bob"));
    assert_eq!((d.friends.as_str(), d.followers.as_str()), ("1.5K", "2"));
    assert!(d.also_known_as.contains("old1") && d.also_known_as.contains("old2"));
    assert!(d.joined.contains("10"), "{}", d.joined);
    assert_eq!((d.presence, d.presence_label.as_str()), (2, "Doors"));
    assert!(!d.is_friend && d.has_incoming_request && !d.is_self);
    let req = profile_join(&d).unwrap();
    assert_eq!(req.place_id.to_string(), d.place_id);
    assert!(is_own(1, 1) && !is_own(0, 0) && !is_own(2, 1));
}

fn blank_profile(id: &str) -> ProfileData {
    let mut d = demo::profile(false);
    d.id = id.into();
    d
}

#[test]
fn a_profile_answers_requests_and_ends_friendships() {
    let mut requests = Requests::new(Vec::new());
    let mut d = blank_profile("2");
    d.has_incoming_request = true;
    assert_eq!(answer_request(&mut d, &mut requests, true), Some(Reply::Accept(2)));
    assert!(!d.has_incoming_request);
    d.is_friend = true;
    assert_eq!(unfriend(&mut d), Some(2));
    unfriended(&mut d, true);
    assert!(!d.is_friend);
    let mut odd = blank_profile("x");
    assert_eq!(unfriend(&mut odd), None);

    let mut bio = Bio::new();
    assert!(bio.save_description());
    assert!(!bio.save_description());
    bio.saved(&mut d, "new words".into(), &Ok(()));
    assert_eq!((d.description.as_str(), bio.busy), ("new words", false));
    bio.saved(&mut d, "more".into(), &Err(Error::RateLimited));
    assert_eq!(d.description, "new words");
    assert!(!bio.status.is_empty());
}

#[test]
fn a_group_page_follows_ones_membership() {
    let mut g = Group { id: 5, name: "Builders".into(), member_count: 1_200, ..Default::default() };
    g.owner = Some(GroupOwner { user_id: 8, username: "boss".into(), ..Default::default() });
    let mut m = Membership { group: g.clone(), ..Default::default() };
    m.role.name = "Admin".into();
    let d = open_group(&g, &vec![m.clone()], 5);
    assert_eq!((d.id.as_str(), d.role.as_str(), d.is_member), ("5", "Admin", true));
    assert_eq!(d.members, "1.2K");
    let mut d = open_group(&g, &Vec::new(), 5);
    assert!(!d.is_member);
    group_joined(&mut d, true);
    assert_eq!((d.is_member, d.role.as_str()), (true, "Member"));
    group_left(&mut d, false);
    assert!(d.is_member);
    group_left(&mut d, true);
    assert_eq!((d.is_member, d.role.as_str()), (false, ""));
    assert!(find_membership(&vec![m], 5).is_some());

    let mut page = game("7", "70");
    page.creator_id = "5".into();
    page.creator_is_group = true;
    assert_eq!(open_creator(&page), Some(Page::Group(5)));
    page.creator_is_group = false;
    assert_eq!(open_creator(&page), Some(Page::Profile(5)));
    page.creator_id = String::new();
    assert_eq!(open_creator(&page), None);
}

// Launching.

#[test]
fn a_sub_place_is_launched_itself_and_remembered_by_its_root() {
    let req = play_sub_place("71", "70").unwrap();
    assert_eq!((req.place_id, req.root_place_id), (71, 70));
    assert_eq!(history_key(&req), 70);
    assert_eq!(play_sub_place("71", "").unwrap().root_place_id, 71);
    assert_eq!(history_key(&JoinRequest { place_id: 5, ..Default::default() }), 5);
    assert_eq!(play_game("70").unwrap().place_id, 70);
    assert!(play_game("x").is_none());
    assert_eq!(join_server(70, "job").unwrap().job_id.as_deref(), Some("job"));
    assert!(join_server(0, "job").is_none());
}

#[test]
fn arguments_and_typed_links_lead_to_the_same_place() {
    let args = vec![
        "rojoin".to_string(),
        "--hidden".to_string(),
        "roblox://experiences/start?placeId=7&gameInstanceId=j".to_string(),
    ];
    let req = deep_link(&args).unwrap();
    assert_eq!((req.place_id, req.job_id.as_deref()), (7, Some("j")));
    assert!(deep_link(&vec!["rojoin".into()]).is_none());
    assert!(matches!(top_submit("https://www.roblox.com/games/606849621/x"), Submit::Open(606849621)));
    assert!(matches!(top_submit("just words"), Submit::Search));
    match top_submit("https://www.roblox.com/games/7/x?privateServerLinkCode=abc") {
        Submit::Join(req) => {
            assert_eq!((req.place_id, req.link_code.as_deref()), (7, Some("abc")));
        }
        other => panic!("expected a join, got {other:?}"),
    }
}

#[test]
fn a_launch_swaps_the_cookie_before_it_starts() {
    let mut l = Launch::new();
    assert_eq!(l.begin(Backend::Sober, Some("c".into())), LaunchAction::SwapCookie("c".into()));
    assert!(l.launching);
    assert_eq!(l.swapped(&Ok(true)), LaunchAction::WriteFlags);
    assert_eq!(l.flags_written(), LaunchAction::Start);
    assert_eq!(l.started(&Ok(())), LaunchAction::Over);
    assert!(!l.launching && l.error.is_empty());

    assert_eq!(l.begin(Backend::Sober, None), LaunchAction::WriteFlags);
    let failed = Err(launcher::Error::Launch("locked".into()));
    assert_eq!(l.swapped(&failed), LaunchAction::Over);
    assert_eq!((l.launching, l.error.as_str()), (false, "launch failed: locked"));
    l.started(&Err(launcher::Error::SoberMissing));
    assert_eq!(l.error, "Sober is not installed");

    assert_eq!(l.begin(Backend::WindowsClient, Some("c".into())), LaunchAction::Ticket);
    assert_eq!(l.ticket(&Ok("t".into())), LaunchAction::Start);
    assert_eq!(l.ticket(&Err(Error::Expired)), LaunchAction::Over);
}

// Searching.

#[test]
fn a_late_answer_does_not_replace_a_newer_search() {
    let mut f = Finder::new();
    let mut g = Grids::new();
    let first = f.run_search(&mut g, " cats ").unwrap();
    assert_eq!(first.query, "cats");
    assert!(f.searching);
    let second = f.run_search(&mut g, "dogs").unwrap();
    let found = vec![OmniGame { name: "Found".into(), ..Default::default() }];
    assert!(!f.games_found(&mut g, &first, Some(&found)));
    assert!(g.play_games.is_empty());
    assert!(f.games_found(&mut g, &second, Some(&found)));
    assert_eq!(g.play_games[0].name, "Found");
    let people = vec![UserSearchResult {
        id: 4,
        name: "ann".into(),
        display_name: "Ann".into(),
        has_verified_badge: false,
    }];
    let groups = vec![GroupSearchResult { id: 5, member_count: 1_000, ..Default::default() }];
    assert!(!f.people_found(&first, &people, &groups));
    assert!(f.people_found(&second, &people, &groups));
    assert_eq!(f.players[0].subtitle, "@ann");
    assert_eq!(f.groups[0].subtitle, "1.0K members");
    assert_eq!(player_rows(&people)[0].id, "4");
    assert_eq!(group_rows(&groups)[0].id, "5");
    f.live_search("");
    assert!(!f.searching);
    assert!(f.run_search(&mut g, "  ").is_none());
}

#[test]
fn servers_show_up_to_four_faces() {
    assert_eq!(server_sort(1), ServerSort::Fullest);
    assert_eq!(server_sort(2), ServerSort::Emptiest);
    assert_eq!(server_sort(0), ServerSort::Default);
    let s = Server {
        player_tokens: Some((0..6).map(|i| format!("t{i}")).collect()),
        ..Default::default()
    };
    let tokens = face_tokens(&vec![s, Server::default()]);
    assert_eq!(tokens, vec!["t0", "t1", "t2", "t3", "", "", "", ""]);
    assert!(any_token(&tokens));
    assert!(!any_token(&vec!["".into()]));
}

// The game's own settings.

#[test]
fn a_changed_setting_reads_back_and_the_others_stay() {
    let before = "// mine\n{ \"use_opengl\": true, \"other\": [1, 2], // keep\n \"enable_hidpi\": false }";
    let s = client_settings(Some(before)).unwrap();
    assert!(s.opengl && !s.hidpi && !s.discord);
    assert_eq!(s.graphics, 1);
    let after = set_client_flag(false, true, Some(before), "enable_hidpi", true).unwrap();
    let s = client_settings(Some(&after)).unwrap();
    assert!(s.opengl && s.hidpi);
    let value: serde_json::Value = serde_json::from_str(&after).unwrap();
    assert_eq!(value["other"][1], 2);
    let after = set_client_graphics(false, true, Some(&after), 2).unwrap();
    assert_eq!(client_settings(Some(&after)).unwrap().graphics, 2);
    let after = set_client_graphics(false, true, Some(&after), -1).unwrap();
    assert_eq!(client_settings(Some(&after)).unwrap().graphics, 0);
}

#[test]
fn settings_are_not_written_under_a_running_game() {
    assert!(set_client_flag(true, true, Some("{}"), "use_opengl", true).is_err());
    assert!(set_client_flag(false, false, Some("{}"), "use_opengl", true).is_err());
    assert!(set_client_flag(false, true, Some("[1]"), "use_opengl", true).is_err());
    assert!(client_settings(Some("not json")).is_none());
    assert!(client_settings(None).is_none());
    assert_eq!(added_value("  "), "true");
    assert_eq!(added_value("7"), "7");
}

#[test]
fn flags_in_effect_come_first_and_are_never_filtered_away() {
    let catalog: Vec<Flag> = parse(r#"{"FFlagAlpha": true, "FFlagBeta": 3}"#);
    let set = vec![("FFlagZed".to_string(), "1".to_string()), ("FFlagBeta".into(), "9".into())];
    let rows = render_flag_rows(&set, &catalog, "alpha");
    assert_eq!((rows[0].name.as_str(), rows[0].set_value.as_str()), ("FFlagBeta", "9"));
    assert_eq!(rows[0].default_value, "3");
    assert_eq!(rows[1].name, "FFlagZed");
    assert!(rows.iter().any(|r| r.name == "FFlagAlpha"));
    assert!(rows.iter().filter(|r| r.name == "FFlagBeta").count() == 1);
    let rows = render_flag_rows(&Vec::new(), &catalog, "");
    assert!(rows.iter().any(|r| !r.note.is_empty()));
}

// Preferences.

fn preferences() -> Preferences {
    Preferences {
        dark: true,
        notify_friend_requests: true,
        notify_friends: vec!["1".into(), "2".into()],
        notify_games: vec!["7".into()],
        macros_enabled: true,
        macros_only_when_focused: true,
        panic_key: "F8".into(),
        ui_scale: 100,
        startup_section: 0,
        presence_refresh_secs: 30,
        confirm_destructive: true,
        server_page_size: 25,
        request_timeout_secs: 20,
        image_cache_size: 400,
        verbose_logging: false,
        auto_update: true,
        track_friend_playtime: false,
    }
}

#[test]
fn a_choice_is_shown_as_it_was_made() {
    let mut p = preferences();
    let friend = FriendInput {
        id: 2,
        name: "Bob".into(),
        username: "bob".into(),
        presence: 0,
        location: String::new(),
        last_online: String::new(),
        place_id: None,
        game_id: None,
        avatar_url: String::new(),
        joinable: false,
    };
    for c in 0..4 {
        p.set(&Choice::ServerPage(c));
        p.set(&Choice::Timeout(c));
        p.set(&Choice::Cache(c));
        let v = render_settings(
            &p,
            &Vec::new(),
            &None,
            &Vec::new(),
            &vec![],
            12,
        );
        assert_eq!((v.server_page, v.timeout_choice, v.cache_choice), (c, c, c));
    }
    p.set(&Choice::UnsubFriend("1".into()));
    p.set(&Choice::UnsubGame("7".into()));
    p.set(&Choice::Dark(false));
    p.set(&Choice::UiScale(120));
    assert!(!p.dark);
    assert!(p.notify_games.is_empty());
    let accounts = vec![Account {
        id: "1".into(),
        username: "me".into(),
        display_name: "Me".into(),
    }];
    let v = render_settings(&p, &accounts, &Some("1".into()), &Vec::new(), &vec![friend], 12);
    assert!(v.accounts[0].active);
    assert_eq!(v.notify_friends.len(), 1);
    assert_eq!(v.notify_friends[0].name, "Bob");
    assert!(v.cache_summary.starts_with("12 names"));
    assert_eq!(account_ids(&accounts), vec![1]);
}

#[test]
fn an_account_is_switched_to_only_with_its_cookie() {
    let mut active = Some("1".to_string());
    assert_eq!(switch_account(&mut active, "2", None), None);
    assert_eq!(active.as_deref(), Some("1"));
    assert_eq!(switch_account(&mut active, "2", Some("c".into())), Some("c".into()));
    assert_eq!(active.as_deref(), Some("2"));
    let e = |id: i64| Entry { place_id: id, name: String::new(), path: String::new() };
    assert_eq!(remove_shortcut(&vec![e(1), e(2), e(1)], "1"), vec![0, 2]);
    assert!(remove_shortcut(&vec![e(1)], "x").is_empty());
}

#[test]
fn an_update_check_says_what_it_found() {
    let mut u = UpdateCheck::new();
    let mut toast = Toast { text: String::new(), nonce: 0 };
    u.begin();
    assert!(u.checking);
    assert_eq!(u.checked(&Status::UpToDate), None);
    assert_eq!(u.status, Status::UpToDate.message());
    u.begin();
    let s = Status::Available { version: "9.9.9".into(), url: "u".into() };
    assert_eq!(u.checked(&s), Some("u".into()));
    u.installed(&mut toast, "9.9.9", &Ok(()));
    assert!(!u.checking);
    u.installed(&mut toast, "9.9.9", &Err("too small".into()));
    assert!(u.status.contains("too small"));
    u.auto_updated(&mut toast, "9.9.9");
    assert!(toast.text.contains("9.9.9"));
}

// The session as a whole.

fn demo_times() -> Vec<String> {
    (1..=8).map(|i| format!("2023-11-14T{:02}:00:00Z", i)).collect()
}

fn plain_wish() -> Wish {
    Wish { me: false, requests: false, section: None, page: None }
}

#[test]
fn entering_the_app_leaves_nothing_of_the_account_before() {
    let mut s = Session::new(vec!["old".into()]);
    demo::seed(&mut s, &demo_times(), Moment { secs: 1_700_000_000, nanos: 0 }, &plain_wish());
    assert!(s.signed_in && !s.grids.recent.is_empty());
    let before = s.generation.now;
    s.enter_app("Me", 42, vec!["h".into()], 3, 1_234);
    assert_ne!(s.generation.now, before);
    assert_eq!((s.me, s.account_name.as_str(), s.signed_in), (42, "Me", true));
    assert!(s.grids.recent.is_empty() && s.grids.favorites.is_empty());
    assert!(s.friend_rows.is_empty() && s.servers.is_empty() && s.passes.is_empty());
    assert_eq!(s.requests.handled, vec!["h"]);
    assert_eq!(s.search_session, "rojoin-1234");
    assert_eq!(new_session_id(5), "rojoin-5");
    assert_eq!(s.screen.section, 3);
}

#[test]
fn the_game_played_last_is_shown_large() {
    let mut s = Session::new(Vec::new());
    let now = s.generation.now;
    assert!(s.home_loaded(now, demo::tiles(2, 5)));
    assert_eq!(s.hero.as_ref().unwrap().name, "Doors");
    assert_eq!(s.grids.recent.len(), 3);
    assert!(!s.home_loaded(now.wrapping_add(1), Vec::new()));
    assert_eq!(s.grids.recent.len(), 3);
    assert!(s.home_loaded(now, Vec::new()));
    assert!(s.hero.is_none() && s.grids.recent.is_empty());
}

#[test]
fn a_game_page_ignores_what_was_asked_for_by_another_account() {
    let mut s = Session::new(Vec::new());
    s.open_game(70);
    assert_eq!((s.current_place, s.screen.kind), (70, GAME_PAGE));
    let load = GameLoad {
        universe_id: 7,
        subs: vec![Place { id: 71, universe_id: 7, name: "Sub".into(), description: None }],
        passes: vec![GamePass { id: 1, name: "VIP".into(), price: None }],
        badges: Vec::new(),
    };
    let stale = s.generation.now;
    s.enter_app("Me", 42, Vec::new(), 0, 1);
    assert!(!s.game_loaded(stale, &load));
    assert!(s.sub_places.is_empty());
    let now = s.generation.now;
    assert!(s.game_loaded(now, &load));
    assert_eq!(s.sub_places[0].name, "Sub");
    assert_eq!(s.passes[0].name, "VIP");
    assert_eq!(s.current_universe, 7);
    s.open_profile();
    assert_eq!(s.screen.kind, PROFILE_PAGE);
    s.open_group();
    assert_eq!(s.screen.kind, GROUP_PAGE);
    s.clear_account_view();
    assert!(s.sub_places.is_empty());
}

#[test]
fn the_demonstration_fills_the_friends_list_and_counts_it() {
    let mut s = Session::new(vec!["old".into()]);
    s.me = 7;
    let now = Moment { secs: 1_700_000_000, nanos: 0 };
    let shown = demo::seed(&mut s, &demo_times(), now, &plain_wish());
    assert_eq!((s.friends_in_game, s.friends_online), (2, 3));
    let labels: Vec<&str> =
        s.friend_rows.iter().filter(|r| r.is_header).map(|r| r.header_label.as_str()).collect();
    assert_eq!(labels, vec!["PINNED", "ONLINE", "OFFLINE"]);
    let names: Vec<&str> =
        s.friend_rows.iter().filter(|r| !r.is_header).map(|r| r.name.as_str()).collect();
    assert_eq!(
        names,
        vec!["felix", "UsedHenry06", "Floofy", "Nova", "quuut", "Ellie", "Marcus", "Tom"]
    );
    assert!(s.friend_rows.iter().any(|r| r.name == "Floofy" && r.notify && !r.pinned));
    assert!(s.roster.is_empty());
    assert_eq!((s.me, s.requests.handled.len(), s.screen.section), (7, 1, 0));
    assert_eq!((shown.accounts, shown.friend_requests), (2, 2));
    assert_eq!(s.hero.as_ref().unwrap().name, "Jailbreak");
    assert_eq!(shown.game.universe_id, "245662005");
    assert_eq!(shown.recents, vec!["jailbreak", "tower defense", "doors"]);
    assert_eq!((shown.requests.len(), shown.requests_open), (3, false));
    assert_eq!(shown.profile.name, "UsedHenry06");
    assert_eq!((shown.member_total.as_str(), shown.members.len()), ("184K", 6));
    let wish = Wish { me: true, requests: true, section: Some(2), page: Some(PROFILE_PAGE) };
    let shown = demo::seed(&mut s, &demo_times(), now, &wish);
    assert_eq!((shown.profile.name.as_str(), shown.requests_open), ("adam", true));
    assert_eq!((s.screen.section, s.screen.kind, s.screen.can_back), (2, PROFILE_PAGE, true));
}

#[test]
fn the_demonstration_shows_a_full_account() {
    let seen: Vec<String> = (0..8).map(|i| format!("t{i}")).collect();
    let friends = demo::friends(&seen);
    assert_eq!(friends.len(), 8);
    assert_eq!(friends[0].name, "UsedHenry06");
    assert_eq!(friends[5].last_online, "t5");
    assert_eq!(demo::tiles(2, 6).len(), 4);
    assert_eq!(demo::game().name, "Jailbreak");
    assert_eq!(demo::servers()[0].label, "23 / 24");
    assert_eq!(demo::sub_places()[2].name, "Jailbreak: Museum");
    assert_eq!(demo::passes()[1].name, "VIP Pass 2");
    assert_eq!(demo::requests().len(), 3);
    assert_eq!(demo::members().len(), 6);
    assert_eq!(demo::marked(true).len(), 2);
    assert_eq!(demo::profile(true).name, "adam");
    assert!(!demo::fake_sessions(i64::MIN + 1_144_800, i64::MAX / 13).is_empty());
    assert!(demo::fake_sessions(i64::MAX, 0).iter().all(|s| s.end < i64::MAX));
    let sessions = demo::fake_sessions(1_700_000_000, 3);
    assert!(!sessions.is_empty());
    assert!(sessions.iter().all(|s| s.start < s.end && s.end <= 1_700_000_000 + 86_400));
}
