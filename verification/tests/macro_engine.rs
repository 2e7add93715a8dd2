//! Macros: keys, steps, presets, the engine and what has the focus.

use rojoin::macroeng::backend::{button_code, open_error, permission_hint};
use rojoin::macroeng::focus::{
    active_window_id, current, current_program, focused_window, is_detectable, looks_like_game,
    Focus,
};
use rojoin::macroeng::hotkeys::{event_of, is_watched, key_from_evdev, key_from_vk, HotkeyEvent, Listener};
use rojoin::macroeng::keys::Key;
use rojoin::macroeng::presets::{all, auto_clicker, bunnyhop, wallhop};
use rojoin::macroeng::process::{
    clamp_freeze, find_game_pids, is_game, ProcessEntry, Suspended, MAX_FREEZE_MS,
};
use rojoin::macroeng::{
    slice, Action, Engine, Error, Holding, Macro, Mode, MouseButton, Player, Step,
};
use std::collections::HashSet;

#[test]
fn permission_hint_matches_availability() {
    for available in [true, false] {
        assert_eq!(available, permission_hint(true, available).is_none());
    }
    assert!(permission_hint(false, false).is_none());
}

#[test]
fn the_hint_names_the_group_and_the_device() {
    let hint = permission_hint(true, false).unwrap();
    assert!(hint.contains("input"));
    assert!(hint.contains("uinput"));
}

#[test]
fn a_device_that_cannot_be_made_says_why() {
    assert!(matches!(open_error(true, false, "denied"), Error::Permission(_)));
    assert!(!open_error(false, true, "odd").message().is_empty());
    assert_ne!(button_code(MouseButton::Left), button_code(MouseButton::Right));
    assert_eq!(Error::Input("x".into()).message(), "input error: x");
    assert_eq!(Error::NoBackend("x".into()).message(), "no input backend available: x");
    assert_eq!(Error::Permission("x".into()).message(), "permission denied: x");
}

#[test]
fn game_windows_are_recognised() {
    assert!(looks_like_game("class: org.vinegarhq.Sober"));
    assert!(looks_like_game(r#"{"class":"sober","title":"Roblox"}"#));
    assert!(looks_like_game(r"C:\Program Files\Roblox\RobloxPlayerBeta.exe"));
}

#[test]
fn other_windows_are_not() {
    assert!(!looks_like_game(r#"{"class":"firefox","title":"GitHub"}"#));
    assert!(!looks_like_game("class: Alacritty"));
    assert!(!looks_like_game(""));
}

#[test]
fn unknown_focus_allows_macros_rather_than_blocking_everything() {
    assert!(Focus::Unknown.allows_macros());
    assert!(Focus::Game.allows_macros());
    assert!(!Focus::Other.allows_macros());
}

#[test]
fn detection_does_not_panic_on_this_machine() {
    assert_eq!(current(None, None, None), Focus::Unknown);
    assert_eq!(current(Some("class: sober".into()), None, None), Focus::Game);
    assert_eq!(current(None, None, Some("firefox".into())), Focus::Other);
    assert_eq!(current_program(Some("C:\\RobloxPlayerBeta.exe".into())), Focus::Game);
    assert_eq!(current_program(None), Focus::Unknown);
    assert!(is_detectable(Focus::Other) && !is_detectable(Focus::Unknown));
    assert_eq!(active_window_id("window id # 0x3a").as_deref(), Some("0x3a"));
    assert!(focused_window("{\"focused\": false}").is_none());
}

#[test]
fn evdev_codes_map_back_to_their_keys() {
    for k in Key::ALL {
        assert_eq!(key_from_evdev(k.evdev_code()), Some(k), "{k:?} did not round-trip");
    }
}

#[test]
fn unknown_codes_map_to_nothing() {
    assert_eq!(key_from_evdev(0), None);
    assert_eq!(key_from_evdev(700), None);
}

#[test]
fn vk_codes_map_back_to_their_keys() {
    for k in Key::ALL {
        assert_eq!(key_from_vk(k.vk_code()), Some(k), "{k:?} did not round-trip");
    }
}

#[test]
fn unknown_vk_codes_map_to_nothing() {
    assert_eq!(key_from_vk(0), None);
    assert_eq!(key_from_vk(0xFFFF), None);
}

#[test]
fn the_listener_ignores_its_own_keyboard() {
    assert!(is_watched(true, "AT keyboard"));
    assert!(!is_watched(true, "RoJoin virtual keyboard"));
    assert!(!is_watched(false, "mouse"));
    assert_eq!(event_of(57, 1), Some(HotkeyEvent::Pressed(Key::Space)));
    assert_eq!(event_of(57, 0), Some(HotkeyEvent::Released(Key::Space)));
    assert_eq!(event_of(57, 2), None);
    assert!(Listener::spawn(0).is_none());
    let mut l = Listener::spawn(2).unwrap();
    l.stop();
    assert!(l.stopped);
}

#[test]
fn labels_round_trip() {
    for k in Key::ALL {
        assert_eq!(Key::from_label(k.label()), Some(k), "{k:?} did not round-trip");
    }
}

#[test]
fn labels_are_unique() {
    let mut seen = HashSet::new();
    for k in Key::ALL {
        assert!(seen.insert(k.label()), "duplicate label {}", k.label());
    }
}

#[test]
fn label_lookup_is_case_insensitive() {
    assert_eq!(Key::from_label("space"), Some(Key::Space));
    assert_eq!(Key::from_label("SPACE"), Some(Key::Space));
    assert_eq!(Key::from_label("nonsense"), None);
}

#[test]
fn evdev_codes_are_unique_and_nonzero_where_expected() {
    let mut seen = HashSet::new();
    for k in Key::ALL {
        let code = k.evdev_code();
        assert!(seen.insert(code), "duplicate evdev code {code} for {k:?}");
    }
    assert_eq!(Key::W.evdev_code(), 17);
    assert_eq!(Key::Space.evdev_code(), 57);
}

fn mac_with(steps: Vec<Step>) -> Macro {
    Macro { id: "m".into(), name: "M".into(), steps, ..Default::default() }
}

#[test]
fn cycle_time_sums_holds_and_waits() {
    let m = mac_with(vec![
        Step::Tap { key: Key::Space, hold_ms: 30 },
        Step::Wait { ms: 70 },
        Step::KeyDown { key: Key::W },
    ]);
    assert_eq!(m.cycle_ms(), 100);
}

#[test]
fn held_keys_tracks_unreleased_presses() {
    let m = mac_with(vec![
        Step::KeyDown { key: Key::W },
        Step::KeyDown { key: Key::Space },
        Step::KeyUp { key: Key::Space },
    ]);
    assert_eq!(m.held_keys(), vec![Key::W]);
}

#[test]
fn a_balanced_macro_holds_nothing() {
    let m = mac_with(vec![
        Step::KeyDown { key: Key::W },
        Step::Wait { ms: 10 },
        Step::KeyUp { key: Key::W },
    ]);
    assert!(m.held_keys().is_empty());
}

#[test]
fn duplicate_keydowns_are_not_double_counted() {
    let m = mac_with(vec![Step::KeyDown { key: Key::W }, Step::KeyDown { key: Key::W }]);
    assert_eq!(m.held_keys(), vec![Key::W]);
}

#[test]
fn held_buttons_tracked_the_same_way() {
    let m = mac_with(vec![
        Step::MouseDown { button: MouseButton::Left },
        Step::MouseDown { button: MouseButton::Right },
        Step::MouseUp { button: MouseButton::Left },
    ]);
    assert_eq!(m.held_buttons(), vec![MouseButton::Right]);
}

#[test]
fn a_freeze_counts_as_doing_something() {
    let m = mac_with(vec![Step::Freeze { ms: 200 }]);
    assert!(m.is_effective());
    assert_eq!(m.cycle_ms(), 200);
}

#[test]
fn a_macro_of_only_waits_is_not_effective() {
    let m = mac_with(vec![Step::Wait { ms: 100 }]);
    assert!(!m.is_effective());

    let m = mac_with(vec![Step::Tap { key: Key::Space, hold_ms: 10 }]);
    assert!(m.is_effective());
}

#[test]
fn a_wait_is_cut_into_short_slices() {
    assert_eq!(slice(5_000), 5);
    assert_eq!(slice(3), 3);
    assert_eq!(slice(0), 0);
}

fn actions(m: &Macro, stop_after: usize) -> Vec<Action> {
    let mut p = Player::new();
    let mut out = Vec::new();
    for i in 0..50 {
        let a = p.play(m, i >= stop_after, true);
        let over = matches!(a, Action::Finish);
        out.push(a);
        if over {
            break;
        }
    }
    out
}

#[test]
fn a_pass_presses_holds_and_releases() {
    let m = mac_with(vec![Step::Tap { key: Key::Space, hold_ms: 20 }]);
    let a = actions(&m, 100);
    assert!(matches!(a[0], Action::KeyDown { key: Key::Space }));
    assert!(matches!(a[1], Action::Sleep { ms: 20 }));
    assert!(matches!(a[2], Action::KeyUp { key: Key::Space }));
}

#[test]
fn a_tap_is_released_even_when_stopped_in_the_middle() {
    let m = mac_with(vec![
        Step::Tap { key: Key::Space, hold_ms: 20 },
        Step::Tap { key: Key::W, hold_ms: 20 },
    ]);
    let a = actions(&m, 1);
    assert!(a.iter().any(|x| matches!(x, Action::KeyUp { key: Key::Space })));
    assert!(!a.iter().any(|x| matches!(x, Action::KeyDown { key: Key::W })));
    assert!(matches!(a.last(), Some(Action::Finish)));
}

#[test]
fn the_engine_runs_each_macro_once_at_a_time() {
    let mut e = Engine::new();
    let m = mac_with(vec![Step::Tap { key: Key::Space, hold_ms: 10 }]);
    assert!(e.start(&m));
    assert!(!e.start(&m));
    assert!(e.is_running("m"));
    assert_eq!(e.active_count(), 1);
    assert!(!e.should_stop("m"));
    e.stop("m");
    assert!(e.should_stop("m"));
    e.finished("m");
    assert!(!e.is_running("m"));
    assert!(e.should_stop("m"));
    let mut off = m.clone();
    off.enabled = false;
    assert!(!e.start(&off));
    assert!(!e.start(&mac_with(vec![Step::Wait { ms: 1 }])));
    assert!(e.start(&m));
    e.stop_all();
    assert!(e.should_stop("m"));
    assert_eq!(m.mode, Mode::Toggle);
}

#[test]
fn every_preset_is_effective() {
    for m in all() {
        assert!(m.is_effective(), "{} does nothing", m.name);
    }
}

#[test]
fn preset_ids_and_hotkeys_are_unique() {
    let mut ids = HashSet::new();
    let mut keys: Vec<Key> = Vec::new();
    for m in all() {
        assert!(ids.insert(m.id.clone()), "duplicate id {}", m.id);
        if let Some(k) = m.hotkey {
            assert!(!keys.contains(&k), "duplicate hotkey {:?} on {}", k, m.name);
            keys.push(k);
        }
    }
}

#[test]
fn presets_that_hold_movement_keys_are_tracked_for_release() {
    assert_eq!(bunnyhop().held_keys(), vec![Key::W]);
    assert_eq!(wallhop().held_keys(), vec![Key::W]);
}

#[test]
fn click_preset_leaves_nothing_held() {
    assert!(auto_clicker().held_buttons().is_empty());
}

#[test]
fn every_preset_has_a_nonzero_cycle() {
    for m in all() {
        assert!(m.cycle_ms() > 0, "{} has a zero-length cycle", m.name);
    }
}

#[test]
fn freeze_duration_is_clamped_to_something_survivable() {
    assert_eq!(clamp_freeze(0), 1);
    assert_eq!(clamp_freeze(250), 250);
    assert_eq!(clamp_freeze(60_000), MAX_FREEZE_MS);
}

#[test]
fn game_process_names_are_recognised_on_both_platforms() {
    assert!(is_game("sober"));
    assert!(is_game("sober\n"));
    assert!(is_game("RobloxPlayerBeta.exe"));
    assert!(is_game("RobloxPlayerBeta"));
    assert!(!is_game("bwrap"));
    assert!(!is_game("rojoin-v4"));
    assert!(!is_game(""));
}

fn entry(dir: &str, comm: Option<&str>) -> ProcessEntry {
    ProcessEntry { dir: dir.into(), comm: comm.map(|c| c.to_string()) }
}

#[test]
fn scanning_processes_does_not_bail_early() {
    let entries = vec![
        entry("self", Some("sober")),
        entry("12", None),
        entry("13", Some("bash\n")),
        entry("14", Some("sober\n")),
        entry("15", Some("RobloxPlayerBeta.exe")),
    ];
    assert_eq!(find_game_pids(&entries), vec![14, 15]);
}

#[test]
fn resume_all_is_safe_when_nothing_is_suspended() {
    let mut s = Suspended::new();
    assert!(s.resume_all().is_empty());
    assert!(!s.anything_suspended());
}

#[test]
fn suspending_with_no_game_reports_that_clearly() {
    let mut s = Suspended::new();
    let err = s.suspend_game(&vec![], &vec![]).unwrap_err();
    assert!(err.message().contains("no running game"));
}

#[test]
fn whatever_was_suspended_is_resumed() {
    let mut s = Suspended::new();
    assert_eq!(s.suspend_game(&vec![4, 5, 6], &vec![true, false, true]).unwrap(), 2);
    assert!(s.anything_suspended());
    assert_eq!(s.resume_all(), vec![4, 6]);
    assert!(!s.anything_suspended());
    assert!(s.suspend_game(&vec![4], &vec![false]).is_err());
}

#[test]
fn a_macro_stopped_in_a_wait_lets_go_of_what_it_pressed() {
    let m = mac_with(vec![
        Step::KeyDown { key: Key::W },
        Step::MouseDown { button: MouseButton::Left },
        Step::Wait { ms: 10 },
        Step::KeyUp { key: Key::W },
        Step::MouseUp { button: MouseButton::Left },
    ]);
    let mut p = Player::new();
    let mut h = Holding::new();
    for i in 0..4 {
        h.note(p.play(&m, i == 3, true));
    }
    let (keys, buttons) = h.release(&m);
    assert_eq!(keys, vec![Key::W]);
    assert_eq!(buttons, vec![MouseButton::Left]);
}

#[test]
fn a_macro_that_ran_out_releases_what_a_pass_leaves_held() {
    let m = mac_with(vec![Step::KeyDown { key: Key::W }, Step::Tap { key: Key::A, hold_ms: 1 }]);
    let mut h = Holding::new();
    for a in actions(&m, 100).into_iter().take(4) {
        h.note(a);
    }
    assert_eq!(h.keys, vec![Key::W]);
    assert_eq!(h.release(&m).0, vec![Key::W]);
    assert_eq!(Holding::new().release(&m).0, vec![Key::W]);
}
