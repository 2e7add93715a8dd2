//! What the program leaves on the machine: entries, shortcuts, sessions, links,
//! pictures, updates and notices.

use rojoin::desktop::autostart;
use rojoin::desktop::fflags::{
    documented, is_fresh, is_whole, note_of, notes, parse, LEAST_BYTES, STALE_AFTER,
};
use rojoin::desktop::images::{arrived, decode, Cache, Decoded, Inflight, Load, CAPACITY};
use rojoin::desktop::linkhandler::{
    desktop_path, handler_command, handler_entry, is_registered, is_registered_command, parse_uri,
};
use rojoin::desktop::notify::{
    announce_playing, due_games, find_votes, sweep_game_stats, sweep_playtime, sweep_presence,
    sweep_requests, toast_script, tracked_ids, watched_games, watched_ids, xml_escape, MAX_TRACKED,
};
use rojoin::desktop::secrets::{fallback_name, load, store, Stored};
use rojoin::desktop::shortcut::{
    create, file_name, icon_name, is_icon, link_name, link_script, list, name_of, place_id_of,
    safe_stem, DesktopFile,
};
use rojoin::desktop::tray::{chosen, image, spawn, Action, SIDE};
use rojoin::desktop::updater::{
    check, install, is_archive, is_newer, looks_executable, version_numbers, wanted_asset, Asset,
    Release, Status, CURRENT,
};
use rojoin::launcher::JoinRequest;
use rojoin::roblox::friends::{Presence, PresenceKind};
use rojoin::roblox::models::{GameDetail, User, Votes};
use std::collections::HashMap;
use std::sync::Arc;

#[test]
fn hidden_is_opt_in_per_launch() {
    assert!(!autostart::started_hidden(&vec!["rojoin".into()]));
    assert!(autostart::started_hidden(&vec!["rojoin".into(), "--hidden".into()]));
}

#[test]
fn the_entry_lands_in_the_xdg_autostart_directory() {
    let path = autostart::desktop_file_in("/tmp/cfg");
    assert_eq!(path, "/tmp/cfg/autostart/rojoin-v4.desktop");
}

#[test]
fn the_real_path_follows_xdg_config_home() {
    // Only asserts the shape, without touching the environment.
    let p = autostart::desktop_file(None, Some("/home/a".into())).unwrap();
    let p = std::path::Path::new(&p);
    assert!(p.parent().unwrap().ends_with("autostart"));
    assert_eq!(p.file_name().unwrap(), "rojoin-v4.desktop");

    let p = autostart::desktop_file(Some("/cfg".into()), Some("/home/a".into())).unwrap();
    assert_eq!(p, "/cfg/autostart/rojoin-v4.desktop");
    assert!(autostart::desktop_file(None, None).is_none());
}

#[test]
fn starting_with_the_session_writes_or_removes_one_entry() {
    let on = autostart::set(true, Some("/e".into()), Some("/opt/rojoin".into())).unwrap();
    match on {
        autostart::Change::Write { path, contents } => {
            assert_eq!(path, "/e");
            assert!(contents.contains("Exec=/opt/rojoin --hidden\n"));
            assert!(contents.starts_with("[Desktop Entry]\n"));
        }
        other => panic!("expected a write, got {other:?}"),
    }
    let off = autostart::set(false, Some("/e".into()), None).unwrap();
    assert!(matches!(off, autostart::Change::Remove(p) if p == "/e"));
    assert!(autostart::set(true, None, Some("/x".into())).is_err());
    assert!(autostart::set(true, Some("/e".into()), None).is_err());
    assert!(autostart::is_enabled(Some(true)));
    assert!(!autostart::is_enabled(None));
    assert_eq!(autostart::run_value("C:\\a b.exe"), "\"C:\\a b.exe\" --hidden");
}

#[test]
fn an_appimage_stands_for_the_program_only_where_it_is_a_file() {
    let run = || Some("/tmp/.mount/rojoin".to_string());
    assert_eq!(
        autostart::exe_path(Some("/a.AppImage".into()), true, run()).unwrap(),
        "/a.AppImage"
    );
    assert_eq!(autostart::exe_path(Some("/gone".into()), false, run()), run());
    assert_eq!(autostart::exe_path(None, false, run()), run());
}

#[test]
fn parses_the_trackers_flat_shape_and_types_values_for_display() {
    let json = r#"{
            "FFlagSomething": true,
            "FIntCameraMaxZoomDistance": 240,
            "FStringThing": "hello",
            "DFFlagQuoted": "false"
        }"#;
    let flags = parse(json);
    assert_eq!(flags.len(), 4);

    let by = |n: &str| flags.iter().find(|f| f.name == n).unwrap().clone();
    assert_eq!(by("FFlagSomething").default, "true");
    assert_eq!(by("FIntCameraMaxZoomDistance").default, "240");
    // A string value must not gain JSON quotes when shown.
    assert_eq!(by("FStringThing").default, "hello");
    assert_eq!(by("DFFlagQuoted").default, "false");
}

#[test]
fn documented_flags_sort_ahead_of_the_undocumented_mass() {
    let json = r#"{"AaaUnknown": 1, "FIntCameraMaxZoomDistance": 400}"#;
    let flags = parse(json);
    assert_eq!(flags[0].name, "FIntCameraMaxZoomDistance");
    assert!(flags[0].note.is_some());
    assert!(flags[1].note.is_none());
}

#[test]
fn a_broken_download_yields_nothing_rather_than_panicking() {
    assert!(parse("not json at all").is_empty());
    assert!(parse("").is_empty());
}

#[test]
fn every_note_names_a_plausible_fvariable() {
    for name in notes() {
        assert!(
            name.starts_with('F') || name.starts_with("DF") || name.starts_with("SF"),
            "{name} does not look like an FVariable"
        );
    }
}

#[test]
fn documented_flags_stand_alone_without_a_download() {
    // The override flags are not in the published catalogue, so this list
    // has to be usable with no network at all.
    let docs = documented();
    assert!(docs.len() >= 8);
    assert!(docs.iter().all(|f| f.note.is_some()));
    assert!(docs.iter().any(|f| f.name == "DFIntTextureQualityOverride"));
    for f in &docs {
        assert_eq!(note_of(&f.name), f.note);
    }
}

#[test]
fn a_catalogue_is_kept_for_three_days_and_only_when_whole() {
    assert!(is_fresh(Some(STALE_AFTER - 1)));
    assert!(!is_fresh(Some(STALE_AFTER)));
    assert!(!is_fresh(None));
    assert!(!is_whole(LEAST_BYTES));
    assert!(is_whole(LEAST_BYTES + 1));
}

fn pixel() -> Arc<Decoded> {
    Arc::new(Decoded { width: 1, height: 1, rgba: vec![0; 4] })
}

#[test]
fn cache_evicts_oldest_beyond_capacity() {
    let mut c = Cache::new();
    for i in 0..(CAPACITY + 10) {
        c.insert(format!("u{i}"), pixel());
    }

    assert_eq!(c.len(), CAPACITY);
    assert!(c.get("u0").is_none(), "oldest entry should have been evicted");
    assert!(c.get(&format!("u{}", CAPACITY + 9)).is_some());
}

#[test]
fn reinserting_the_same_url_does_not_grow_the_order_list() {
    let mut c = Cache::new();
    for _ in 0..5 {
        c.insert("same".into(), pixel());
    }
    assert_eq!(c.entries.len(), 1);
    assert_eq!(c.len(), 1);
    c.clear();
    assert_eq!(c.len(), 0);
}

#[test]
fn a_cache_keeps_as_many_pictures_as_was_chosen() {
    let mut c = Cache::new();
    assert_eq!(c.capacity, CAPACITY);
    for i in 0..5 {
        c.insert(format!("u{i}"), pixel());
    }
    c.set_capacity(3);
    assert_eq!(c.len(), 3);
    assert!(c.get("u1").is_none() && c.get("u2").is_some());
    c.insert("u5".into(), pixel());
    assert!(c.get("u2").is_none() && c.get("u5").is_some());
    c.set_capacity(800);
    assert_eq!((c.len(), c.capacity), (3, 800));
}

#[test]
fn a_new_picture_replaces_the_one_kept_under_its_url() {
    let mut c = Cache::new();
    c.insert("a".into(), pixel());
    c.insert("a".into(), Arc::new(Decoded { width: 2, height: 1, rgba: vec![0; 8] }));
    assert_eq!(c.get("a").unwrap().width, 2);
}

#[test]
fn waiters_queue_rather_than_replace() {
    let mut inflight = Inflight::new();
    assert_eq!(inflight.load(false, "u", 1), Load::Fetch);
    assert_eq!(inflight.load(false, "u", 2), Load::Wait);
    assert_eq!(inflight.load(true, "u", 3), Load::Show);
    assert_eq!(inflight.load(false, "", 4), Load::Ignore);
    assert_eq!(inflight.done("u"), vec![1, 2]);
    assert_eq!(inflight.done("u"), Vec::<u64>::new());
    assert_eq!(inflight.load(false, "u", 5), Load::Fetch);
}

#[test]
fn a_fetch_that_ends_leaves_the_others_alone() {
    let mut inflight = Inflight::new();
    assert_eq!(inflight.load(false, "a", 1), Load::Fetch);
    assert_eq!(inflight.load(false, "b", 2), Load::Fetch);
    assert_eq!(inflight.load(false, "c", 3), Load::Fetch);
    assert_eq!(inflight.load(false, "a", 4), Load::Wait);
    assert_eq!(inflight.done("b"), vec![2]);
    assert_eq!(inflight.load(false, "c", 5), Load::Wait);
    assert_eq!(inflight.done("a"), vec![1, 4]);
    assert_eq!(inflight.done("c"), vec![3, 5]);
}

#[test]
fn a_picture_that_arrives_is_kept_and_shown_to_all_who_waited() {
    let mut cache = Cache::new();
    let mut inflight = Inflight::new();
    inflight.load(false, "u", 1);
    inflight.load(false, "u", 2);
    inflight.load(false, "other", 3);
    assert_eq!(arrived(&mut cache, &mut inflight, "u", Some(pixel())), vec![1, 2]);
    assert_eq!(cache.get("u").unwrap().width, 1);
    assert!(arrived(&mut cache, &mut inflight, "other", None).is_empty());
    assert!(cache.get("other").is_none());
    assert_eq!(inflight.load(false, "other", 4), Load::Fetch);
}

#[test]
fn decoding_garbage_yields_none_rather_than_panicking() {
    assert!(decode(b"definitely not a png").is_none());
    assert!(decode(&[]).is_none());
}

/// Two pixels in one row: an opaque red one and a half clear blue one.
const TWO_PIXELS: [u8; 71] = [
    0x89, 0x50, 0x4e, 0x47, 0x0d, 0x0a, 0x1a, 0x0a, 0x00, 0x00, 0x00, 0x0d, 0x49, 0x48, 0x44, 0x52,
    0x00, 0x00, 0x00, 0x02, 0x00, 0x00, 0x00, 0x01, 0x08, 0x06, 0x00, 0x00, 0x00, 0xf4, 0x22, 0x7f,
    0x8a, 0x00, 0x00, 0x00, 0x0e, 0x49, 0x44, 0x41, 0x54, 0x78, 0x9c, 0x63, 0xf8, 0xcf, 0xc0, 0x00,
    0x42, 0x0d, 0x00, 0x0f, 0x7a, 0x03, 0x7e, 0x77, 0xe9, 0x7f, 0x97, 0x00, 0x00, 0x00, 0x00, 0x49,
    0x45, 0x4e, 0x44, 0xae, 0x42, 0x60, 0x82,
];

#[test]
fn decoding_a_picture_yields_its_pixels() {
    let d = decode(&TWO_PIXELS).unwrap();
    assert_eq!((d.width, d.height), (2, 1));
    assert_eq!(d.rgba, vec![255, 0, 0, 255, 0, 0, 255, 128]);
    assert!(decode(&TWO_PIXELS[..40]).is_none());
}

#[test]
fn parses_a_plain_place_link() {
    assert_eq!(
        parse_uri("roblox://experiences/start?placeId=606849621"),
        Some((606849621, None))
    );
}

#[test]
fn parses_a_server_link() {
    let (place, instance) =
        parse_uri("roblox://experiences/start?placeId=1&gameInstanceId=abc-123").unwrap();
    assert_eq!(place, 1);
    assert_eq!(instance.as_deref(), Some("abc-123"));
}

#[test]
fn ignores_unrelated_uris() {
    assert!(parse_uri("https://roblox.com/games/1").is_none());
    assert!(parse_uri("").is_none());
}

#[test]
fn a_link_without_a_place_is_not_launchable() {
    assert!(parse_uri("roblox://experiences/start?foo=bar").is_none());
}

#[test]
fn an_empty_instance_id_is_treated_as_absent() {
    let (_, instance) = parse_uri("roblox://start?placeId=5&gameInstanceId=").unwrap();
    assert!(instance.is_none());
}

#[test]
fn a_written_link_reads_back() {
    let mut req = JoinRequest::place(77);
    req.job_id = Some("abc-123".into());
    assert_eq!(parse_uri(&req.roblox_uri()), Some((77, Some("abc-123".into()))));
    assert_eq!(parse_uri(&JoinRequest::place(5).roblox_uri()), Some((5, None)));
}

#[test]
fn the_link_handler_is_an_entry_of_its_own() {
    assert_eq!(
        desktop_path("/home/a"),
        "/home/a/.local/share/applications/rojoin-v4-roblox.desktop"
    );
    let e = handler_entry("/opt/rojoin");
    assert!(e.contains("Exec=\"/opt/rojoin\" %u\n"));
    assert!(e.contains("MimeType=x-scheme-handler/roblox;"));
    assert_eq!(handler_command("C:\\r.exe"), "\"C:\\r.exe\" \"%1\"");
    assert!(is_registered(Some(true)) && !is_registered(None));
    assert!(is_registered_command(true, "C:\\RoJoin\\app.exe"));
    assert!(!is_registered_command(true, "other.exe"));
    assert!(!is_registered_command(false, "rojoin"));
}

#[test]
fn fallback_path_strips_anything_path_shaped() {
    // A malformed id must not be able to escape the config directory.
    let name = fallback_name("../../etc/passwd");
    assert_eq!(name, "session-etcpasswd");
    assert!(!name.contains('/'));
    assert!(!name.contains(".."));
}

#[test]
fn normal_ids_pass_through() {
    assert_eq!(fallback_name("1234567890"), "session-1234567890");
}

#[test]
fn the_keyring_comes_before_the_file() {
    assert_eq!(load(Some("k".into()), Some("f".into())), Some("k".into()));
    assert_eq!(load(Some("".into()), Some(" f\n".into())), Some("f".into()));
    assert_eq!(load(None, Some("  ".into())), None);
    assert_eq!(load(None, None), None);
    assert_eq!(store(true), Stored::RemoveFile);
    assert_eq!(store(false), Stored::WriteFile);
}

#[test]
fn names_are_reduced_to_something_filesystem_safe() {
    assert_eq!(safe_stem("Jailbreak"), "Jailbreak");
    assert_eq!(safe_stem("Tower Defense Simulator"), "Tower-Defense-Simulator");
    assert_eq!(safe_stem("[NEW!] Doors 🚪"), "NEW-Doors");
}

#[test]
fn a_hostile_name_cannot_escape_the_directory() {
    // Game names come from elsewhere.
    let stem = safe_stem("../../.bashrc");
    assert!(!stem.contains('/'));
    assert!(!stem.contains(".."));
}

#[test]
fn a_nameless_game_still_gets_a_filename() {
    assert_eq!(safe_stem(""), "game");
    assert_eq!(safe_stem("///"), "game");
}

#[test]
fn long_names_are_truncated() {
    assert!(safe_stem(&"a".repeat(500)).len() <= 48);
}

#[test]
fn dashes_in_a_file_name_stand_alone_and_never_first() {
    assert_eq!(safe_stem("--[ UPD ] -- Doors!!"), "UPD-Doors");
    assert_eq!(safe_stem("..."), "game");
}

#[test]
fn reads_the_place_id_back_out_of_an_entry_we_wrote() {
    let entry = "[Desktop Entry]\n\
                     Type=Application\n\
                     Name=Tower Defense Simulator\n\
                     Exec=\"/opt/rojoin\" roblox://experiences/start?placeId=3260590327\n";
    assert_eq!(place_id_of(entry), Some(3_260_590_327));
    assert_eq!(name_of(entry).as_deref(), Some("Tower Defense Simulator"));
}

#[test]
fn someone_elses_desktop_file_is_not_claimed_as_ours() {
    let firefox = "[Desktop Entry]\nType=Application\nName=Firefox\nExec=/usr/bin/firefox\n";
    assert_eq!(place_id_of(firefox), None);
}

#[test]
fn an_entry_that_only_mentions_a_place_is_not_claimed_as_ours() {
    let other = "[Desktop Entry]\nName=Other\nExec=/usr/bin/other --placeId=5\n";
    assert_eq!(place_id_of(other), None);
    let odd = "[Desktop Entry]\nExec=\"/opt/placeId=7/rojoin\" \
               roblox://experiences/start?placeId=42\n";
    assert_eq!(place_id_of(odd), Some(42));
    let inside = create("/opt/placeId=7/rojoin", "Doors", 42, None);
    assert_eq!(place_id_of(&inside), Some(42));
}

#[test]
fn a_truncated_download_is_not_written_as_an_icon() {
    assert!(!is_icon(b"nope".len()));
    assert!(!is_icon(0));
    assert!(!is_icon(99));
    assert!(is_icon(100));
}

#[test]
fn a_written_shortcut_is_recognised() {
    let text = create("/opt/rojoin", "Doors", 42, Some("/i/42.png".into()));
    assert_eq!(place_id_of(&text), Some(42));
    assert_eq!(name_of(&text).as_deref(), Some("Doors"));
    assert!(text.contains("Icon=/i/42.png\n"));
    assert!(!create("/opt/rojoin", "Doors", 42, None).contains("Icon="));
    assert_eq!(icon_name(42), "42.png");
    assert_eq!(file_name("Doors!", 42), "Doors-42.desktop");
    assert_eq!(link_name("Doors!"), "Doors.lnk");
    assert!(link_script("C:\\d.lnk", "C:\\r.exe", 42, None).contains("placeId=42"));
}

#[test]
fn only_our_own_shortcuts_are_listed_by_name() {
    let ours = |path: &str, name: &str, id: i64| DesktopFile {
        path: path.into(),
        text: create("/opt/rojoin", name, id, None),
    };
    let files = vec![
        ours("/d/z.desktop", "Zeta", 1),
        DesktopFile { path: "/d/f.desktop".into(), text: "Name=Firefox\nExec=firefox\n".into() },
        ours("/d/a.desktop", "alpha", 2),
    ];
    let out = list(&files);
    assert_eq!(out.len(), 2);
    assert_eq!((out[0].name.as_str(), out[0].place_id), ("alpha", 2));
    assert_eq!((out[1].name.as_str(), out[1].path.as_str()), ("Zeta", "/d/z.desktop"));
}

#[test]
fn the_generated_icon_is_the_size_it_claims() {
    const N: usize = 32;
    assert_eq!(N * N * 4, 4096);
    let rgba = image();
    assert_eq!(rgba.len(), 4096);
    assert_eq!(SIDE as usize, N);
    assert_eq!(&rgba[0..4], &[0, 0, 0, 0]);
    let ring = (4 * 32 + 4) * 4;
    assert_eq!(&rgba[ring..ring + 4], &[0x4c, 0x8d, 0xff, 0xff]);
    let middle = (16 * 32 + 16) * 4;
    assert_eq!(&rgba[middle..middle + 4], &[0x0b, 0x0b, 0x0d, 0xff]);
}

#[test]
fn actions_are_distinct() {
    assert_ne!(Action::Show, Action::Quit);
    assert_eq!(chosen(true, false), Some(Action::Show));
    assert_eq!(chosen(false, true), Some(Action::Quit));
    assert_eq!(chosen(false, false), None);
    assert!(spawn(true).unwrap().live);
    assert!(spawn(false).is_none());
}

#[test]
fn numeric_components_compare_numerically() {
    assert!(is_newer("0.10.0", "0.9.0"));
    assert!(!is_newer("0.9.0", "0.10.0"));
    assert!(!is_newer("1.2.3", "1.2.3"));
    assert!(is_newer("1.1", "1.0.9"));
    assert!(is_newer("1.2.0-beta1", "1.1.0"));
    assert!(!is_newer("garbage", "0.1.0"));
}

#[test]
fn versions_split_at_dots_and_dashes() {
    assert_eq!(version_numbers("1.2.0-beta1"), vec![1, 2, 0, 0]);
    assert_eq!(version_numbers("99999999999999999999999.5"), vec![0, 5]);
}

#[test]
fn an_unconfigured_build_says_so_instead_of_failing() {
    let s = Status::NotConfigured;
    assert!(s.message().contains("not set up"));
    assert!(!matches!(s, Status::Available { .. }));
}

#[test]
fn only_an_available_update_carries_somewhere_to_download_from() {
    assert!(!matches!(Status::UpToDate, Status::Available { .. }));
    let s = Status::Available { version: "9.9.9".into(), url: "https://example/x".into() };
    let Status::Available { url, .. } = &s else { panic!("expected Available") };
    assert!(url.starts_with("https://"));
    assert_eq!(s.message(), "Version 9.9.9 is available.");
    assert!(Status::UpToDate.message().contains(CURRENT));
}

#[test]
fn the_asset_for_this_platform_is_chosen() {
    let assets = vec![
        Asset { name: "RoJoin.exe".into(), browser_download_url: "w".into() },
        Asset { name: "RoJoin-windows-x64.zip".into(), browser_download_url: "z".into() },
        Asset { name: "RoJoin-x86_64.AppImage".into(), browser_download_url: "l".into() },
    ];
    assert_eq!(wanted_asset(&assets, true).unwrap().browser_download_url, "w");
    assert_eq!(wanted_asset(&assets, false).unwrap().browser_download_url, "l");
}

#[test]
fn a_zip_is_never_a_candidate() {
    // Installing writes the payload straight over the running binary, so an
    // archive here means an install that cannot start again.
    let assets = vec![Asset {
        name: "RoJoin-windows-x64.zip".into(),
        browser_download_url: "z".into(),
    }];
    assert!(wanted_asset(&assets, true).is_none());
    assert!(wanted_asset(&assets, false).is_none());
    assert!(is_archive("RoJoin-windows-x64.zip"));
    assert!(!is_archive("RoJoin.exe"));
}

#[test]
fn only_a_real_executable_is_allowed_over_the_binary() {
    let zip = b"PK\x03\x04and then some";
    let html = b"<!doctype html><title>404</title>";
    for windows in [true, false] {
        assert!(!looks_executable(zip, windows));
        assert!(!looks_executable(html, windows));
        assert!(!looks_executable(b"", windows));
    }

    assert!(looks_executable(b"MZ\x90\x00rest", true));
    assert!(looks_executable(b"\x7fELFrest", false));
    assert!(!looks_executable(b"MZ\x90\x00rest", false));
    assert!(!looks_executable(b"\x7fELFrest", true));
}

#[test]
fn a_release_without_an_asset_for_us_is_not_offered() {
    let assets = vec![Asset { name: "source.tar.gz".into(), browser_download_url: "s".into() }];
    assert!(wanted_asset(&assets, true).is_none());
    assert!(wanted_asset(&assets, false).is_none());
    let release = Release { tag_name: "v9.0.0".into(), assets };
    assert_eq!(check(Some(release), false), Status::UpToDate);
}

#[test]
fn a_newer_release_with_a_file_for_us_is_offered() {
    let release = |tag: &str| Release {
        tag_name: tag.into(),
        assets: vec![Asset {
            name: "RoJoin-x86_64.AppImage".into(),
            browser_download_url: "l".into(),
        }],
    };
    assert_eq!(
        check(Some(release("v9.1.0")), false),
        Status::Available { version: "9.1.0".into(), url: "l".into() }
    );
    assert_eq!(check(Some(release(CURRENT)), false), Status::UpToDate);
    assert_eq!(check(Some(release("v9.1.0")), true), Status::UpToDate);
    assert_eq!(check(None, false), Status::UpToDate);
}

#[test]
fn a_download_too_small_or_of_another_kind_is_not_installed() {
    let mut program = vec![0u8; 1_000_000];
    program[0] = 0x7f;
    program[1] = b'E';
    program[2] = b'L';
    program[3] = b'F';
    assert!(install(&program, false).is_ok());
    assert!(install(&program, true).is_err());
    assert!(install(&program[..999_999], false).is_err());
}

#[test]
fn toast_text_is_xml_escaped() {
    assert_eq!(xml_escape("Bob's & Friends <3"), "Bob&apos;s &amp; Friends &lt;3");
    assert_eq!(xml_escape(r#"say "hi""#), "say &quot;hi&quot;");
    assert_eq!(xml_escape("plain"), "plain");
    assert!(toast_script("A & B", "<x>").contains("A &amp; B"));
    assert!(toast_script("A & B", "<x>").contains("&lt;x&gt;"));
}

fn presence(user_id: i64, kind: PresenceKind) -> Presence {
    Presence {
        user_id,
        kind,
        location: "Doors".into(),
        place_id: Some(11),
        root_place_id: Some(10),
        game_id: None,
        universe_id: Some(9),
        last_online: None,
    }
}

#[test]
fn a_friend_is_announced_when_they_start_playing_and_not_before() {
    let mut seen: HashMap<i64, bool> = HashMap::new();
    let playing = vec![presence(1, PresenceKind::InGame), presence(2, PresenceKind::Online)];
    assert!(sweep_presence(&mut seen, &playing).is_empty());
    assert!(sweep_presence(&mut seen, &playing).is_empty());
    let both = vec![presence(1, PresenceKind::InGame), presence(2, PresenceKind::InGame)];
    assert_eq!(sweep_presence(&mut seen, &both), vec![1]);
    assert!(sweep_presence(&mut seen, &both).is_empty());
    let mut u = User::default();
    u.id = 2;
    u.display_name = "Mia".into();
    let news = announce_playing(&vec![u], &both[1]);
    assert!(news.contains("Mia") && news.contains("Doors"), "{news}");
}

#[test]
fn new_requests_are_counted_from_the_second_look_on() {
    let mut before = None;
    assert!(sweep_requests(&mut before, 3).is_none());
    assert!(sweep_requests(&mut before, 3).is_none());
    assert!(sweep_requests(&mut before, 5).unwrap().contains('2'));
    assert!(sweep_requests(&mut before, 4).is_none());
    assert_eq!(before, Some(4));
}

#[test]
fn own_play_is_only_recorded_while_the_client_runs() {
    let p = presence(1, PresenceKind::InGame);
    assert!(sweep_playtime(&p, 1, false, 0).is_none());
    let mine = sweep_playtime(&p, 1, true, 0).unwrap();
    assert_eq!((mine.friend, mine.universe_id, mine.root_place_id), (None, 9, 10));
    let theirs = sweep_playtime(&p, 2, false, 0).unwrap();
    assert_eq!(theirs.friend, Some(1));
    assert!(sweep_playtime(&presence(1, PresenceKind::Online), 1, true, 0).is_none());
    assert_eq!(tracked_ids(7, &vec![1, 2], false), vec![7]);
    assert_eq!(tracked_ids(7, &vec![1, 2], true), vec![7, 1, 2]);
}

#[test]
fn watched_games_are_favourites_first_and_never_too_many() {
    assert_eq!(watched_ids(&vec!["5".into(), "x".into(), "7".into()]), vec![5, 7]);
    let games = watched_games(&vec![(1, 10), (2, 20)], &vec![(2, 21), (4, 40)]);
    assert_eq!(games, vec![(1, 10), (2, 20), (4, 40)]);
    let many: Vec<(i64, i64)> = (0..40).map(|i| (i, i)).collect();
    assert_eq!(watched_games(&many, &Vec::new()).len(), MAX_TRACKED);
    assert_eq!(
        due_games(&vec![(1, 10), (2, 20)], &vec![None, Some(100)], 150, 60),
        vec![(1, 10)]
    );
    assert_eq!(
        due_games(&vec![(1, 10), (2, 20)], &vec![None, Some(100)], 160, 60),
        vec![(1, 10), (2, 20)]
    );
}

#[test]
fn a_look_at_a_game_becomes_one_sample() {
    let d = GameDetail { id: 3, root_place_id: 30, playing: 12, visits: 99, ..Default::default() };
    let votes = vec![Votes { id: 3, up_votes: 4, down_votes: 1 }];
    let (universe, s) = sweep_game_stats(&d, &votes, 1000).unwrap();
    assert_eq!(universe, 30);
    assert_eq!((s.at, s.universe_id, s.playing, s.visits), (1000, 3, 12, 99));
    assert_eq!((s.upvotes, s.downvotes), (4, 1));
    assert!(find_votes(&votes, 4).is_none());
    assert_eq!(find_votes(&votes, 3).unwrap().up_votes, 4);
}

#[test]
fn there_are_four_bytes_to_each_pixel() {
    // A picture of one grey pixel, without transparency.
    let png: [u8; 67] = [
        0x89, 0x50, 0x4e, 0x47, 0x0d, 0x0a, 0x1a, 0x0a, 0x00, 0x00, 0x00, 0x0d, 0x49, 0x48, 0x44,
        0x52, 0x00, 0x00, 0x00, 0x01, 0x00, 0x00, 0x00, 0x01, 0x08, 0x00, 0x00, 0x00, 0x00, 0x3a,
        0x7e, 0x9b, 0x55, 0x00, 0x00, 0x00, 0x0a, 0x49, 0x44, 0x41, 0x54, 0x78, 0x9c, 0x63, 0x68,
        0x00, 0x00, 0x00, 0x82, 0x00, 0x81, 0x77, 0xcd, 0x72, 0xb6, 0x00, 0x00, 0x00, 0x00, 0x49,
        0x45, 0x4e, 0x44, 0xae, 0x42, 0x60, 0x82,
    ];
    let d = decode(&png).unwrap();
    assert_eq!((d.width, d.height, d.rgba.len()), (1, 1, 4));
    assert_eq!(d.rgba, vec![0x80, 0x80, 0x80, 0xff]);
}

#[test]
fn an_appimage_update_targets_the_bundle_not_the_mount() {
    // A missing bundle is not fatal: the running program is the target.
    let running = || Some(String::from("/tmp/.mount_RoJoin/usr/bin/rojoin"));
    assert_eq!(autostart::exe_path(None, false, running()), running());
    let bundle = || Some(String::from("/home/me/RoJoin.AppImage"));
    assert_eq!(autostart::exe_path(bundle(), true, running()), bundle());
}
