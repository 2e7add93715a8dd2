//! The macro editor's state, and what is said after a press.

use rojoin::desktop::friends::toggle_friend_group;
use rojoin::desktop::gameclient::client_status;
use rojoin::desktop::hotkeys::{EditorState, HotkeyDesk, HotkeyRules, Refresh};
use rojoin::desktop::macros::{
    export_status, import_failed, import_file, import_status, macro_panel, merge, NO_HOTKEYS,
};
use rojoin::desktop::nav::{shortcut_status, Toast};
use rojoin::desktop::options::{render_settings, Preferences};
use rojoin::desktop::profile::{open_group_owner, open_my_profile, GroupData, Page};
use rojoin::launcher;
use rojoin::macroeng::backend::{mouse_flags, SETUP};
use rojoin::macroeng::focus::Focus;
use rojoin::macroeng::hotkeys::{event_of_message, HotkeyEvent};
use rojoin::macroeng::keys::Key;
use rojoin::macroeng::presets;
use rojoin::macroeng::{Engine, Error, MouseButton};

#[test]
fn a_macro_is_rebound_through_the_editor() {
    let mut desk = HotkeyDesk::new();
    let mut editor = EditorState::new();
    let mut macros = presets::all();
    let mut engine = Engine::new();
    let mut panic_label = String::from("F8");
    let rules = HotkeyRules { enabled: true, only_when_focused: false };

    editor.rebind(&mut desk, "wallhop");
    assert!(editor.open && editor.capturing && desk.capturing);

    // The key that is bound does nothing else, and is taken from its owner.
    let r = desk.handle(
        &mut engine,
        &mut macros,
        &editor.editing,
        &mut panic_label,
        &rules,
        Focus::Game,
        HotkeyEvent::Pressed(Key::F1),
    );
    assert_eq!(r.refresh, Refresh::Editor);
    assert!(r.started.is_empty());
    editor.captured();
    assert!(!editor.capturing && !desk.capturing);
    let key = |id: &str| macros.iter().find(|m| m.id == id).and_then(|m| m.hotkey);
    assert_eq!(key("wallhop"), Some(Key::F1));
    assert_eq!(key("bunnyhop"), None);
}

#[test]
fn closing_the_editor_stops_waiting_for_a_key() {
    let mut desk = HotkeyDesk::new();
    let mut editor = EditorState::new();
    editor.edit("bunnyhop");
    assert!(editor.open && !editor.capturing && !desk.capturing);
    editor.capture(&mut desk);
    assert!(editor.capturing && desk.capturing);
    editor.capture(&mut desk);
    assert!(!editor.capturing && !desk.capturing);
    editor.capture(&mut desk);
    editor.close(&mut desk);
    assert!(!editor.open && !editor.capturing && !desk.capturing);
    assert!(editor.editing.is_none());
}

#[test]
fn the_panic_key_can_be_called_off() {
    let mut desk = HotkeyDesk::new();
    desk.bind_panic_key();
    assert!(desk.binding_panic);
    desk.bind_panic_key();
    assert!(!desk.binding_panic);
}

#[test]
fn the_panel_says_what_is_missing() {
    let works = macro_panel(false, true, &Ok(()), true);
    assert!(works.available);
    assert_eq!((works.hint.as_str(), works.backend), ("", "uinput"));

    let deaf = macro_panel(false, true, &Ok(()), false);
    assert!(deaf.available);
    assert_eq!(deaf.hint, NO_HOTKEYS);

    let denied = macro_panel(false, false, &Ok(()), false);
    assert!(!denied.available);
    assert_eq!(denied.hint, SETUP);

    let broken = macro_panel(true, true, &Err(Error::Input("gone".into())), false);
    assert!(!broken.available);
    assert_eq!(broken.backend, "SendInput");
    assert_eq!(broken.hint, Error::Input("gone".into()).message());
}

#[test]
fn macros_are_exported_and_imported_by_name() {
    assert_eq!(export_status("/c/m.json", &Ok(())), "Exported to /c/m.json");
    let failed = export_status("/c/m.json", &Err(Error::Input("full".into())));
    assert_eq!(failed, format!("Export failed: {}", Error::Input("full".into()).message()));
    assert_eq!(import_file("/c", true, true), Ok("macros-import.json"));
    assert_eq!(import_file("/c", false, true), Ok("macros-export.json"));
    assert_eq!(import_file("/c", false, false), Err("Put a macros-import.json in /c".into()));
    assert_eq!(import_failed("bad"), "Import failed: bad");
    let mut macros = presets::all();
    let mut more = presets::all();
    more.remove(1);
    more[0].name = "Theirs".into();
    more[1].id = "new".into();
    more[2].id = "new".into();
    assert_eq!(merge(&mut macros, more), 1);
    assert_eq!(macros.len(), 6);
    assert_eq!((macros[0].name.as_str(), macros[5].id.as_str()), ("Bunnyhop", "new"));
    assert_eq!(import_status(1), "Imported 1 macro");
    assert_eq!(import_status(3), "Imported 3 macros");
}

#[test]
fn only_the_offline_friends_fold() {
    assert!(toggle_friend_group("OFFLINE", false));
    assert!(!toggle_friend_group("OFFLINE", true));
    assert!(toggle_friend_group("ONLINE", true));
    assert!(!toggle_friend_group("offline", false));
}

#[test]
fn nothing_is_copied_where_there_is_nothing() {
    let mut t = Toast { text: String::new(), nonce: 4 };
    assert!(!t.copy("", "link"));
    assert_eq!((t.text.as_str(), t.nonce), ("", 4));
    assert!(t.copy("https://x", "link"));
    assert_eq!((t.text.as_str(), t.nonce), ("Copied link", 5));
}

#[test]
fn statuses_say_what_came_of_it() {
    assert_eq!(shortcut_status(&Ok("/d/a.desktop".into())), "Shortcut saved to /d/a.desktop");
    assert_eq!(shortcut_status(&Err("no desktop".into())), "no desktop");
    assert_eq!(client_status(&Ok(())), "");
    let refused = client_status(&Err(launcher::Error::Launch("close Sober first".into())));
    assert_eq!(refused, launcher::Error::Launch("close Sober first".into()).message());
}

#[test]
fn own_and_owner_pages_need_a_number() {
    assert_eq!(open_my_profile(0), None);
    assert_eq!(open_my_profile(7), Some(Page::Profile(7)));
    let mut g = GroupData {
        id: "1".into(),
        name: String::new(),
        description: String::new(),
        members: String::new(),
        role: String::new(),
        shout: String::new(),
        shout_by: String::new(),
        owner: String::new(),
        owner_id: String::new(),
        is_member: false,
        open_entry: false,
    };
    assert_eq!(open_group_owner(&g), None);
    g.owner_id = "42".into();
    assert_eq!(open_group_owner(&g), Some(Page::Profile(42)));
}

#[test]
fn the_settings_show_what_was_chosen() {
    let p = Preferences {
        dark: true,
        notify_friend_requests: false,
        notify_friends: vec![],
        notify_games: vec![],
        macros_enabled: true,
        macros_only_when_focused: false,
        panic_key: "F9".into(),
        ui_scale: 125,
        startup_section: 3,
        presence_refresh_secs: 45,
        confirm_destructive: true,
        server_page_size: 10,
        request_timeout_secs: 45,
        image_cache_size: 2000,
        verbose_logging: true,
        auto_update: false,
        track_friend_playtime: false,
    };
    let v = render_settings(&p, &vec![], &None, &vec![], &vec![], 3);
    assert!(!v.notify_requests && v.macros_enabled && !v.only_when_focused);
    assert_eq!((v.panic_key.as_str(), v.ui_scale, v.startup_section), ("F9", 125, 3));
    assert_eq!((v.presence_secs, v.confirm_destructive), (45, true));
    assert_eq!((v.verbose_logging, v.auto_update), (true, false));
    assert_eq!((v.server_page, v.timeout_choice, v.cache_choice), (0, 2, 3));
}

#[test]
fn keyboard_messages_are_read() {
    let vk = Key::Space.vk_code();
    assert_eq!(event_of_message(0x0100, vk), Some(HotkeyEvent::Pressed(Key::Space)));
    assert_eq!(event_of_message(0x0104, vk), Some(HotkeyEvent::Pressed(Key::Space)));
    assert_eq!(event_of_message(0x0101, vk), Some(HotkeyEvent::Released(Key::Space)));
    assert_eq!(event_of_message(0x0105, vk), Some(HotkeyEvent::Released(Key::Space)));
    assert_eq!(event_of_message(0x0102, vk), None);
    assert_eq!(event_of_message(0x0100, 0), None);
}

#[test]
fn buttons_go_down_and_up_by_their_own_flags() {
    assert_eq!(mouse_flags(MouseButton::Left, true), 2);
    assert_eq!(mouse_flags(MouseButton::Left, false), 4);
    assert_eq!(mouse_flags(MouseButton::Right, true), 8);
    assert_eq!(mouse_flags(MouseButton::Right, false), 16);
    assert_eq!(mouse_flags(MouseButton::Middle, true), 32);
    assert_eq!(mouse_flags(MouseButton::Middle, false), 64);
}
