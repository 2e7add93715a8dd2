//! Launching: deep links, cookie jars, settings files and the Windows client.

use rojoin::launcher::sober::{
    config_path, cookie_path, data_dir, fflags, is_running, join_jar, read_cookie, set_config_key,
    set_cookie, set_fflag, split_jar, strip_comments, typed_flag, typed_flags, write_fflags,
    FlagValue, Swap, CLOSE_FIRST, COOKIE_NAME,
};
use rojoin::launcher::windows::{
    launch_uri, open_uri, percent_encode, place_launcher_url, tracker_id, Tracker,
};
use rojoin::launcher::winflags::{is_install, newest, settings_file, written};
use rojoin::launcher::{
    detect, game_running, launch_sober, launch_windows, Backend, Error, JoinRequest,
};
use serde_json::Value;

#[test]
fn plain_join_builds_a_simple_deep_link() {
    let r = JoinRequest::place(606849621);
    assert_eq!(r.roblox_uri(), "roblox://experiences/start?placeId=606849621");
    assert!(!r.is_sub_place());
}

#[test]
fn sub_place_launches_the_chosen_place_not_the_root() {
    let r = JoinRequest::sub_place(999, 606849621);
    assert!(r.is_sub_place());
    assert!(r.roblox_uri().contains("placeId=999"));
    assert!(
        !r.roblox_uri().contains("606849621"),
        "the root place must not be what we launch"
    );
}

#[test]
fn server_join_carries_the_instance_id() {
    let r = JoinRequest::place(1).server("abc-123");
    let uri = r.roblox_uri();
    assert!(uri.contains("placeId=1"));
    assert!(uri.contains("gameInstanceId=abc-123"));
}

#[test]
fn a_place_equal_to_its_root_is_not_a_sub_place() {
    let r = JoinRequest { place_id: 5, root_place_id: 5, ..Default::default() };
    assert!(!r.is_sub_place());
}

#[test]
fn missing_root_is_not_mistaken_for_a_sub_place() {
    let r = JoinRequest { place_id: 5, root_place_id: 0, ..Default::default() };
    assert!(!r.is_sub_place());
}

#[test]
fn a_launch_needs_the_game_installed() {
    let r = JoinRequest::place(7);
    assert_eq!(launch_sober(&r, true).unwrap(), r.roblox_uri());
    assert!(matches!(launch_sober(&r, false), Err(Error::SoberMissing)));
    assert_eq!(detect(false), Backend::Sober);
    assert_eq!(detect(true), Backend::WindowsClient);
    assert!(game_running(Backend::Sober, true));
    assert!(!game_running(Backend::Sober, false));
    assert_eq!(Error::SoberMissing.message(), "Sober is not installed");
    assert_eq!(Error::Launch("x".into()).message(), "launch failed: x");
}

const JAR: &str = "rbxas=abc; GuestData=UserID=-1; .ROBLOSECURITY=OLDVALUE; path=/";

#[test]
fn the_cookie_is_found_among_the_others() {
    let found = split_jar(JAR).into_iter().find(|(k, _)| k == COOKIE_NAME).map(|(_, v)| v);
    assert_eq!(found.as_deref(), Some("OLDVALUE"));
    assert_eq!(read_cookie(JAR).as_deref(), Some("OLDVALUE"));
}

#[test]
fn replacing_the_cookie_preserves_every_other_field() {
    let mut pairs = split_jar(JAR);
    pairs.iter_mut().find(|(k, _)| k == COOKIE_NAME).unwrap().1 = "NEW".into();
    let out = join_jar(&pairs);

    assert!(out.contains("rbxas=abc"));
    assert!(out.contains("GuestData=UserID=-1"));
    assert!(out.contains(".ROBLOSECURITY=NEW"));
    assert!(!out.contains("OLDVALUE"));
    assert!(out.contains("path=/"));
}

#[test]
fn values_containing_equals_survive_a_round_trip() {
    let pairs = split_jar("GuestData=UserID=-634510552");
    assert_eq!(pairs[0].0, "GuestData");
    assert_eq!(pairs[0].1, "UserID=-634510552");
    assert_eq!(join_jar(&pairs), "GuestData=UserID=-634510552");
}

#[test]
fn an_empty_cookie_is_refused() {
    assert!(set_cookie("", Some(Ok(JAR.to_string())), false).is_err());
}

#[test]
fn a_cookie_is_swapped_only_where_it_must_be() {
    match set_cookie("NEW", Some(Ok(JAR.to_string())), false) {
        Ok(Swap::Write(out)) => {
            assert_eq!(out, "rbxas=abc; GuestData=UserID=-1; .ROBLOSECURITY=NEW; path=/")
        }
        _ => panic!("the jar must be rewritten"),
    }
    assert!(matches!(
        set_cookie("OLDVALUE", Some(Ok(JAR.to_string())), true),
        Ok(Swap::Nothing)
    ));
    match set_cookie("NEW", Some(Ok(JAR.to_string())), true) {
        Err(Error::Launch(e)) => assert_eq!(e, CLOSE_FIRST),
        _ => panic!("a running game must not be swapped"),
    }
    assert!(matches!(set_cookie("NEW", None, false), Err(Error::SoberMissing)));
    match set_cookie("NEW", Some(Err("denied".into())), false) {
        Err(Error::Launch(e)) => assert_eq!(e, "could not read Sober's cookies: denied"),
        _ => panic!("an unreadable jar is an error"),
    }
}

#[test]
fn the_game_is_found_where_it_lives() {
    assert!(is_running("com.x\norg.vinegarhq.Sober\n"));
    assert!(!is_running("com.x"));
    let dir = data_dir("/home/a");
    assert_eq!(dir, "/home/a/.var/app/org.vinegarhq.Sober/data/sober");
    assert!(cookie_path(Some(dir)).unwrap().starts_with("/home/a/"));
    assert!(cookie_path(None).is_none());
    assert!(config_path("/home/a").ends_with("config/sober/config.json"));
}

#[test]
fn the_comment_header_sober_ships_is_stripped_and_parses() {
    let real = "// !!! STOP !!!\n\
                // This file is not meant to be edited by hand\n\
                // -------------------------------------------\n\
                {\n    \"use_opengl\": true,\n    \"fflags\": { \"FFlagExample\": true }\n}\n";
    let cleaned = strip_comments(real);
    let parsed: Value =
        serde_json::from_str(&cleaned).expect("should parse once comments are gone");
    assert_eq!(parsed["use_opengl"], Value::Bool(true));
    assert_eq!(parsed["fflags"]["FFlagExample"], Value::Bool(true));
}

#[test]
fn a_double_slash_inside_a_string_is_not_a_comment() {
    let text = "{\"url\": \"https://example.com/x\"}";
    assert_eq!(strip_comments(text).trim(), text);
}

#[test]
fn an_escaped_quote_does_not_end_the_string() {
    let text = r#"{"a": "say \"hi\" // not a comment"}"#;
    assert!(strip_comments(text).contains("not a comment"));
}

#[test]
fn flags_are_typed_the_way_the_engine_expects() {
    assert!(matches!(typed_flag("true"), FlagValue::Bool(true)));
    assert!(matches!(typed_flag("false"), FlagValue::Bool(false)));
    assert!(matches!(typed_flag("240"), FlagValue::Int(240)));
    match typed_flag("Balanced") {
        FlagValue::Text(t) => assert_eq!(t, "Balanced"),
        other => panic!("{other:?}"),
    }
}

#[test]
fn stripping_never_loses_a_line() {
    let text = "{\n// gone\n\"a\": 1\n}";
    assert_eq!(strip_comments(text).lines().count(), text.lines().count());
}

#[test]
fn a_line_with_letters_beyond_ascii_is_kept() {
    assert_eq!(strip_comments("{\"a\": \"é\"} // note"), "{\"a\": \"é\"} \n");
    assert_eq!(strip_comments("\"éé\""), "\"éé\"\n");
}

fn pair(k: &str, v: &str) -> (String, String) {
    (k.to_string(), v.to_string())
}

#[test]
fn the_placeholder_flag_is_never_written_or_shown() {
    let typed = typed_flags(&vec![pair("FFlagExample", "true"), pair("FIntX", "5")]);
    assert_eq!(typed.len(), 1);
    assert_eq!(typed[0].0, "FIntX");
    let shown = fflags("// c\n{\"fflags\": {\"FFlagExample\": true, \"b\": 2, \"a\": \"x\"}}");
    assert_eq!(shown, vec![pair("a", "x"), pair("b", "2")]);
    assert!(fflags("not json").is_empty());
}

const CONFIG: &str = "// by hand: no\n{\n  \"use_opengl\": true, \"scale\": \"big\", \"n\": 7\n}\n";

#[test]
fn changing_a_setting_leaves_the_others() {
    let out = set_config_key(false, true, Some(CONFIG), "enable_hidpi", "true").unwrap();
    let v: Value = serde_json::from_str(&out).unwrap();
    assert_eq!(v["enable_hidpi"], Value::Bool(true));
    assert_eq!(v["use_opengl"], Value::Bool(true));
    assert_eq!(v["scale"], Value::from("big"));
    assert_eq!(v["n"], Value::from(7));
    let out = set_config_key(false, true, None, "a", "1").unwrap();
    assert_eq!(serde_json::from_str::<Value>(&out).unwrap()["a"], Value::from(1));
}

#[test]
fn settings_are_not_changed_under_a_running_game() {
    let why = |r: Result<String, Error>| match r {
        Err(Error::Launch(e)) => e,
        other => panic!("{other:?}"),
    };
    assert!(why(set_config_key(true, true, Some(CONFIG), "a", "true")).starts_with("close Roblox first"));
    assert_eq!(why(set_config_key(false, false, Some(CONFIG), "a", "true")), "no HOME set");
    assert_eq!(
        why(set_config_key(false, true, Some("[1]"), "a", "true")),
        "Sober's config is not an object"
    );
}

#[test]
fn the_whole_flag_set_is_replaced() {
    let config = "{\"fflags\": {\"Old\": 1}, \"use_opengl\": true}";
    let flags = vec![pair("FFlagA", "true"), pair("FIntB", "-7"), pair("FStringC", "Vulkan \"x\"")];
    let out = write_fflags(&flags, false, true, Some(config)).unwrap();
    let v: Value = serde_json::from_str(&out).unwrap();
    assert_eq!(v["fflags"]["FFlagA"], Value::Bool(true));
    assert_eq!(v["fflags"]["FIntB"], Value::from(-7));
    assert_eq!(v["fflags"]["FStringC"], Value::from("Vulkan \"x\""));
    assert!(v["fflags"].get("Old").is_none());
    assert_eq!(v["use_opengl"], Value::Bool(true));
    assert!(write_fflags(&flags, true, true, Some(config)).is_err());
}

#[test]
fn one_flag_is_set_or_taken_out() {
    let config = "{\"fflags\": {\"Old\": 1}}";
    let out = set_fflag(" FFlagA ", " true ", false, true, Some(config)).unwrap();
    let v: Value = serde_json::from_str(&out).unwrap();
    assert_eq!(v["fflags"]["FFlagA"], Value::Bool(true));
    assert_eq!(v["fflags"]["Old"], Value::from(1));
    let out = set_fflag("Old", "", false, true, Some(config)).unwrap();
    let v: Value = serde_json::from_str(&out).unwrap();
    assert!(v["fflags"].get("Old").is_none());
    let out = set_fflag("New", "3", false, true, None).unwrap();
    let v: Value = serde_json::from_str(&out).unwrap();
    assert_eq!(v["fflags"]["New"], Value::from(3));
    let why = |r: Result<String, Error>| match r {
        Err(Error::Launch(e)) => e,
        other => panic!("{other:?}"),
    };
    assert_eq!(why(set_fflag("  ", "1", false, true, None)), "a flag needs a name");
    assert_eq!(
        why(set_fflag("a", "1", false, true, Some("{\"fflags\": 5}"))),
        "fflags is not an object"
    );
    assert_eq!(
        why(set_fflag("a", "1", false, true, Some("[]"))),
        "Sober's config is not an object"
    );
    assert!(why(set_fflag("a", "1", true, true, None)).starts_with("close Roblox first"));
}

const BTID: i64 = 123456789012;

#[test]
fn normal_join_requests_a_game() {
    let u = place_launcher_url(&JoinRequest::place(606849621), BTID);
    assert!(u.contains("request=RequestGame&"));
    assert!(u.contains("placeId=606849621"));
    assert!(u.contains("isPlayTogetherGame=false"));
    assert!(u.contains("browserTrackerId=123456789012"));
}

#[test]
fn specific_server_requests_a_game_job() {
    let u = place_launcher_url(&JoinRequest::place(1).server("abc-def"), BTID);
    assert!(u.contains("request=RequestGameJob"));
    assert!(u.contains("gameId=abc-def"));
    assert!(u.contains("browserTrackerId=123456789012"));
}

#[test]
fn a_share_link_travels_as_link_code_not_access_code() {
    let u = place_launcher_url(&JoinRequest::place(1).private_link("shareXYZ"), BTID);
    assert!(u.contains("request=RequestPrivateGame"));
    assert!(u.contains("linkCode=shareXYZ"));
    assert!(!u.contains("accessCode="), "a share link is not a reserved-server access code");
}

#[test]
fn a_reserved_server_travels_as_access_code() {
    let u = place_launcher_url(&JoinRequest::place(1).reserved("code123"), BTID);
    assert!(u.contains("request=RequestPrivateGame"));
    assert!(u.contains("accessCode=code123"));
    assert!(!u.contains("linkCode="));
}

#[test]
fn a_private_server_outranks_a_job_id() {
    let u = place_launcher_url(&JoinRequest::place(1).server("job").reserved("code123"), BTID);
    assert!(u.contains("RequestPrivateGame"));
    assert!(!u.contains("RequestGameJob"));
}

#[test]
fn launch_uri_encodes_the_inner_url() {
    let inner = place_launcher_url(&JoinRequest::place(606849621), BTID);
    let uri = launch_uri("TICKET", &inner, 1234, BTID);

    assert!(!uri.contains("?request="), "inner ? leaked into the launch uri");
    assert!(uri.contains("%3Frequest%3D"));
    assert!(uri.contains("gameinfo:TICKET"));
    assert!(uri.contains("launchtime:1234"));
    assert!(uri.contains("browsertrackerid:123456789012"));
    assert_eq!(uri, launch_windows(&JoinRequest::place(606849621), "TICKET", 1234, BTID));
    assert_eq!(percent_encode("a/b"), "a%2Fb");
}

#[test]
fn launch_uri_carries_the_fields_the_website_sends() {
    let inner = place_launcher_url(&JoinRequest::place(1), BTID);
    let uri = launch_uri("T", &inner, 1, BTID);
    assert!(uri.contains("+channel:"));
    assert!(uri.ends_with("+LaunchExp:InApp"));
}

#[test]
fn tracker_id_looks_like_a_browser_session() {
    for nanos in [0_u32, 1, 123_456_789, 999_999_999] {
        let id = tracker_id(nanos);
        assert_eq!(tracker_id(nanos), id, "must be stable within a process");
        let digits = id.to_string().len();
        assert!((11..=12).contains(&digits), "got {digits} digits: {id}");
    }
}

#[test]
fn a_failed_open_says_so() {
    assert!(open_uri(Some(42)).is_ok());
    assert!(matches!(open_uri(Some(2)), Err(Error::Launch(_))));
}

#[test]
fn flags_are_typed_the_way_the_engine_wants() {
    assert!(matches!(typed_flag("true"), FlagValue::Bool(true)));
    assert!(matches!(typed_flag("false"), FlagValue::Bool(false)));
    assert!(matches!(typed_flag("42"), FlagValue::Int(42)));
    assert!(matches!(typed_flag("-7"), FlagValue::Int(-7)));
    match typed_flag("Vulkan") {
        FlagValue::Text(t) => assert_eq!(t, "Vulkan"),
        other => panic!("{other:?}"),
    }
}

#[test]
fn a_boolean_never_ends_up_as_a_string() {
    assert!(matches!(typed_flag("true"), FlagValue::Bool(_)));
    assert!(!matches!(typed_flag("true"), FlagValue::Text(_)));
}

#[test]
fn an_empty_install_list_is_not_a_failure() {
    assert!(written(0, 0, None).is_ok());
    assert!(written(2, 1, Some("x".into())).is_ok());
    match written(2, 0, Some("disk full".into())) {
        Err(Error::Launch(e)) => assert_eq!(e, "could not write FastFlags: disk full"),
        other => panic!("{other:?}"),
    }
}

#[test]
fn cleared_flags_write_an_empty_object() {
    assert_eq!(
        serde_json::from_str::<Value>(&settings_file(&vec![])).unwrap(),
        serde_json::from_str::<Value>("{}").unwrap()
    );
    let doc = settings_file(&vec![pair(" FIntA ", "3"), pair("", "x"), pair("FFlagExample", "1")]);
    let v: Value = serde_json::from_str(&doc).unwrap();
    assert_eq!(v["FIntA"], Value::from(3));
    assert_eq!(v.as_object().unwrap().len(), 1);
    assert!(is_install(true, false) && is_install(false, true) && !is_install(false, false));
    assert_eq!(newest(&vec![3, 9, 9, 1]), Some(2));
    assert_eq!(newest(&vec![]), None);
}

#[test]
fn a_process_keeps_the_first_tracker_id_it_made() {
    let mut t = Tracker::new();
    let first = t.get(123_456_789);
    assert_eq!(first, tracker_id(123_456_789));
    assert_eq!(t.get(987_654_321), first);
    assert_eq!(t.get(0), first);
    assert!((11..=12).contains(&first.to_string().len()));
}
