//! The parts that talk to the service: sign-in, avatars, chat, the client itself
//! and the home feed.

use rojoin::roblox::auth::{
    capture_csrf, created, extract_roblosecurity, find_cookie, login_status, next_try, poll,
    redeem, wants_token, LoginCode, LoginStatus, StatusResponse,
};
use rojoin::roblox::avatar::{
    add_items, body_kind, category_types, colors_body, remove, set_wearing, wear, wear_body,
    AssetType, Avatar, BodyColors, InventoryItem, Scales, WornAsset, CATEGORY_NAMES,
};
use rojoin::roblox::chat::{created as chat_created, total_unread, Conversation, Message, Participant};
use rojoin::roblox::client::{
    fetched, first_message, timeout_secs, Answer, Client, Next, BACKOFF, CHALLENGE_TEXT,
};
use rojoin::roblox::discovery::{continue_universes, session_id, Feed, Recommendation, Sort};
use rojoin::roblox::error::Error;
use serde_json::Value;
use std::collections::HashSet;

#[test]
fn parses_roblosecurity_out_of_set_cookie() {
    let h = ".ROBLOSECURITY=ABC123|def; domain=.roblox.com; path=/; HttpOnly";
    assert_eq!(extract_roblosecurity(h).as_deref(), Some("ABC123|def"));
}

#[test]
fn ignores_other_cookies() {
    assert_eq!(extract_roblosecurity("RBXEventTrackerV2=x; path=/"), None);
}

#[test]
fn ignores_empty_roblosecurity() {
    assert_eq!(extract_roblosecurity(".ROBLOSECURITY=; path=/"), None);
}

fn code() -> LoginCode {
    LoginCode {
        code: "7FPRR3".into(),
        private_key: "k".into(),
        expiration_time: "t".into(),
        image_path: "/p".into(),
    }
}

#[test]
fn splits_six_char_code_for_display() {
    let c = code();
    assert_eq!(c.display_code(), "7FP RR3");
    assert!(c.confirm_url().ends_with("ConfirmCode?code=7FPRR3"));
}

#[test]
fn codes_of_another_length_are_shown_whole() {
    let mut c = code();
    c.code = "ABCDE".into();
    assert_eq!(c.display_code(), "ABCDE");
    assert_eq!(c.qr_url(), "https://apis.roblox.com/auth-token-service/p");
}

#[test]
fn the_first_cookie_of_several_lines_is_taken() {
    let lines = vec![
        "GuestData=1; path=/".to_string(),
        ".ROBLOSECURITY=; path=/".to_string(),
        ".ROBLOSECURITY=first; path=/".to_string(),
        ".ROBLOSECURITY=second; path=/".to_string(),
    ];
    assert_eq!(find_cookie(&lines).as_deref(), Some("first"));
}

#[test]
fn unknown_states_of_a_code_keep_it_pending() {
    assert_eq!(login_status("Validated"), LoginStatus::Validated);
    assert_eq!(login_status("Cancelled"), LoginStatus::Cancelled);
    assert_eq!(login_status("Created"), LoginStatus::Pending);
    assert_eq!(login_status("anything"), LoginStatus::Pending);
}

#[test]
fn a_code_request_fails_by_its_status() {
    assert!(created(200, "200 OK").is_ok());
    match created(503, "503 Service Unavailable") {
        Err(Error::Api(e)) => assert!(e.contains("503 Service Unavailable"), "{e}"),
        other => panic!("{other:?}"),
    }
    assert!(wants_token(403));
    assert!(!wants_token(401));
}

#[test]
fn a_token_is_kept_until_another_comes() {
    let mut csrf = None;
    capture_csrf(None, &mut csrf);
    assert_eq!(csrf, None);
    capture_csrf(Some("a".into()), &mut csrf);
    capture_csrf(None, &mut csrf);
    assert_eq!(csrf.as_deref(), Some("a"));
}

#[test]
fn polling_and_redeeming_report_what_the_service_said() {
    let answer = StatusResponse { status: "Validated".into(), account_name: Some("adam".into()) };
    match poll(200, "200 OK", answer) {
        Ok((LoginStatus::Validated, name)) => assert_eq!(name.as_deref(), Some("adam")),
        other => panic!("{other:?}"),
    }
    let answer = StatusResponse { status: "".into(), account_name: None };
    assert!(poll(500, "500", answer).is_err());

    let lines = vec![".ROBLOSECURITY=abc; path=/".to_string()];
    let session = redeem(200, "200 OK", &lines, Some("adam".into())).unwrap();
    assert_eq!(session.cookie, "abc");
    assert_eq!(session.account_name.as_deref(), Some("adam"));
    assert!(redeem(200, "200 OK", &Vec::new(), None).is_err());
    assert!(redeem(403, "403 Forbidden", &lines, None).is_err());
}

fn avatar_with(ids: &[i64]) -> Avatar {
    Avatar {
        assets: ids
            .iter()
            .map(|id| WornAsset {
                id: *id,
                name: format!("Asset {id}"),
                asset_type: AssetType { id: 8, name: "Hat".into() },
            })
            .collect(),
        ..Default::default()
    }
}

#[test]
fn worn_ids_and_lookup() {
    let a = avatar_with(&[1, 2, 3]);
    assert_eq!(a.worn_ids(), vec![1, 2, 3]);
    assert!(a.is_worn(2));
    assert!(!a.is_worn(9));
}

#[test]
fn scales_default_to_roblox_neutral_not_zero() {
    let s = Scales::default();
    assert_eq!(f64::from_bits(s.height), 1.0);
    assert_eq!(f64::from_bits(s.width), 1.0);
    assert_eq!(f64::from_bits(s.head), 1.0);
    assert_eq!(f64::from_bits(s.depth), 1.0);
}

#[test]
fn every_category_maps_to_at_least_one_asset_type() {
    for name in CATEGORY_NAMES {
        assert!(!category_types(name).is_empty(), "category {name} has no asset types");
    }
    assert!(category_types("No such thing").is_empty());
}

#[test]
fn category_names_are_unique() {
    let mut seen = HashSet::new();
    for name in CATEGORY_NAMES {
        assert!(seen.insert(name), "duplicate category {name}");
    }
}

fn body(ids: Vec<i64>) -> Value {
    serde_json::from_str(&wear_body(&ids)).expect("the body must be JSON")
}

#[test]
fn sends_the_v2_shape_not_the_v1_one() {
    let body = body(vec![1, 2]);
    assert!(body.get("assetIds").is_none(), "assetIds is the v1 shape");
    let assets = body["assets"].as_array().expect("assets must be an array");
    assert_eq!(assets.len(), 2);
    assert_eq!(assets[0]["id"], 1);
    assert_eq!(assets[1]["id"], 2);
}

#[test]
fn an_empty_wardrobe_still_sends_an_array() {
    let body = body(vec![]);
    assert_eq!(body["assets"], Value::Array(Vec::new()));
}

#[test]
fn order_is_preserved_so_the_server_sees_the_list_as_given() {
    let body = body(vec![30, 10, 20]);
    let ids: Vec<i64> =
        body["assets"].as_array().unwrap().iter().map(|a| a["id"].as_i64().unwrap()).collect();
    assert_eq!(ids, vec![30, 10, 20]);
}

#[test]
fn wearing_and_removing_leave_the_rest_alone() {
    assert_eq!(wear(&vec![1, 2], 3), vec![1, 2, 3]);
    assert_eq!(wear(&vec![1, 2], 2), vec![1, 2]);
    assert_eq!(remove(&vec![1, 2, 3], 2), vec![1, 3]);
    assert_eq!(remove(&wear(&vec![1, 2], 9), 9), vec![1, 2]);
    assert_eq!(body_kind(true), "R15");
    assert_eq!(body_kind(false), "R6");
}

#[test]
fn a_refused_item_is_an_error_even_when_the_call_succeeded() {
    assert!(set_wearing(true, 0).is_ok());
    assert!(set_wearing(false, 0).is_err());
    assert!(set_wearing(false, 2).is_err());
}

#[test]
fn a_category_lists_each_asset_once() {
    let item = |id: i64| InventoryItem { asset_id: id, ..Default::default() };
    let mut have = vec![item(1), item(2)];
    add_items(&mut have, vec![item(2), item(3), item(3)]);
    assert_eq!(have.iter().map(|i| i.asset_id).collect::<Vec<_>>(), vec![1, 2, 3]);
}

fn one_to_one() -> Conversation {
    Conversation {
        id: "c1".into(),
        name: String::new(),
        conversation_type: "OneToOne".into(),
        participants: Some(vec![
            Participant { user_id: 1, name: "me".into(), display_name: "Me".into() },
            Participant { user_id: 2, name: "henry".into(), display_name: "UsedHenry06".into() },
        ]),
        last_updated: None,
        unread_message_count: 3,
        latest_messages: Some(vec![Message {
            id: "m1".into(),
            content: "yeah im on now".into(),
            sender_id: 2,
            created: String::new(),
            message_type: None,
        }]),
    }
}

#[test]
fn one_to_one_title_is_the_other_person() {
    assert_eq!(one_to_one().display_title(1), "UsedHenry06");
    assert_eq!(one_to_one().display_title(2), "Me");
}

#[test]
fn group_conversation_keeps_its_own_name() {
    let mut c = one_to_one();
    c.conversation_type = "Group".into();
    c.name = "Paradoxum Fans".into();
    assert_eq!(c.display_title(1), "Paradoxum Fans");
}

#[test]
fn a_nameless_conversation_with_no_participants_still_renders() {
    let c = Conversation {
        id: "x".into(),
        conversation_type: "OneToOne".into(),
        ..Default::default()
    };
    assert_eq!(c.display_title(1), "Conversation");
    assert!(c.other_participant(1).is_none());
}

#[test]
fn falls_back_to_username_when_display_name_is_blank() {
    let mut c = one_to_one();
    if let Some(ps) = c.participants.as_mut() {
        ps[1].display_name = String::new();
    }
    assert_eq!(c.display_title(1), "henry");
}

#[test]
fn preview_uses_the_latest_message() {
    assert_eq!(one_to_one().preview(), "yeah im on now");
    assert_eq!(Conversation::default().preview(), "");
}

#[test]
fn unread_totals_across_conversations() {
    let mut b = one_to_one();
    b.unread_message_count = 7;
    assert_eq!(total_unread(&vec![one_to_one(), b]), 10);
    assert_eq!(total_unread(&vec![]), 0);
}

#[test]
fn a_conversation_that_was_not_created_is_an_error() {
    assert_eq!(chat_created(vec![one_to_one()]).unwrap(), "c1");
    assert!(matches!(chat_created(vec![]), Err(Error::Api(_))));
}

#[test]
fn extracts_roblox_error_message() {
    let body = r#"{"errors":[{"code":9,"message":"The specified user does not exist!"}]}"#;
    assert_eq!(first_message(body), "The specified user does not exist!");
}

#[test]
fn falls_back_to_raw_body() {
    assert_eq!(first_message("upstream exploded"), "upstream exploded");
    assert_eq!(first_message("   "), "no detail");
}

#[test]
fn truncates_a_huge_html_error_page() {
    let body = "x".repeat(5000);
    assert_eq!(first_message(&body).len(), 160);
}

fn cookie(tag: &str) -> String {
    format!("_|WARNING:-DO-NOT-SHARE-THIS.--Sharing-this-will-allow-someone-to-log-in-as-you.|_{tag}{}", "A".repeat(300))
}

#[test]
fn a_reissued_cookie_is_adopted_and_offered_once() {
    let mut client = Client::new();
    client.set_cookie(Some(cookie("old")));

    let fresh = cookie("new");
    client.absorb_refreshed_cookie(&vec![format!(
        ".ROBLOSECURITY={fresh}; Domain=.roblox.com; Path=/; HttpOnly"
    )]);

    assert_eq!(client.take_refreshed_cookie().as_deref(), Some(fresh.as_str()));
    assert!(client.take_refreshed_cookie().is_none());
}

#[test]
fn an_echo_of_the_current_cookie_is_not_a_rotation() {
    let same = cookie("same");
    let mut client = Client::new();
    client.set_cookie(Some(same.clone()));
    client.absorb_refreshed_cookie(&vec![format!(".ROBLOSECURITY={same}; Path=/")]);
    assert!(client.take_refreshed_cookie().is_none());
}

#[test]
fn a_clearing_cookie_never_overwrites_a_good_login() {
    for clearing in [
        ".ROBLOSECURITY=; Path=/; Expires=Thu, 01 Jan 1970 00:00:00 GMT",
        ".ROBLOSECURITY=deleted; Path=/",
        ".ROBLOSECURITY=short-and-not-a-session; Path=/",
    ] {
        let mut client = Client::new();
        client.set_cookie(Some(cookie("good")));
        client.absorb_refreshed_cookie(&vec![clearing.to_string()]);
        assert!(client.take_refreshed_cookie().is_none(), "adopted {clearing}");
    }
}

#[test]
fn switching_account_drops_a_pending_refresh() {
    let mut client = Client::new();
    client.set_cookie(Some(cookie("first")));
    client.absorb_refreshed_cookie(&vec![format!(
        ".ROBLOSECURITY={}; Path=/",
        cookie("rotated")
    )]);
    client.set_cookie(Some(cookie("second")));
    assert!(client.take_refreshed_cookie().is_none());
}

fn answer(status: u16) -> Answer {
    Answer {
        status,
        shown: format!("{status} shown"),
        csrf: None,
        challenged: false,
        body: String::new(),
        set_cookies: Vec::new(),
    }
}

#[test]
fn a_throttled_request_backs_off_and_then_gives_up() {
    let mut client = Client::new();
    let mut attempt: usize = 0;
    for wait in BACKOFF {
        match client.send(&mut attempt, "https://x", &answer(429)) {
            Next::After(ms) => assert_eq!(ms, wait),
            _ => panic!("should wait {wait}"),
        }
    }
    match client.send(&mut attempt, "https://x", &answer(429)) {
        Next::Fail(Error::RateLimited) => {}
        _ => panic!("should give up"),
    }
}

#[test]
fn a_new_token_is_tried_once() {
    let mut client = Client::new();
    let mut attempt: usize = 0;
    let mut a = answer(403);
    a.csrf = Some("tok".into());
    assert!(matches!(client.send(&mut attempt, "https://x", &a), Next::Again));
    assert_eq!(client.csrf.as_deref(), Some("tok"));
}

#[test]
fn failures_say_what_they_are() {
    let mut client = Client::new();
    let mut attempt: usize = 0;
    assert!(matches!(client.send(&mut attempt, "u", &answer(401)), Next::Fail(Error::Expired)));
    let mut a = answer(403);
    a.challenged = true;
    match client.send(&mut attempt, "u", &a) {
        Next::Fail(Error::Challenge(t)) => assert_eq!(t, CHALLENGE_TEXT),
        _ => panic!("a challenge must be named"),
    }
    let mut a = answer(400);
    a.body = r#"{"errors":[{"message":"nope"}]}"#.into();
    match client.send(&mut attempt, "u", &a) {
        Next::Fail(Error::Api(t)) => assert!(t.contains("nope"), "{t}"),
        _ => panic!("the service's words must come through"),
    }
    assert!(matches!(client.send(&mut attempt, "u", &answer(200)), Next::Done));
}

#[test]
fn timeouts_stay_within_reason() {
    assert_eq!(timeout_secs(1), 5);
    assert_eq!(timeout_secs(45), 45);
    assert_eq!(timeout_secs(9000), 120);
    assert!(fetched(200, "200 OK", "u").is_ok());
    assert!(fetched(404, "404 Not Found", "u").is_err());
}

#[test]
fn errors_read_as_sentences() {
    assert_eq!(Error::Http("x".into()).message().contains('x'), true);
    assert!(!Error::Expired.message().is_empty());
    assert!(!Error::RateLimited.message().is_empty());
    assert_eq!(Error::Api("boom".into()).message().contains("boom"), true);
    assert_eq!(Error::Decode("bad".into()).message().contains("bad"), true);
    assert_eq!(Error::Challenge("why".into()).message().contains("why"), true);
}

const REAL: &str = r#"{
  "pageType": "Home",
  "sorts": [
    {"topic":"Friends","topicId":600000000,"treatmentType":"FriendCarousel",
     "recommendationList":[]},
    {"topic":"Recommended For You","topicId":100000000,"treatmentType":"SortlessGrid",
     "recommendationList":[{"contentType":"Game","contentId":111,"contentStringId":""}]},
    {"topic":"Continue","topicId":100000003,"treatmentType":"Carousel",
     "recommendationList":[
       {"contentType":"Game","contentId":1359573625,"contentStringId":""},
       {"contentType":"Game","contentId":6371484684,"contentStringId":""},
       {"contentType":"Game","contentId":210851291,"contentStringId":""}]}
  ]
}"#;

fn feed(json: &str) -> Feed {
    let v: Value = serde_json::from_str(json).unwrap();
    Feed {
        sorts: v["sorts"]
            .as_array()
            .unwrap()
            .iter()
            .map(|s| Sort {
                topic_id: s["topicId"].as_i64().unwrap(),
                recommendation_list: s["recommendationList"]
                    .as_array()
                    .unwrap()
                    .iter()
                    .map(|r| Recommendation {
                        content_type: r["contentType"].as_str().unwrap().to_string(),
                        content_id: r["contentId"].as_i64().unwrap(),
                    })
                    .collect(),
            })
            .collect(),
    }
}

#[test]
fn the_continue_sort_is_picked_out_in_order() {
    assert_eq!(continue_universes(&feed(REAL), 12), vec![1359573625, 6371484684, 210851291]);
}

#[test]
fn other_sorts_do_not_leak_in() {
    assert!(!continue_universes(&feed(REAL), 12).contains(&111));
}

#[test]
fn the_limit_is_respected() {
    assert_eq!(continue_universes(&feed(REAL), 2), vec![1359573625, 6371484684]);
}

#[test]
fn a_feed_without_the_sort_is_empty_not_an_error() {
    let f = feed(r#"{"sorts":[{"topic":"Friends","topicId":600000000,"recommendationList":[]}]}"#);
    assert!(continue_universes(&f, 12).is_empty());
}

#[test]
fn a_localised_topic_name_still_works() {
    let f = feed(
        r#"{"sorts":[{"topic":"Fortsätt","topicId":100000003,
            "recommendationList":[{"contentType":"Game","contentId":7}]}]}"#,
    );
    assert_eq!(continue_universes(&f, 12), vec![7]);
}

#[test]
fn non_game_rows_are_dropped() {
    let f = feed(
        r#"{"sorts":[{"topicId":100000003,"recommendationList":[
            {"contentType":"RecommendedFriend","contentId":42},
            {"contentType":"Game","contentId":9}]}]}"#,
    );
    assert_eq!(continue_universes(&f, 12), vec![9]);
}

#[test]
fn the_session_id_is_guid_shaped_and_stable() {
    let a = session_id(1_786_000_000_123_456_789);
    assert_eq!(a, session_id(1_786_000_000_123_456_789));
    let parts: Vec<&str> = a.split('-').collect();
    assert_eq!(
        parts.iter().map(|p| p.len()).collect::<Vec<_>>(),
        vec![8, 4, 4, 4, 12],
        "not GUID-shaped: {a}"
    );
    assert!(a.chars().all(|c| c.is_ascii_hexdigit() || c == '-'));
    assert_ne!(a, session_id(1_786_000_000_123_456_790));
}

#[test]
fn a_refused_sign_in_is_tried_once_more_with_the_new_token() {
    let mut csrf = None;
    assert!(next_try(false, 403, Some("t1".into()), &mut csrf));
    assert_eq!(csrf.as_deref(), Some("t1"));
    assert!(!next_try(true, 403, Some("t2".into()), &mut csrf));
    assert_eq!(csrf.as_deref(), Some("t1"));
    assert!(!next_try(false, 200, Some("t3".into()), &mut csrf));
    assert_eq!(csrf.as_deref(), Some("t1"));
    assert!(next_try(false, 403, None, &mut csrf));
    assert_eq!(csrf.as_deref(), Some("t1"));
}

#[test]
fn the_colours_of_a_body_are_sent_by_part() {
    let c = BodyColors {
        head_color_id: 1,
        torso_color_id: 2,
        right_arm_color_id: 3,
        left_arm_color_id: 4,
        right_leg_color_id: 5,
        left_leg_color_id: -6,
    };
    let body = colors_body(&c);
    let v: Value = serde_json::from_str(&body).unwrap();
    assert_eq!(v.to_string(), body);
    assert_eq!(v["headColorId"], Value::from(1));
    assert_eq!(v["torsoColorId"], Value::from(2));
    assert_eq!(v["rightArmColorId"], Value::from(3));
    assert_eq!(v["leftArmColorId"], Value::from(4));
    assert_eq!(v["rightLegColorId"], Value::from(5));
    assert_eq!(v["leftLegColorId"], Value::from(-6));
    assert_eq!(v.as_object().unwrap().len(), 6);
}
