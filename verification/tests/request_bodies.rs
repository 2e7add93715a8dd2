//! What is sent to the service is JSON of the shape it wants.

use rojoin::launcher::winflags::read_fflags;
use rojoin::roblox::auth::{login_body, status_body, LoginCode};
use rojoin::roblox::avatar::kind_body;
use rojoin::roblox::chat::{create_body, read_body, send_body};
use rojoin::roblox::discovery::feed_body;
use rojoin::roblox::friends::presence_body;
use rojoin::roblox::games::favorite_body;
use rojoin::roblox::thumbnails::{batch_url, tokens_body};
use rojoin::roblox::users::batch_body;
use serde_json::Value;

fn json(text: &str) -> Value {
    serde_json::from_str(text).expect("a body must be JSON")
}

#[test]
fn batches_of_users_are_lists_of_numbers() {
    let v = json(&presence_body(&vec![1, 2, 3]));
    assert_eq!(v["userIds"][2], 3);
    assert_eq!(presence_body(&Vec::new()), "{\"userIds\":[]}");
    let v = json(&batch_body(&vec![9_000_000_000]));
    assert_eq!(v["userIds"][0], 9_000_000_000_i64);
    assert_eq!(v["excludeBannedUsers"], false);
}

#[test]
fn switches_are_booleans_and_names() {
    assert_eq!(json(&favorite_body(true))["isFavorited"], true);
    assert_eq!(json(&favorite_body(false))["isFavorited"], false);
    assert_eq!(json(&kind_body(true))["playerAvatarType"], "R15");
    assert_eq!(json(&kind_body(false))["playerAvatarType"], "R6");
}

#[test]
fn messages_keep_every_character() {
    let text = "say \"hi\" \\ to\nthem 🚪";
    let v = json(&send_body("c\"1", text));
    assert_eq!(v["conversationId"], "c\"1");
    assert_eq!(v["messages"][0]["content"], text);
    let v = json(&create_body(42));
    assert_eq!(v["conversations"][0]["participantUserIds"][0], 42);
    assert_eq!(v["conversations"][0]["conversationType"], "OneToOne");
    let v = json(&read_body("c1"));
    assert_eq!(v["conversations"][0]["conversationId"], "c1");
    assert_eq!(v["conversations"][0]["hasUnreadMessages"], false);
}

#[test]
fn sign_in_sends_the_code_and_its_key() {
    let c = LoginCode {
        code: "7FPRR3".into(),
        private_key: "k\"ey".into(),
        expiration_time: String::new(),
        image_path: String::new(),
    };
    let v = json(&status_body(&c));
    assert_eq!((v["code"].as_str(), v["privateKey"].as_str()), (Some("7FPRR3"), Some("k\"ey")));
    let v = json(&login_body(&c));
    assert_eq!(v["ctype"], "AuthToken");
    assert_eq!((v["cvalue"].as_str(), v["password"].as_str()), (Some("7FPRR3"), Some("k\"ey")));
}

#[test]
fn the_home_feed_is_asked_for_a_session() {
    let v = json(&feed_body("abc"));
    assert_eq!(v["pageType"], "Home");
    assert_eq!(v["sessionId"], "abc");
    assert_eq!(v["supportedTreatmentTypes"].as_array().unwrap().len(), 5);
}

#[test]
fn tokens_carry_their_place_in_the_whole_list() {
    assert_eq!(batch_url(), "https://thumbnails.roblox.com/v1/batch");
    let v = json(&tokens_body(2, &vec!["a".into(), "b\"".into()]));
    assert_eq!(v[0]["requestId"], "200");
    assert_eq!(v[1]["requestId"], "201");
    assert_eq!(v[1]["token"], "b\"");
    assert_eq!(v[0]["type"], "AvatarHeadShot");
    assert_eq!(v[0]["size"], "150x150");
    assert_eq!(v[0]["format"], "png");
    assert_eq!(v[0]["targetId"], 0);
    assert_eq!(tokens_body(0, &Vec::new()), "[]");
}

#[test]
fn flags_of_an_install_are_read_as_they_are_shown() {
    let flags = read_fflags(Some("{\"FFlagA\": true, \"FIntB\": 7, \"FStringC\": \"x\"}")).unwrap();
    assert!(flags.contains(&("FFlagA".to_string(), "true".to_string())));
    assert!(flags.contains(&("FIntB".to_string(), "7".to_string())));
    assert!(flags.contains(&("FStringC".to_string(), "x".to_string())));
    assert!(read_fflags(Some("[]")).is_none());
    assert!(read_fflags(Some("not json")).is_none());
    assert!(read_fflags(None).is_none());
}
