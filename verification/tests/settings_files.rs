//! What is written to the game's files is what is read from them.

use rojoin::desktop::gameclient::{client_settings, set_client_flag, set_client_graphics};
use rojoin::launcher::sober::{fflags, read_cookie, set_cookie, set_fflag, write_fflags, Swap};
use rojoin::launcher::winflags;

const CONFIG: &str = "// Do not edit this by hand.\n{\n  \"use_opengl\": false, // slow\n  \"home\": \"https://example.com/a\",\n  \"scale\": 1.5,\n  \"fflags\": { \"FFlagExample\": \"x\", \"DFIntOld\": 3 }\n}\n";

fn pairs(list: &[(&str, &str)]) -> Vec<(String, String)> {
    list.iter().map(|(k, v)| (k.to_string(), v.to_string())).collect()
}

#[test]
fn the_cookie_written_is_the_one_read() {
    for jar in ["", "a=1", "=; b ; .ROBLOSECURITY=OLD; c= 2", " ; ;.ROBLOSECURITY; d=e=f"] {
        match set_cookie("NEW", Some(Ok(jar.into())), false) {
            Ok(Swap::Write(text)) => {
                assert_eq!(read_cookie(&text).as_deref(), Some("NEW"), "{jar:?} became {text:?}")
            }
            other => panic!("{jar:?} gave {other:?}"),
        }
    }
}

#[test]
fn the_flags_written_are_the_flags_listed() {
    let flags = pairs(&[
        ("FFlagB", "true"),
        ("DFIntA", "12"),
        ("FStringC", "a // b \"c\""),
        ("FFlagB", "false"),
        ("FFlagExample", "true"),
    ]);
    let text = write_fflags(&flags, false, true, Some(CONFIG)).unwrap();
    assert_eq!(
        fflags(&text),
        pairs(&[("DFIntA", "12"), ("FFlagB", "false"), ("FStringC", "a // b \"c\"")])
    );
    assert_eq!(client_settings(Some(&text)).map(|c| c.opengl), Some(false));
    let none = write_fflags(&vec![], false, true, Some(&text)).unwrap();
    assert!(fflags(&none).is_empty());
}

#[test]
fn a_flag_set_is_listed_and_one_taken_out_is_not() {
    let set = set_fflag(" FIntNew ", " 7 ", false, true, Some(CONFIG)).unwrap();
    assert_eq!(fflags(&set), pairs(&[("DFIntOld", "3"), ("FIntNew", "7")]));
    let out = set_fflag("DFIntOld", "", false, true, Some(&set)).unwrap();
    assert_eq!(fflags(&out), pairs(&[("FIntNew", "7")]));
    let first = set_fflag("FFlagOnly", "true", false, true, None).unwrap();
    assert_eq!(fflags(&first), pairs(&[("FFlagOnly", "true")]));
}

#[test]
fn a_flag_set_leaves_the_other_flags_and_settings_as_they_were() {
    let config = "{\"use_opengl\": true, \"region\": \"eu // west\", \"n\": -4,
        \"fflags\": {\"FFlagA\": false, \"FStringB\": \"x \\\"y\\\"\", \"DFIntC\": 9}}";
    let rest = [("DFIntC", "9"), ("FFlagA", "false"), ("FStringB", "x \"y\"")];
    let set = set_fflag("FIntD", "1", false, true, Some(config)).unwrap();
    assert_eq!(fflags(&set), pairs(&[rest[0], rest[1], ("FIntD", "1"), rest[2]]));
    let out = set_fflag("FIntD", "", false, true, Some(&set)).unwrap();
    assert_eq!(fflags(&out), pairs(&rest));
    for text in [&set, &out] {
        assert!(text.contains("\"use_opengl\": true"));
        assert!(text.contains("\"region\": \"eu // west\""));
        assert!(text.contains("\"n\": -4"));
    }
}

#[test]
fn a_setting_written_is_the_one_read() {
    let before = client_settings(Some(CONFIG)).unwrap();
    assert!(!before.opengl && !before.hidpi);
    let text = set_client_flag(false, true, Some(CONFIG), "use_opengl", true).unwrap();
    let after = client_settings(Some(&text)).unwrap();
    assert!(after.opengl && !after.hidpi);
    assert_eq!(after.graphics, before.graphics);
    let text = set_client_graphics(false, true, Some(&text), 2).unwrap();
    let last = client_settings(Some(&text)).unwrap();
    assert!(last.opengl);
    assert_eq!(last.graphics, 2);
    assert_eq!(fflags(&text), pairs(&[("DFIntOld", "3")]));
    let off = set_client_flag(false, true, Some(&text), "use_opengl", false).unwrap();
    assert!(!client_settings(Some(&off)).unwrap().opengl);
}

#[test]
fn client_flags_written_are_the_flags_read() {
    let flags = pairs(&[(" FFlagB ", "true"), ("DFIntA", "-4"), ("", "x"), ("FStringC", "yes")]);
    let text = winflags::settings_file(&flags);
    let read = winflags::read_fflags(Some(&text)).unwrap();
    assert_eq!(read, pairs(&[("DFIntA", "-4"), ("FFlagB", "true"), ("FStringC", "yes")]));
    let empty = winflags::settings_file(&vec![]);
    assert_eq!(winflags::read_fflags(Some(&empty)), Some(vec![]));
    assert_eq!(winflags::read_fflags(Some("[1]")), None);
    assert_eq!(winflags::read_fflags(None), None);
}
