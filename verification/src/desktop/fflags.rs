//! The catalogue of engine flags: which exist, and what a few of them do.
//!
//! Names and defaults come from a published list of the client's flags, fetched
//! and cached. The list carries no descriptions, so the notes here are written
//! by hand, and cover only flags whose effect is well established. Those flags
//! mostly do not appear in the published list, so they are listed on their own.

use crate::launcher::sober::{json_object_at, object_at, opt_pairs, pairs_of};
use crate::order::{is_sorted_order, sorted_order, SortKey};
use crate::text::{same, text_le};
use vstd::prelude::*;
use vstd::string::*;

verus! {

/// Sober runs the Android client, so its list is the one that applies.
pub const CATALOG_URL: &'static str =
    "https://raw.githubusercontent.com/MaximumADHD/Roblox-FFlag-Tracker/main/AndroidApp.json";

/// The list is fetched again after so many seconds: three days.
pub const STALE_AFTER: u64 = 259_200;

/// A shorter download is a broken one.
pub const LEAST_BYTES: usize = 2_000;

#[derive(Clone, Debug, PartialEq, Eq)]
pub struct Flag {
    pub name: String,
    /// The client's own default, so that a value can be judged against it.
    pub default: String,
    /// What it does, where that is reliably known.
    pub note: Option<&'static str>,
}

/// Whether a cached list of this age is still good. One without an age is not.
pub fn is_fresh(age_secs: Option<u64>) -> (r: bool)
    ensures
        r == (age_secs matches Some(a) && a < STALE_AFTER),
{
    match age_secs {
        Some(a) => a < STALE_AFTER,
        None => false,
    }
}

/// Whether a download is kept. A truncated one must not replace a good list.
pub fn is_whole(len: usize) -> (r: bool)
    ensures
        r == (len > LEAST_BYTES),
{
    len > LEAST_BYTES
}

/// What a flag does, where that is known.
pub open spec fn note_text(name: Seq<char>) -> Option<Seq<char>> {
    if name == "DFFlagDisableDPIScale"@ {
        Some(
            "Turn off the client's DPI scaling. Renders at true resolution on a high-DPI display."@,
        )
    } else if name == "FIntDebugForceMSAASamples"@ {
        Some(
            "Anti-aliasing sample count. Typically 0, 1, 2 or 4 — higher is smoother and slower."@,
        )
    } else if name == "DFFlagTextureQualityOverrideEnabled"@ {
        Some(
            "Allow the texture quality level below to take effect. Needed for it to do anything."@,
        )
    } else if name == "DFIntTextureQualityOverride"@ {
        Some("Texture quality level, 0-3. Only applies with the override above enabled."@)
    } else if name == "FFlagHandleAltEnterFullscreenManually"@ {
        Some("Let the client handle Alt+Enter fullscreen itself."@)
    } else if name == "FIntCameraMaxZoomDistance"@ {
        Some("How far the camera may zoom out, where the game permits it. Default 400."@)
    } else if name == "FFlagAdServiceEnabled"@ {
        Some("In-game ad billboards. Default on."@)
    } else if name == "FIntFullscreenTitleBarTriggerDelayMillis"@ {
        Some("Delay before the fullscreen title bar appears. Default 500."@)
    } else {
        None
    }
}

pub open spec fn opt_note(n: Option<&'static str>) -> Option<Seq<char>> {
    match n {
        Some(t) => Some(t@),
        None => None,
    }
}

/// What a flag does, where that is known.
pub fn note_of(name: &str) -> (r: Option<&'static str>)
    ensures
        opt_note(r) == note_text(name@),
{
    if same(name, "DFFlagDisableDPIScale") {
        Some(
            "Turn off the client's DPI scaling. Renders at true resolution on a high-DPI display.",
        )
    } else if same(name, "FIntDebugForceMSAASamples") {
        Some(
            "Anti-aliasing sample count. Typically 0, 1, 2 or 4 — higher is smoother and slower.",
        )
    } else if same(name, "DFFlagTextureQualityOverrideEnabled") {
        Some(
            "Allow the texture quality level below to take effect. Needed for it to do anything.",
        )
    } else if same(name, "DFIntTextureQualityOverride") {
        Some("Texture quality level, 0-3. Only applies with the override above enabled.")
    } else if same(name, "FFlagHandleAltEnterFullscreenManually") {
        Some("Let the client handle Alt+Enter fullscreen itself.")
    } else if same(name, "FIntCameraMaxZoomDistance") {
        Some("How far the camera may zoom out, where the game permits it. Default 400.")
    } else if same(name, "FFlagAdServiceEnabled") {
        Some("In-game ad billboards. Default on.")
    } else if same(name, "FIntFullscreenTitleBarTriggerDelayMillis") {
        Some("Delay before the fullscreen title bar appears. Default 500.")
    } else {
        None
    }
}

/// The flags with a note, by name.
pub open spec fn noted(i: int) -> Seq<char> {
    if i == 0 {
        "DFFlagDisableDPIScale"@
    } else if i == 1 {
        "DFFlagTextureQualityOverrideEnabled"@
    } else if i == 2 {
        "DFIntTextureQualityOverride"@
    } else if i == 3 {
        "FFlagAdServiceEnabled"@
    } else if i == 4 {
        "FFlagHandleAltEnterFullscreenManually"@
    } else if i == 5 {
        "FIntCameraMaxZoomDistance"@
    } else if i == 6 {
        "FIntDebugForceMSAASamples"@
    } else {
        "FIntFullscreenTitleBarTriggerDelayMillis"@
    }
}

/// The flags with a note, by name.
pub fn notes() -> (names: Vec<&'static str>)
    ensures
        names.len() == 8,
        forall|i: int| 0 <= i < 8 ==> (#[trigger] names@[i])@ == noted(i),
{
    vec![
        "DFFlagDisableDPIScale",
        "DFFlagTextureQualityOverrideEnabled",
        "DFIntTextureQualityOverride",
        "FFlagAdServiceEnabled",
        "FFlagHandleAltEnterFullscreenManually",
        "FIntCameraMaxZoomDistance",
        "FIntDebugForceMSAASamples",
        "FIntFullscreenTitleBarTriggerDelayMillis",
    ]
}

/// The documented flags as rows, whatever the published list holds.
pub fn documented() -> (out: Vec<Flag>)
    ensures
        out.len() == 8,
        forall|i: int|
            0 <= i < 8 ==> (#[trigger] out@[i]).name@ == noted(i) && out@[i].default@.len() == 0
                && opt_note(out@[i].note) == note_text(noted(i)),
{
    let names = notes();
    let mut out: Vec<Flag> = Vec::new();
    let mut i: usize = 0;
    while i < 8
        invariant
            i <= 8,
            names.len() == 8,
            forall|k: int| 0 <= k < 8 ==> (#[trigger] names@[k])@ == noted(k),
            out.len() == i,
            forall|k: int|
                0 <= k < i ==> (#[trigger] out@[k]).name@ == noted(k) && out@[k].default@.len() == 0
                    && opt_note(out@[k].note) == note_text(noted(k)),
        decreases 8 - i,
    {
        let name = names[i];
        out.push(
            Flag { name: name.to_owned(), default: String::new(), note: note_of(name) },
        );
        i = i + 1;
    }
    out
}

/// Every documented flag says what it does.
pub proof fn law_documented_flags_have_notes(i: int)
    ensures
        note_text(noted(i)) is Some,
{
}

/// `a` is listed before `b`: flags with a note first, then by name.
pub open spec fn flag_le(a: Flag, b: Flag) -> bool {
    ||| a.note is Some && b.note is None
    ||| a.note is Some == b.note is Some && text_le(a.name@, b.name@)
}

/// `out` is the flags of a published list, each with its note, those with a note
/// first and then by name; `from` says where each came from.
pub open spec fn catalog_is(
    pairs: Seq<(Seq<char>, Seq<char>)>,
    out: Seq<Flag>,
    from: Seq<usize>,
) -> bool {
    &&& crate::order::is_permutation(from, pairs.len())
    &&& out.len() == pairs.len()
    &&& forall|i: int|
        0 <= i < out.len() ==> (#[trigger] out[i]).name@ == pairs[from[i] as int].0
            && out[i].default@ == pairs[from[i] as int].1 && opt_note(out[i].note) == note_text(
            out[i].name@,
        )
    &&& forall|i: int, j: int|
        0 <= i < j < out.len() ==> flag_le(#[trigger] out[i], #[trigger] out[j])
}

pub open spec fn is_catalog(pairs: Seq<(Seq<char>, Seq<char>)>, out: Seq<Flag>) -> bool {
    exists|from: Seq<usize>| #[trigger] catalog_is(pairs, out, from)
}

/// The flags of a published list that was read.
pub fn listed(pairs: &Vec<(String, String)>) -> (out: Vec<Flag>)
    ensures
        is_catalog(pairs_of(pairs@), out@),
{
    let ghost all = pairs_of(pairs@);
    let mut keys: Vec<SortKey> = Vec::new();
    let mut i: usize = 0;
    while i < pairs.len()
        invariant
            i <= pairs.len(),
            all == pairs_of(pairs@),
            keys.len() == i,
            forall|k: int|
                0 <= k < i ==> (#[trigger] keys@[k]).first == (if note_text(all[k].0) is Some {
                    0int
                } else {
                    1
                }) && keys@[k].second == 0 && keys@[k].name@ == all[k].0,
        decreases pairs.len() - i,
    {
        let first: i64 = match note_of(pairs[i].0.as_str()) {
            Some(_) => 0,
            None => 1,
        };
        keys.push(SortKey { first, second: 0, name: pairs[i].0.clone() });
        i = i + 1;
    }
    let order = sorted_order(&keys);
    let mut out: Vec<Flag> = Vec::new();
    let mut n: usize = 0;
    while n < order.len()
        invariant
            n <= order.len(),
            order.len() == pairs.len(),
            keys.len() == pairs.len(),
            all == pairs_of(pairs@),
            is_sorted_order(order@, keys@),
            out.len() == n,
            forall|k: int|
                0 <= k < n ==> (#[trigger] out@[k]).name@ == all[order@[k] as int].0
                    && out@[k].default@ == all[order@[k] as int].1 && opt_note(out@[k].note)
                    == note_text(out@[k].name@),
        decreases order.len() - n,
    {
        let p = &pairs[order[n]];
        out.push(Flag { name: p.0.clone(), default: p.1.clone(), note: note_of(p.0.as_str()) });
        n = n + 1;
    }
    proof {
        assert forall|a: int, b: int| 0 <= a < b < out.len() implies flag_le(
            #[trigger] out@[a],
            #[trigger] out@[b],
        ) by {
            let x = order@[a];
            let y = order@[b];
            assert(crate::order::precedes(keys@, x, y));
            assert(keys@[x as int].name@ == all[x as int].0);
            assert(keys@[y as int].name@ == all[y as int].0);
        }
        assert(catalog_is(all, out@, order@));
    }
    out
}

/// Read a published list. One that cannot be read has no flags.
pub fn parse(text: &str) -> (out: Vec<Flag>)
    ensures
        match object_at(text@, ""@) {
            Some(pairs) => is_catalog(pairs, out@),
            None => out.len() == 0,
        },
{
    let found = json_object_at(text, "");
    assert(opt_pairs(found) == object_at(text@, ""@));
    match found {
        Some(pairs) => listed(&pairs),
        None => Vec::new(),
    }
}

/// What the documented flags do, and that nothing is said of any other.
pub proof fn law_what_flags_do(name: Seq<char>)
    ensures
        note_text("DFFlagDisableDPIScale"@)
            == Some("Turn off the client's DPI scaling. Renders at true resolution on a high-DPI display."@),
        note_text("FIntDebugForceMSAASamples"@)
            == Some("Anti-aliasing sample count. Typically 0, 1, 2 or 4 — higher is smoother and slower."@),
        note_text("DFFlagTextureQualityOverrideEnabled"@)
            == Some("Allow the texture quality level below to take effect. Needed for it to do anything."@),
        note_text("DFIntTextureQualityOverride"@)
            == Some("Texture quality level, 0-3. Only applies with the override above enabled."@),
        note_text("FFlagHandleAltEnterFullscreenManually"@)
            == Some("Let the client handle Alt+Enter fullscreen itself."@),
        note_text("FIntCameraMaxZoomDistance"@)
            == Some("How far the camera may zoom out, where the game permits it. Default 400."@),
        note_text("FFlagAdServiceEnabled"@)
            == Some("In-game ad billboards. Default on."@),
        note_text("FIntFullscreenTitleBarTriggerDelayMillis"@)
            == Some("Delay before the fullscreen title bar appears. Default 500."@),
        name != "DFFlagDisableDPIScale"@ && name != "FIntDebugForceMSAASamples"@ && name != "DFFlagTextureQualityOverrideEnabled"@ && name != "DFIntTextureQualityOverride"@ && name != "FFlagHandleAltEnterFullscreenManually"@ && name != "FIntCameraMaxZoomDistance"@ && name != "FFlagAdServiceEnabled"@ && name != "FIntFullscreenTitleBarTriggerDelayMillis"@
            ==> note_text(name) is None,
{
    reveal_strlit("DFFlagDisableDPIScale");
    reveal_strlit("FIntDebugForceMSAASamples");
    reveal_strlit("DFFlagTextureQualityOverrideEnabled");
    reveal_strlit("DFIntTextureQualityOverride");
    reveal_strlit("FFlagHandleAltEnterFullscreenManually");
    reveal_strlit("FIntCameraMaxZoomDistance");
    reveal_strlit("FFlagAdServiceEnabled");
    reveal_strlit("FIntFullscreenTitleBarTriggerDelayMillis");
    assert("DFFlagDisableDPIScale"@.len() == 21);
    assert("DFFlagTextureQualityOverrideEnabled"@.len() == 35);
    assert("DFIntTextureQualityOverride"@.len() == 27);
    assert("FFlagAdServiceEnabled"@.len() == 21);
    assert("FFlagHandleAltEnterFullscreenManually"@.len() == 37);
    assert("FIntCameraMaxZoomDistance"@.len() == 25);
    assert("FIntDebugForceMSAASamples"@.len() == 25);
    assert("FIntFullscreenTitleBarTriggerDelayMillis"@.len() == 40);
    assert("DFFlagDisableDPIScale"@[0] == 'D' && "FFlagAdServiceEnabled"@[0] == 'F');
    assert("FIntCameraMaxZoomDistance"@[4] == 'C' && "FIntDebugForceMSAASamples"@[4] == 'D');
}

/// The documented flags in their order.
pub proof fn law_documented_flags()
    ensures
        noted(0) == "DFFlagDisableDPIScale"@,
        noted(1) == "DFFlagTextureQualityOverrideEnabled"@,
        noted(2) == "DFIntTextureQualityOverride"@,
        noted(3) == "FFlagAdServiceEnabled"@,
        noted(4) == "FFlagHandleAltEnterFullscreenManually"@,
        noted(5) == "FIntCameraMaxZoomDistance"@,
        noted(6) == "FIntDebugForceMSAASamples"@,
        noted(7) == "FIntFullscreenTitleBarTriggerDelayMillis"@,
        STALE_AFTER == 3 * 86_400,
        LEAST_BYTES == 2000,
        CATALOG_URL@
            == "https://raw.githubusercontent.com/MaximumADHD/Roblox-FFlag-Tracker/main/AndroidApp.json"@,
{
}

/// The flag is listed, with its default.
pub open spec fn lists_flag(out: Seq<Flag>, p: (Seq<char>, Seq<char>)) -> bool {
    exists|i: int| 0 <= i < out.len() && (#[trigger] out[i]).name@ == p.0 && out[i].default@ == p.1
}

/// The catalogue lists every published flag with its default, those first of which it
/// is known what they do, and each of the two parts by name.
pub proof fn law_the_order_of_the_catalogue(
    pairs: Seq<(Seq<char>, Seq<char>)>,
    out: Seq<Flag>,
    from: Seq<usize>,
)
    requires
        catalog_is(pairs, out, from),
        pairs.len() <= usize::MAX,
    ensures
        out.len() == pairs.len(),
        forall|i: int, j: int|
            0 <= i < j < out.len() && note_text((#[trigger] out[j]).name@) is Some ==> note_text(
                (#[trigger] out[i]).name@,
            ) is Some,
        forall|i: int, j: int|
            0 <= i < j < out.len() && (note_text((#[trigger] out[j]).name@) is Some) == (note_text(
                (#[trigger] out[i]).name@,
            ) is Some) ==> text_le(out[i].name@, out[j].name@),
        forall|k: int| 0 <= k < pairs.len() ==> lists_flag(out, #[trigger] pairs[k]),
{
    assert forall|i: int, j: int| 0 <= i < j < out.len() implies flag_le(
        #[trigger] out[i],
        #[trigger] out[j],
    ) && opt_note(out[i].note) == note_text(out[i].name@) && opt_note(out[j].note) == note_text(
        out[j].name@,
    ) by {}
    assert forall|k: int| 0 <= k < pairs.len() implies lists_flag(out, #[trigger] pairs[k]) by {
        crate::order::lemma_permutation_hits(from, pairs.len(), k as usize);
        let i = choose|i: int| 0 <= i < from.len() && from[i] == k as usize;
        assert(out[i].name@ == pairs[k].0);
    }
}

} // verus!
