//! Starting-point macros.
//!
//! Each is expressed in the same steps a user's own macro uses. The timings are
//! plausible starting points, and every step can be edited.

use crate::macroeng::keys::Key;
use crate::macroeng::{
    keys_held, law_held_keys_follow_the_last_press, total_ms, Macro, Mode, MouseButton, Step,
};
use vstd::prelude::*;

verus! {

/// The macro is this one, and enabled.
pub open spec fn preset_is(
    m: Macro,
    id: Seq<char>,
    name: Seq<char>,
    description: Seq<char>,
    mode: Mode,
    hotkey: Key,
    gap: u64,
    steps: Seq<Step>,
) -> bool {
    &&& m.id@ == id
    &&& m.name@ == name
    &&& m.description@ == description
    &&& m.enabled
    &&& m.mode == mode
    &&& m.hotkey == Some(hotkey)
    &&& m.cycle_gap_ms == gap
    &&& m.steps@ == steps
}

pub open spec fn bunnyhop_steps() -> Seq<Step> {
    seq![
        Step::KeyDown { key: Key::W },
        Step::Tap { key: Key::Space, hold_ms: 30 },
        Step::Wait { ms: 120 },
    ]
}

/// Repeated jumps while holding forward.
pub fn bunnyhop() -> (m: Macro)
    ensures
        preset_is(
            m,
            "bunnyhop"@,
            "Bunnyhop"@,
            "Holds forward and jumps on a fixed cadence."@,
            Mode::Toggle,
            Key::F1,
            20,
            bunnyhop_steps(),
        ),
{
    let steps = vec![
        Step::KeyDown { key: Key::W },
        Step::Tap { key: Key::Space, hold_ms: 30 },
        Step::Wait { ms: 120 },
    ];
    assert(steps@ =~= bunnyhop_steps());
    Macro {
        id: "bunnyhop".to_owned(),
        name: "Bunnyhop".to_owned(),
        description: "Holds forward and jumps on a fixed cadence.".to_owned(),
        enabled: true,
        mode: Mode::Toggle,
        hotkey: Some(Key::F1),
        steps,
        cycle_gap_ms: 20,
    }
}

pub open spec fn wallhop_steps() -> Seq<Step> {
    seq![
        Step::KeyDown { key: Key::W },
        Step::Tap { key: Key::Space, hold_ms: 25 },
        Step::KeyDown { key: Key::A },
        Step::Wait { ms: 45 },
        Step::KeyUp { key: Key::A },
        Step::KeyDown { key: Key::D },
        Step::Wait { ms: 45 },
        Step::KeyUp { key: Key::D },
        Step::Wait { ms: 60 },
    ]
}

/// Jump into a wall while alternating strafe direction.
pub fn wallhop() -> (m: Macro)
    ensures
        preset_is(
            m,
            "wallhop"@,
            "Wallhop"@,
            "Jumps into a wall while alternating strafe direction. Timings need tuning for your ping and the game."@,
            Mode::Toggle,
            Key::F2,
            0,
            wallhop_steps(),
        ),
{
    let steps = vec![
        Step::KeyDown { key: Key::W },
        Step::Tap { key: Key::Space, hold_ms: 25 },
        Step::KeyDown { key: Key::A },
        Step::Wait { ms: 45 },
        Step::KeyUp { key: Key::A },
        Step::KeyDown { key: Key::D },
        Step::Wait { ms: 45 },
        Step::KeyUp { key: Key::D },
        Step::Wait { ms: 60 },
    ];
    assert(steps@ =~= wallhop_steps());
    Macro {
        id: "wallhop".to_owned(),
        name: "Wallhop".to_owned(),
        description: "Jumps into a wall while alternating strafe direction. Timings need tuning for your ping and the game.".to_owned(),
        enabled: true,
        mode: Mode::Toggle,
        hotkey: Some(Key::F2),
        steps,
        cycle_gap_ms: 0,
    }
}

pub open spec fn wall_walk_steps() -> Seq<Step> {
    seq![
        Step::KeyDown { key: Key::W },
        Step::MouseMove { dx: 6, dy: 0 },
        Step::Wait { ms: 30 },
        Step::MouseMove { dx: -6i32, dy: 0 },
        Step::Wait { ms: 30 },
    ]
}

/// Hold into a wall while nudging the camera along it.
pub fn wall_walk() -> (m: Macro)
    ensures
        preset_is(
            m,
            "wallwalk"@,
            "Wall walk"@,
            "Holds into a wall while nudging the camera along it."@,
            Mode::Hold,
            Key::F4,
            0,
            wall_walk_steps(),
        ),
{
    let steps = vec![
        Step::KeyDown { key: Key::W },
        Step::MouseMove { dx: 6, dy: 0 },
        Step::Wait { ms: 30 },
        Step::MouseMove { dx: -6, dy: 0 },
        Step::Wait { ms: 30 },
    ];
    assert(steps@ =~= wall_walk_steps());
    Macro {
        id: "wallwalk".to_owned(),
        name: "Wall walk".to_owned(),
        description: "Holds into a wall while nudging the camera along it.".to_owned(),
        enabled: true,
        mode: Mode::Hold,
        hotkey: Some(Key::F4),
        steps,
        cycle_gap_ms: 0,
    }
}

pub open spec fn key_spam_steps() -> Seq<Step> {
    seq![Step::Tap { key: Key::E, hold_ms: 15 }, Step::Wait { ms: 85 }]
}

/// Repeat one key at a fixed rate.
pub fn key_spam() -> (m: Macro)
    ensures
        preset_is(
            m,
            "keyspam"@,
            "Key spam"@,
            "Repeats a single key. Change the key and rate below."@,
            Mode::Toggle,
            Key::F5,
            0,
            key_spam_steps(),
        ),
{
    let steps = vec![Step::Tap { key: Key::E, hold_ms: 15 }, Step::Wait { ms: 85 }];
    assert(steps@ =~= key_spam_steps());
    Macro {
        id: "keyspam".to_owned(),
        name: "Key spam".to_owned(),
        description: "Repeats a single key. Change the key and rate below.".to_owned(),
        enabled: true,
        mode: Mode::Toggle,
        hotkey: Some(Key::F5),
        steps,
        cycle_gap_ms: 0,
    }
}

pub open spec fn auto_clicker_steps() -> Seq<Step> {
    seq![
        Step::MouseDown { button: MouseButton::Left },
        Step::Wait { ms: 20 },
        Step::MouseUp { button: MouseButton::Left },
        Step::Wait { ms: 80 },
    ]
}

/// Left clicks at a fixed rate.
pub fn auto_clicker() -> (m: Macro)
    ensures
        preset_is(
            m,
            "autoclick"@,
            "Auto clicker"@,
            "Clicks at a fixed rate, roughly 10 per second."@,
            Mode::Toggle,
            Key::F6,
            0,
            auto_clicker_steps(),
        ),
{
    let steps = vec![
        Step::MouseDown { button: MouseButton::Left },
        Step::Wait { ms: 20 },
        Step::MouseUp { button: MouseButton::Left },
        Step::Wait { ms: 80 },
    ];
    assert(steps@ =~= auto_clicker_steps());
    Macro {
        id: "autoclick".to_owned(),
        name: "Auto clicker".to_owned(),
        description: "Clicks at a fixed rate, roughly 10 per second.".to_owned(),
        enabled: true,
        mode: Mode::Toggle,
        hotkey: Some(Key::F6),
        steps,
        cycle_gap_ms: 0,
    }
}

/// The presets, in their order.
pub open spec fn presets_are(list: Seq<Macro>) -> bool {
    &&& list.len() == 5
    &&& preset_is(
        list[0],
        "bunnyhop"@,
        "Bunnyhop"@,
        "Holds forward and jumps on a fixed cadence."@,
        Mode::Toggle,
        Key::F1,
        20,
        bunnyhop_steps(),
    )
    &&& preset_is(
        list[1],
        "wallhop"@,
        "Wallhop"@,
        "Jumps into a wall while alternating strafe direction. Timings need tuning for your ping and the game."@,
        Mode::Toggle,
        Key::F2,
        0,
        wallhop_steps(),
    )
    &&& preset_is(
        list[2],
        "wallwalk"@,
        "Wall walk"@,
        "Holds into a wall while nudging the camera along it."@,
        Mode::Hold,
        Key::F4,
        0,
        wall_walk_steps(),
    )
    &&& preset_is(
        list[3],
        "keyspam"@,
        "Key spam"@,
        "Repeats a single key. Change the key and rate below."@,
        Mode::Toggle,
        Key::F5,
        0,
        key_spam_steps(),
    )
    &&& preset_is(
        list[4],
        "autoclick"@,
        "Auto clicker"@,
        "Clicks at a fixed rate, roughly 10 per second."@,
        Mode::Toggle,
        Key::F6,
        0,
        auto_clicker_steps(),
    )
}

/// Every preset.
pub fn all() -> (list: Vec<Macro>)
    ensures
        presets_are(list@),
{
    let mut list: Vec<Macro> = Vec::new();
    list.push(bunnyhop());
    list.push(wallhop());
    list.push(wall_walk());
    list.push(key_spam());
    list.push(auto_clicker());
    list
}

/// Every preset does something, takes time for a pass, and has an id and a
/// hotkey of its own.
pub proof fn law_presets_are_sound(list: Seq<Macro>, i: int, j: int)
    requires
        presets_are(list),
        0 <= i < list.len(),
        0 <= j < list.len(),
    ensures
        list[i].does_something(),
        total_ms(list[i].steps@) > 0,
        i != j ==> list[i].id@ != list[j].id@,
        i != j ==> list[i].hotkey != list[j].hotkey,
{
    assert(list[i].does_something()) by {
        assert(!(list[i].steps@[0] is Wait));
    }
    reveal_with_fuel(total_ms, 10);
    assert(list[i].steps@.last().lasts() > 0 ==> total_ms(list[i].steps@) > 0);
    reveal_strlit("bunnyhop");
    reveal_strlit("wallhop");
    reveal_strlit("wallwalk");
    reveal_strlit("keyspam");
    reveal_strlit("autoclick");
    assert("bunnyhop"@[0] == 'b');
    assert("wallhop"@[4] == 'h');
    assert("wallwalk"@[4] == 'w');
    assert("keyspam"@[0] == 'k');
    assert("autoclick"@[0] == 'a');
    assert("wallhop"@[0] == 'w');
    assert("wallwalk"@[0] == 'w');
}

/// What ships, step by step: forward held with a jump every so often, a jump into a
/// wall with the strafe going left and right, the camera nudged to and fro along a
/// wall, one key again and again, and one button again and again.
pub proof fn law_the_presets_step_by_step(list: Seq<Macro>)
    requires
        presets_are(list),
    ensures
        list.len() == 5,
        list[0].id@ == "bunnyhop"@ && list[0].name@ == "Bunnyhop"@ && list[0].enabled,
        list[0].mode == Mode::Toggle && list[0].hotkey == Some(Key::F1) && list[0].cycle_gap_ms
            == 20,
        list[0].steps@ == seq![
            Step::KeyDown { key: Key::W },
            Step::Tap { key: Key::Space, hold_ms: 30 },
            Step::Wait { ms: 120 },
        ],
        list[1].id@ == "wallhop"@ && list[1].name@ == "Wallhop"@ && list[1].enabled,
        list[1].mode == Mode::Toggle && list[1].hotkey == Some(Key::F2) && list[1].cycle_gap_ms
            == 0,
        list[1].steps@ == seq![
            Step::KeyDown { key: Key::W },
            Step::Tap { key: Key::Space, hold_ms: 25 },
            Step::KeyDown { key: Key::A },
            Step::Wait { ms: 45 },
            Step::KeyUp { key: Key::A },
            Step::KeyDown { key: Key::D },
            Step::Wait { ms: 45 },
            Step::KeyUp { key: Key::D },
            Step::Wait { ms: 60 },
        ],
        list[2].id@ == "wallwalk"@ && list[2].name@ == "Wall walk"@ && list[2].enabled,
        list[2].mode == Mode::Hold && list[2].hotkey == Some(Key::F4) && list[2].cycle_gap_ms
            == 0,
        list[2].steps@ == seq![
            Step::KeyDown { key: Key::W },
            Step::MouseMove { dx: 6, dy: 0 },
            Step::Wait { ms: 30 },
            Step::MouseMove { dx: -6i32, dy: 0 },
            Step::Wait { ms: 30 },
        ],
        list[3].id@ == "keyspam"@ && list[3].name@ == "Key spam"@ && list[3].enabled,
        list[3].mode == Mode::Toggle && list[3].hotkey == Some(Key::F5) && list[3].cycle_gap_ms
            == 0,
        list[3].steps@ == seq![Step::Tap { key: Key::E, hold_ms: 15 }, Step::Wait { ms: 85 }],
        list[4].id@ == "autoclick"@ && list[4].name@ == "Auto clicker"@ && list[4].enabled,
        list[4].mode == Mode::Toggle && list[4].hotkey == Some(Key::F6) && list[4].cycle_gap_ms
            == 0,
        list[4].steps@ == seq![
            Step::MouseDown { button: MouseButton::Left },
            Step::Wait { ms: 20 },
            Step::MouseUp { button: MouseButton::Left },
            Step::Wait { ms: 80 },
        ],
{
}

/// What a preset leaves held: the key for forward where it walks, and no button.
pub proof fn law_presets_hold_forward_at_most(list: Seq<Macro>, i: int, key: Key)
    requires
        presets_are(list),
        0 <= i < list.len(),
    ensures
        keys_held(list[i].steps@).contains(key) ==> key == Key::W,
{
    law_held_keys_follow_the_last_press(list[i].steps@, key);
    let steps = list[i].steps@;
    if keys_held(steps).contains(key) && i == 1 {
        assert(steps[4] == (Step::KeyUp { key: Key::A }));
        assert(steps[7] == (Step::KeyUp { key: Key::D }));
    }
}

} // verus!
