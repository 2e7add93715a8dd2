//! What a hotkey does.
//!
//! Without this one would have to leave the game to start a macro, which defeats
//! the point.

use crate::desktop::macros::{is_among, run_views, start, startable, stop, stopped_runs};
use crate::macroeng::focus::Focus;
use crate::macroeng::hotkeys::HotkeyEvent;
use crate::macroeng::keys::Key;
use crate::macroeng::{Engine, Macro, Mode};
use crate::text::{ascii_lowercase, same};
use vstd::prelude::*;

verus! {

/// The panic key where the one that was set cannot be read.
pub const DEFAULT_PANIC_KEY: Key = Key::F8;

/// The panic key by its name.
pub open spec fn panic_named(label: Seq<char>, k: Key) -> bool {
    if exists|j: Key| ascii_lowercase(#[trigger] j.label_text()) == ascii_lowercase(label) {
        ascii_lowercase(k.label_text()) == ascii_lowercase(label)
    } else {
        k == DEFAULT_PANIC_KEY
    }
}

/// The key that stops every macro.
pub fn panic_key(label: &str) -> (k: Key)
    ensures
        panic_named(label@, k),
{
    match Key::from_label(label) {
        Some(k) => k,
        None => DEFAULT_PANIC_KEY,
    }
}

/// What is shown again after an event.
#[derive(Debug, Clone, Copy, PartialEq, Eq, Structural)]
pub enum Refresh {
    Nothing,
    Settings,
    Editor,
    Macros,
}

/// What an event led to.
#[derive(Debug)]
pub struct Reaction {
    pub refresh: Refresh,
    /// The macros that were started, by their place in the list.
    pub started: Vec<usize>,
}

/// The state of the hotkeys: which macros run while a key is held, and whether
/// the next key is to be bound to something.
pub struct HotkeyDesk {
    pub held: Vec<(Key, String)>,
    /// The editor waits for a key.
    pub capturing: bool,
    /// The settings wait for a panic key.
    pub binding_panic: bool,
}

/// What the user chose about macros.
pub struct HotkeyRules {
    pub enabled: bool,
    pub only_when_focused: bool,
}

/// The macros held down, with their keys.
pub open spec fn held_views(held: Seq<(Key, String)>) -> Seq<(Key, Seq<char>)> {
    held.map_values(|h: (Key, String)| (h.0, h.1@))
}

/// Those that are held by another key.
pub open spec fn held_without(held: Seq<(Key, Seq<char>)>, key: Key) -> Seq<(Key, Seq<char>)>
    decreases held.len(),
{
    if held.len() == 0 {
        Seq::empty()
    } else {
        let before = held_without(held.drop_last(), key);
        if held.last().0 == key {
            before
        } else {
            before.push(held.last())
        }
    }
}

/// The runs, each asked to stop that a key holds.
pub open spec fn let_go(
    running: Seq<(Seq<char>, bool)>,
    held: Seq<(Key, Seq<char>)>,
    key: Key,
) -> Seq<(Seq<char>, bool)>
    decreases held.len(),
{
    if held.len() == 0 {
        running
    } else {
        let before = let_go(running, held.drop_last(), key);
        if held.last().0 == key {
            stopped_runs(before, held.last().1)
        } else {
            before
        }
    }
}

/// The runs, what is held, and what was started.
pub ghost struct Board {
    pub running: Seq<(Seq<char>, bool)>,
    pub held: Seq<(Key, Seq<char>)>,
    pub started: Seq<usize>,
}

/// A macro answers to a key that was pressed.
pub open spec fn answered(b: Board, m: Macro, i: int, key: Key) -> Board {
    if !m.enabled || m.hotkey != Some(key) {
        b
    } else if m.mode == Mode::Toggle && is_among(b.running, m.id@) {
        Board { running: stopped_runs(b.running, m.id@), ..b }
    } else if startable(b.running, m) {
        Board {
            running: b.running.push((m.id@, false)),
            held: if m.mode == Mode::Hold {
                b.held.push((key, m.id@))
            } else {
                b.held
            },
            started: b.started.push(i as usize),
        }
    } else {
        b
    }
}

/// The first `n` macros answer to a key, one after the other.
pub open spec fn all_answered(b: Board, macros: Seq<Macro>, key: Key, n: nat) -> Board
    decreases n,
{
    if n == 0 {
        b
    } else {
        answered(all_answered(b, macros, key, (n - 1) as nat), macros[n - 1], n - 1, key)
    }
}

/// The macros after a key was bound to the one of an id, or unbound from it. A
/// key belongs to one macro.
pub open spec fn rebound(m: Macro, id: Seq<char>, bind: Option<Key>) -> Macro {
    if m.id@ == id {
        Macro { hotkey: bind, ..m }
    } else if m.hotkey == bind {
        Macro { hotkey: None, ..m }
    } else {
        m
    }
}

/// Bind a key to the macro of an id, or unbind it.
pub fn bind_key(macros: &mut Vec<Macro>, id: &str, bind: Option<Key>)
    ensures
        final(macros).len() == old(macros).len(),
        forall|i: int|
            0 <= i < final(macros).len() ==> #[trigger] final(macros)@[i] == rebound(
                old(macros)@[i],
                id@,
                bind,
            ),
{
    let ghost before = macros@;
    let mut i: usize = 0;
    while i < macros.len()
        invariant
            i <= macros.len(),
            macros.len() == before.len(),
            forall|k: int|
                0 <= k < i ==> #[trigger] macros@[k] == rebound(before[k], id@, bind),
            forall|k: int| i <= k < before.len() ==> #[trigger] macros@[k] == before[k],
        decreases macros.len() - i,
    {
        let own = same(macros[i].id.as_str(), id);
        if own {
            macros[i].hotkey = bind;
        } else if macros[i].hotkey == bind {
            macros[i].hotkey = None;
        }
        i = i + 1;
    }
}

/// After a key was bound, no other macro answers to it.
pub proof fn law_a_key_belongs_to_one_macro(m: Macro, id: Seq<char>, key: Key)
    ensures
        m.id@ == id ==> rebound(m, id, Some(key)).hotkey == Some(key),
        m.id@ != id ==> rebound(m, id, Some(key)).hotkey != Some(key),
        rebound(m, id, Some(key)).id == m.id,
        rebound(m, id, Some(key)).steps == m.steps,
{
}

/// The key that a press binds: escape unbinds.
pub open spec fn bound_by(key: Key) -> Option<Key> {
    if key == Key::Escape {
        None
    } else {
        Some(key)
    }
}

impl HotkeyDesk {
    pub fn new() -> (d: HotkeyDesk)
        ensures
            d.held@.len() == 0,
            !d.capturing,
            !d.binding_panic,
    {
        HotkeyDesk { held: Vec::new(), capturing: false, binding_panic: false }
    }

    /// Wait for a panic key, or stop waiting for one.
    pub fn bind_panic_key(&mut self)
        ensures
            *final(self) == (HotkeyDesk { binding_panic: !old(self).binding_panic, ..*old(self) }),
    {
        self.binding_panic = !self.binding_panic;
    }

    /// Let go of the macros that a key holds.
    fn release(&mut self, engine: &mut Engine, key: Key)
        requires
            old(engine).wf(),
        ensures
            final(engine).wf(),
            final(self).capturing == old(self).capturing,
            final(self).binding_panic == old(self).binding_panic,
            held_views(final(self).held@) == held_without(held_views(old(self).held@), key),
            run_views(final(engine).running@) == let_go(
                run_views(old(engine).running@),
                held_views(old(self).held@),
                key,
            ),
    {
        let ghost before = held_views(self.held@);
        let ghost running = run_views(engine.running@);
        let mut kept: Vec<(Key, String)> = Vec::new();
        let mut i: usize = 0;
        assert(before.take(0) =~= Seq::<(Key, Seq<char>)>::empty());
        assert(held_views(kept@) =~= Seq::<(Key, Seq<char>)>::empty());
        while i < self.held.len()
            invariant
                i <= self.held.len(),
                before == held_views(self.held@),
                self.capturing == old(self).capturing,
                self.binding_panic == old(self).binding_panic,
                engine.wf(),
                held_views(kept@) == held_without(before.take(i as int), key),
                run_views(engine.running@) == let_go(running, before.take(i as int), key),
            decreases self.held.len() - i,
        {
            assert(before.take(i as int + 1).drop_last() =~= before.take(i as int));
            assert(before.take(i as int + 1).last() == before[i as int]);
            let k = self.held[i].0;
            let id = self.held[i].1.clone();
            let ghost so_far = kept@;
            if k == key {
                stop(engine, id.as_str());
            } else {
                kept.push((k, id));
                assert(held_views(kept@) =~= held_views(so_far).push(before[i as int]));
            }
            i = i + 1;
        }
        assert(before.take(before.len() as int) =~= before);
        self.held = kept;
    }

    /// A key was pressed: every macro that has it for its hotkey answers.
    fn press(&mut self, engine: &mut Engine, macros: &Vec<Macro>, key: Key) -> (started: Vec<usize>)
        requires
            old(engine).wf(),
        ensures
            final(engine).wf(),
            final(self).capturing == old(self).capturing,
            final(self).binding_panic == old(self).binding_panic,
            ({
                let b = all_answered(
                    (Board {
                        running: run_views(old(engine).running@),
                        held: held_views(old(self).held@),
                        started: Seq::empty(),
                    }),
                    macros@,
                    key,
                    macros@.len(),
                );
                &&& run_views(final(engine).running@) == b.running
                &&& held_views(final(self).held@) == b.held
                &&& started@ == b.started
            }),
    {
        let ghost first = Board {
            running: run_views(engine.running@),
            held: held_views(self.held@),
            started: Seq::empty(),
        };
        let mut started: Vec<usize> = Vec::new();
        let mut i: usize = 0;
        while i < macros.len()
            invariant
                i <= macros.len(),
                engine.wf(),
                self.capturing == old(self).capturing,
                self.binding_panic == old(self).binding_panic,
                ({
                    let b = all_answered(first, macros@, key, i as nat);
                    &&& run_views(engine.running@) == b.running
                    &&& held_views(self.held@) == b.held
                    &&& started@ == b.started
                }),
            decreases macros.len() - i,
        {
            let m = &macros[i];
            let ghost held = self.held@;
            proof {
                crate::desktop::macros::lemma_run_views(engine.running@, m.id@);
            }
            let answers = match m.hotkey {
                Some(k) => k == key,
                None => false,
            };
            if m.enabled && answers {
                match m.mode {
                    Mode::Hold => {
                        if start(engine, m) {
                            self.held.push((key, m.id.clone()));
                            started.push(i);
                            assert(held_views(self.held@) =~= held_views(held).push((key, m.id@)));
                        }
                    },
                    Mode::Toggle => {
                        if engine.is_running(m.id.as_str()) {
                            stop(engine, m.id.as_str());
                        } else if start(engine, m) {
                            started.push(i);
                        }
                    },
                    Mode::Once => {
                        if start(engine, m) {
                            started.push(i);
                        }
                    },
                }
            }
            i = i + 1;
        }
        started
    }

    /// Take in an event. In this order: a key that is being bound is bound and
    /// does nothing else; the panic key stops every macro, also while macros are
    /// switched off; a macro whose key was released stops, also outside the game;
    /// and then the macros answer.
    pub fn handle(
        &mut self,
        engine: &mut Engine,
        macros: &mut Vec<Macro>,
        editing: &Option<String>,
        panic_label: &mut String,
        rules: &HotkeyRules,
        focus: Focus,
        event: HotkeyEvent,
    ) -> (r: Reaction)
        requires
            old(engine).wf(),
        ensures
            final(engine).wf(),
            event_handled(
                *old(self),
                *final(self),
                run_views(old(engine).running@),
                run_views(final(engine).running@),
                old(macros)@,
                final(macros)@,
                *editing,
                old(panic_label)@,
                final(panic_label)@,
                *rules,
                focus,
                event,
                r,
            ),
    {
        let none: Vec<usize> = Vec::new();
        if self.binding_panic {
            return match event {
                HotkeyEvent::Pressed(key) => {
                    self.binding_panic = false;
                    if key != Key::Escape {
                        *panic_label = key.label().to_owned();
                    }
                    Reaction { refresh: Refresh::Settings, started: none }
                },
                HotkeyEvent::Released(_) => Reaction { refresh: Refresh::Nothing, started: none },
            };
        }
        if self.capturing {
            return match event {
                HotkeyEvent::Pressed(key) => {
                    self.capturing = false;
                    match editing {
                        Some(id) => {
                            let bind = if key == Key::Escape {
                                None
                            } else {
                                Some(key)
                            };
                            bind_key(macros, id.as_str(), bind);
                        },
                        None => {},
                    }
                    Reaction { refresh: Refresh::Editor, started: none }
                },
                HotkeyEvent::Released(_) => Reaction { refresh: Refresh::Nothing, started: none },
            };
        }
        let panic = panic_key(panic_label.as_str());
        proof {
            lemma_one_panic_key(panic_label@, panic);
        }
        if event == HotkeyEvent::Pressed(panic) {
            let ghost before = engine.running@;
            engine.stop_all();
            self.held.clear();
            assert(run_views(engine.running@) =~= all_stopped(run_views(before)));
            return Reaction { refresh: Refresh::Macros, started: none };
        }
        if !rules.enabled {
            return Reaction { refresh: Refresh::Nothing, started: none };
        }
        if rules.only_when_focused && !focus.allows_macros() {
            match event {
                HotkeyEvent::Released(key) => {
                    self.release(engine, key);
                },
                HotkeyEvent::Pressed(_) => {},
            }
            return Reaction { refresh: Refresh::Nothing, started: none };
        }
        let started = match event {
            HotkeyEvent::Pressed(key) => self.press(engine, macros, key),
            HotkeyEvent::Released(key) => {
                self.release(engine, key);
                none
            },
        };
        Reaction { refresh: Refresh::Macros, started }
    }
}

/// Every run was asked to stop.
pub open spec fn all_stopped(running: Seq<(Seq<char>, bool)>) -> Seq<(Seq<char>, bool)> {
    running.map_values(|r: (Seq<char>, bool)| (r.0, true))
}

/// The panic key of a label.
pub open spec fn panic_of(label: Seq<char>) -> Key {
    choose|k: Key| #[trigger] panic_named(label, k)
}

proof fn lemma_one_panic_key(label: Seq<char>, k: Key)
    requires
        panic_named(label, k),
    ensures
        panic_of(label) == k,
{
    let other = panic_of(label);
    assert(panic_named(label, other));
    if exists|j: Key| ascii_lowercase(#[trigger] j.label_text()) == ascii_lowercase(label) {
        crate::macroeng::keys::law_labels_name_one_key(other, k);
    }
}

/// Nothing that a key press can change has changed.
pub open spec fn nothing_done(
    desk: HotkeyDesk,
    after: HotkeyDesk,
    running: Seq<(Seq<char>, bool)>,
    running_after: Seq<(Seq<char>, bool)>,
) -> bool {
    desk == after && running == running_after
}

/// What an event does.
pub open spec fn event_handled(
    desk: HotkeyDesk,
    after: HotkeyDesk,
    running: Seq<(Seq<char>, bool)>,
    running_after: Seq<(Seq<char>, bool)>,
    macros: Seq<Macro>,
    macros_after: Seq<Macro>,
    editing: Option<String>,
    panic_label: Seq<char>,
    panic_after: Seq<char>,
    rules: HotkeyRules,
    focus: Focus,
    event: HotkeyEvent,
    r: Reaction,
) -> bool {
    if desk.binding_panic {
        &&& macros_after == macros
        &&& running_after == running
        &&& r.started@.len() == 0
        &&& after.held == desk.held
        &&& after.capturing == desk.capturing
        &&& match event {
            HotkeyEvent::Pressed(key) => !after.binding_panic && r.refresh == Refresh::Settings
                && panic_after == (if key == Key::Escape {
                panic_label
            } else {
                key.label_text()
            }),
            HotkeyEvent::Released(_) => after.binding_panic && r.refresh == Refresh::Nothing
                && panic_after == panic_label,
        }
    } else if desk.capturing {
        &&& panic_after == panic_label
        &&& running_after == running
        &&& r.started@.len() == 0
        &&& after.held == desk.held
        &&& !after.binding_panic
        &&& match event {
            HotkeyEvent::Pressed(key) => {
                &&& !after.capturing
                &&& r.refresh == Refresh::Editor
                &&& macros_after.len() == macros.len()
                &&& match editing {
                    Some(id) => forall|i: int|
                        0 <= i < macros.len() ==> #[trigger] macros_after[i] == rebound(
                            macros[i],
                            id@,
                            bound_by(key),
                        ),
                    None => macros_after == macros,
                }
            },
            HotkeyEvent::Released(_) => after.capturing && r.refresh == Refresh::Nothing
                && macros_after == macros,
        }
    } else {
        &&& panic_after == panic_label
        &&& macros_after == macros
        &&& after.capturing == desk.capturing
        &&& after.binding_panic == desk.binding_panic
        &&& if event == HotkeyEvent::Pressed(panic_of(panic_label)) {
            &&& running_after == all_stopped(running)
            &&& after.held@.len() == 0
            &&& r.refresh == Refresh::Macros
            &&& r.started@.len() == 0
        } else if !rules.enabled {
            &&& nothing_done(desk, after, running, running_after)
            &&& r.refresh == Refresh::Nothing
            &&& r.started@.len() == 0
        } else {
            let outside = rules.only_when_focused && focus == Focus::Other;
            &&& r.refresh == (if outside { Refresh::Nothing } else { Refresh::Macros })
            &&& match event {
                HotkeyEvent::Released(key) => {
                    &&& running_after == let_go(running, held_views(desk.held@), key)
                    &&& held_views(after.held@) == held_without(held_views(desk.held@), key)
                    &&& r.started@.len() == 0
                },
                HotkeyEvent::Pressed(key) => if outside {
                    nothing_done(desk, after, running, running_after) && r.started@.len() == 0
                } else {
                    let b = all_answered(
                        Board {
                            running,
                            held: held_views(desk.held@),
                            started: Seq::empty(),
                        },
                        macros,
                        key,
                        macros.len(),
                    );
                    &&& running_after == b.running
                    &&& held_views(after.held@) == b.held
                    &&& r.started@ == b.started
                },
            }
        }
    }
}

proof fn lemma_let_go(
    running: Seq<(Seq<char>, bool)>,
    held: Seq<(Key, Seq<char>)>,
    key: Key,
    i: int,
)
    requires
        0 <= i < running.len(),
    ensures
        let_go(running, held, key).len() == running.len(),
        let_go(running, held, key)[i].0 == running[i].0,
        let_go(running, held, key)[i].1 == (running[i].1 || held.contains((key, running[i].0))),
    decreases held.len(),
{
    if held.len() > 0 {
        lemma_let_go(running, held.drop_last(), key, i);
        let pair = (key, running[i].0);
        if held.contains(pair) && !held.drop_last().contains(pair) {
            let k = choose|k: int| 0 <= k < held.len() && held[k] == pair;
            assert(k == held.len() - 1) by {
                if k < held.len() - 1 {
                    assert(held.drop_last()[k] == pair);
                }
            }
        }
        if held.drop_last().contains(pair) {
            let k = choose|k: int| 0 <= k < held.drop_last().len() && held.drop_last()[k] == pair;
            assert(held[k] == pair);
        }
        if held.last() == pair {
            assert(held[held.len() - 1] == pair);
        }
    }
}

proof fn lemma_held_without(held: Seq<(Key, Seq<char>)>, key: Key, i: int)
    requires
        0 <= i < held_without(held, key).len(),
    ensures
        held_without(held, key)[i].0 != key,
    decreases held.len(),
{
    if held.len() > 0 && i < held_without(held.drop_last(), key).len() {
        lemma_held_without(held.drop_last(), key, i);
    }
}

/// Letting go of a key stops exactly the macros that it holds, and it holds none
/// afterwards.
pub proof fn law_released_keys_hold_nothing(
    running: Seq<(Seq<char>, bool)>,
    held: Seq<(Key, Seq<char>)>,
    key: Key,
    i: int,
    j: int,
)
    requires
        0 <= i < running.len(),
    ensures
        let_go(running, held, key)[i].1 == (running[i].1 || held.contains((key, running[i].0))),
        let_go(running, held, key)[i].0 == running[i].0,
        0 <= j < held_without(held, key).len() ==> held_without(held, key)[j].0 != key,
{
    lemma_let_go(running, held, key, i);
    if 0 <= j < held_without(held, key).len() {
        lemma_held_without(held, key, j);
    }
}

/// The panic key stops every macro, whether macros are switched on or not and
/// whatever has the focus.
pub proof fn law_the_panic_key_always_works(
    desk: HotkeyDesk,
    after: HotkeyDesk,
    running: Seq<(Seq<char>, bool)>,
    running_after: Seq<(Seq<char>, bool)>,
    macros: Seq<Macro>,
    macros_after: Seq<Macro>,
    editing: Option<String>,
    panic_label: Seq<char>,
    panic_after: Seq<char>,
    rules: HotkeyRules,
    focus: Focus,
    r: Reaction,
    i: int,
)
    requires
        !desk.binding_panic,
        !desk.capturing,
        event_handled(
            desk,
            after,
            running,
            running_after,
            macros,
            macros_after,
            editing,
            panic_label,
            panic_after,
            rules,
            focus,
            HotkeyEvent::Pressed(panic_of(panic_label)),
            r,
        ),
        0 <= i < running.len(),
    ensures
        running_after.len() == running.len(),
        running_after[i].1,
        after.held@.len() == 0,
{
}

/// The editor of macros, as it is shown.
pub struct EditorState {
    pub open: bool,
    /// It shows that it waits for a key.
    pub capturing: bool,
    /// The macro that it shows.
    pub editing: Option<String>,
}

impl EditorState {
    pub fn new() -> (e: EditorState)
        ensures
            !e.open,
            !e.capturing,
            e.editing is None,
    {
        EditorState { open: false, capturing: false, editing: None }
    }

    /// Open the editor on a macro.
    pub fn edit(&mut self, id: &str)
        ensures
            final(self).open,
            !final(self).capturing,
            final(self).editing matches Some(e) && e@ == id@,
    {
        self.editing = Some(id.to_owned());
        self.capturing = false;
        self.open = true;
    }

    /// Open the editor on a macro, and wait for its key.
    pub fn rebind(&mut self, desk: &mut HotkeyDesk, id: &str)
        ensures
            final(self).open,
            final(self).capturing,
            final(self).editing matches Some(e) && e@ == id@,
            *final(desk) == (HotkeyDesk { capturing: true, ..*old(desk) }),
    {
        self.editing = Some(id.to_owned());
        self.open = true;
        self.capturing = true;
        desk.capturing = true;
    }

    /// Wait for a key, or stop waiting for one.
    pub fn capture(&mut self, desk: &mut HotkeyDesk)
        ensures
            *final(self) == (EditorState { capturing: !old(self).capturing, ..*old(self) }),
            *final(desk) == (HotkeyDesk { capturing: !old(self).capturing, ..*old(desk) }),
    {
        self.capturing = !self.capturing;
        desk.capturing = self.capturing;
    }

    /// A key has come: the editor no longer shows that it waits.
    pub fn captured(&mut self)
        ensures
            *final(self) == (EditorState { capturing: false, ..*old(self) }),
    {
        self.capturing = false;
    }

    /// Close the editor. A key that is pressed then is bound to nothing.
    pub fn close(&mut self, desk: &mut HotkeyDesk)
        ensures
            !final(self).open,
            !final(self).capturing,
            final(self).editing is None,
            *final(desk) == (HotkeyDesk { capturing: false, ..*old(desk) }),
    {
        self.open = false;
        self.capturing = false;
        desk.capturing = false;
        self.editing = None;
    }
}

/// What a macro does when a key is pressed: one that is switched off, or has another
/// key, does nothing. A toggle that runs is asked to stop. A macro that does not run
/// is started, and one that runs while held is remembered with its key. One that runs
/// once, or while held, and is running already is left alone.
pub proof fn law_what_a_press_does(b: Board, m: Macro, i: int, key: Key)
    ensures
        ({
            let after = answered(b, m, i, key);
            let mine = m.enabled && m.hotkey == Some(key);
            let running = exists|k: int| 0 <= k < b.running.len() && (#[trigger] b.running[k]).0
                == m.id@;
            &&& !mine ==> after == b
            &&& mine && m.mode == Mode::Toggle && running ==> after.held == b.held && after.started
                == b.started && after.running.len() == b.running.len() && (forall|k: int|
                0 <= k < b.running.len() ==> (#[trigger] after.running[k]).0 == b.running[k].0
                    && after.running[k].1 == (b.running[k].1 || b.running[k].0 == m.id@))
            &&& mine && m.mode != Mode::Toggle && running ==> after == b
            &&& mine && !running && m.does_something() ==> {
                &&& after.running == b.running.push((m.id@, false))
                &&& after.started == b.started.push(i as usize)
                &&& m.mode == Mode::Hold ==> after.held == b.held.push((key, m.id@))
                &&& m.mode != Mode::Hold ==> after.held == b.held
            }
            &&& mine && !running && !m.does_something() ==> after == b
        }),
{
    assert(is_among(b.running, m.id@) <==> exists|k: int|
        0 <= k < b.running.len() && (#[trigger] b.running[k]).0 == m.id@);
}

/// The macros answer one after the other, in the order of the list.
pub proof fn law_macros_answer_in_order(b: Board, macros: Seq<Macro>, key: Key, n: nat)
    requires
        n < macros.len(),
    ensures
        all_answered(b, macros, key, 0) == b,
        all_answered(b, macros, key, n + 1) == answered(
            all_answered(b, macros, key, n),
            macros[n as int],
            n as int,
            key,
        ),
{
}

/// A key that no macro has starts nothing and stops nothing.
pub proof fn law_other_keys_do_nothing(b: Board, macros: Seq<Macro>, key: Key, n: nat)
    requires
        n <= macros.len(),
        forall|i: int|
            0 <= i < n ==> (#[trigger] macros[i]).hotkey != Some(key) || !macros[i].enabled,
    ensures
        all_answered(b, macros, key, n) == b,
    decreases n,
{
    if n > 0 {
        law_other_keys_do_nothing(b, macros, key, (n - 1) as nat);
        assert(macros[n - 1].hotkey != Some(key) || !macros[n - 1].enabled);
    }
}

/// The key that stops everything is the one of that name, in any case of its letters,
/// and F8 where no key has it.
pub proof fn law_which_key_stops_everything(label: Seq<char>, k: Key)
    ensures
        ascii_lowercase(k.label_text()) == ascii_lowercase(label) ==> panic_of(label) == k,
        (forall|j: Key| ascii_lowercase(#[trigger] j.label_text()) != ascii_lowercase(label))
            ==> panic_of(label) == Key::F8,
{
    if ascii_lowercase(k.label_text()) == ascii_lowercase(label) {
        lemma_one_panic_key(label, k);
    }
    if forall|j: Key| ascii_lowercase(#[trigger] j.label_text()) != ascii_lowercase(label) {
        lemma_one_panic_key(label, Key::F8);
    }
}

/// While a key is waited for, an event starts no macro and stops none. The key that
/// comes is bound, to stopping everything or to the macro that is edited; escape
/// leaves the former as it was and takes the latter's key away.
pub proof fn law_keys_that_are_waited_for(
    desk: HotkeyDesk,
    after: HotkeyDesk,
    running: Seq<(Seq<char>, bool)>,
    running_after: Seq<(Seq<char>, bool)>,
    macros: Seq<Macro>,
    macros_after: Seq<Macro>,
    editing: Option<String>,
    panic_label: Seq<char>,
    panic_after: Seq<char>,
    rules: HotkeyRules,
    focus: Focus,
    event: HotkeyEvent,
    r: Reaction,
)
    requires
        desk.binding_panic || desk.capturing,
        event_handled(
            desk,
            after,
            running,
            running_after,
            macros,
            macros_after,
            editing,
            panic_label,
            panic_after,
            rules,
            focus,
            event,
            r,
        ),
    ensures
        running_after == running,
        r.started@.len() == 0,
        macros_after.len() == macros.len(),
        desk.binding_panic ==> macros_after == macros,
        desk.binding_panic ==> (event matches HotkeyEvent::Pressed(key) ==> !after.binding_panic
            && panic_after == (if key == Key::Escape {
            panic_label
        } else {
            key.label_text()
        })),
        !desk.binding_panic ==> panic_after == panic_label,
        !desk.binding_panic ==> (event matches HotkeyEvent::Pressed(key) ==> !after.capturing && (
        editing matches Some(id) ==> forall|i: int|
            0 <= i < macros.len() && (#[trigger] macros_after[i]).id@ == id@
                ==> macros_after[i].hotkey == (if key == Key::Escape {
                None
            } else {
                Some(key)
            }))),
        event is Released ==> after.binding_panic == desk.binding_panic && after.capturing
            == desk.capturing && macros_after == macros && panic_after == panic_label,
{
    if !desk.binding_panic && event is Pressed && editing is Some {
        assert forall|i: int| 0 <= i < macros.len() implies (#[trigger] macros_after[i]).id
            == macros[i].id by {}
    }
}

/// Outside the game, and while macros are switched off, a key starts no macro.
pub proof fn law_macros_keep_to_the_game(
    desk: HotkeyDesk,
    after: HotkeyDesk,
    running: Seq<(Seq<char>, bool)>,
    running_after: Seq<(Seq<char>, bool)>,
    macros: Seq<Macro>,
    macros_after: Seq<Macro>,
    editing: Option<String>,
    panic_label: Seq<char>,
    panic_after: Seq<char>,
    rules: HotkeyRules,
    focus: Focus,
    key: Key,
    r: Reaction,
)
    requires
        event_handled(
            desk,
            after,
            running,
            running_after,
            macros,
            macros_after,
            editing,
            panic_label,
            panic_after,
            rules,
            focus,
            HotkeyEvent::Pressed(key),
            r,
        ),
        !rules.enabled || rules.only_when_focused && focus == Focus::Other,
    ensures
        r.started@.len() == 0,
        running_after.len() == running.len(),
        key != panic_of(panic_label) ==> running_after == running,
{
}

/// Inside the game, or where it does not matter, the macros answer to a key that is
/// not the one that stops everything, and letting go of a key stops what it holds.
pub proof fn law_keys_reach_the_macros(
    desk: HotkeyDesk,
    after: HotkeyDesk,
    running: Seq<(Seq<char>, bool)>,
    running_after: Seq<(Seq<char>, bool)>,
    macros: Seq<Macro>,
    macros_after: Seq<Macro>,
    editing: Option<String>,
    panic_label: Seq<char>,
    panic_after: Seq<char>,
    rules: HotkeyRules,
    focus: Focus,
    event: HotkeyEvent,
    r: Reaction,
)
    requires
        !desk.binding_panic,
        !desk.capturing,
        rules.enabled,
        event_handled(
            desk,
            after,
            running,
            running_after,
            macros,
            macros_after,
            editing,
            panic_label,
            panic_after,
            rules,
            focus,
            event,
            r,
        ),
    ensures
        macros_after == macros,
        event matches HotkeyEvent::Pressed(key) ==> key != panic_of(panic_label) && (
        !rules.only_when_focused || focus != Focus::Other) ==> r.started@ == all_answered(
            (Board { running, held: held_views(desk.held@), started: Seq::empty() }),
            macros,
            key,
            macros.len(),
        ).started && running_after == all_answered(
            (Board { running, held: held_views(desk.held@), started: Seq::empty() }),
            macros,
            key,
            macros.len(),
        ).running,
        event matches HotkeyEvent::Released(key) ==> running_after == let_go(
            running,
            held_views(desk.held@),
            key,
        ),
{
}

/// What is shown again: the settings after a key for stopping was set, the editor after
/// a macro's key was set, and the macros after anything that can have started or
/// stopped one.
pub proof fn law_what_is_shown_again(
    desk: HotkeyDesk,
    after: HotkeyDesk,
    running: Seq<(Seq<char>, bool)>,
    running_after: Seq<(Seq<char>, bool)>,
    macros: Seq<Macro>,
    macros_after: Seq<Macro>,
    editing: Option<String>,
    panic_label: Seq<char>,
    panic_after: Seq<char>,
    rules: HotkeyRules,
    focus: Focus,
    event: HotkeyEvent,
    r: Reaction,
)
    requires
        event_handled(
            desk,
            after,
            running,
            running_after,
            macros,
            macros_after,
            editing,
            panic_label,
            panic_after,
            rules,
            focus,
            event,
            r,
        ),
    ensures
        desk.binding_panic && event is Pressed ==> r.refresh == Refresh::Settings,
        !desk.binding_panic && desk.capturing && event is Pressed ==> r.refresh == Refresh::Editor,
        (desk.binding_panic || desk.capturing) && event is Released ==> r.refresh
            == Refresh::Nothing,
        !desk.binding_panic && !desk.capturing && event == HotkeyEvent::Pressed(
            panic_of(panic_label),
        ) ==> r.refresh == Refresh::Macros,
        !desk.binding_panic && !desk.capturing && event != HotkeyEvent::Pressed(
            panic_of(panic_label),
        ) && !rules.enabled ==> r.refresh == Refresh::Nothing && running_after == running && after
            == desk,
        !desk.binding_panic && !desk.capturing && rules.enabled && (!rules.only_when_focused
            || focus != Focus::Other) ==> r.refresh == Refresh::Macros,
        !desk.binding_panic && desk.capturing ==> after.held == desk.held,
        desk.binding_panic ==> after.held == desk.held && after.capturing == desk.capturing,
{
}

/// A key that is bound to a macro, or taken from one, changes nothing else of any.
pub proof fn law_binding_changes_only_keys(m: Macro, id: Seq<char>, bind: Option<Key>)
    ensures
        rebound(m, id, bind).id == m.id,
        rebound(m, id, bind).name == m.name,
        rebound(m, id, bind).description == m.description,
        rebound(m, id, bind).enabled == m.enabled,
        rebound(m, id, bind).mode == m.mode,
        rebound(m, id, bind).steps == m.steps,
        rebound(m, id, bind).cycle_gap_ms == m.cycle_gap_ms,
        m.id@ == id ==> rebound(m, id, bind).hotkey == bind,
        m.id@ != id && m.hotkey != bind ==> rebound(m, id, bind).hotkey == m.hotkey,
{
}

} // verus!
