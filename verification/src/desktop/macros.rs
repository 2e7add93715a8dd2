//! The list of macros, and the editor of one.

use crate::macroeng::backend::{permission_hint, SETUP};
use crate::macroeng::keys::{law_labels_name_one_key, Key};
use crate::macroeng::process::{clamp_freeze, MAX_FREEZE_MS};
use crate::macroeng::{
    presets, runs, total_ms, Engine, Error, Macro, Mode, MouseButton, Run, Step,
};
use crate::number::{decimal, nat_text};
use crate::text::{ascii_lowercase, cat2, cat3, same};
use vstd::prelude::*;

verus! {

/// The first macro of an id, from a place in the list.
pub open spec fn found_from(macros: Seq<Macro>, id: Seq<char>, i: int) -> Option<int>
    decreases macros.len() - i,
{
    if i < 0 || i >= macros.len() {
        None
    } else if macros[i].id@ == id {
        Some(i)
    } else {
        found_from(macros, id, i + 1)
    }
}

/// The first macro of an id.
pub open spec fn found(macros: Seq<Macro>, id: Seq<char>) -> Option<int> {
    found_from(macros, id, 0)
}

pub proof fn lemma_found_from(macros: Seq<Macro>, id: Seq<char>, i: int)
    requires
        0 <= i,
    ensures
        match found_from(macros, id, i) {
            Some(k) => i <= k < macros.len() && macros[k].id@ == id && forall|j: int|
                i <= j < k ==> (#[trigger] macros[j]).id@ != id,
            None => forall|j: int| i <= j < macros.len() ==> (#[trigger] macros[j]).id@ != id,
        },
    decreases macros.len() - i,
{
    if i < macros.len() && macros[i].id@ != id {
        lemma_found_from(macros, id, i + 1);
    }
}

/// Where the first macro of an id is.
pub fn find(macros: &Vec<Macro>, id: &str) -> (r: Option<usize>)
    ensures
        match r {
            Some(i) => i < macros.len() && found(macros@, id@) == Some(i as int),
            None => found(macros@, id@) is None,
        },
{
    let mut i: usize = 0;
    while i < macros.len()
        invariant
            i <= macros.len(),
            found(macros@, id@) == found_from(macros@, id@, i as int),
        decreases macros.len() - i,
    {
        if same(macros[i].id.as_str(), id) {
            return Some(i);
        }
        i = i + 1;
    }
    None
}

/// The macros to begin with: those that were saved, or else the presets.
pub fn initial(saved: Vec<Macro>) -> (list: Vec<Macro>)
    ensures
        saved@.len() > 0 ==> list@ == saved@,
        saved@.len() == 0 ==> presets::presets_are(list@),
{
    if saved.len() == 0 {
        presets::all()
    } else {
        saved
    }
}

/// What was done to a macro that was pressed in the list.
#[derive(Debug, Clone, Copy, PartialEq, Eq, Structural)]
pub enum Toggled {
    Nothing,
    Stopped,
    /// The macro at this place in the list was started.
    Started(usize),
}

/// The run, asked to stop where it is of this id.
pub open spec fn stopped_runs(running: Seq<(Seq<char>, bool)>, id: Seq<char>) -> Seq<
    (Seq<char>, bool),
> {
    running.map_values(|r: (Seq<char>, bool)| (r.0, r.1 || r.0 == id))
}

/// The runs: the id of each, and whether it was asked to stop.
pub open spec fn run_views(running: Seq<Run>) -> Seq<(Seq<char>, bool)> {
    running.map_values(|r: Run| (r.id@, r.stop))
}

/// A macro of this id is among the runs.
pub open spec fn is_among(running: Seq<(Seq<char>, bool)>, id: Seq<char>) -> bool {
    exists|i: int| 0 <= i < running.len() && (#[trigger] running[i]).0 == id
}

pub proof fn lemma_run_views(running: Seq<Run>, id: Seq<char>)
    ensures
        runs(running, id) == is_among(run_views(running), id),
{
    let v = run_views(running);
    if runs(running, id) {
        let i = choose|i: int| 0 <= i < running.len() && (#[trigger] running[i]).id@ == id;
        assert(v[i].0 == id);
    }
    if is_among(v, id) {
        let i = choose|i: int| 0 <= i < v.len() && (#[trigger] v[i]).0 == id;
        assert(running[i].id@ == id);
    }
}

/// The macro can be started beside these runs.
pub open spec fn startable(running: Seq<(Seq<char>, bool)>, m: Macro) -> bool {
    m.enabled && m.does_something() && !is_among(running, m.id@)
}

/// Start a macro, over the runs as pairs.
pub fn start(engine: &mut Engine, m: &Macro) -> (started: bool)
    requires
        old(engine).wf(),
    ensures
        final(engine).wf(),
        started == startable(run_views(old(engine).running@), *m),
        run_views(final(engine).running@) == (if started {
            run_views(old(engine).running@).push((m.id@, false))
        } else {
            run_views(old(engine).running@)
        }),
{
    proof {
        lemma_run_views(engine.running@, m.id@);
    }
    let ghost before = engine.running@;
    let started = engine.start(m);
    proof {
        if started {
            assert(engine.running@ =~= before.push(engine.running@.last()));
            assert(run_views(engine.running@) =~= run_views(before).push((m.id@, false)));
        }
    }
    started
}

/// Ask a macro to stop, over the runs as pairs.
pub fn stop(engine: &mut Engine, id: &str)
    requires
        old(engine).wf(),
    ensures
        final(engine).wf(),
        run_views(final(engine).running@) == stopped_runs(run_views(old(engine).running@), id@),
{
    let ghost before = engine.running@;
    engine.stop(id);
    assert(run_views(engine.running@) =~= stopped_runs(run_views(before), id@));
}

/// Start a macro from the list, or ask it to stop where it is running.
pub fn toggle_run(engine: &mut Engine, macros: &Vec<Macro>, id: &str) -> (r: Toggled)
    requires
        old(engine).wf(),
    ensures
        final(engine).wf(),
        ({
            let before = run_views(old(engine).running@);
            let after = run_views(final(engine).running@);
            if is_among(before, id@) {
                r == Toggled::Stopped && after == stopped_runs(before, id@)
            } else {
                match found(macros@, id@) {
                    Some(i) => if startable(before, macros@[i]) {
                        r == Toggled::Started(i as usize) && after == before.push((id@, false))
                    } else {
                        r == Toggled::Nothing && after == before
                    },
                    None => r == Toggled::Nothing && after == before,
                }
            }
        }),
{
    proof {
        lemma_run_views(engine.running@, id@);
        lemma_found_from(macros@, id@, 0);
    }
    if engine.is_running(id) {
        stop(engine, id);
        Toggled::Stopped
    } else {
        match find(macros, id) {
            Some(i) => if start(engine, &macros[i]) {
                Toggled::Started(i)
            } else {
                Toggled::Nothing
            },
            None => Toggled::Nothing,
        }
    }
}

/// The macro, switched on or off.
pub open spec fn with_enabled(m: Macro, on: bool) -> Macro {
    Macro { enabled: on, ..m }
}

/// Switch a macro on or off. One that is switched off is asked to stop.
pub fn toggle_enabled(macros: &mut Vec<Macro>, engine: &mut Engine, id: &str)
    requires
        old(engine).wf(),
    ensures
        final(engine).wf(),
        match found(old(macros)@, id@) {
            Some(i) => {
                let m = old(macros)@[i];
                &&& final(macros)@ == old(macros)@.update(i, with_enabled(m, !m.enabled))
                &&& run_views(final(engine).running@) == (if m.enabled {
                    stopped_runs(run_views(old(engine).running@), id@)
                } else {
                    run_views(old(engine).running@)
                })
            },
            None => final(macros)@ == old(macros)@ && final(engine).running@ == old(
                engine,
            ).running@,
        },
{
    match find(macros, id) {
        Some(i) => {
            let on = !macros[i].enabled;
            let ghost before = macros@;
            macros[i].enabled = on;
            assert(macros@ =~= before.update(i as int, with_enabled(before[i as int], on)));
            if !on {
                stop(engine, id);
            }
        },
        None => {},
    }
}

/// A line of the list of macros.
pub struct MacroRow {
    pub id: String,
    pub name: String,
    pub description: String,
    pub hotkey: String,
    pub mode: String,
    pub enabled: bool,
    pub running: bool,
    pub cycle: String,
    pub summary: String,
}

pub open spec fn hotkey_text(hotkey: Option<Key>) -> Seq<char> {
    match hotkey {
        Some(k) => k.label_text(),
        None => Seq::empty(),
    }
}

fn hotkey_label(hotkey: Option<Key>) -> (r: String)
    ensures
        r@ == hotkey_text(hotkey),
{
    match hotkey {
        Some(k) => k.label().to_owned(),
        None => String::new(),
    }
}

pub open spec fn mode_text(mode: Mode) -> Seq<char> {
    match mode {
        Mode::Once => "Once"@,
        Mode::Hold => "While held"@,
        Mode::Toggle => "Toggle"@,
    }
}

/// One pass of the macro has a length that can be written down.
pub open spec fn has_cycle(m: Macro) -> bool {
    total_ms(m.steps@) + m.cycle_gap_ms <= u64::MAX
}

/// The line shows this macro.
pub open spec fn row_shows(r: MacroRow, m: Macro, running: Seq<Run>) -> bool {
    &&& r.id@ == m.id@
    &&& r.name@ == m.name@
    &&& r.description@ == m.description@
    &&& r.hotkey@ == hotkey_text(m.hotkey)
    &&& r.mode@ == mode_text(m.mode)
    &&& r.enabled == m.enabled
    &&& r.running == runs(running, m.id@)
    &&& r.cycle@ == decimal(total_ms(m.steps@) + m.cycle_gap_ms as nat) + "ms cycle"@
    &&& r.summary@ == decimal(m.steps@.len()) + " steps"@
}

fn macro_row(m: &Macro, engine: &Engine) -> (r: MacroRow)
    requires
        has_cycle(*m),
    ensures
        row_shows(r, *m, engine.running@),
{
    MacroRow {
        id: m.id.clone(),
        name: m.name.clone(),
        description: m.description.clone(),
        hotkey: hotkey_label(m.hotkey),
        mode: (match m.mode {
            Mode::Once => "Once",
            Mode::Hold => "While held",
            Mode::Toggle => "Toggle",
        }).to_owned(),
        enabled: m.enabled,
        running: engine.is_running(m.id.as_str()),
        cycle: cat2(nat_text(m.cycle_ms()).as_str(), "ms cycle"),
        summary: cat2(nat_text(m.steps.len() as u64).as_str(), " steps"),
    }
}

/// The lines of the list. Without an engine nothing runs: hand in a new one.
pub fn render_macros(macros: &Vec<Macro>, engine: &Engine) -> (rows: Vec<MacroRow>)
    requires
        forall|i: int| 0 <= i < macros.len() ==> has_cycle(#[trigger] macros@[i]),
    ensures
        rows.len() == macros.len(),
        forall|i: int|
            0 <= i < rows.len() ==> row_shows(#[trigger] rows@[i], macros@[i], engine.running@),
{
    let mut rows: Vec<MacroRow> = Vec::new();
    let mut i: usize = 0;
    while i < macros.len()
        invariant
            i <= macros.len(),
            rows.len() == i,
            forall|k: int| 0 <= k < macros.len() ==> has_cycle(#[trigger] macros@[k]),
            forall|k: int|
                0 <= k < i ==> row_shows(#[trigger] rows@[k], macros@[k], engine.running@),
        decreases macros.len() - i,
    {
        rows.push(macro_row(&macros[i], engine));
        i = i + 1;
    }
    rows
}

/// What is said of sending input on this machine.
pub struct MacroPanel {
    pub available: bool,
    pub hint: String,
    pub backend: &'static str,
}

/// What is said where macros work but hotkeys do not.
pub const NO_HOTKEYS: &'static str =
    "Macros work, but RoJoin cannot watch for hotkeys — start them from this screen.";

/// What is said of sending input. Where it can be done in principle, `engine` is
/// what came of starting the engine, and `listening` whether hotkeys are watched.
pub fn macro_panel(
    windows: bool,
    available: bool,
    engine: &std::result::Result<(), Error>,
    listening: bool,
) -> (p: MacroPanel)
    ensures
        p.available == (available && *engine is Ok),
        p.hint@ == (if !available {
            if windows {
                Seq::empty()
            } else {
                SETUP@
            }
        } else {
            match *engine {
                Ok(_) => if listening {
                    Seq::empty()
                } else {
                    NO_HOTKEYS@
                },
                Err(e) => e.words(),
            }
        }),
        p.backend@ == (if windows {
            "SendInput"@
        } else {
            "uinput"@
        }),
{
    let backend = if windows {
        "SendInput"
    } else {
        "uinput"
    };
    if !available {
        let hint = match permission_hint(!windows, available) {
            Some(t) => t,
            None => String::new(),
        };
        return MacroPanel { available: false, hint, backend };
    }
    match engine {
        Ok(_) => {
            let hint = if listening {
                String::new()
            } else {
                NO_HOTKEYS.to_owned()
            };
            MacroPanel { available: true, hint, backend }
        },
        Err(e) => MacroPanel { available: false, hint: e.message(), backend },
    }
}

/// What is said after macros were written to a file, or were not.
pub fn export_status(path: &str, result: &std::result::Result<(), Error>) -> (r: String)
    ensures
        r@ == (match *result {
            Ok(_) => "Exported to "@ + path@,
            Err(e) => "Export failed: "@ + e.words(),
        }),
{
    match result {
        Ok(_) => cat2("Exported to ", path),
        Err(e) => cat2("Export failed: ", e.message().as_str()),
    }
}

/// The file that macros are read from: one that was put there for it, or else
/// the one that they were written to. What is said where there is neither.
pub fn import_file(dir: &str, has_import: bool, has_export: bool) -> (r: std::result::Result<
    &'static str,
    String,
>)
    ensures
        match r {
            Ok(name) => (has_import && name@ == "macros-import.json"@) || (!has_import && has_export
                && name@ == "macros-export.json"@),
            Err(words) => !has_import && !has_export && words@ == "Put a macros-import.json in "@
                + dir@,
        },
{
    if has_import {
        Ok("macros-import.json")
    } else if has_export {
        Ok("macros-export.json")
    } else {
        Err(cat2("Put a macros-import.json in ", dir))
    }
}

/// The macros with those of another list behind them whose ids they do not have.
pub open spec fn merged(list: Seq<Macro>, more: Seq<Macro>) -> Seq<Macro>
    decreases more.len(),
{
    if more.len() == 0 {
        list
    } else {
        let before = merged(list, more.drop_last());
        if found(before, more.last().id@) is Some {
            before
        } else {
            before.push(more.last())
        }
    }
}

/// Take in macros that were read. One whose id is there already is left out, so
/// that nothing of the user's own is replaced. Gives how many were added.
pub fn merge(macros: &mut Vec<Macro>, more: Vec<Macro>) -> (added: usize)
    ensures
        final(macros)@ == merged(old(macros)@, more@),
        added == final(macros).len() - old(macros).len(),
{
    let ghost list = macros@;
    let ghost all = more@;
    let ghost mut n: int = 0;
    let mut rest = more;
    let before: usize = macros.len();
    assert(all.take(0) =~= Seq::<Macro>::empty());
    assert(all.skip(0) =~= all);
    while rest.len() > 0
        invariant
            0 <= n <= all.len(),
            rest@ == all.skip(n),
            macros@ == merged(list, all.take(n)),
            before == list.len() <= macros.len(),
        decreases rest.len(),
    {
        let m = rest.remove(0);
        proof {
            assert(m == all[n]);
            assert(all.take(n + 1).drop_last() =~= all.take(n));
            assert(all.take(n + 1).last() == all[n]);
            assert(rest@ =~= all.skip(n + 1));
            n = n + 1;
        }
        if find(macros, m.id.as_str()).is_none() {
            macros.push(m);
        }
    }
    assert(all.take(all.len() as int) =~= all);
    macros.len() - before
}

/// What is said where macros could not be read.
pub fn import_failed(words: &str) -> (r: String)
    ensures
        r@ == "Import failed: "@ + words@,
{
    cat2("Import failed: ", words)
}

/// What is said after an import.
pub fn import_status(added: usize) -> (r: String)
    ensures
        r@ == (if added == 1 {
            "Imported 1 macro"@
        } else {
            "Imported "@ + decimal(added as nat) + " macros"@
        }),
{
    if added == 1 {
        "Imported 1 macro".to_owned()
    } else {
        cat3("Imported ", nat_text(added as u64).as_str(), " macros")
    }
}

/// A line of the step editor.
pub struct MacroStepRow {
    pub kind: i32,
    pub label: String,
    pub key: String,
    pub amount: i32,
    pub dx: i32,
    pub dy: i32,
    pub has_key: bool,
    pub has_amount: bool,
    pub has_delta: bool,
}

pub open spec fn button_text(b: MouseButton) -> Seq<char> {
    match b {
        MouseButton::Left => "left"@,
        MouseButton::Right => "right"@,
        MouseButton::Middle => "middle"@,
    }
}

fn button_name(b: MouseButton) -> (r: &'static str)
    ensures
        r@ == button_text(b),
{
    match b {
        MouseButton::Left => "left",
        MouseButton::Right => "right",
        MouseButton::Middle => "middle",
    }
}

/// Milliseconds as the editor shows them.
pub open spec fn shown_ms(ms: u64) -> i32 {
    if ms > i32::MAX {
        i32::MAX
    } else {
        ms as i32
    }
}

fn small(ms: u64) -> (r: i32)
    ensures
        r == shown_ms(ms),
{
    if ms > 2_147_483_647 {
        2_147_483_647
    } else {
        ms as i32
    }
}

pub open spec fn step_label(s: Step) -> Seq<char> {
    match s {
        Step::KeyDown { key } => "Hold key"@,
        Step::KeyUp { key } => "Release key"@,
        Step::Tap { key, hold_ms } => "Tap key, hold"@,
        Step::Wait { ms } => "Wait"@,
        Step::MouseDown { button } => "Press "@ + button_text(button) + " click"@,
        Step::MouseUp { button } => "Release "@ + button_text(button) + " click"@,
        Step::Freeze { ms } => "Freeze game for"@,
        Step::MouseMove { dx, dy } => "Move mouse"@,
    }
}

/// The key that a step is about.
pub open spec fn key_in(s: Step) -> Option<Key> {
    match s {
        Step::KeyDown { key } => Some(key),
        Step::KeyUp { key } => Some(key),
        Step::Tap { key, hold_ms } => Some(key),
        _ => None,
    }
}

/// The line shows this step.
pub open spec fn step_shows(r: MacroStepRow, s: Step) -> bool {
    &&& r.kind == (match s {
        Step::KeyDown { key } => 0i32,
        Step::KeyUp { key } => 1,
        Step::Tap { key, hold_ms } => 2,
        Step::Wait { ms } => 3,
        Step::MouseDown { button } => 4,
        Step::MouseUp { button } => 5,
        Step::MouseMove { dx, dy } => 6,
        Step::Freeze { ms } => 7,
    })
    &&& r.label@ == step_label(s)
    &&& r.key@ == hotkey_text(key_in(s))
    &&& r.has_key == (key_in(s) is Some)
    &&& r.has_amount == (s is Tap || s is Wait || s is Freeze)
    &&& r.amount == (if r.has_amount { shown_ms(s.lasts()) } else { 0 })
    &&& r.has_delta == (s is MouseMove)
    &&& match s {
        Step::MouseMove { dx, dy } => r.dx == dx && r.dy == dy,
        _ => r.dx == 0 && r.dy == 0,
    }
}

fn plain_row(kind: i32, label: String) -> (r: MacroStepRow)
    ensures
        r.kind == kind,
        r.label == label,
        r.key@.len() == 0,
        r.amount == 0,
        r.dx == 0,
        r.dy == 0,
        !r.has_key,
        !r.has_amount,
        !r.has_delta,
{
    MacroStepRow {
        kind,
        label,
        key: String::new(),
        amount: 0,
        dx: 0,
        dy: 0,
        has_key: false,
        has_amount: false,
        has_delta: false,
    }
}

fn key_row(kind: i32, label: &str, key: Key) -> (r: MacroStepRow)
    ensures
        r.kind == kind,
        r.label@ == label@,
        r.key@ == key.label_text(),
        r.amount == 0,
        r.dx == 0,
        r.dy == 0,
        r.has_key,
        !r.has_amount,
        !r.has_delta,
{
    let mut r = plain_row(kind, label.to_owned());
    r.key = key.label().to_owned();
    r.has_key = true;
    r
}

fn step_row(s: &Step) -> (r: MacroStepRow)
    ensures
        step_shows(r, *s),
{
    let r = match s {
        Step::KeyDown { key } => key_row(0, "Hold key", *key),
        Step::KeyUp { key } => key_row(1, "Release key", *key),
        Step::Tap { key, hold_ms } => {
            let mut r = key_row(2, "Tap key, hold", *key);
            r.amount = small(*hold_ms);
            r.has_amount = true;
            r
        },
        Step::Wait { ms } => {
            let mut r = plain_row(3, "Wait".to_owned());
            r.amount = small(*ms);
            r.has_amount = true;
            r
        },
        Step::MouseDown { button } => plain_row(4, cat3("Press ", button_name(*button), " click")),
        Step::MouseUp { button } => plain_row(5, cat3("Release ", button_name(*button), " click")),
        Step::Freeze { ms } => {
            let mut r = plain_row(7, "Freeze game for".to_owned());
            r.amount = small(*ms);
            r.has_amount = true;
            r
        },
        Step::MouseMove { dx, dy } => {
            let mut r = plain_row(6, "Move mouse".to_owned());
            r.dx = *dx;
            r.dy = *dy;
            r.has_delta = true;
            r
        },
    };
    assert(r.key@ =~= hotkey_text(key_in(*s)));
    r
}

/// The editor, open on a macro.
pub struct EditorView {
    pub title: String,
    pub mode: i32,
    pub gap: i32,
    pub hotkey: String,
    pub steps: Vec<MacroStepRow>,
}

pub open spec fn mode_number(mode: Mode) -> i32 {
    match mode {
        Mode::Once => 0,
        Mode::Hold => 1,
        Mode::Toggle => 2,
    }
}

/// The editor shows this macro.
pub open spec fn editor_shows(v: EditorView, m: Macro) -> bool {
    &&& v.title@ == m.name@
    &&& v.mode == mode_number(m.mode)
    &&& v.gap == shown_ms(m.cycle_gap_ms)
    &&& v.hotkey@ == hotkey_text(m.hotkey)
    &&& v.steps.len() == m.steps.len()
    &&& forall|i: int| 0 <= i < m.steps.len() ==> step_shows(#[trigger] v.steps@[i], m.steps@[i])
}

/// The editor's view of the macro that is edited. Nothing where none is.
pub fn render_editor(macros: &Vec<Macro>, editing: &Option<String>) -> (r: Option<EditorView>)
    ensures
        match (r, *editing) {
            (Some(v), Some(id)) => found(macros@, id@) matches Some(i) && editor_shows(
                v,
                macros@[i],
            ),
            (None, Some(id)) => found(macros@, id@) is None,
            (Some(v), None) => false,
            (None, None) => true,
        },
{
    match editing {
        Some(id) => match find(macros, id.as_str()) {
            Some(at) => {
                let m = &macros[at];
                let mut steps: Vec<MacroStepRow> = Vec::new();
                let mut i: usize = 0;
                while i < m.steps.len()
                    invariant
                        i <= m.steps.len(),
                        steps.len() == i,
                        forall|k: int|
                            0 <= k < i ==> step_shows(#[trigger] steps@[k], m.steps@[k]),
                    decreases m.steps.len() - i,
                {
                    steps.push(step_row(&m.steps[i]));
                    i = i + 1;
                }
                Some(
                    EditorView {
                        title: m.name.clone(),
                        mode: (match m.mode {
                            Mode::Once => 0,
                            Mode::Hold => 1,
                            Mode::Toggle => 2,
                        }),
                        gap: small(m.cycle_gap_ms),
                        hotkey: hotkey_label(m.hotkey),
                        steps,
                    },
                )
            },
            None => None,
        },
        None => None,
    }
}

/// A change made in the editor. A negative place stands for the first.
#[derive(Debug)]
pub enum Edit {
    Mode(i32),
    Gap(i32),
    Amount { at: i32, value: i32 },
    Delta { at: i32, dx: i32, dy: i32 },
    Key { at: i32, label: String },
    Shift { at: i32, delta: i32 },
    Remove(i32),
    Add(i32),
    Reset,
}

pub open spec fn at_least(n: int, least: int) -> int {
    if n < least {
        least
    } else {
        n
    }
}

pub open spec fn mode_of(n: i32) -> Mode {
    if n == 0 {
        Mode::Once
    } else if n == 1 {
        Mode::Hold
    } else {
        Mode::Toggle
    }
}

/// The step with another amount of time, where it has one.
pub open spec fn with_amount(s: Step, v: u64) -> Step {
    match s {
        Step::Tap { key, hold_ms } => Step::Tap { key, hold_ms: v },
        Step::Wait { ms } => Step::Wait { ms: v },
        Step::Freeze { ms } => Step::Freeze {
            ms: if v > MAX_FREEZE_MS {
                MAX_FREEZE_MS
            } else {
                v
            },
        },
        _ => s,
    }
}

pub open spec fn with_delta(s: Step, dx: i32, dy: i32) -> Step {
    match s {
        Step::MouseMove { dx: x, dy: y } => Step::MouseMove { dx, dy },
        _ => s,
    }
}

/// The step about another key, where it is about one.
pub open spec fn with_key(s: Step, k: Key) -> Step {
    match s {
        Step::KeyDown { key } => Step::KeyDown { key: k },
        Step::KeyUp { key } => Step::KeyUp { key: k },
        Step::Tap { key, hold_ms } => Step::Tap { key: k, hold_ms },
        _ => s,
    }
}

/// The step that is added for a kind.
pub open spec fn new_step(kind: i32) -> Step {
    if kind == 0 {
        Step::KeyDown { key: Key::W }
    } else if kind == 1 {
        Step::KeyUp { key: Key::W }
    } else if kind == 2 {
        Step::Tap { key: Key::Space, hold_ms: 25 }
    } else if kind == 3 {
        Step::Wait { ms: 50 }
    } else if kind == 4 {
        Step::MouseDown { button: MouseButton::Left }
    } else if kind == 5 {
        Step::MouseUp { button: MouseButton::Left }
    } else if kind == 6 {
        Step::MouseMove { dx: 5, dy: 0 }
    } else {
        Step::Freeze { ms: 250 }
    }
}

/// The steps with one of them replaced, where there is one at that place.
pub open spec fn step_set(steps: Seq<Step>, at: i32, to: spec_fn(Step) -> Step) -> Seq<Step> {
    let i = at_least(at as int, 0);
    if i < steps.len() {
        steps.update(i, to(steps[i]))
    } else {
        steps
    }
}

/// The steps after a change.
pub open spec fn steps_after(steps: Seq<Step>, e: Edit) -> Seq<Step> {
    match e {
        Edit::Amount { at, value } => step_set(
            steps,
            at,
            |s: Step| with_amount(s, at_least(value as int, 1) as u64),
        ),
        Edit::Delta { at, dx, dy } => step_set(steps, at, |s: Step| with_delta(s, dx, dy)),
        Edit::Key { at, label } => if exists|k: Key| #[trigger] names_key(label@, k) {
            step_set(
                steps,
                at,
                |s: Step| with_key(s, choose|k: Key| #[trigger] names_key(label@, k)),
            )
        } else {
            steps
        },
        Edit::Shift { at, delta } => {
            let from = at_least(at as int, 0);
            let to = at_least(at + delta, 0);
            if from < steps.len() && to < steps.len() && from != to {
                steps.update(from, steps[to]).update(to, steps[from])
            } else {
                steps
            }
        },
        Edit::Remove(at) => {
            let i = at_least(at as int, 0);
            if i < steps.len() {
                steps.remove(i)
            } else {
                steps
            }
        },
        Edit::Add(kind) => steps.push(new_step(kind)),
        _ => steps,
    }
}

/// The label names this key, in any case of its letters.
pub open spec fn names_key(label: Seq<char>, k: Key) -> bool {
    ascii_lowercase(k.label_text()) == ascii_lowercase(label)
}

/// The macro after a change that is not a reset.
pub open spec fn edited(before: Macro, after: Macro, e: Edit) -> bool {
    &&& after.id == before.id
    &&& after.name == before.name
    &&& after.description == before.description
    &&& after.enabled == before.enabled
    &&& after.hotkey == before.hotkey
    &&& after.mode == (match e {
        Edit::Mode(n) => mode_of(n),
        _ => before.mode,
    })
    &&& after.cycle_gap_ms == (match e {
        Edit::Gap(n) => at_least(n as int, 0) as u64,
        _ => before.cycle_gap_ms,
    })
    &&& after.steps@ == steps_after(before.steps@, e)
}

/// The macro is that preset again, with the hotkey it had.
pub open spec fn reset_to(after: Macro, preset: Macro, hotkey: Option<Key>) -> bool {
    &&& after.id@ == preset.id@
    &&& after.name@ == preset.name@
    &&& after.description@ == preset.description@
    &&& after.enabled == preset.enabled
    &&& after.mode == preset.mode
    &&& after.cycle_gap_ms == preset.cycle_gap_ms
    &&& after.steps@ == preset.steps@
    &&& after.hotkey == hotkey
}

/// What a change makes of a macro.
pub open spec fn change_done(before: Macro, after: Macro, e: Edit) -> bool {
    if e is Reset {
        exists|list: Seq<Macro>| #[trigger]
            presets::presets_are(list) && match found(list, before.id@) {
                Some(i) => reset_to(after, list[i], before.hotkey),
                None => after == before,
            }
    } else {
        edited(before, after, e)
    }
}

/// The change can be made: a step is not moved past what a number can hold.
pub open spec fn in_range(e: Edit) -> bool {
    match e {
        Edit::Shift { at, delta } => i32::MIN <= at + delta <= i32::MAX,
        _ => true,
    }
}

fn place_of(n: i32) -> (i: usize)
    ensures
        i == at_least(n as int, 0),
{
    if n < 0 {
        0
    } else {
        n as usize
    }
}

fn new_step_of(kind: i32) -> (s: Step)
    ensures
        s == new_step(kind),
{
    if kind == 0 {
        Step::KeyDown { key: Key::W }
    } else if kind == 1 {
        Step::KeyUp { key: Key::W }
    } else if kind == 2 {
        Step::Tap { key: Key::Space, hold_ms: 25 }
    } else if kind == 3 {
        Step::Wait { ms: 50 }
    } else if kind == 4 {
        Step::MouseDown { button: MouseButton::Left }
    } else if kind == 5 {
        Step::MouseUp { button: MouseButton::Left }
    } else if kind == 6 {
        Step::MouseMove { dx: 5, dy: 0 }
    } else {
        Step::Freeze { ms: 250 }
    }
}

/// Change one step, where there is one at that place.
fn change_step(steps: &mut Vec<Step>, e: &Edit)
    requires
        e is Amount || e is Delta,
    ensures
        final(steps)@ == steps_after(old(steps)@, *e),
{
    match e {
        Edit::Amount { at, value } => {
            let i = place_of(*at);
            if i < steps.len() {
                let v: u64 = if *value < 1 {
                    1
                } else {
                    *value as u64
                };
                let s: Step = match steps[i] {
                    Step::Tap { key, hold_ms } => Step::Tap { key, hold_ms: v },
                    Step::Wait { ms } => Step::Wait { ms: v },
                    Step::Freeze { ms } => Step::Freeze { ms: clamp_freeze(v) },
                    other => other,
                };
                steps.set(i, s);
            }
        },
        Edit::Delta { at, dx, dy } => {
            let i = place_of(*at);
            if i < steps.len() {
                let s: Step = match steps[i] {
                    Step::MouseMove { dx: x, dy: y } => Step::MouseMove { dx: *dx, dy: *dy },
                    other => other,
                };
                steps.set(i, s);
            }
        },
        _ => {},
    }
}

/// Put another key into a step, where there is one at that place that is about a
/// key.
fn change_key(steps: &mut Vec<Step>, at: i32, label: &str, key: Key)
    requires
        names_key(label@, key),
    ensures
        forall|e: Edit|
            e matches Edit::Key { at: a, label: l } && a == at && l@ == label@
                ==> final(steps)@ == #[trigger] steps_after(old(steps)@, e),
{
    let ghost before = steps@;
    let i = place_of(at);
    if i < steps.len() {
        let s: Step = match steps[i] {
            Step::KeyDown { key: k } => Step::KeyDown { key },
            Step::KeyUp { key: k } => Step::KeyUp { key },
            Step::Tap { key: k, hold_ms } => Step::Tap { key, hold_ms },
            other => other,
        };
        steps.set(i, s);
    }
    proof {
        let chosen = choose|k: Key| #[trigger] names_key(label@, k);
        law_labels_name_one_key(chosen, key);
        assert forall|e: Edit|
            e matches Edit::Key { at: a, label: l } && a == at && l@ == label@ implies steps@
            == #[trigger] steps_after(before, e) by {
            assert(names_key(label@, key));
        }
    }
}

/// Make a change to a macro. False where it was none: a key that has no name.
fn change(m: &mut Macro, e: &Edit) -> (r: bool)
    requires
        in_range(*e),
    ensures
        change_done(*old(m), *final(m), *e),
        r == !(e matches Edit::Key { at, label } && forall|k: Key| !#[trigger] names_key(label@, k)),
        !r ==> *final(m) == *old(m),
{
    match e {
        Edit::Mode(n) => {
            m.mode = if *n == 0 {
                Mode::Once
            } else if *n == 1 {
                Mode::Hold
            } else {
                Mode::Toggle
            };
            true
        },
        Edit::Gap(n) => {
            m.cycle_gap_ms = place_of(*n) as u64;
            true
        },
        Edit::Amount { at, value } => {
            change_step(&mut m.steps, e);
            true
        },
        Edit::Delta { at, dx, dy } => {
            change_step(&mut m.steps, e);
            true
        },
        Edit::Key { at, label } => {
            match Key::from_label(label.as_str()) {
                Some(k) => {
                    assert(names_key(label@, k));
                    change_key(&mut m.steps, *at, label.as_str(), k);
                    true
                },
                None => {
                    assert forall|k: Key| !#[trigger] names_key(label@, k) by {}
                    false
                },
            }
        },
        Edit::Shift { at, delta } => {
            let from = place_of(*at);
            let to = place_of(*at + *delta);
            if from < m.steps.len() && to < m.steps.len() && from != to {
                let a: Step = m.steps[from];
                let b: Step = m.steps[to];
                m.steps.set(from, b);
                m.steps.set(to, a);
            }
            true
        },
        Edit::Remove(at) => {
            let i = place_of(*at);
            if i < m.steps.len() {
                m.steps.remove(i);
            }
            true
        },
        Edit::Add(kind) => {
            m.steps.push(new_step_of(*kind));
            true
        },
        Edit::Reset => {
            let mut list = presets::all();
            let ghost all = list@;
            assert(presets::presets_are(all));
            match find(&list, m.id.as_str()) {
                Some(i) => {
                    let hotkey = m.hotkey;
                    let ghost before = *m;
                    *m = list.swap_remove(i);
                    m.hotkey = hotkey;
                    assert(reset_to(*m, all[i as int], before.hotkey));
                },
                None => {},
            }
            true
        },
    }
}

/// Make a change to the macro that is edited. False where nothing is to be kept:
/// no macro is edited, or the change was none.
pub fn edit(macros: &mut Vec<Macro>, editing: &Option<String>, e: &Edit) -> (r: bool)
    requires
        in_range(*e),
    ensures
        match *editing {
            Some(id) => match found(old(macros)@, id@) {
                Some(i) => {
                    &&& final(macros).len() == old(macros).len()
                    &&& forall|k: int|
                        0 <= k < old(macros).len() && k != i ==> #[trigger] final(macros)@[k]
                            == old(macros)@[k]
                    &&& change_done(old(macros)@[i], final(macros)@[i], *e)
                    &&& r == !(e matches Edit::Key { at, label } && forall|k: Key|
                        !#[trigger] names_key(label@, k))
                },
                None => !r && final(macros)@ == old(macros)@,
            },
            None => !r && final(macros)@ == old(macros)@,
        },
{
    match editing {
        Some(id) => match find(macros, id.as_str()) {
            Some(i) => {
                proof {
                    lemma_found_from(macros@, id@, 0);
                }
                change(&mut macros[i], e)
            },
            None => false,
        },
        None => false,
    }
}

/// Adding a step and removing it again leaves the steps as they were, and
/// moving a step there and back does.
pub proof fn law_edits_are_undone(steps: Seq<Step>, kind: i32, at: i32, delta: i32)
    requires
        steps.len() < i32::MAX,
        0 <= at < steps.len(),
        0 <= at + delta < steps.len(),
    ensures
        steps_after(steps_after(steps, Edit::Add(kind)), Edit::Remove(steps.len() as i32)) == steps,
        delta > i32::MIN ==> steps_after(
            steps_after(steps, Edit::Shift { at, delta }),
            Edit::Shift { at: (at + delta) as i32, delta: (-delta) as i32 },
        ) == steps,
{
    assert(steps_after(steps_after(steps, Edit::Add(kind)), Edit::Remove(steps.len() as i32))
        =~= steps);
    if delta > i32::MIN {
        assert(steps_after(
            steps_after(steps, Edit::Shift { at, delta }),
            Edit::Shift { at: (at + delta) as i32, delta: (-delta) as i32 },
        ) =~= steps);
    }
}

/// A freeze that was set in the editor is never longer than a freeze may be.
pub proof fn law_freezes_stay_short(s: Step, value: i32)
    requires
        s is Freeze,
    ensures
        with_amount(s, at_least(value as int, 1) as u64) matches Step::Freeze { ms } && 1 <= ms
            <= MAX_FREEZE_MS,
{
}

/// A stop is asked of the macro of an id and of no other.
pub proof fn law_a_stop_is_for_one_macro(running: Seq<(Seq<char>, bool)>, id: Seq<char>, i: int)
    requires
        0 <= i < running.len(),
    ensures
        stopped_runs(running, id).len() == running.len(),
        stopped_runs(running, id)[i].0 == running[i].0,
        running[i].0 == id ==> stopped_runs(running, id)[i].1,
        running[i].0 != id ==> stopped_runs(running, id)[i].1 == running[i].1,
{
}

/// What can be started: what is switched on, does something besides waiting, and does
/// not run yet.
pub proof fn law_what_can_be_started(running: Seq<(Seq<char>, bool)>, m: Macro)
    ensures
        startable(running, m) <==> m.enabled && (exists|i: int|
            0 <= i < m.steps.len() && !((#[trigger] m.steps@[i]) is Wait)) && (forall|i: int|
            0 <= i < running.len() ==> (#[trigger] running[i]).0 != m.id@),
{
}

/// A mode is shown in words, and the number that stands for it in the editor stands
/// for no other. An unknown number is a toggle.
pub proof fn law_modes_in_the_editor(mode: Mode, n: i32)
    ensures
        mode_of(mode_number(mode)) == mode,
        mode_of(0) == Mode::Once,
        mode_of(1) == Mode::Hold,
        n != 0 && n != 1 ==> mode_of(n) == Mode::Toggle,
        mode_text(Mode::Once) == "Once"@,
        mode_text(Mode::Hold) == "While held"@,
        mode_text(Mode::Toggle) == "Toggle"@,
        mode_number(Mode::Toggle) == 2,
{
}

/// The line of a macro says what it is called, how it is started, whether it runs,
/// how long a pass takes and how many steps it has.
pub proof fn law_what_a_line_says(r: MacroRow, m: Macro, running: Seq<Run>)
    requires
        row_shows(r, m, running),
    ensures
        r.id@ == m.id@,
        r.name@ == m.name@,
        r.description@ == m.description@,
        r.enabled == m.enabled,
        r.hotkey@ == (match m.hotkey {
            Some(k) => k.label_text(),
            None => Seq::empty(),
        }),
        r.running <==> exists|i: int| 0 <= i < running.len() && (#[trigger] running[i]).id@ == m.id@,
        r.cycle@ == decimal(total_ms(m.steps@) + m.cycle_gap_ms as nat) + "ms cycle"@,
        r.summary@ == decimal(m.steps@.len()) + " steps"@,
        r.mode@ == (match m.mode {
            Mode::Once => "Once"@,
            Mode::Hold => "While held"@,
            Mode::Toggle => "Toggle"@,
        }),
{
}

/// The line of a step says what it does, with its key, its time or its way.
pub proof fn law_what_the_line_of_a_step_says(r: MacroStepRow, s: Step)
    requires
        step_shows(r, s),
    ensures
        match s {
            Step::KeyDown { key } => r.kind == 0 && r.label@ == "Hold key"@ && r.has_key
                && !r.has_amount && !r.has_delta && r.key@ == key.label_text(),
            Step::KeyUp { key } => r.kind == 1 && r.label@ == "Release key"@ && r.has_key
                && !r.has_amount && !r.has_delta && r.key@ == key.label_text(),
            Step::Tap { key, hold_ms } => r.kind == 2 && r.label@ == "Tap key, hold"@ && r.has_key
                && r.has_amount && !r.has_delta && r.key@ == key.label_text() && (hold_ms
                <= i32::MAX ==> r.amount == hold_ms),
            Step::Wait { ms } => r.kind == 3 && r.label@ == "Wait"@ && !r.has_key && r.has_amount
                && !r.has_delta && (ms <= i32::MAX ==> r.amount == ms),
            Step::MouseDown { button } => r.kind == 4 && r.label@ == "Press "@ + button_text(button)
                + " click"@ && !r.has_key && !r.has_amount && !r.has_delta,
            Step::MouseUp { button } => r.kind == 5 && r.label@ == "Release "@ + button_text(button)
                + " click"@ && !r.has_key && !r.has_amount && !r.has_delta,
            Step::MouseMove { dx, dy } => r.kind == 6 && r.label@ == "Move mouse"@ && !r.has_key
                && !r.has_amount && r.has_delta && r.dx == dx && r.dy == dy,
            Step::Freeze { ms } => r.kind == 7 && r.label@ == "Freeze game for"@ && !r.has_key
                && r.has_amount && !r.has_delta && (ms <= i32::MAX ==> r.amount == ms),
        },
        button_text(MouseButton::Left) == "left"@,
        button_text(MouseButton::Right) == "right"@,
        button_text(MouseButton::Middle) == "middle"@,
{
}

/// A step that is added is of the kind that was chosen, the one that its line then
/// shows.
pub proof fn law_a_step_is_added_as_chosen(kind: i32, r: MacroStepRow)
    requires
        0 <= kind <= 7,
        step_shows(r, new_step(kind)),
    ensures
        r.kind == kind,
        kind == 0 || kind == 1 ==> key_in(new_step(kind)) == Some(Key::W),
        kind == 2 ==> new_step(kind) == (Step::Tap { key: Key::Space, hold_ms: 25 }),
        kind == 3 ==> new_step(kind) == (Step::Wait { ms: 50 }),
        kind == 4 ==> new_step(kind) == (Step::MouseDown { button: MouseButton::Left }),
        kind == 5 ==> new_step(kind) == (Step::MouseUp { button: MouseButton::Left }),
        kind == 6 ==> new_step(kind) == (Step::MouseMove { dx: 5, dy: 0 }),
        kind == 7 ==> new_step(kind) == (Step::Freeze { ms: 250 }),
{
}

/// A change of the time, of the way or of the key of a step changes that and nothing
/// else of it, and leaves a step alone that has none.
pub proof fn law_changes_of_a_step(s: Step, v: u64, x: i32, y: i32, k: Key)
    ensures
        match s {
            Step::Tap { key, hold_ms } => with_amount(s, v) == (Step::Tap { key, hold_ms: v })
                && with_key(s, k) == (Step::Tap { key: k, hold_ms }) && with_delta(s, x, y) == s,
            Step::Wait { ms } => with_amount(s, v) == (Step::Wait { ms: v }) && with_key(s, k) == s
                && with_delta(s, x, y) == s,
            Step::Freeze { ms } => with_amount(s, v) == (Step::Freeze {
                ms: if v > 2000 {
                    2000
                } else {
                    v
                },
            }) && with_key(s, k) == s && with_delta(s, x, y) == s,
            Step::MouseMove { dx, dy } => with_delta(s, x, y) == (Step::MouseMove { dx: x, dy: y })
                && with_amount(s, v) == s && with_key(s, k) == s,
            Step::KeyDown { key } => with_key(s, k) == (Step::KeyDown { key: k }) && with_amount(
                s,
                v,
            ) == s && with_delta(s, x, y) == s,
            Step::KeyUp { key } => with_key(s, k) == (Step::KeyUp { key: k }) && with_amount(s, v)
                == s && with_delta(s, x, y) == s,
            _ => with_amount(s, v) == s && with_key(s, k) == s && with_delta(s, x, y) == s,
        },
{
}

proof fn lemma_key_edit(steps: Seq<Step>, e: Edit, at: i32, label: Seq<char>, key: Key)
    requires
        0 <= at < steps.len(),
        e matches Edit::Key { at: a, label: l } && a == at && l@ == label,
        names_key(label, key),
    ensures
        steps_after(steps, e) == steps.update(at as int, with_key(steps[at as int], key)),
{
    let chosen = choose|k: Key| #[trigger] names_key(label, k);
    law_labels_name_one_key(chosen, key);
    match e {
        Edit::Key { at: a, label: l } => {
            assert(names_key(l@, key));
            let to = |s: Step| with_key(s, choose|k: Key| #[trigger] names_key(l@, k));
            assert(steps_after(steps, e) == step_set(steps, a, to));
            assert(to(steps[at as int]) == with_key(steps[at as int], chosen));
        },
        _ => {},
    }
}

/// What an edit does to the steps, place by place: another amount, way or key goes to
/// the step it is for; a move changes two steps over; a removal takes one out; and
/// what is added stands at the end.
pub proof fn law_edits_go_where_they_are_meant(
    steps: Seq<Step>,
    at: i32,
    value: i32,
    delta: i32,
    kind: i32,
    label: String,
    key: Key,
)
    requires
        0 <= at < steps.len(),
    ensures
        steps_after(steps, Edit::Amount { at, value }) == steps.update(
            at as int,
            with_amount(
                steps[at as int],
                if value < 1 {
                    1
                } else {
                    value as u64
                },
            ),
        ),
        steps_after(steps, Edit::Delta { at, dx: value, dy: delta }) == steps.update(
            at as int,
            with_delta(steps[at as int], value, delta),
        ),
        ascii_lowercase(key.label_text()) == ascii_lowercase(label@) ==> steps_after(
            steps,
            Edit::Key { at, label },
        ) == steps.update(at as int, with_key(steps[at as int], key)),
        (forall|j: Key| ascii_lowercase(#[trigger] j.label_text()) != ascii_lowercase(label@))
            ==> steps_after(steps, Edit::Key { at, label }) == steps,
        0 <= at + delta < steps.len() ==> {
            let after = steps_after(steps, Edit::Shift { at, delta });
            &&& after.len() == steps.len()
            &&& after[at as int] == steps[at + delta]
            &&& after[at + delta] == steps[at as int]
            &&& forall|i: int|
                0 <= i < steps.len() && i != at && i != at + delta ==> #[trigger] after[i]
                    == steps[i]
        },
        at + delta >= steps.len() ==> steps_after(steps, Edit::Shift { at, delta }) == steps,
        steps_after(steps, Edit::Remove(at)) == steps.take(at as int) + steps.skip(at + 1),
        steps_after(steps, Edit::Add(kind)) == steps.push(new_step(kind)),
        steps_after(steps, Edit::Mode(kind)) == steps,
        steps_after(steps, Edit::Gap(kind)) == steps,
{
    assert(steps.remove(at as int) =~= steps.take(at as int) + steps.skip(at + 1));
    let e = Edit::Key { at, label };
    if ascii_lowercase(key.label_text()) == ascii_lowercase(label@) {
        lemma_key_edit(steps, e, at, label@, key);
    }
    if forall|j: Key| ascii_lowercase(#[trigger] j.label_text()) != ascii_lowercase(label@) {
        assert forall|j: Key| !#[trigger] names_key(label@, j) by {
            assert(ascii_lowercase(j.label_text()) != ascii_lowercase(label@));
        }
    }
}

/// An edit keeps what a macro is called, its hotkey and whether it is switched on.
/// The mode and the gap change only where they are what is edited.
pub proof fn law_edits_keep_the_rest(before: Macro, after: Macro, e: Edit)
    requires
        edited(before, after, e),
    ensures
        after.id == before.id,
        after.name == before.name,
        after.description == before.description,
        after.enabled == before.enabled,
        after.hotkey == before.hotkey,
        !(e is Mode) ==> after.mode == before.mode,
        e matches Edit::Mode(n) ==> after.mode == (if n == 0 {
            Mode::Once
        } else if n == 1 {
            Mode::Hold
        } else {
            Mode::Toggle
        }),
        !(e is Gap) ==> after.cycle_gap_ms == before.cycle_gap_ms,
        e matches Edit::Gap(n) ==> after.cycle_gap_ms == (if n < 0 {
            0
        } else {
            n as int
        }),
{
}

/// A reset brings the preset back, with the hotkey that the macro has.
pub proof fn law_a_reset_keeps_the_hotkey(after: Macro, preset: Macro, hotkey: Option<Key>)
    requires
        reset_to(after, preset, hotkey),
    ensures
        after.hotkey == hotkey,
        after.id@ == preset.id@,
        after.name@ == preset.name@,
        after.description@ == preset.description@,
        after.mode == preset.mode,
        after.enabled == preset.enabled,
        after.cycle_gap_ms == preset.cycle_gap_ms,
        after.steps@ == preset.steps@,
{
}

/// An import keeps the macros that are there, in place, and adds the others behind
/// them: every id that was read is there afterwards, and none is there for a second
/// time that was not before.
pub proof fn law_an_import_replaces_nothing(list: Seq<Macro>, more: Seq<Macro>)
    ensures
        list.is_prefix_of(merged(list, more)),
        forall|i: int|
            0 <= i < more.len() ==> found(merged(list, more), (#[trigger] more[i]).id@) is Some,
        forall|i: int|
            list.len() <= i < merged(list, more).len() ==> more.contains(
                #[trigger] merged(list, more)[i],
            ) && found(list, merged(list, more)[i].id@) is None,
    decreases more.len(),
{
    let out = merged(list, more);
    if more.len() > 0 {
        let fewer = more.drop_last();
        law_an_import_replaces_nothing(list, fewer);
        let before = merged(list, fewer);
        assert(list =~= before.subrange(0, list.len() as int));
        lemma_found_from(before, more.last().id@, 0);
        assert(list =~= out.subrange(0, list.len() as int));
        assert forall|i: int| 0 <= i < more.len() implies found(
            out,
            (#[trigger] more[i]).id@,
        ) is Some by {
            lemma_found_from(out, more[i].id@, 0);
            if i < more.len() - 1 {
                assert(fewer[i] == more[i]);
                lemma_found_from(before, more[i].id@, 0);
                let k = found(before, more[i].id@)->0;
                assert(out[k] == before[k]);
            } else if found(before, more.last().id@) is None {
                assert(out[before.len() as int] == more[i]);
            } else {
                let k = found(before, more[i].id@)->0;
                assert(out[k] == before[k]);
            }
        }
        assert forall|i: int| list.len() <= i < out.len() implies more.contains(#[trigger] out[i])
            && found(list, out[i].id@) is None by {
            if i < before.len() {
                assert(out[i] == before[i]);
                assert(fewer.contains(before[i]));
                let k = choose|k: int| 0 <= k < fewer.len() && fewer[k] == before[i];
                assert(more[k] == out[i]);
            } else {
                assert(out[i] == more[more.len() - 1]);
                lemma_found_from(list, out[i].id@, 0);
                if found(list, out[i].id@) is Some {
                    let k = found(list, out[i].id@)->0;
                    assert(before[k] == list[k]) by {
                        assert(before.subrange(0, list.len() as int)[k] == before[k]);
                    }
                }
            }
        }
    } else {
        assert(list =~= out.subrange(0, list.len() as int));
    }
}

/// Switching a macro on or off changes nothing else of it.
pub proof fn law_switching_changes_nothing_else(m: Macro, on: bool)
    ensures
        with_enabled(m, on).enabled == on,
        with_enabled(m, on).id == m.id,
        with_enabled(m, on).name == m.name,
        with_enabled(m, on).description == m.description,
        with_enabled(m, on).mode == m.mode,
        with_enabled(m, on).hotkey == m.hotkey,
        with_enabled(m, on).steps == m.steps,
        with_enabled(m, on).cycle_gap_ms == m.cycle_gap_ms,
        NO_HOTKEYS@
            == "Macros work, but RoJoin cannot watch for hotkeys — start them from this screen."@,
{
}

/// What the editor shows of a macro: its name, its mode by number, its gap, its key and
/// each of its steps.
pub proof fn law_what_the_editor_shows(v: EditorView, m: Macro)
    requires
        editor_shows(v, m),
    ensures
        v.title@ == m.name@,
        v.mode == (match m.mode {
            Mode::Once => 0i32,
            Mode::Hold => 1,
            Mode::Toggle => 2,
        }),
        m.cycle_gap_ms <= i32::MAX ==> v.gap == m.cycle_gap_ms,
        m.cycle_gap_ms > i32::MAX ==> v.gap == i32::MAX,
        m.hotkey matches Some(k) ==> v.hotkey@ == k.label_text(),
        m.hotkey is None ==> v.hotkey@.len() == 0,
        v.steps.len() == m.steps.len(),
        forall|i: int|
            0 <= i < m.steps.len() ==> step_shows(#[trigger] v.steps@[i], m.steps@[i]),
{
}

/// A macro is found by its id, the first of several.
pub proof fn law_macros_are_found_by_id(macros: Seq<Macro>, id: Seq<char>, k: int)
    requires
        0 <= k <= macros.len(),
        forall|j: int| 0 <= j < k ==> (#[trigger] macros[j]).id@ != id,
        k < macros.len() ==> macros[k].id@ == id,
    ensures
        found(macros, id) == (if k < macros.len() {
            Some(k)
        } else {
            None
        }),
{
    lemma_found_from(macros, id, 0);
    match found(macros, id) {
        Some(m) => {
            if m < k {
                assert(macros[m].id@ != id);
            } else if k < m {
                assert(macros[k].id@ != id);
            }
        },
        None => {
            if k < macros.len() {
                assert(macros[k].id@ != id);
            }
        },
    }
}

} // verus!
