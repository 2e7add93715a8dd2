//! Input macros.
//!
//! A macro is a **list of timed input steps**: press W, wait 40 ms, tap space,
//! wait 20 ms, release W. Everything that ships, the movement presets included,
//! is expressed in it and can be edited. Input is synthesised exactly as a
//! keyboard or mouse would send it; nothing touches another process's memory.
//!
//! The presets encode plausible timings for each technique. They will need
//! tuning, which is why every step can be edited.

use crate::text::{cat2, same};
use vstd::prelude::*;

pub mod backend;
pub mod focus;
pub mod hotkeys;
pub mod keys;
pub mod presets;
pub mod process;

use crate::macroeng::keys::Key;

verus! {

#[derive(Debug)]
pub enum Error {
    NoBackend(String),
    Permission(String),
    Input(String),
}

pub type Result<T> = std::result::Result<T, Error>;

impl Error {
    pub open spec fn words(&self) -> Seq<char> {
        match self {
            Error::NoBackend(e) => "no input backend available: "@ + e@,
            Error::Permission(e) => "permission denied: "@ + e@,
            Error::Input(e) => "input error: "@ + e@,
        }
    }

    /// The words shown for this error.
    pub fn message(&self) -> (r: String)
        ensures
            r@ == self.words(),
    {
        match self {
            Error::NoBackend(e) => cat2("no input backend available: ", e.as_str()),
            Error::Permission(e) => cat2("permission denied: ", e.as_str()),
            Error::Input(e) => cat2("input error: ", e.as_str()),
        }
    }
}

#[derive(Debug, Clone, Copy, PartialEq, Eq, Structural)]
pub enum MouseButton {
    Left,
    Right,
    Middle,
}

/// A single step of a macro.
#[derive(Debug, Clone, Copy, PartialEq, Eq, Structural)]
pub enum Step {
    /// Hold a key down.
    KeyDown { key: Key },
    /// Release a key.
    KeyUp { key: Key },
    /// Press and release, holding for `hold_ms`.
    Tap { key: Key, hold_ms: u64 },
    MouseDown { button: MouseButton },
    MouseUp { button: MouseButton },
    /// Relative mouse movement, in counts.
    MouseMove { dx: i32, dy: i32 },
    Wait { ms: u64 },
    /// Suspend the game for `ms`, then resume it. Always for a limited time, and
    /// always with a resume: a process left stopped is a hung game.
    Freeze { ms: u64 },
}

impl Step {
    /// How long the step lasts.
    pub open spec fn lasts(self) -> u64 {
        match self {
            Step::Tap { key, hold_ms } => hold_ms,
            Step::Wait { ms } => ms,
            Step::Freeze { ms } => ms,
            _ => 0,
        }
    }

    /// How long this step occupies, for showing a macro's cycle length.
    pub fn duration_ms(&self) -> (ms: u64)
        ensures
            ms == self.lasts(),
    {
        match self {
            Step::Tap { key, hold_ms } => *hold_ms,
            Step::Wait { ms } => *ms,
            Step::Freeze { ms } => *ms,
            _ => 0,
        }
    }
}

/// How a macro responds to its hotkey.
#[derive(Debug, Clone, Copy, PartialEq, Eq, Structural)]
pub enum Mode {
    /// Runs once per press.
    Once,
    /// Repeats while the hotkey is held.
    Hold,
    /// Press to start, press again to stop.
    Toggle,
}

#[derive(Debug, Clone)]
pub struct Macro {
    pub id: String,
    pub name: String,
    pub description: String,
    pub enabled: bool,
    pub mode: Mode,
    pub hotkey: Option<Key>,
    pub steps: Vec<Step>,
    /// Pause between repeats, for `Hold` and `Toggle`.
    pub cycle_gap_ms: u64,
}

impl Default for Macro {
    fn default() -> (m: Self)
        ensures
            m.id@.len() == 0,
            m.name@.len() == 0,
            m.description@.len() == 0,
            m.enabled,
            m.mode == Mode::Toggle,
            m.hotkey is None,
            m.steps@.len() == 0,
            m.cycle_gap_ms == 0,
    {
        Macro {
            id: String::new(),
            name: String::new(),
            description: String::new(),
            enabled: true,
            mode: Mode::Toggle,
            hotkey: None,
            steps: Vec::new(),
            cycle_gap_ms: 0,
        }
    }
}

/// How long the steps last together.
pub open spec fn total_ms(steps: Seq<Step>) -> nat
    decreases steps.len(),
{
    if steps.len() == 0 {
        0
    } else {
        total_ms(steps.drop_last()) + steps.last().lasts() as nat
    }
}

/// The list without one value.
pub open spec fn dropping<T>(list: Seq<T>, x: T) -> Seq<T>
    decreases list.len(),
{
    if list.len() == 0 {
        Seq::empty()
    } else {
        let before = dropping(list.drop_last(), x);
        if list.last() == x {
            before
        } else {
            before.push(list.last())
        }
    }
}

/// The list with a value at its end, unless it is there already.
pub open spec fn adding<T>(list: Seq<T>, x: T) -> Seq<T> {
    if list.contains(x) {
        list
    } else {
        list.push(x)
    }
}

/// The keys that are held after the steps, if none was held before.
pub open spec fn keys_held(steps: Seq<Step>) -> Seq<Key>
    decreases steps.len(),
{
    if steps.len() == 0 {
        Seq::empty()
    } else {
        let before = keys_held(steps.drop_last());
        match steps.last() {
            Step::KeyDown { key } => adding(before, key),
            Step::KeyUp { key } => dropping(before, key),
            _ => before,
        }
    }
}

/// The mouse buttons that are held after the steps, if none was held before.
pub open spec fn buttons_held(steps: Seq<Step>) -> Seq<MouseButton>
    decreases steps.len(),
{
    if steps.len() == 0 {
        Seq::empty()
    } else {
        let before = buttons_held(steps.drop_last());
        match steps.last() {
            Step::MouseDown { button } => adding(before, button),
            Step::MouseUp { button } => dropping(before, button),
            _ => before,
        }
    }
}

fn has_key(list: &Vec<Key>, key: Key) -> (r: bool)
    ensures
        r == list@.contains(key),
{
    let mut i: usize = 0;
    while i < list.len()
        invariant
            i <= list.len(),
            forall|k: int| 0 <= k < i ==> list@[k] != key,
        decreases list.len() - i,
    {
        if list[i] == key {
            return true;
        }
        i = i + 1;
    }
    false
}

fn without_key(list: &Vec<Key>, key: Key) -> (out: Vec<Key>)
    ensures
        out@ == dropping(list@, key),
{
    let mut out: Vec<Key> = Vec::new();
    let mut i: usize = 0;
    assert(list@.take(0) =~= Seq::<Key>::empty());
    while i < list.len()
        invariant
            i <= list.len(),
            out@ == dropping(list@.take(i as int), key),
        decreases list.len() - i,
    {
        assert(list@.take(i as int + 1).drop_last() =~= list@.take(i as int));
        if list[i] != key {
            out.push(list[i]);
        }
        i = i + 1;
    }
    assert(list@.take(list@.len() as int) =~= list@);
    out
}

fn has_button(list: &Vec<MouseButton>, button: MouseButton) -> (r: bool)
    ensures
        r == list@.contains(button),
{
    let mut i: usize = 0;
    while i < list.len()
        invariant
            i <= list.len(),
            forall|k: int| 0 <= k < i ==> list@[k] != button,
        decreases list.len() - i,
    {
        if list[i] == button {
            return true;
        }
        i = i + 1;
    }
    false
}

fn without_button(list: &Vec<MouseButton>, button: MouseButton) -> (out: Vec<MouseButton>)
    ensures
        out@ == dropping(list@, button),
{
    let mut out: Vec<MouseButton> = Vec::new();
    let mut i: usize = 0;
    assert(list@.take(0) =~= Seq::<MouseButton>::empty());
    while i < list.len()
        invariant
            i <= list.len(),
            out@ == dropping(list@.take(i as int), button),
        decreases list.len() - i,
    {
        assert(list@.take(i as int + 1).drop_last() =~= list@.take(i as int));
        if list[i] != button {
            out.push(list[i]);
        }
        i = i + 1;
    }
    assert(list@.take(list@.len() as int) =~= list@);
    out
}

impl Macro {
    /// Time for one pass, so that a cycle length can be shown.
    pub fn cycle_ms(&self) -> (ms: u64)
        requires
            total_ms(self.steps@) + self.cycle_gap_ms <= u64::MAX,
        ensures
            ms == total_ms(self.steps@) + self.cycle_gap_ms,
    {
        let mut ms: u64 = 0;
        let mut i: usize = 0;
        assert(self.steps@.take(0) =~= Seq::<Step>::empty());
        assert(self.steps@.take(self.steps@.len() as int) =~= self.steps@);
        while i < self.steps.len()
            invariant
                i <= self.steps.len(),
                ms == total_ms(self.steps@.take(i as int)),
                total_ms(self.steps@) + self.cycle_gap_ms <= u64::MAX,
            decreases self.steps.len() - i,
        {
            assert(self.steps@.take(i as int + 1).drop_last() =~= self.steps@.take(i as int));
            proof {
                lemma_total_grows(self.steps@, i as int + 1);
            }
            ms = ms + self.steps[i].duration_ms();
            i = i + 1;
        }
        assert(self.steps@.take(self.steps@.len() as int) =~= self.steps@);
        ms + self.cycle_gap_ms
    }

    /// The keys that one pass leaves held. They are released when the macro
    /// stops, or the character would walk on for ever.
    pub fn held_keys(&self) -> (held: Vec<Key>)
        ensures
            held@ == keys_held(self.steps@),
    {
        let mut held: Vec<Key> = Vec::new();
        let mut i: usize = 0;
        assert(self.steps@.take(0) =~= Seq::<Step>::empty());
        while i < self.steps.len()
            invariant
                i <= self.steps.len(),
                held@ == keys_held(self.steps@.take(i as int)),
            decreases self.steps.len() - i,
        {
            assert(self.steps@.take(i as int + 1).drop_last() =~= self.steps@.take(i as int));
            assert(self.steps@.take(i as int + 1).last() == self.steps@[i as int]);
            match self.steps[i] {
                Step::KeyDown { key } => {
                    if !has_key(&held, key) {
                        held.push(key);
                    }
                },
                Step::KeyUp { key } => {
                    held = without_key(&held, key);
                },
                _ => {},
            }
            i = i + 1;
        }
        assert(self.steps@.take(self.steps@.len() as int) =~= self.steps@);
        held
    }

    /// The mouse buttons that one pass leaves held.
    pub fn held_buttons(&self) -> (held: Vec<MouseButton>)
        ensures
            held@ == buttons_held(self.steps@),
    {
        let mut held: Vec<MouseButton> = Vec::new();
        let mut i: usize = 0;
        assert(self.steps@.take(0) =~= Seq::<Step>::empty());
        while i < self.steps.len()
            invariant
                i <= self.steps.len(),
                held@ == buttons_held(self.steps@.take(i as int)),
            decreases self.steps.len() - i,
        {
            assert(self.steps@.take(i as int + 1).drop_last() =~= self.steps@.take(i as int));
            assert(self.steps@.take(i as int + 1).last() == self.steps@[i as int]);
            match self.steps[i] {
                Step::MouseDown { button } => {
                    if !has_button(&held, button) {
                        held.push(button);
                    }
                },
                Step::MouseUp { button } => {
                    held = without_button(&held, button);
                },
                _ => {},
            }
            i = i + 1;
        }
        assert(self.steps@.take(self.steps@.len() as int) =~= self.steps@);
        held
    }

    /// Some step does something other than wait.
    pub open spec fn does_something(&self) -> bool {
        exists|i: int| 0 <= i < self.steps.len() && !((#[trigger] self.steps@[i]) is Wait)
    }

    /// A macro that only waits is almost always a mistake.
    pub fn is_effective(&self) -> (r: bool)
        ensures
            r == self.does_something(),
    {
        let mut i: usize = 0;
        while i < self.steps.len()
            invariant
                i <= self.steps.len(),
                forall|k: int| 0 <= k < i ==> (#[trigger] self.steps@[k]) is Wait,
            decreases self.steps.len() - i,
        {
            match self.steps[i] {
                Step::Wait { ms } => {},
                _ => {
                    return true;
                },
            }
            i = i + 1;
        }
        false
    }
}

proof fn lemma_total_grows(steps: Seq<Step>, i: int)
    requires
        0 <= i <= steps.len(),
    ensures
        total_ms(steps.take(i)) <= total_ms(steps),
    decreases steps.len() - i,
{
    if i < steps.len() {
        lemma_total_grows(steps, i + 1);
        assert(steps.take(i + 1).drop_last() =~= steps.take(i));
    } else {
        assert(steps.take(i) =~= steps);
    }
}

proof fn lemma_dropping<T>(list: Seq<T>, x: T, y: T)
    ensures
        dropping(list, x).contains(y) <==> list.contains(y) && y != x,
        list.no_duplicates() ==> dropping(list, x).no_duplicates(),
    decreases list.len(),
{
    if list.len() > 0 {
        let head = list.drop_last();
        let last = list.last();
        lemma_dropping(head, x, y);
        lemma_dropping(head, x, last);
        assert(list =~= head.push(last));
        let before = dropping(head, x);
        if last != x {
            assert(before.push(last)[before.len() as int] == last);
            assert(before.push(last).contains(y) <==> before.contains(y) || y == last) by {
                if before.contains(y) {
                    let k = choose|k: int| 0 <= k < before.len() && before[k] == y;
                    assert(before.push(last)[k] == y);
                }
            }
        }
        assert(list.contains(y) <==> head.contains(y) || y == last) by {
            if head.contains(y) {
                let k = choose|k: int| 0 <= k < head.len() && head[k] == y;
                assert(list[k] == y);
            }
            if list.contains(y) && y != last {
                let k = choose|k: int| 0 <= k < list.len() && list[k] == y;
                assert(head[k] == y);
            }
            assert(list[list.len() - 1] == last);
        }
        if list.no_duplicates() {
            assert(head.no_duplicates()) by {
                assert forall|i: int, j: int|
                    0 <= i < head.len() && 0 <= j < head.len() && i != j implies head[i]
                    != head[j] by {
                    assert(list[i] != list[j]);
                }
            }
            assert(!head.contains(last)) by {
                if head.contains(last) {
                    let k = choose|k: int| 0 <= k < head.len() && head[k] == last;
                    assert(list[k] == list[list.len() - 1]);
                }
            }
            assert(!before.contains(last));
            if last != x {
                let out = before.push(last);
                assert forall|i: int, j: int|
                    0 <= i < out.len() && 0 <= j < out.len() && i != j implies out[i]
                    != out[j] by {
                    if i < before.len() && j < before.len() {
                        assert(before[i] != before[j]);
                    } else if i < before.len() {
                        assert(before.contains(before[i]));
                    } else {
                        assert(before.contains(before[j]));
                    }
                }
            }
        }
    }
}

/// A key is held after the steps exactly when the last step on it pressed it,
/// and no key is listed twice.
pub proof fn law_held_keys_follow_the_last_press(steps: Seq<Step>, key: Key)
    ensures
        keys_held(steps).no_duplicates(),
        keys_held(steps).contains(key) <==> exists|i: int|
            0 <= i < steps.len() && #[trigger] steps[i] == (Step::KeyDown { key }) && forall|j: int|
                i < j < steps.len() ==> #[trigger] steps[j] != (Step::KeyUp { key }),
    decreases steps.len(),
{
    if steps.len() > 0 {
        let head = steps.drop_last();
        let last = steps.last();
        law_held_keys_follow_the_last_press(head, key);
        let before = keys_held(head);
        let down = Step::KeyDown { key };
        let up = Step::KeyUp { key };
        match last {
            Step::KeyDown { key: k } => {
                let out = adding(before, k);
                if !before.contains(k) {
                    assert(out[before.len() as int] == k);
                    assert forall|i: int, j: int|
                        0 <= i < out.len() && 0 <= j < out.len() && i != j implies out[i]
                        != out[j] by {
                        if i < before.len() && j < before.len() {
                            assert(before[i] != before[j]);
                        } else if i < before.len() {
                            assert(before.contains(before[i]));
                        } else {
                            assert(before.contains(before[j]));
                        }
                    }
                }
                assert(out.contains(key) <==> before.contains(key) || k == key) by {
                    if before.contains(key) && !before.contains(k) {
                        let i = choose|i: int| 0 <= i < before.len() && before[i] == key;
                        assert(out[i] == key);
                    }
                }
            },
            Step::KeyUp { key: k } => {
                lemma_dropping(before, k, key);
            },
            _ => {},
        }
        if exists|i: int|
            0 <= i < steps.len() && #[trigger] steps[i] == down && forall|j: int|
                i < j < steps.len() ==> #[trigger] steps[j] != up {
            let i = choose|i: int|
                0 <= i < steps.len() && #[trigger] steps[i] == down && forall|j: int|
                    i < j < steps.len() ==> #[trigger] steps[j] != up;
            if i < steps.len() - 1 {
                assert(head[i] == down);
                assert forall|j: int| i < j < head.len() implies #[trigger] head[j] != up by {
                    assert(steps[j] != up);
                }
                assert(steps[steps.len() - 1] != up);
                assert(before.contains(key));
            }
            assert(keys_held(steps).contains(key));
        }
        if keys_held(steps).contains(key) {
            if last == down {
                assert(steps[steps.len() - 1] == down);
            } else {
                assert(before.contains(key));
                assert(last != up);
                let i = choose|i: int|
                    0 <= i < head.len() && #[trigger] head[i] == down && forall|j: int|
                        i < j < head.len() ==> #[trigger] head[j] != up;
                assert(steps[i] == down);
                assert forall|j: int| i < j < steps.len() implies #[trigger] steps[j] != up by {
                    if j < head.len() {
                        assert(head[j] != up);
                    }
                }
            }
        }
    }
}

/// A macro that is running, and whether it has been asked to stop.
pub struct Run {
    pub id: String,
    pub stop: bool,
}

/// Which macros are running.
pub struct Engine {
    pub running: Vec<Run>,
}

/// A macro of this id is among the runs.
pub open spec fn runs(running: Seq<Run>, id: Seq<char>) -> bool {
    exists|i: int| 0 <= i < running.len() && (#[trigger] running[i]).id@ == id
}

impl Engine {
    pub fn new() -> (e: Engine)
        ensures
            e.wf(),
            e.running@.len() == 0,
    {
        Engine { running: Vec::new() }
    }

    /// No macro runs twice at once.
    pub open spec fn wf(&self) -> bool {
        forall|i: int, j: int|
            0 <= i < j < self.running.len() ==> (#[trigger] self.running@[i]).id@ != (
            #[trigger] self.running@[j]).id@
    }

    fn find(&self, id: &str) -> (r: Option<usize>)
        ensures
            match r {
                Some(i) => i < self.running.len() && self.running@[i as int].id@ == id@,
                None => !runs(self.running@, id@),
            },
    {
        let mut i: usize = 0;
        while i < self.running.len()
            invariant
                i <= self.running.len(),
                forall|k: int| 0 <= k < i ==> (#[trigger] self.running@[k]).id@ != id@,
            decreases self.running.len() - i,
        {
            if same(self.running[i].id.as_str(), id) {
                return Some(i);
            }
            i = i + 1;
        }
        None
    }

    pub fn is_running(&self, id: &str) -> (r: bool)
        ensures
            r == runs(self.running@, id@),
    {
        self.find(id).is_some()
    }

    pub fn active_count(&self) -> (n: usize)
        ensures
            n == self.running.len(),
    {
        self.running.len()
    }

    /// The macro can be started now.
    pub open spec fn can_start(&self, mac: Macro) -> bool {
        mac.enabled && mac.does_something() && !runs(self.running@, mac.id@)
    }

    /// Start a macro. False if it is disabled, does nothing or is running.
    pub fn start(&mut self, mac: &Macro) -> (started: bool)
        requires
            old(self).wf(),
        ensures
            final(self).wf(),
            started == old(self).can_start(*mac),
            started ==> final(self).running.len() == old(self).running.len() + 1
                && final(self).running@.last().id@ == mac.id@ && !final(self).running@.last().stop
                && final(self).running@.drop_last() == old(self).running@,
            !started ==> final(self).running@ == old(self).running@,
    {
        if !mac.enabled || !mac.is_effective() || self.is_running(mac.id.as_str()) {
            return false;
        }
        let ghost before = self.running@;
        self.running.push(Run { id: mac.id.clone(), stop: false });
        assert(self.running@.drop_last() =~= before);
        true
    }

    /// Ask a macro to stop.
    pub fn stop(&mut self, id: &str)
        requires
            old(self).wf(),
        ensures
            final(self).wf(),
            final(self).running.len() == old(self).running.len(),
            forall|i: int|
                0 <= i < final(self).running.len() ==> (#[trigger] final(self).running@[i]).id@
                    == old(self).running@[i].id@ && final(self).running@[i].stop == (old(self).running@[i].stop || old(self).running@[i].id@ == id@),
    {
        match self.find(id) {
            Some(i) => {
                let run = Run { id: self.running[i].id.clone(), stop: true };
                self.running.set(i, run);
            },
            None => {
                assert forall|k: int| 0 <= k < self.running.len() implies (
                #[trigger] self.running@[k]).id@ != id@ by {}
            },
        }
    }

    /// Ask every macro to stop.
    pub fn stop_all(&mut self)
        requires
            old(self).wf(),
        ensures
            final(self).wf(),
            final(self).running.len() == old(self).running.len(),
            forall|i: int|
                0 <= i < final(self).running.len() ==> (#[trigger] final(self).running@[i]).id@
                    == old(self).running@[i].id@ && final(self).running@[i].stop,
    {
        let ghost before = self.running@;
        let mut i: usize = 0;
        while i < self.running.len()
            invariant
                i <= self.running.len(),
                self.running.len() == before.len(),
                forall|k: int|
                    0 <= k < before.len() ==> (#[trigger] self.running@[k]).id@ == before[k].id@,
                forall|k: int| 0 <= k < i ==> (#[trigger] self.running@[k]).stop,
            decreases self.running.len() - i,
        {
            let run = Run { id: self.running[i].id.clone(), stop: true };
            self.running.set(i, run);
            i = i + 1;
        }
        assert forall|a: int, b: int| 0 <= a < b < self.running.len() implies (
        #[trigger] self.running@[a]).id@ != (#[trigger] self.running@[b]).id@ by {
            assert(before[a].id@ != before[b].id@);
        }
    }

    /// Whether a macro has been asked to stop. One that is not running has.
    pub fn should_stop(&self, id: &str) -> (r: bool)
        requires
            self.wf(),
        ensures
            r == !(exists|i: int|
                0 <= i < self.running.len() && (#[trigger] self.running@[i]).id@ == id@
                    && !self.running@[i].stop),
    {
        match self.find(id) {
            Some(i) => {
                let r = self.running[i].stop;
                proof {
                    assert forall|k: int|
                        0 <= k < self.running.len() && (#[trigger] self.running@[k]).id@
                            == id@ implies k == i by {
                        if k < i {
                            assert(self.running@[k].id@ != self.running@[i as int].id@);
                        } else if k > i {
                            assert(self.running@[i as int].id@ != self.running@[k].id@);
                        }
                    }
                }
                r
            },
            None => true,
        }
    }

    /// A macro has ended.
    pub fn finished(&mut self, id: &str)
        requires
            old(self).wf(),
        ensures
            final(self).wf(),
            !runs(final(self).running@, id@),
            !runs(old(self).running@, id@) ==> final(self).running@ == old(self).running@,
            forall|i: int|
                0 <= i < old(self).running.len() && (#[trigger] old(self).running@[i]).id@ == id@
                    ==> final(self).running@ == old(self).running@.remove(i),
    {
        let ghost before = self.running@;
        match self.find(id) {
            Some(i) => {
                self.running.remove(i);
                proof {
                    let after = self.running@;
                    assert forall|k: int| 0 <= k < after.len() implies (#[trigger] after[k]).id@
                        != id@ by {
                        if k < i {
                            assert(before[k].id@ != before[i as int].id@);
                        } else {
                            assert(before[i as int].id@ != before[k + 1].id@);
                        }
                    }
                    assert forall|k: int|
                        0 <= k < before.len() && (#[trigger] before[k]).id@ == id@ implies after
                        == before.remove(k) by {
                        if k < i {
                            assert(before[k].id@ != before[i as int].id@);
                        } else if k > i {
                            assert(before[i as int].id@ != before[k].id@);
                        }
                    }
                }
            },
            None => {},
        }
    }
}

/// Something that is to be done for a running macro.
#[derive(Debug, Clone, Copy, PartialEq, Eq, Structural)]
pub enum Action {
    KeyDown { key: Key },
    KeyUp { key: Key },
    MouseDown { button: MouseButton },
    MouseUp { button: MouseButton },
    MouseMove { dx: i32, dy: i32 },
    /// Sleep, but wake when the macro is asked to stop.
    Sleep { ms: u64 },
    /// Suspend the game, sleep, and resume it.
    Freeze { ms: u64 },
    /// The macro is over.
    Finish,
}

/// Where within a step a running macro is.
#[derive(Debug, Clone, Copy, PartialEq, Eq, Structural)]
pub enum Stage {
    /// Before a step.
    Before,
    /// The step's input has been sent.
    Sent,
    /// The key of a tap has been pressed.
    Pressed,
    /// The key of a tap has been held for its time; `failed` says that pressing
    /// it had failed.
    Held { failed: bool },
    /// The key of a tap has been released.
    Released { failed: bool },
    /// Nothing is left to be done.
    Over,
}

/// A macro being played: the step that is next or under way.
pub struct Player {
    pub at: usize,
    pub stage: Stage,
}

/// What a step asks for first.
pub open spec fn opening(step: Step) -> Action {
    match step {
        Step::KeyDown { key } => Action::KeyDown { key },
        Step::KeyUp { key } => Action::KeyUp { key },
        Step::Tap { key, hold_ms } => Action::KeyDown { key },
        Step::MouseDown { button } => Action::MouseDown { button },
        Step::MouseUp { button } => Action::MouseUp { button },
        Step::MouseMove { dx, dy } => Action::MouseMove { dx, dy },
        Step::Wait { ms } => Action::Sleep { ms },
        Step::Freeze { ms } => Action::Freeze { ms },
    }
}

/// The pause before the next pass, one millisecond at least.
pub open spec fn pause(m: Macro) -> u64 {
    if m.cycle_gap_ms < 1 {
        1
    } else {
        m.cycle_gap_ms
    }
}

/// What a macro does that is about to begin the step `at`.
pub open spec fn begun(m: Macro, at: nat, stopped: bool) -> (Player, Action) {
    if at >= m.steps.len() {
        if m.mode == Mode::Once {
            (Player { at: at as usize, stage: Stage::Over }, Action::Finish)
        } else {
            (Player { at: 0, stage: Stage::Before }, Action::Sleep { ms: pause(m) })
        }
    } else if stopped {
        (Player { at: at as usize, stage: Stage::Over }, Action::Finish)
    } else {
        let step = m.steps@[at as int];
        (
            Player {
                at: at as usize,
                stage: if step is Tap { Stage::Pressed } else { Stage::Sent },
            },
            opening(step),
        )
    }
}

/// What a macro does next. `ok` says whether the last action worked.
pub open spec fn advanced(m: Macro, p: Player, stopped: bool, ok: bool) -> (Player, Action) {
    let over = (Player { at: p.at, stage: Stage::Over }, Action::Finish);
    match p.stage {
        Stage::Before => begun(m, p.at as nat, stopped),
        Stage::Sent => if ok {
            begun(m, (p.at + 1) as nat, stopped)
        } else {
            over
        },
        Stage::Pressed => match m.steps@[p.at as int] {
            Step::Tap { key, hold_ms } => (
                Player { at: p.at, stage: Stage::Held { failed: !ok } },
                Action::Sleep { ms: hold_ms },
            ),
            _ => over,
        },
        Stage::Held { failed } => match m.steps@[p.at as int] {
            Step::Tap { key, hold_ms } => (
                Player { at: p.at, stage: Stage::Released { failed } },
                Action::KeyUp { key },
            ),
            _ => over,
        },
        Stage::Released { failed } => if ok && !failed {
            begun(m, (p.at + 1) as nat, stopped)
        } else {
            over
        },
        Stage::Over => over,
    }
}

impl Player {
    pub fn new() -> (p: Player)
        ensures
            p.at == 0,
            p.stage == Stage::Before,
    {
        Player { at: 0, stage: Stage::Before }
    }

    /// The step under way is one of the macro's.
    pub open spec fn wf(&self, m: Macro) -> bool {
        match self.stage {
            Stage::Before => self.at <= m.steps.len(),
            Stage::Over => true,
            Stage::Sent => self.at < m.steps.len(),
            _ => self.at < m.steps.len() && m.steps@[self.at as int] is Tap,
        }
    }

    fn begin(&mut self, mac: &Macro, at: usize, stopped: bool) -> (action: Action)
        requires
            at <= mac.steps.len(),
        ensures
            (*final(self), action) == begun(*mac, at as nat, stopped),
            final(self).wf(*mac),
    {
        self.at = at;
        if at >= mac.steps.len() {
            if mac.mode == Mode::Once {
                self.stage = Stage::Over;
                return Action::Finish;
            }
            self.at = 0;
            self.stage = Stage::Before;
            return Action::Sleep {
                ms: if mac.cycle_gap_ms < 1 {
                    1
                } else {
                    mac.cycle_gap_ms
                },
            };
        }
        if stopped {
            self.stage = Stage::Over;
            return Action::Finish;
        }
        self.stage = Stage::Sent;
        match mac.steps[at] {
            Step::KeyDown { key } => Action::KeyDown { key },
            Step::KeyUp { key } => Action::KeyUp { key },
            Step::Tap { key, hold_ms } => {
                self.stage = Stage::Pressed;
                Action::KeyDown { key }
            },
            Step::MouseDown { button } => Action::MouseDown { button },
            Step::MouseUp { button } => Action::MouseUp { button },
            Step::MouseMove { dx, dy } => Action::MouseMove { dx, dy },
            Step::Wait { ms } => Action::Sleep { ms },
            Step::Freeze { ms } => Action::Freeze { ms },
        }
    }

    /// What to do next, given whether the macro has been asked to stop and
    /// whether the last action worked. A stop is looked for before each step; a
    /// tap that was begun is always ended.
    pub fn play(&mut self, mac: &Macro, stopped: bool, ok: bool) -> (action: Action)
        requires
            old(self).wf(*mac),
        ensures
            (*final(self), action) == advanced(*mac, *old(self), stopped, ok),
            final(self).wf(*mac),
    {
        match self.stage {
            Stage::Before => {
                let at: usize = self.at;
                self.begin(mac, at, stopped)
            },
            Stage::Sent => {
                if ok {
                    let at: usize = self.at + 1;
                    self.begin(mac, at, stopped)
                } else {
                    self.stage = Stage::Over;
                    Action::Finish
                }
            },
            Stage::Pressed => match mac.steps[self.at] {
                Step::Tap { key, hold_ms } => {
                    self.stage = Stage::Held { failed: !ok };
                    Action::Sleep { ms: hold_ms }
                },
                _ => {
                    self.stage = Stage::Over;
                    Action::Finish
                },
            },
            Stage::Held { failed } => match mac.steps[self.at] {
                Step::Tap { key, hold_ms } => {
                    self.stage = Stage::Released { failed };
                    Action::KeyUp { key }
                },
                _ => {
                    self.stage = Stage::Over;
                    Action::Finish
                },
            },
            Stage::Released { failed } => {
                if ok && !failed {
                    let at: usize = self.at + 1;
                    self.begin(mac, at, stopped)
                } else {
                    self.stage = Stage::Over;
                    Action::Finish
                }
            },
            Stage::Over => Action::Finish,
        }
    }
}

/// A tap is never left half done: whatever comes, once its key was pressed the
/// next two actions hold it and release it.
pub proof fn law_taps_are_always_released(
    m: Macro,
    p: Player,
    first: bool,
    ok1: bool,
    second: bool,
    ok2: bool,
)
    requires
        p.wf(m),
        p.stage == Stage::Pressed,
    ensures
        ({
            let (held, sleeping) = advanced(m, p, first, ok1);
            let (released, action) = advanced(m, held, second, ok2);
            &&& sleeping is Sleep
            &&& m.steps@[p.at as int] matches Step::Tap { key, hold_ms } && action
                == (Action::KeyUp { key })
        }),
{
}

/// A macro that has been asked to stop begins no further step; and a macro that
/// runs once ends with its last step.
pub proof fn law_stopping_is_prompt(m: Macro, p: Player, ok: bool)
    requires
        p.wf(m),
        p.stage == Stage::Before && p.at < m.steps.len() || p.stage == Stage::Sent && ok && p.at + 1
            < m.steps.len(),
    ensures
        advanced(m, p, true, ok).1 == Action::Finish,
        advanced(m, p, true, ok).0.stage == Stage::Over,
{
}

/// Each step is begun with the input that it names and no other: a key goes down
/// where it says down and up where it says up, a tap starts by pressing, a move
/// keeps its two directions, and a wait and a freeze last as long as they say.
pub proof fn law_steps_do_what_they_say(m: Macro, p: Player, i: int)
    requires
        p.wf(m),
        0 <= i < m.steps.len(),
        p.stage == Stage::Before && p.at == i || p.stage == Stage::Sent && p.at + 1 == i || p.stage
            == (Stage::Released { failed: false }) && p.at + 1 == i,
    ensures
        match (m.steps@[i], advanced(m, p, false, true).1) {
            (Step::KeyDown { key }, Action::KeyDown { key: k }) => k == key,
            (Step::KeyUp { key }, Action::KeyUp { key: k }) => k == key,
            (Step::Tap { key, hold_ms }, Action::KeyDown { key: k }) => k == key,
            (Step::MouseDown { button }, Action::MouseDown { button: b }) => b == button,
            (Step::MouseUp { button }, Action::MouseUp { button: b }) => b == button,
            (Step::MouseMove { dx, dy }, Action::MouseMove { dx: x, dy: y }) => x == dx && y == dy,
            (Step::Wait { ms }, Action::Sleep { ms: t }) => t == ms,
            (Step::Freeze { ms }, Action::Freeze { ms: t }) => t == ms,
            _ => false,
        },
{
}

/// Something that fails ends the macro: an input at once, a press of a tap after
/// its key has been let go of.
pub proof fn law_failures_end_the_macro(m: Macro, p: Player, stopped: bool, ok: bool)
    requires
        p.wf(m),
    ensures
        p.stage == Stage::Sent ==> advanced(m, p, stopped, false).1 == Action::Finish && advanced(
            m,
            p,
            stopped,
            false,
        ).0.stage == Stage::Over,
        p.stage == Stage::Pressed ==> advanced(m, p, stopped, false).0.stage == (Stage::Held {
            failed: true,
        }),
        p.stage == (Stage::Held { failed: true }) ==> advanced(m, p, stopped, ok).0.stage
            == (Stage::Released { failed: true }),
        p.stage == (Stage::Released { failed: true }) ==> advanced(m, p, stopped, ok).1
            == Action::Finish && advanced(m, p, stopped, ok).0.stage == Stage::Over,
        p.stage is Released ==> advanced(m, p, stopped, false).1 == Action::Finish,
        p.stage == Stage::Over ==> advanced(m, p, stopped, ok).1 == Action::Finish && advanced(
            m,
            p,
            stopped,
            ok,
        ).0.stage == Stage::Over,
{
}

/// What a step asks for when nothing disturbs it, from its first action to its
/// last: a tap presses its key, holds it for its time and lets go of it, and every
/// other step is one action.
pub open spec fn doings(step: Step) -> Seq<Action> {
    match step {
        Step::Tap { key, hold_ms } => seq![
            Action::KeyDown { key },
            Action::Sleep { ms: hold_ms },
            Action::KeyUp { key },
        ],
        Step::KeyDown { key } => seq![Action::KeyDown { key }],
        Step::KeyUp { key } => seq![Action::KeyUp { key }],
        Step::MouseDown { button } => seq![Action::MouseDown { button }],
        Step::MouseUp { button } => seq![Action::MouseUp { button }],
        Step::MouseMove { dx, dy } => seq![Action::MouseMove { dx, dy }],
        Step::Wait { ms } => seq![Action::Sleep { ms }],
        Step::Freeze { ms } => seq![Action::Freeze { ms }],
    }
}

/// What the steps ask for, one after the other.
pub open spec fn one_pass(steps: Seq<Step>) -> Seq<Action>
    decreases steps.len(),
{
    if steps.len() == 0 {
        Seq::empty()
    } else {
        one_pass(steps.drop_last()) + doings(steps.last())
    }
}

/// A macro played from its start, with nobody stopping it and every action working:
/// the player's states, and what it asked for.
pub open spec fn undisturbed(m: Macro, states: Seq<Player>, actions: Seq<Action>) -> bool {
    &&& states.len() == actions.len() + 1
    &&& states[0].at == 0
    &&& states[0].stage == Stage::Before
    &&& forall|i: int|
        0 <= i < actions.len() ==> (states[i + 1], #[trigger] actions[i]) == advanced(
            m,
            states[i],
            false,
            true,
        )
}

/// A macro that nobody stops does its steps in order, each as it is written. One
/// that runs once per press then ends, and stays ended. One that repeats pauses for
/// its gap, one millisecond at least, and does the same again, without an end.
pub proof fn law_a_macro_plays_its_steps(m: Macro, states: Seq<Player>, actions: Seq<Action>)
    requires
        undisturbed(m, states, actions),
    ensures
        ({
            let pass = one_pass(m.steps@);
            let n = pass.len();
            &&& forall|i: int| 0 <= i < actions.len() && i < n ==> #[trigger] actions[i] == pass[i]
            &&& m.mode == Mode::Once ==> forall|i: int|
                n <= i < actions.len() ==> #[trigger] actions[i] == Action::Finish
            &&& m.mode != Mode::Once && n < actions.len() ==> actions[n as int] == (Action::Sleep {
                ms: if m.cycle_gap_ms > 1 {
                    m.cycle_gap_ms
                } else {
                    1
                },
            })
            &&& m.mode != Mode::Once ==> forall|i: int|
                n < i < actions.len() ==> #[trigger] actions[i] == actions[i - n - 1]
        }),
{
    let steps = m.steps@;
    let pass = one_pass(steps);
    let n = pass.len() as int;
    lemma_played(m, states, actions, steps.len());
    assert(steps.take(steps.len() as int) =~= steps);
    if n < actions.len() {
        assert((states[n + 1], actions[n]) == advanced(m, states[n], false, true));
        if m.mode == Mode::Once {
            lemma_over(m, states, actions, n + 1);
        } else {
            let later = states.skip(n + 1);
            let rest = actions.skip(n + 1);
            assert forall|i: int| 0 <= i < rest.len() implies (later[i + 1], #[trigger] rest[i])
                == advanced(m, later[i], false, true) by {
                assert(rest[i] == actions[i + n + 1]);
            }
            assert forall|i: int| n < i < actions.len() implies #[trigger] actions[i] == actions[i
                - n - 1] by {
                lemma_same_run(m, later, rest, states, actions, i - n - 1);
                assert(rest[i - n - 1] == actions[i]);
            }
        }
    }
}

/// The next action is the first of the step `at`, or what follows the last step.
spec fn awaits(m: Macro, p: Player, at: int) -> bool {
    advanced(m, p, false, true) == begun(m, at as nat, false)
}

proof fn lemma_played(m: Macro, states: Seq<Player>, actions: Seq<Action>, k: nat)
    requires
        undisturbed(m, states, actions),
        k <= m.steps.len(),
    ensures
        ({
            let pass = one_pass(m.steps@.take(k as int));
            &&& forall|i: int|
                0 <= i < actions.len() && i < pass.len() ==> #[trigger] actions[i] == pass[i]
            &&& pass.len() < states.len() ==> awaits(m, states[pass.len() as int], k as int)
        }),
    decreases k,
{
    let steps = m.steps@;
    if k > 0 {
        let earlier = one_pass(steps.take(k - 1));
        let pass = one_pass(steps.take(k as int));
        lemma_played(m, states, actions, (k - 1) as nat);
        assert(steps.take(k as int).drop_last() =~= steps.take(k - 1));
        assert(steps.take(k as int).last() == steps[k - 1]);
        let step = steps[k - 1];
        let at = earlier.len() as int;
        if at < actions.len() {
            assert((states[at + 1], actions[at]) == advanced(m, states[at], false, true));
            if step is Tap {
                if at + 1 < actions.len() {
                    assert((states[at + 2], actions[at + 1]) == advanced(
                        m,
                        states[at + 1],
                        false,
                        true,
                    ));
                }
                if at + 2 < actions.len() {
                    assert((states[at + 3], actions[at + 2]) == advanced(
                        m,
                        states[at + 2],
                        false,
                        true,
                    ));
                }
            }
        }
        assert forall|i: int| 0 <= i < actions.len() && i < pass.len() implies #[trigger] actions[i]
            == pass[i] by {
            if i < at {
                assert(pass[i] == earlier[i]);
            } else {
                assert(pass[i] == doings(step)[i - at]);
            }
        }
    } else {
        assert(steps.take(0) =~= Seq::<Step>::empty());
    }
}

proof fn lemma_over(m: Macro, states: Seq<Player>, actions: Seq<Action>, from: int)
    requires
        undisturbed(m, states, actions),
        0 <= from < states.len(),
        states[from].stage == Stage::Over,
    ensures
        forall|i: int| from <= i < actions.len() ==> #[trigger] actions[i] == Action::Finish,
    decreases actions.len() - from,
{
    if from < actions.len() {
        assert((states[from + 1], actions[from]) == advanced(m, states[from], false, true));
        lemma_over(m, states, actions, from + 1);
    }
}

proof fn lemma_same_run(
    m: Macro,
    a: Seq<Player>,
    x: Seq<Action>,
    b: Seq<Player>,
    y: Seq<Action>,
    i: int,
)
    requires
        undisturbed(m, a, x),
        undisturbed(m, b, y),
        0 <= i < x.len(),
        i < y.len(),
    ensures
        x[i] == y[i],
        a[i] == b[i],
    decreases i,
{
    if i > 0 {
        lemma_same_run(m, a, x, b, y, i - 1);
        assert((a[i], x[i - 1]) == advanced(m, a[i - 1], false, true));
        assert((b[i], y[i - 1]) == advanced(m, b[i - 1], false, true));
    }
    assert((a[i + 1], x[i]) == advanced(m, a[i], false, true));
    assert((b[i + 1], y[i]) == advanced(m, b[i], false, true));
}

/// The keys that are down, after an action.
pub open spec fn key_step(down: Seq<Key>, a: Action) -> Seq<Key> {
    match a {
        Action::KeyDown { key } => adding(down, key),
        Action::KeyUp { key } => dropping(down, key),
        _ => down,
    }
}

/// The mouse buttons that are down, after an action.
pub open spec fn button_step(down: Seq<MouseButton>, a: Action) -> Seq<MouseButton> {
    match a {
        Action::MouseDown { button } => adding(down, button),
        Action::MouseUp { button } => dropping(down, button),
        _ => down,
    }
}

/// The keys that are down after the actions, if none was before.
pub open spec fn keys_down(actions: Seq<Action>) -> Seq<Key>
    decreases actions.len(),
{
    if actions.len() == 0 {
        Seq::empty()
    } else {
        key_step(keys_down(actions.drop_last()), actions.last())
    }
}

/// The mouse buttons that are down after the actions, if none was before.
pub open spec fn buttons_down(actions: Seq<Action>) -> Seq<MouseButton>
    decreases actions.len(),
{
    if actions.len() == 0 {
        Seq::empty()
    } else {
        button_step(buttons_down(actions.drop_last()), actions.last())
    }
}

/// The list, and behind it what else is in the other one.
pub open spec fn united<T>(list: Seq<T>, more: Seq<T>) -> Seq<T>
    decreases more.len(),
{
    if more.len() == 0 {
        list
    } else {
        adding(united(list, more.drop_last()), more.last())
    }
}

/// What a running macro holds down.
pub struct Holding {
    pub keys: Vec<Key>,
    pub buttons: Vec<MouseButton>,
}

impl Holding {
    pub fn new() -> (h: Holding)
        ensures
            h.keys@ == keys_down(Seq::empty()),
            h.buttons@ == buttons_down(Seq::empty()),
    {
        Holding { keys: Vec::new(), buttons: Vec::new() }
    }

    /// Take note of an action.
    pub fn note(&mut self, a: Action)
        ensures
            final(self).keys@ == key_step(old(self).keys@, a),
            final(self).buttons@ == button_step(old(self).buttons@, a),
    {
        match a {
            Action::KeyDown { key } => {
                if !has_key(&self.keys, key) {
                    self.keys.push(key);
                }
            },
            Action::KeyUp { key } => {
                self.keys = without_key(&self.keys, key);
            },
            Action::MouseDown { button } => {
                if !has_button(&self.buttons, button) {
                    self.buttons.push(button);
                }
            },
            Action::MouseUp { button } => {
                self.buttons = without_button(&self.buttons, button);
            },
            _ => {},
        }
    }

    /// What to release when the macro is over, however it ended: what a whole
    /// pass leaves held, and whatever else is down.
    pub fn release(&self, mac: &Macro) -> (r: (Vec<Key>, Vec<MouseButton>))
        ensures
            r.0@ == united(keys_held(mac.steps@), self.keys@),
            r.1@ == united(buttons_held(mac.steps@), self.buttons@),
    {
        let mut keys = mac.held_keys();
        let mut i: usize = 0;
        assert(self.keys@.take(0) =~= Seq::<Key>::empty());
        while i < self.keys.len()
            invariant
                i <= self.keys.len(),
                keys@ == united(keys_held(mac.steps@), self.keys@.take(i as int)),
            decreases self.keys.len() - i,
        {
            assert(self.keys@.take(i as int + 1).drop_last() =~= self.keys@.take(i as int));
            assert(self.keys@.take(i as int + 1).last() == self.keys@[i as int]);
            if !has_key(&keys, self.keys[i]) {
                keys.push(self.keys[i]);
            }
            i = i + 1;
        }
        assert(self.keys@.take(self.keys@.len() as int) =~= self.keys@);
        let mut buttons = mac.held_buttons();
        let mut j: usize = 0;
        assert(self.buttons@.take(0) =~= Seq::<MouseButton>::empty());
        while j < self.buttons.len()
            invariant
                j <= self.buttons.len(),
                buttons@ == united(buttons_held(mac.steps@), self.buttons@.take(j as int)),
            decreases self.buttons.len() - j,
        {
            assert(self.buttons@.take(j as int + 1).drop_last() =~= self.buttons@.take(j as int));
            assert(self.buttons@.take(j as int + 1).last() == self.buttons@[j as int]);
            if !has_button(&buttons, self.buttons[j]) {
                buttons.push(self.buttons[j]);
            }
            j = j + 1;
        }
        assert(self.buttons@.take(self.buttons@.len() as int) =~= self.buttons@);
        (keys, buttons)
    }
}

proof fn lemma_adding<T>(list: Seq<T>, x: T, y: T)
    ensures
        adding(list, x).contains(y) <==> list.contains(y) || y == x,
{
    if !list.contains(x) {
        if list.contains(y) {
            let k = choose|k: int| 0 <= k < list.len() && list[k] == y;
            assert(list.push(x)[k] == y);
        }
        assert(list.push(x)[list.len() as int] == x);
    }
}

proof fn lemma_united<T>(list: Seq<T>, more: Seq<T>, y: T)
    ensures
        united(list, more).contains(y) <==> list.contains(y) || more.contains(y),
    decreases more.len(),
{
    if more.len() > 0 {
        lemma_united(list, more.drop_last(), y);
        lemma_adding(united(list, more.drop_last()), more.last(), y);
        if more.contains(y) && y != more.last() {
            let k = choose|k: int| 0 <= k < more.len() && more[k] == y;
            assert(more.drop_last()[k] == y);
        }
        if more.drop_last().contains(y) {
            let k = choose|k: int| 0 <= k < more.drop_last().len() && more.drop_last()[k] == y;
            assert(more[k] == y);
        }
        assert(more[more.len() - 1] == more.last());
    }
}

/// The releases of keys and buttons, as actions.
pub open spec fn releases(keys: Seq<Key>, buttons: Seq<MouseButton>) -> Seq<Action> {
    keys.map_values(|key: Key| Action::KeyUp { key }) + buttons.map_values(
        |button: MouseButton| Action::MouseUp { button },
    )
}

proof fn lemma_releases(actions: Seq<Action>, ups: Seq<Action>, key: Key, button: MouseButton)
    requires
        forall|i: int| 0 <= i < ups.len() ==> (#[trigger] ups[i]) is KeyUp || ups[i] is MouseUp,
    ensures
        keys_down(actions + ups).contains(key) <==> keys_down(actions).contains(key)
            && !ups.contains(Action::KeyUp { key }),
        buttons_down(actions + ups).contains(button) <==> buttons_down(actions).contains(button)
            && !ups.contains(Action::MouseUp { button }),
    decreases ups.len(),
{
    if ups.len() == 0 {
        assert(actions + ups =~= actions);
    } else {
        let head = ups.drop_last();
        let last = ups.last();
        lemma_releases(actions, head, key, button);
        assert((actions + ups).drop_last() =~= actions + head);
        assert((actions + ups).last() == last);
        let down = keys_down(actions + head);
        let pressed = buttons_down(actions + head);
        match last {
            Action::KeyUp { key: k } => {
                lemma_dropping(down, k, key);
            },
            Action::MouseUp { button: b } => {
                lemma_dropping(pressed, b, button);
            },
            _ => {},
        }
        assert forall|a: Action| ups.contains(a) <==> head.contains(a) || a == last by {
            if ups.contains(a) && a != last {
                let k = choose|k: int| 0 <= k < ups.len() && ups[k] == a;
                assert(head[k] == a);
            }
            if head.contains(a) {
                let k = choose|k: int| 0 <= k < head.len() && head[k] == a;
                assert(ups[k] == a);
            }
            assert(ups[ups.len() - 1] == last);
        }
    }
}

/// However a macro ends, nothing stays held: with what is released behind the
/// actions that were performed, no key and no button is down.
pub proof fn law_nothing_stays_held(
    m: Macro,
    actions: Seq<Action>,
    key: Key,
    button: MouseButton,
)
    ensures
        ({
            let ups = releases(
                united(keys_held(m.steps@), keys_down(actions)),
                united(buttons_held(m.steps@), buttons_down(actions)),
            );
            !keys_down(actions + ups).contains(key) && !buttons_down(actions + ups).contains(button)
        }),
{
    let keys = united(keys_held(m.steps@), keys_down(actions));
    let buttons = united(buttons_held(m.steps@), buttons_down(actions));
    let ups = releases(keys, buttons);
    lemma_releases(actions, ups, key, button);
    lemma_united(keys_held(m.steps@), keys_down(actions), key);
    lemma_united(buttons_held(m.steps@), buttons_down(actions), button);
    if keys.contains(key) {
        let k = choose|k: int| 0 <= k < keys.len() && keys[k] == key;
        assert(ups[k] == (Action::KeyUp { key }));
    }
    if buttons.contains(button) {
        let k = choose|k: int| 0 <= k < buttons.len() && buttons[k] == button;
        assert(ups[keys.len() + k] == (Action::MouseUp { button }));
    }
}

/// A sleep is taken in slices, so that a stop is noticed in the middle of it.
pub const SLICE: u64 = 5;

/// The next slice of a sleep.
pub fn slice(left: u64) -> (chunk: u64)
    ensures
        chunk == (if left < SLICE { left } else { SLICE }),
        chunk <= left,
        left > 0 ==> chunk > 0,
{
    if left < SLICE {
        left
    } else {
        SLICE
    }
}

/// What each step does to the time of a pass: a tap lasts while its key is held, a
/// wait and a freeze as long as they say, and everything else no time.
pub proof fn law_steps_take_their_time(steps: Seq<Step>, step: Step)
    ensures
        total_ms(steps.push(step)) == total_ms(steps) + match step {
            Step::Tap { key, hold_ms } => hold_ms as int,
            Step::Wait { ms } => ms as int,
            Step::Freeze { ms } => ms as int,
            _ => 0,
        },
        total_ms(Seq::empty()) == 0,
{
    assert(steps.push(step).drop_last() =~= steps);
}

/// A step that presses a mouse button leaves it held, one that releases it leaves it
/// free, and no other step changes what is held.
pub proof fn law_held_buttons_follow_the_steps(steps: Seq<Step>, step: Step, button: MouseButton)
    ensures
        buttons_held(steps.push(step)).contains(button) <==> match step {
            Step::MouseDown { button: b } => b == button || buttons_held(steps).contains(button),
            Step::MouseUp { button: b } => b != button && buttons_held(steps).contains(button),
            _ => buttons_held(steps).contains(button),
        },
        !buttons_held(Seq::empty()).contains(button),
{
    assert(steps.push(step).drop_last() =~= steps);
    match step {
        Step::MouseDown { button: b } => lemma_adding(buttons_held(steps), b, button),
        Step::MouseUp { button: b } => lemma_dropping(buttons_held(steps), b, button),
        _ => {},
    }
}

/// What is down follows what is done: a press puts a key or a button down, a release
/// lifts it, and nothing else changes which are down.
pub proof fn law_what_is_down_follows_the_actions(
    actions: Seq<Action>,
    a: Action,
    key: Key,
    button: MouseButton,
)
    ensures
        keys_down(actions.push(a)).contains(key) <==> match a {
            Action::KeyDown { key: k } => k == key || keys_down(actions).contains(key),
            Action::KeyUp { key: k } => k != key && keys_down(actions).contains(key),
            _ => keys_down(actions).contains(key),
        },
        buttons_down(actions.push(a)).contains(button) <==> match a {
            Action::MouseDown { button: b } => b == button || buttons_down(actions).contains(
                button,
            ),
            Action::MouseUp { button: b } => b != button && buttons_down(actions).contains(button),
            _ => buttons_down(actions).contains(button),
        },
        !keys_down(Seq::empty()).contains(key),
        !buttons_down(Seq::empty()).contains(button),
        keys_down(actions.push(a)) == key_step(keys_down(actions), a),
        buttons_down(actions.push(a)) == button_step(buttons_down(actions), a),
{
    assert(actions.push(a).drop_last() =~= actions);
    match a {
        Action::KeyDown { key: k } => lemma_adding(keys_down(actions), k, key),
        Action::KeyUp { key: k } => lemma_dropping(keys_down(actions), k, key),
        Action::MouseDown { button: b } => lemma_adding(buttons_down(actions), b, button),
        Action::MouseUp { button: b } => lemma_dropping(buttons_down(actions), b, button),
        _ => {},
    }
}

/// A macro that was asked to stop presses nothing more, moves nothing and suspends
/// nothing: it lets go of the key of a tap, sleeps, or ends. It ends before its next
/// step, and a macro that was sleeping before a further pass begins none.
pub proof fn law_a_stopped_macro_starts_nothing(m: Macro, p: Player, ok: bool)
    requires
        p.wf(m),
    ensures
        match advanced(m, p, true, ok).1 {
            Action::Finish => true,
            Action::Sleep { ms } => true,
            Action::KeyUp { key } => p.stage is Held,
            _ => false,
        },
        p.stage is Released && p.at + 1 < m.steps.len() ==> advanced(m, p, true, ok).1
            == Action::Finish,
        p.stage == Stage::Before && p.at < m.steps.len() ==> advanced(m, p, true, ok).1
            == Action::Finish,
        advanced(m, p, true, ok).1 == Action::Finish ==> advanced(m, p, true, ok).0.stage
            == Stage::Over,
{
}

/// What is started: a macro that is enabled, that does something besides waiting, and
/// that is not running yet.
pub proof fn law_what_can_be_started(e: Engine, m: Macro)
    ensures
        !m.enabled ==> !e.can_start(m),
        (forall|i: int| 0 <= i < m.steps.len() ==> (#[trigger] m.steps@[i]) is Wait)
            ==> !e.can_start(m),
        (exists|i: int| 0 <= i < e.running.len() && (#[trigger] e.running@[i]).id@ == m.id@)
            ==> !e.can_start(m),
        m.enabled && (exists|i: int| 0 <= i < m.steps.len() && !((#[trigger] m.steps@[i]) is Wait))
            && (forall|i: int|
            0 <= i < e.running.len() ==> (#[trigger] e.running@[i]).id@ != m.id@) ==> e.can_start(m),
{
}

/// What is shown when input fails, and how long a sleep goes on after a stop at most.
pub proof fn law_input_errors(e: Error)
    ensures
        match e {
            Error::NoBackend(t) => e.words() == "no input backend available: "@ + t@,
            Error::Permission(t) => e.words() == "permission denied: "@ + t@,
            Error::Input(t) => e.words() == "input error: "@ + t@,
        },
        SLICE == 5,
{
}

} // verus!
