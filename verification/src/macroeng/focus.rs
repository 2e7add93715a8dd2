//! Is the game the focused window?
//!
//! Without this a hotkey would fire wherever the user is. Gating on focus is the
//! most important safety property macros have. Where there is no way to tell,
//! macros are allowed: a gate that silently blocks everything would look like a
//! feature that is broken.

use crate::text::{
    ascii_lowercase, chars_of, contains_text, find_from, is_space, is_space_spec, lemma_find_from,
    occurs, occurs_at, opt_text, position, range_text, to_ascii_lower, trim_end,
};
use vstd::prelude::*;
use vstd::string::*;

verus! {

/// The window class or process name is the game's.
pub open spec fn is_game_window(s: Seq<char>) -> bool {
    let t = ascii_lowercase(s);
    occurs(t, "sober"@) || occurs(t, "roblox"@) || occurs(t, "robloxplayerbeta"@) || occurs(
        t,
        "vinegar"@,
    )
}

pub fn looks_like_game(s: &str) -> (r: bool)
    ensures
        r == is_game_window(s@),
{
    let t = to_ascii_lower(s);
    contains_text(t.as_str(), "sober") || contains_text(t.as_str(), "roblox") || contains_text(
        t.as_str(),
        "robloxplayerbeta",
    ) || contains_text(t.as_str(), "vinegar")
}

#[derive(Debug, Clone, Copy, PartialEq, Eq, Structural)]
pub enum Focus {
    Game,
    Other,
    /// There is no way to tell on this system.
    Unknown,
}

impl Focus {
    /// Whether a macro may run. Not knowing allows it.
    pub fn allows_macros(self) -> (r: bool)
        ensures
            r == (self != Focus::Other),
    {
        match self {
            Focus::Other => false,
            _ => true,
        }
    }
}

pub open spec fn focus_on(window: Seq<char>) -> Focus {
    if is_game_window(window) {
        Focus::Game
    } else {
        Focus::Other
    }
}

fn focus_of(window: &str) -> (r: Focus)
    ensures
        r == focus_on(window@),
{
    if looks_like_game(window) {
        Focus::Game
    } else {
        Focus::Other
    }
}

/// How many bytes a character takes in UTF-8.
pub open spec fn utf8_len(c: char) -> nat {
    if (c as u32) < 0x80 {
        1
    } else if (c as u32) < 0x800 {
        2
    } else if (c as u32) < 0x1_0000 {
        3
    } else {
        4
    }
}

/// The end of a text: as many of its last characters as fit in `room` bytes.
pub open spec fn last_bytes(s: Seq<char>, room: nat) -> Seq<char>
    decreases s.len(),
{
    if s.len() == 0 || utf8_len(s.last()) > room {
        Seq::empty()
    } else {
        last_bytes(s.drop_last(), (room - utf8_len(s.last())) as nat).push(s.last())
    }
}

/// How much of the window tree in front of the focus mark describes the focused
/// window, in bytes.
pub const WINDOW_BYTES: usize = 400;

/// What a window tree says in front of its focus mark.
pub open spec fn focused_part(tree: Seq<char>) -> Option<Seq<char>> {
    match find_from(tree, "\"focused\":true"@, 0) {
        Some(i) => Some(last_bytes(tree.take(i), WINDOW_BYTES as nat)),
        None => None,
    }
}

fn char_bytes(c: char) -> (n: usize)
    ensures
        n == utf8_len(c),
        1 <= n <= 4,
{
    let u: u32 = c as u32;
    if u < 0x80 {
        1
    } else if u < 0x800 {
        2
    } else if u < 0x1_0000 {
        3
    } else {
        4
    }
}

/// What a window tree says in front of its focus mark.
pub fn focused_window(tree: &str) -> (r: Option<String>)
    ensures
        opt_text(r) == focused_part(tree@),
{
    let v = chars_of(tree);
    let mark = chars_of("\"focused\":true");
    match position(&v, &mark, 0) {
        Some(i) => {
            let mut start: usize = i;
            let mut room: usize = WINDOW_BYTES;
            let ghost head = v@.take(i as int);
            assert(head.take(i as int) =~= head);
            assert(v@.subrange(i as int, i as int) =~= Seq::<char>::empty());
            assert(last_bytes(head, WINDOW_BYTES as nat) =~= last_bytes(
                head.take(start as int),
                room as nat,
            ) + v@.subrange(start as int, i as int));
            while start > 0 && char_bytes(v[start - 1]) <= room
                invariant
                    start <= i <= v.len(),
                    head == v@.take(i as int),
                    last_bytes(head, WINDOW_BYTES as nat) == last_bytes(
                        head.take(start as int),
                        room as nat,
                    ) + v@.subrange(start as int, i as int),
                decreases start,
            {
                let ghost cur = head.take(start as int);
                assert(cur.last() == v@[start - 1]);
                assert(cur.drop_last() =~= head.take(start - 1));
                let n: usize = char_bytes(v[start - 1]);
                let ghost shorter = last_bytes(head.take(start - 1), (room - n) as nat);
                assert(shorter.push(v@[start - 1]) + v@.subrange(start as int, i as int)
                    =~= shorter + v@.subrange(start - 1, i as int));
                room = room - n;
                start = start - 1;
            }
            proof {
                let cur = head.take(start as int);
                if start > 0 {
                    assert(cur.last() == v@[start - 1]);
                }
                assert(last_bytes(cur, room as nat) =~= Seq::<char>::empty());
                assert(last_bytes(head, WINDOW_BYTES as nat) =~= v@.subrange(
                    start as int,
                    i as int,
                ));
            }
            Some(range_text(&v, start, i))
        },
        None => None,
    }
}

/// The last word of a text.
pub open spec fn last_word(s: Seq<char>) -> Option<Seq<char>> {
    let t = trim_end(s);
    if t.len() == 0 {
        None
    } else {
        Some(t.skip(word_start(t, t.len() as int)))
    }
}

/// Where the word that ends at `i` starts.
pub open spec fn word_start(t: Seq<char>, i: int) -> int
    decreases i,
{
    if i <= 0 || is_space_spec(t[i - 1]) {
        i
    } else {
        word_start(t, i - 1)
    }
}

/// The id of the active window, which an X server names last.
pub fn active_window_id(root: &str) -> (r: Option<String>)
    ensures
        opt_text(r) == last_word(root@),
{
    let v = chars_of(root);
    let mut end: usize = v.len();
    assert(v@.take(v@.len() as int) =~= v@);
    while end > 0 && is_space(v[end - 1])
        invariant
            end <= v.len(),
            trim_end(v@) == trim_end(v@.take(end as int)),
        decreases end,
    {
        assert(v@.take(end as int).last() == v@[end - 1]);
        assert(v@.take(end as int).drop_last() =~= v@.take(end - 1));
        end = end - 1;
    }
    let ghost t = v@.take(end as int);
    proof {
        if end > 0 {
            assert(t.last() == v@[end - 1]);
        }
        assert(trim_end(v@) == t);
    }
    if end == 0 {
        return None;
    }
    let mut start: usize = end;
    while start > 0 && !is_space(v[start - 1])
        invariant
            start <= end <= v.len(),
            t == v@.take(end as int),
            word_start(t, end as int) == word_start(t, start as int),
        decreases start,
    {
        assert(t[start - 1] == v@[start - 1]);
        start = start - 1;
    }
    proof {
        if start > 0 {
            assert(t[start - 1] == v@[start - 1]);
        }
    }
    let r = range_text(&v, start, end);
    assert(r@ =~= t.skip(start as int));
    Some(r)
}

/// The focus, from what the window systems say: the active window under
/// Hyprland, the window tree under Sway, the window class under X. Each is
/// there where the system is and answered; the first that tells decides.
pub fn current(hyprland: Option<String>, sway: Option<String>, x11: Option<String>) -> (r: Focus)
    ensures
        r == (match hyprland {
            Some(w) => focus_on(w@),
            None => match (match sway {
                Some(tree) => focused_part(tree@),
                None => None,
            }) {
                Some(w) => focus_on(w),
                None => match x11 {
                    Some(w) => focus_on(w@),
                    None => Focus::Unknown,
                },
            },
        }),
{
    match hyprland {
        Some(w) => {
            return focus_of(w.as_str());
        },
        None => {},
    }
    match sway {
        Some(tree) => match focused_window(tree.as_str()) {
            Some(w) => {
                return focus_of(w.as_str());
            },
            None => {},
        },
        None => {},
    }
    match x11 {
        Some(w) => focus_of(w.as_str()),
        None => Focus::Unknown,
    }
}

/// The focus on Windows, from the path of the program that owns the foreground
/// window.
pub fn current_program(path: Option<String>) -> (r: Focus)
    ensures
        r == (match path {
            Some(p) => focus_on(p@),
            None => Focus::Unknown,
        }),
{
    match path {
        Some(p) => focus_of(p.as_str()),
        None => Focus::Unknown,
    }
}

/// Whether the focus can be told at all here.
pub fn is_detectable(focus: Focus) -> (r: bool)
    ensures
        r == (focus != Focus::Unknown),
{
    match focus {
        Focus::Unknown => false,
        _ => true,
    }
}

/// The game is recognised by any of its names, in whatever case and wherever it
/// stands; a window with none of them is another one.
pub proof fn law_the_game_is_known_by_name(s: Seq<char>)
    ensures
        occurs(ascii_lowercase(s), "sober"@) ==> focus_on(s) == Focus::Game,
        occurs(ascii_lowercase(s), "roblox"@) ==> focus_on(s) == Focus::Game,
        occurs(ascii_lowercase(s), "robloxplayerbeta"@) ==> focus_on(s) == Focus::Game,
        occurs(ascii_lowercase(s), "vinegar"@) ==> focus_on(s) == Focus::Game,
        !occurs(ascii_lowercase(s), "sober"@) && !occurs(ascii_lowercase(s), "roblox"@) && !occurs(
            ascii_lowercase(s),
            "robloxplayerbeta"@,
        ) && !occurs(ascii_lowercase(s), "vinegar"@) ==> focus_on(s) == Focus::Other,
{
}

/// How many bytes a text takes.
pub open spec fn bytes_of(s: Seq<char>) -> nat
    decreases s.len(),
{
    if s.len() == 0 {
        0
    } else {
        bytes_of(s.drop_last()) + utf8_len(s.last())
    }
}

/// A character takes one byte up to 127, two up to 2047, three up to 65535, and four
/// above.
pub proof fn law_bytes_of_a_character(c: char)
    ensures
        (c as u32) <= 127 ==> utf8_len(c) == 1,
        127 < (c as u32) <= 2047 ==> utf8_len(c) == 2,
        2047 < (c as u32) <= 65535 ==> utf8_len(c) == 3,
        65535 < (c as u32) ==> utf8_len(c) == 4,
{
}

/// The end of a text is an end of it, fits, and could not be a character longer.
pub proof fn law_the_end_of_a_text_fits(s: Seq<char>, room: nat)
    ensures
        ({
            let end = last_bytes(s, room);
            &&& end.len() <= s.len()
            &&& end == s.skip(s.len() - end.len())
            &&& bytes_of(end) <= room
            &&& end.len() < s.len() ==> bytes_of(end) + utf8_len(s[s.len() - end.len() - 1]) > room
        }),
    decreases s.len(),
{
    if s.len() == 0 || utf8_len(s.last()) > room {
        assert(s.skip(s.len() as int) =~= Seq::<char>::empty());
    } else {
        let less = (room - utf8_len(s.last())) as nat;
        law_the_end_of_a_text_fits(s.drop_last(), less);
        let inner = last_bytes(s.drop_last(), less);
        let end = last_bytes(s, room);
        assert(end.drop_last() =~= inner);
        assert(end =~= s.skip(s.len() - end.len()));
        if end.len() < s.len() {
            assert(s.drop_last()[s.drop_last().len() - inner.len() - 1] == s[s.len() - end.len()
                - 1]);
        }
    }
}

/// What is looked at of a window tree stands right in front of its first focus mark,
/// four hundred bytes of it at most; without a mark there is nothing to look at.
pub proof fn law_the_focused_window_stands_before_its_mark(head: Seq<char>, rest: Seq<char>)
    requires
        !head.contains('"'),
    ensures
        focused_part(head + "\"focused\":true"@ + rest) == Some(last_bytes(head, 400)),
        focused_part(head) is None,
{
    reveal_strlit("\"focused\":true");
    let mark = "\"focused\":true"@;
    let tree = head + mark + rest;
    let h = head.len() as int;
    lemma_find_from(tree, mark, 0);
    lemma_find_from(head, mark, 0);
    assert(tree.subrange(h, h + mark.len()) =~= mark);
    assert(occurs_at(tree, mark, h));
    assert forall|j: int| 0 <= j < h implies !occurs_at(tree, mark, j) by {
        if occurs_at(tree, mark, j) {
            assert(tree.subrange(j, j + mark.len())[0] == '"');
            assert(tree[j] == head[j]);
        }
    }
    assert forall|j: int| 0 <= j implies !occurs_at(head, mark, j) by {
        if occurs_at(head, mark, j) {
            assert(head.subrange(j, j + mark.len())[0] == '"');
            assert(head[j] == '"');
        }
    }
    assert(tree.take(h) =~= head);
}

proof fn lemma_word_start(t: Seq<char>, i: int, k: int)
    requires
        0 <= k <= i <= t.len(),
        forall|j: int| k <= j < i ==> !is_space_spec(#[trigger] t[j]),
        k > 0 ==> is_space_spec(t[k - 1]),
    ensures
        word_start(t, i) == k,
    decreases i,
{
    if i > k {
        assert(!is_space_spec(t[i - 1]));
        lemma_word_start(t, i - 1, k);
    }
}

/// The last word of a text is found whatever white space follows it.
pub proof fn law_the_last_word_is_found(head: Seq<char>, word: Seq<char>, right: Seq<char>)
    requires
        word.len() > 0,
        forall|i: int| 0 <= i < word.len() ==> !is_space_spec(#[trigger] word[i]),
        head.len() > 0 ==> is_space_spec(head.last()),
        forall|i: int| 0 <= i < right.len() ==> is_space_spec(#[trigger] right[i]),
    ensures
        last_word(head + word + right) == Some(word),
    decreases right.len(),
{
    let s = head + word + right;
    if right.len() > 0 {
        assert(s.last() == right.last());
        assert(s.drop_last() =~= head + word + right.drop_last());
        law_the_last_word_is_found(head, word, right.drop_last());
    } else {
        assert(s =~= head + word);
        assert(s.last() == word.last());
        assert(trim_end(s) == s);
        let h = head.len() as int;
        assert forall|j: int| h <= j < s.len() implies !is_space_spec(#[trigger] s[j]) by {
            assert(s[j] == word[j - h]);
        }
        lemma_word_start(s, s.len() as int, h);
        assert(s.skip(h) =~= word);
    }
}

} // verus!
