//! Engine flags for the official Windows client.
//!
//! The client reads them from a file in the version directory it was launched
//! from. Every installed version gets a copy: the launcher decides which one
//! runs.

use crate::launcher::config::{
    flags_document, holds_flags, is_document, is_flag_of, is_last_of_name, lists, member,
    shape_json, shape_text, shapes,
};
use crate::launcher::sober::{
    flag_value, flags_are, json_object_at, object_at, opt_pairs, pairs_of, typed_flag, FlagShape,
    FlagValue, PLACEHOLDER_FLAG,
};
use crate::launcher::Error;
use crate::text::{cat2, same, trim, trimmed};
use vstd::prelude::*;

verus! {

/// The flags as they are written: names without the white space around them, and
/// neither nameless ones nor the placeholder.
pub open spec fn client_flags(flags: Seq<(String, String)>) -> Seq<(Seq<char>, FlagShape)>
    decreases flags.len(),
{
    if flags.len() == 0 {
        Seq::empty()
    } else {
        let earlier = client_flags(flags.drop_last());
        let name = trimmed(flags.last().0@);
        if name.len() == 0 || name == PLACEHOLDER_FLAG@ {
            earlier
        } else {
            earlier.push((name, flag_value(flags.last().1@)))
        }
    }
}

/// The flags as they are written, each typed the way the engine expects. A later
/// flag of the same name stands behind an earlier one.
pub fn write_fflags(flags: &Vec<(String, String)>) -> (out: Vec<(String, FlagValue)>)
    ensures
        flags_are(out@, client_flags(flags@)),
{
    let mut out: Vec<(String, FlagValue)> = Vec::new();
    let mut i: usize = 0;
    assert(flags@.take(0) =~= Seq::<(String, String)>::empty());
    while i < flags.len()
        invariant
            i <= flags.len(),
            flags_are(out@, client_flags(flags@.take(i as int))),
        decreases flags.len() - i,
    {
        assert(flags@.take(i as int + 1).drop_last() =~= flags@.take(i as int));
        assert(flags@.take(i as int + 1).last() == flags@[i as int]);
        let name = trim(flags[i].0.as_str());
        if !name.as_str().is_empty() && !same(name.as_str(), PLACEHOLDER_FLAG) {
            let value = typed_flag(flags[i].1.as_str());
            out.push((name, value));
        }
        i = i + 1;
    }
    assert(flags@.take(flags@.len() as int) =~= flags@);
    out
}

/// The file of flags as it is written to every install. Without flags it is an
/// empty object: a file left behind would keep applying what was cleared.
pub fn settings_file(flags: &Vec<(String, String)>) -> (doc: String)
    ensures
        holds_flags(doc@, client_flags(flags@)),
{
    let typed = write_fflags(flags);
    assert(shapes(typed@) =~= client_flags(flags@));
    flags_document(&typed)
}

/// What the file of the newest install holds: each flag with its value as it is
/// shown. Nothing where there is no file, or none that holds an object.
pub fn read_fflags(file: Option<&str>) -> (r: Option<Vec<(String, String)>>)
    ensures
        match (file, r) {
            (Some(text), Some(list)) => is_document(text@) && lists(pairs_of(list@), text@)
                && opt_pairs(r) == object_at(text@, Seq::empty()),
            (Some(text), None) => !is_document(text@),
            (None, _) => r is None,
        },
{
    let top = "";
    proof {
        reveal_strlit("");
        assert(top@ =~= Seq::<char>::empty());
    }
    match file {
        Some(text) => json_object_at(text, top),
        None => None,
    }
}

/// The flags that were written are the flags that are read: each with its value,
/// and no others.
pub proof fn law_the_flags_written_are_read(
    doc: Seq<char>,
    flags: Seq<(String, String)>,
    pairs: Seq<(Seq<char>, Seq<char>)>,
    i: int,
)
    requires
        holds_flags(doc, client_flags(flags)),
        lists(pairs, doc),
    ensures
        0 <= i < client_flags(flags).len() && is_last_of_name(client_flags(flags), i)
            ==> pairs.contains((client_flags(flags)[i].0, shape_text(client_flags(flags)[i].1))),
        0 <= i < pairs.len() ==> is_flag_of(client_flags(flags), pairs[i].0),
{
    let all = client_flags(flags);
    if 0 <= i < all.len() && is_last_of_name(all, i) {
        assert(member(doc, all[i].0) == Some(shape_json(all[i].1)));
        assert(pairs.contains((all[i].0, shape_text(all[i].1))));
    }
    if 0 <= i < pairs.len() {
        assert(member(doc, pairs[i].0) is Some);
    }
}

/// Whether a directory holds a real client: `Versions` accumulates leftovers.
pub fn is_install(has_player: bool, has_app: bool) -> (r: bool)
    ensures
        r == (has_player || has_app),
{
    has_player || has_app
}

/// What writing the flags came to. With no client installed there is nothing to
/// write to yet, and that is no failure; otherwise one copy at least must have
/// been written.
pub fn written(installs: usize, wrote: usize, last_error: Option<String>) -> (r:
    crate::launcher::Result<()>)
    ensures
        match r {
            Ok(()) => installs == 0 || wrote > 0,
            Err(Error::Launch(e)) => installs > 0 && wrote == 0 && e@
                == "could not write FastFlags: "@ + (match last_error {
                Some(t) => t@,
                None => "unknown error"@,
            }),
            Err(_) => false,
        },
{
    if installs == 0 || wrote > 0 {
        return Ok(());
    }
    let detail = match last_error {
        Some(t) => t,
        None => "unknown error".to_owned(),
    };
    Err(Error::Launch(cat2("could not write FastFlags: ", detail.as_str())))
}

/// The most recently changed of the installs, the last of several. It is the one
/// most likely to run.
pub fn newest(changed: &Vec<u64>) -> (r: Option<usize>)
    ensures
        match r {
            Some(i) => i < changed.len() && (forall|k: int|
                0 <= k < changed.len() ==> changed@[k] <= changed@[i as int]) && (forall|k: int|
                i < k < changed.len() ==> changed@[k] < changed@[i as int]),
            None => changed.len() == 0,
        },
{
    if changed.len() == 0 {
        return None;
    }
    let mut best: usize = 0;
    let mut i: usize = 1;
    while i < changed.len()
        invariant
            best < i <= changed.len(),
            forall|k: int| 0 <= k < i ==> changed@[k] <= changed@[best as int],
            forall|k: int| best < k < i ==> changed@[k] < changed@[best as int],
        decreases changed.len() - i,
    {
        if changed[i] >= changed[best] {
            best = i;
        }
        i = i + 1;
    }
    Some(best)
}

/// A flag is written under its name without the white space around it, with its value
/// typed; one without a name, and the placeholder, are left out.
pub proof fn law_what_is_written_of_a_flag(flags: Seq<(String, String)>, f: (String, String))
    ensures
        ({
            let name = trimmed(f.0@);
            if name.len() == 0 || name == "FFlagExample"@ {
                client_flags(flags.push(f)) == client_flags(flags)
            } else {
                client_flags(flags.push(f)) == client_flags(flags).push((name, flag_value(f.1@)))
            }
        }),
{
    assert(flags.push(f).drop_last() =~= flags);
}

} // verus!
