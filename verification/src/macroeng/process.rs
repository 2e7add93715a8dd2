//! Suspending and resuming the game.
//!
//! **Safety is the whole design here.** A process left suspended is a hung game,
//! so every freeze lasts a limited time, everything that was suspended is
//! remembered until it is resumed, and nothing is suspended without an end.

use crate::macroeng::Error;
use crate::number::{parse_u32, read_u32};
use crate::text::{
    ascii_lowercase, chars_of, ends_with_spec, matches_at, same, string_of, to_ascii_lower, trim,
    trimmed,
};
use vstd::prelude::*;
use vstd::string::*;

verus! {

/// The longest a single freeze may last, in milliseconds. A longer one is a hung
/// game.
pub const MAX_FREEZE_MS: u64 = 2_000;

/// The text without the `.exe` at its end, however often it stands there.
pub open spec fn without_exe(s: Seq<char>) -> Seq<char>
    decreases s.len(),
{
    if s.len() >= 4 && ends_with_spec(s, ".exe"@) {
        without_exe(s.take(s.len() - 4))
    } else {
        s
    }
}

/// The process of this name is the game.
pub open spec fn names_game(comm: Seq<char>) -> bool {
    let c = ascii_lowercase(without_exe(trimmed(comm)));
    c == "sober"@ || c == "robloxplayerbeta"@ || c == "robloxplayer"@ || c == "windowsplayer"@
}

/// Whether a process of this name is the game. Several processes share the name,
/// and all of them are.
pub fn is_game(comm: &str) -> (r: bool)
    ensures
        r == names_game(comm@),
{
    let mut v = chars_of(trim(comm).as_str());
    let exe = chars_of(".exe");
    proof {
        reveal_strlit(".exe");
    }
    while v.len() >= 4 && matches_at(&v, &exe, v.len() - 4)
        invariant
            exe@ == ".exe"@,
            exe@.len() == 4,
            without_exe(v@) == without_exe(trimmed(comm@)),
        decreases v.len(),
    {
        let n: usize = v.len() - 4;
        let ghost before = v@;
        v.truncate(n);
        assert(v@ =~= before.take(before.len() - 4));
    }
    let c = to_ascii_lower(string_of(&v).as_str());
    same(c.as_str(), "sober") || same(c.as_str(), "robloxplayerbeta") || same(
        c.as_str(),
        "robloxplayer",
    ) || same(c.as_str(), "windowsplayer")
}

/// A process: the name of its directory, and the name of its program where that
/// can be read.
pub struct ProcessEntry {
    pub dir: String,
    pub comm: Option<String>,
}

/// The id of the process, if it is the game.
pub open spec fn game_pid(e: ProcessEntry) -> Option<u32> {
    match (read_u32(e.dir@), e.comm) {
        (Some(pid), Some(comm)) => if names_game(comm@) {
            Some(pid)
        } else {
            None
        },
        _ => None,
    }
}

pub open spec fn game_pids(entries: Seq<ProcessEntry>) -> Seq<u32>
    decreases entries.len(),
{
    if entries.len() == 0 {
        Seq::empty()
    } else {
        let earlier = game_pids(entries.drop_last());
        match game_pid(entries.last()) {
            Some(pid) => earlier.push(pid),
            None => earlier,
        }
    }
}

/// The processes that are the game. One that cannot be read is passed over, and
/// does not end the search.
pub fn find_game_pids(entries: &Vec<ProcessEntry>) -> (pids: Vec<u32>)
    ensures
        pids@ == game_pids(entries@),
{
    let mut pids: Vec<u32> = Vec::new();
    let mut i: usize = 0;
    assert(entries@.take(0) =~= Seq::<ProcessEntry>::empty());
    while i < entries.len()
        invariant
            i <= entries.len(),
            pids@ == game_pids(entries@.take(i as int)),
        decreases entries.len() - i,
    {
        assert(entries@.take(i as int + 1).drop_last() =~= entries@.take(i as int));
        assert(entries@.take(i as int + 1).last() == entries@[i as int]);
        match (parse_u32(entries[i].dir.as_str()), &entries[i].comm) {
            (Some(pid), Some(comm)) => {
                if is_game(comm.as_str()) {
                    pids.push(pid);
                }
            },
            _ => {},
        }
        i = i + 1;
    }
    assert(entries@.take(entries@.len() as int) =~= entries@);
    pids
}

/// Everything that was suspended and not resumed yet.
pub struct Suspended {
    pub pids: Vec<u32>,
}

/// The processes that could be stopped.
pub open spec fn stopped_of(pids: Seq<u32>, worked: Seq<bool>) -> Seq<u32>
    decreases pids.len(),
{
    if pids.len() == 0 {
        Seq::empty()
    } else {
        let earlier = stopped_of(pids.drop_last(), worked);
        if worked[pids.len() - 1] {
            earlier.push(pids.last())
        } else {
            earlier
        }
    }
}

/// The list, and behind it what is not there yet.
pub open spec fn remembering(list: Seq<u32>, more: Seq<u32>) -> Seq<u32>
    decreases more.len(),
{
    if more.len() == 0 {
        list
    } else {
        let earlier = remembering(list, more.drop_last());
        if earlier.contains(more.last()) {
            earlier
        } else {
            earlier.push(more.last())
        }
    }
}

fn has_pid(list: &Vec<u32>, pid: u32) -> (r: bool)
    ensures
        r == list@.contains(pid),
{
    let mut i: usize = 0;
    while i < list.len()
        invariant
            i <= list.len(),
            forall|k: int| 0 <= k < i ==> list@[k] != pid,
        decreases list.len() - i,
    {
        if list[i] == pid {
            return true;
        }
        i = i + 1;
    }
    false
}

impl Suspended {
    pub fn new() -> (s: Suspended)
        ensures
            s.pids@ == Seq::<u32>::empty(),
    {
        Suspended { pids: Vec::new() }
    }

    /// Take note of what suspending the game came to: `pids` are its processes,
    /// and `worked` says which of them stopped. Gives how many did.
    pub fn suspend_game(&mut self, pids: &Vec<u32>, worked: &Vec<bool>) -> (r: std::result::Result<
        usize,
        Error,
    >)
        requires
            worked.len() == pids.len(),
        ensures
            ({
                let stopped = stopped_of(pids@, worked@);
                match r {
                    Ok(n) => n > 0 && n == stopped.len() && final(self).pids@ == remembering(
                        old(self).pids@,
                        stopped,
                    ),
                    Err(Error::Input(e)) => stopped.len() == 0 && final(self).pids@ == old(self).pids@ && e@ == (if pids.len() == 0 {
                        "no running game found"@
                    } else {
                        "found the game but could not suspend it"@
                    }),
                    Err(_) => false,
                }
            }),
    {
        if pids.len() == 0 {
            return Err(Error::Input("no running game found".to_owned()));
        }
        let mut stopped: Vec<u32> = Vec::new();
        let mut i: usize = 0;
        assert(pids@.take(0) =~= Seq::<u32>::empty());
        while i < pids.len()
            invariant
                i <= pids.len() == worked.len(),
                stopped@ == stopped_of(pids@.take(i as int), worked@),
            decreases pids.len() - i,
        {
            assert(pids@.take(i as int + 1).drop_last() =~= pids@.take(i as int));
            if worked[i] {
                stopped.push(pids[i]);
            }
            i = i + 1;
        }
        assert(pids@.take(pids@.len() as int) =~= pids@);
        if stopped.len() == 0 {
            return Err(Error::Input("found the game but could not suspend it".to_owned()));
        }
        let ghost before = self.pids@;
        let mut k: usize = 0;
        assert(stopped@.take(0) =~= Seq::<u32>::empty());
        while k < stopped.len()
            invariant
                k <= stopped.len(),
                self.pids@ == remembering(before, stopped@.take(k as int)),
            decreases stopped.len() - k,
        {
            assert(stopped@.take(k as int + 1).drop_last() =~= stopped@.take(k as int));
            if !has_pid(&self.pids, stopped[k]) {
                self.pids.push(stopped[k]);
            }
            k = k + 1;
        }
        assert(stopped@.take(stopped@.len() as int) =~= stopped@);
        Ok(stopped.len())
    }

    /// Hand over everything that was suspended, to be resumed, and forget it.
    pub fn resume_all(&mut self) -> (pids: Vec<u32>)
        ensures
            pids@ == old(self).pids@,
            final(self).pids@ == Seq::<u32>::empty(),
    {
        let mut pids: Vec<u32> = Vec::new();
        pids.append(&mut self.pids);
        assert(pids@ =~= old(self).pids@);
        pids
    }

    pub fn anything_suspended(&self) -> (r: bool)
        ensures
            r == (self.pids@.len() > 0),
    {
        self.pids.len() > 0
    }
}

/// Whatever was stopped is remembered until it is resumed, and nothing is
/// forgotten on the way.
pub proof fn law_whatever_stopped_is_remembered(list: Seq<u32>, more: Seq<u32>, pid: u32)
    ensures
        remembering(list, more).contains(pid) <==> list.contains(pid) || more.contains(pid),
    decreases more.len(),
{
    if more.len() > 0 {
        let head = more.drop_last();
        let earlier = remembering(list, head);
        law_whatever_stopped_is_remembered(list, head, pid);
        law_whatever_stopped_is_remembered(list, head, more.last());
        assert(more =~= head.push(more.last()));
        assert(more.contains(pid) <==> head.contains(pid) || pid == more.last()) by {
            if head.contains(pid) {
                let k = choose|k: int| 0 <= k < head.len() && head[k] == pid;
                assert(more[k] == pid);
            }
            if more.contains(pid) && pid != more.last() {
                let k = choose|k: int| 0 <= k < more.len() && more[k] == pid;
                assert(head[k] == pid);
            }
            assert(more[more.len() - 1] == more.last());
        }
        if !earlier.contains(more.last()) {
            let out = earlier.push(more.last());
            assert(out.contains(pid) <==> earlier.contains(pid) || pid == more.last()) by {
                assert(out[earlier.len() as int] == more.last());
                if earlier.contains(pid) {
                    let k = choose|k: int| 0 <= k < earlier.len() && earlier[k] == pid;
                    assert(out[k] == pid);
                }
            }
        }
    }
}

/// A freeze lasts a millisecond at least, and two seconds at most.
pub fn clamp_freeze(ms: u64) -> (r: u64)
    ensures
        r == (if ms < 1 { 1 } else if ms > MAX_FREEZE_MS { MAX_FREEZE_MS } else { ms }),
        1 <= r <= MAX_FREEZE_MS,
{
    if ms < 1 {
        1
    } else if ms > MAX_FREEZE_MS {
        MAX_FREEZE_MS
    } else {
        ms
    }
}

/// A program's name is compared without the `.exe` at its end.
pub proof fn law_exe_is_left_out(s: Seq<char>)
    ensures
        without_exe(s + ".exe"@) == without_exe(s),
        !ends_with_spec(s, ".exe"@) ==> without_exe(s) == s,
{
    reveal_strlit(".exe");
    let t = s + ".exe"@;
    assert(t.subrange(t.len() - 4, t.len() as int) =~= ".exe"@);
    assert(t.take(t.len() - 4) =~= s);
}

/// The programs that are the game, whatever the case of their letters.
pub proof fn law_the_programs_of_the_game(comm: Seq<char>)
    ensures
        names_game(comm) <==> {
            let c = ascii_lowercase(without_exe(trimmed(comm)));
            c == "sober"@ || c == "robloxplayerbeta"@ || c == "robloxplayer"@ || c
                == "windowsplayer"@
        },
{
}

/// A process is the game's where its directory is a number and its program is the
/// game; one whose program cannot be read is not.
pub proof fn law_processes_of_the_game(entries: Seq<ProcessEntry>, e: ProcessEntry)
    ensures
        game_pid(e) is Some <==> read_u32(e.dir@) is Some && (e.comm matches Some(c) && names_game(
            c@,
        )),
        game_pid(e) is Some ==> game_pid(e) == read_u32(e.dir@),
        game_pids(entries.push(e)) == (match game_pid(e) {
            Some(pid) => game_pids(entries).push(pid),
            None => game_pids(entries),
        }),
{
    assert(entries.push(e).drop_last() =~= entries);
}

/// What was stopped are the processes that could be, in their order.
pub proof fn law_what_could_be_stopped(pids: Seq<u32>, worked: Seq<bool>, pid: u32)
    requires
        worked.len() == pids.len(),
    ensures
        stopped_of(pids, worked).contains(pid) <==> exists|i: int|
            0 <= i < pids.len() && #[trigger] worked[i] && pids[i] == pid,
        stopped_of(pids, worked).len() == pids.len() <==> forall|i: int|
            0 <= i < pids.len() ==> #[trigger] worked[i],
        MAX_FREEZE_MS == 2000,
    decreases pids.len(),
{
    lemma_stopped_of(pids, worked, pids.len(), pid);
    assert(pids.take(pids.len() as int) =~= pids);
}

proof fn lemma_stopped_of(pids: Seq<u32>, worked: Seq<bool>, n: nat, pid: u32)
    requires
        worked.len() == pids.len(),
        n <= pids.len(),
    ensures
        ({
            let out = stopped_of(pids.take(n as int), worked);
            &&& out.len() <= n
            &&& out.contains(pid) <==> exists|i: int|
                0 <= i < n && #[trigger] worked[i] && pids[i] == pid
            &&& out.len() == n <==> forall|i: int| 0 <= i < n ==> #[trigger] worked[i]
        }),
    decreases n,
{
    if n > 0 {
        let m = (n - 1) as nat;
        lemma_stopped_of(pids, worked, m, pid);
        let before = stopped_of(pids.take(m as int), worked);
        let out = stopped_of(pids.take(n as int), worked);
        assert(pids.take(n as int).drop_last() =~= pids.take(m as int));
        assert(pids.take(n as int).last() == pids[m as int]);
        if worked[m as int] {
            assert(out == before.push(pids[m as int]));
            assert(out[before.len() as int] == pids[m as int]);
            if before.contains(pid) {
                let k = choose|k: int| 0 <= k < before.len() && before[k] == pid;
                assert(out[k] == pid);
            }
            if out.contains(pid) && !before.contains(pid) {
                assert(pids[m as int] == pid) by {
                    let k = choose|k: int| 0 <= k < out.len() && out[k] == pid;
                    if k < before.len() {
                        assert(before[k] == pid);
                    }
                }
                assert(worked[m as int] && pids[m as int] == pid);
            }
        } else {
            assert(out == before);
        }
    }
}

} // verus!
