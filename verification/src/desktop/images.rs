//! Pictures: decoding them, keeping a bounded number, and fetching each once.
//!
//! Fetching and holding every picture a screen might show is how memory is lost,
//! so the cache is bounded, and a picture that several places wait for is
//! fetched once and handed to all of them.

use crate::text::same;
use std::sync::Arc;
use vstd::prelude::*;

verus! {

/// Decoded pixels.
pub struct Decoded {
    pub width: u32,
    pub height: u32,
    pub rgba: Vec<u8>,
}

/// How many pictures are kept unless another number is chosen.
pub const CAPACITY: usize = 400;

/// The picture that the bytes are: its width, its height, and the red, green, blue
/// and opacity of each pixel, row by row. Nothing where they are none.
pub uninterp spec fn picture(bytes: Seq<u8>) -> Option<(u32, u32, Seq<u8>)>;

/// Reads the bytes with `image::load_from_memory` and takes the pixels with
/// `DynamicImage::into_rgba8`. The contract gives the picture a name: whether the
/// bytes are one, how large it is and which colours it has depends on them alone.
/// Where the JPEG decoder has several routines to choose from, they compute the
/// same integers. The contract says too that there are four bytes to each pixel.
/// That no decoder panics on a broken file is trusted as well.
#[verifier::external_body]
fn load_pixels(bytes: &[u8]) -> (r: Option<Decoded>)
    ensures
        match r {
            Some(d) => picture(bytes@) == Some((d.width, d.height, d.rgba@)) && d.rgba.len() == 4
                * (d.width * d.height),
            None => picture(bytes@) is None,
        },
{
    let img = image::load_from_memory(bytes).ok()?.into_rgba8();
    Some(Decoded { width: img.width(), height: img.height(), rgba: img.into_raw() })
}

/// Decode a picture: four bytes to each pixel. Anything else is nothing.
pub fn decode(bytes: &[u8]) -> (r: Option<Decoded>)
    ensures
        match r {
            Some(d) => picture(bytes@) == Some((d.width, d.height, d.rgba@)) && d.rgba.len() == 4
                * (d.width * d.height),
            None => picture(bytes@) is None,
        },
{
    load_pixels(bytes)
}

/// The pictures that are kept, the oldest first.
pub struct Cache {
    pub entries: Vec<(String, Arc<Decoded>)>,
    /// How many there is room for.
    pub capacity: usize,
}

/// Addresses and pictures, the oldest first.
pub open spec fn kept(entries: Seq<(String, Arc<Decoded>)>) -> Seq<(Seq<char>, Arc<Decoded>)> {
    entries.map_values(|e: (String, Arc<Decoded>)| (e.0@, e.1))
}

/// Where an address is, from `i` on.
pub open spec fn kept_at(
    entries: Seq<(Seq<char>, Arc<Decoded>)>,
    url: Seq<char>,
    i: int,
) -> Option<int>
    decreases entries.len() - i,
{
    if i < 0 || i >= entries.len() {
        None
    } else if entries[i].0 == url {
        Some(i)
    } else {
        kept_at(entries, url, i + 1)
    }
}

/// No more than the last `n`.
pub open spec fn newest(
    entries: Seq<(Seq<char>, Arc<Decoded>)>,
    n: nat,
) -> Seq<(Seq<char>, Arc<Decoded>)> {
    if entries.len() > n {
        entries.skip(entries.len() - n)
    } else {
        entries
    }
}

/// The pictures after one was added: in place of the one of the same address, or
/// at the end, where the oldest makes room for it.
pub open spec fn with_picture(
    entries: Seq<(Seq<char>, Arc<Decoded>)>,
    url: Seq<char>,
    picture: Arc<Decoded>,
    capacity: nat,
) -> Seq<(Seq<char>, Arc<Decoded>)> {
    newest(
        match kept_at(entries, url, 0) {
            Some(i) => entries.update(i, (url, picture)),
            None => entries.push((url, picture)),
        },
        capacity,
    )
}

impl Cache {
    /// The pictures that are kept, the oldest first.
    pub open spec fn view(&self) -> Seq<(Seq<char>, Arc<Decoded>)> {
        kept(self.entries@)
    }

    /// No more pictures than there is room for, and none twice.
    pub open spec fn wf(&self) -> bool {
        &&& self@.len() <= self.capacity
        &&& forall|i: int, j: int|
            0 <= i < j < self@.len() ==> (#[trigger] self@[i]).0 != (#[trigger] self@[j]).0
    }

    pub fn new() -> (c: Cache)
        ensures
            c.wf(),
            c@.len() == 0,
            c.capacity == CAPACITY,
    {
        Cache { entries: Vec::new(), capacity: CAPACITY }
    }

    /// Keep no more than this many pictures from now on; the oldest go where there
    /// is no room for them any more.
    pub fn set_capacity(&mut self, capacity: usize)
        requires
            old(self).wf(),
        ensures
            final(self).wf(),
            final(self).capacity == capacity,
            final(self)@ == newest(old(self)@, capacity as nat),
    {
        let ghost before = self@;
        self.capacity = capacity;
        let ghost mut gone: int = 0;
        assert(before.skip(0) =~= before);
        while self.entries.len() > capacity
            invariant
                self.capacity == capacity,
                0 <= gone <= before.len(),
                gone > 0 ==> self@.len() >= capacity,
                self@ == before.skip(gone),
            decreases self.entries.len(),
        {
            let ghost now = self@;
            self.entries.remove(0);
            proof {
                gone = gone + 1;
                assert(self@ =~= now.skip(1));
                assert(now.skip(1) =~= before.skip(gone));
            }
        }
        proof {
            assert(self@ =~= newest(before, capacity as nat));
            assert forall|i: int, j: int| 0 <= i < j < self@.len() implies (#[trigger] self@[i]).0
                != (#[trigger] self@[j]).0 by {
                assert(self@[i] == before[i + gone]);
                assert(self@[j] == before[j + gone]);
            }
        }
    }

    pub fn len(&self) -> (n: usize)
        ensures
            n == self@.len(),
    {
        self.entries.len()
    }

    fn find(&self, url: &str) -> (r: Option<usize>)
        ensures
            match r {
                Some(i) => i < self.entries.len() && kept_at(self@, url@, 0) == Some(i as int),
                None => kept_at(self@, url@, 0) is None,
            },
    {
        let mut i: usize = 0;
        while i < self.entries.len()
            invariant
                i <= self.entries.len(),
                kept_at(self@, url@, 0) == kept_at(self@, url@, i as int),
            decreases self.entries.len() - i,
        {
            if same(self.entries[i].0.as_str(), url) {
                return Some(i);
            }
            i = i + 1;
        }
        None
    }

    pub fn get(&self, url: &str) -> (r: Option<Arc<Decoded>>)
        ensures
            r == (match kept_at(self@, url@, 0) {
                Some(i) => Some(self@[i].1),
                None => None,
            }),
    {
        match self.find(url) {
            Some(i) => Some(self.entries[i].1.clone()),
            None => None,
        }
    }

    /// Keep a picture; the oldest goes where there is no room.
    pub fn insert(&mut self, url: String, decoded: Arc<Decoded>)
        requires
            old(self).wf(),
        ensures
            final(self).wf(),
            final(self).capacity == old(self).capacity,
            final(self)@ == with_picture(old(self)@, url@, decoded, old(self).capacity as nat),
    {
        let ghost before = self@;
        let ghost u = url@;
        proof {
            lemma_kept_at(before, u, 0);
        }
        match self.find(url.as_str()) {
            Some(i) => {
                self.entries.set(i, (url, decoded));
                assert(self@ =~= before.update(i as int, (u, decoded)));
            },
            None => {
                self.entries.push((url, decoded));
                assert(self@ =~= before.push((u, decoded)));
            },
        }
        let ghost grown = self@;
        if self.entries.len() > self.capacity {
            self.entries.remove(0);
            assert(self@ =~= grown.skip(1));
        }
        proof {
            assert forall|i: int, j: int| 0 <= i < j < self@.len() implies (#[trigger] self@[i]).0
                != (#[trigger] self@[j]).0 by {
                if grown.len() > self.capacity {
                    assert(self@[i] == grown[i + 1]);
                    assert(self@[j] == grown[j + 1]);
                }
            }
        }
    }

    /// Forget everything, so that one account's pictures never show up under
    /// another's name.
    pub fn clear(&mut self)
        ensures
            final(self).wf(),
            final(self)@.len() == 0,
            final(self).capacity == old(self).capacity,
    {
        self.entries.clear();
    }
}

proof fn lemma_kept_at(entries: Seq<(Seq<char>, Arc<Decoded>)>, url: Seq<char>, i: int)
    requires
        0 <= i,
    ensures
        match kept_at(entries, url, i) {
            Some(k) => i <= k < entries.len() && entries[k].0 == url,
            None => forall|k: int| i <= k < entries.len() ==> (#[trigger] entries[k]).0 != url,
        },
    decreases entries.len() - i,
{
    if i < entries.len() && entries[i].0 != url {
        lemma_kept_at(entries, url, i + 1);
    }
}

/// A picture that was just kept is found again, and the number of pictures never
/// exceeds the room there is.
pub proof fn law_a_kept_picture_is_found(
    entries: Seq<(Seq<char>, Arc<Decoded>)>,
    url: Seq<char>,
    picture: Arc<Decoded>,
    capacity: nat,
)
    requires
        entries.len() <= capacity,
        capacity > 0,
        forall|i: int, j: int|
            0 <= i < j < entries.len() ==> (#[trigger] entries[i]).0 != (#[trigger] entries[j]).0,
    ensures
        with_picture(entries, url, picture, capacity).len() <= capacity,
        kept_at(with_picture(entries, url, picture, capacity), url, 0) matches Some(i)
            && with_picture(entries, url, picture, capacity)[i].1 == picture,
{
    let after = with_picture(entries, url, picture, capacity);
    lemma_kept_at(entries, url, 0);
    lemma_kept_at(after, url, 0);
    match kept_at(entries, url, 0) {
        Some(i) => {
            assert(after[i] == (url, picture));
        },
        None => {
            assert(after[after.len() - 1] == (url, picture));
        },
    }
}

/// Those who wait for a picture that is being fetched.
pub struct Waiting {
    pub url: String,
    pub waiters: Vec<u64>,
}

/// The pictures that are being fetched.
pub struct Inflight {
    pub fetches: Vec<Waiting>,
}

/// What becomes of a request for a picture.
#[derive(Debug, Clone, Copy, PartialEq, Eq, Structural)]
pub enum Load {
    /// There is no address.
    Ignore,
    /// It is kept: show it.
    Show,
    /// It is being fetched for somebody else: wait.
    Wait,
    /// Fetch it.
    Fetch,
}

/// A fetch of this address is under way.
pub open spec fn fetching(fetches: Seq<Waiting>, url: Seq<char>) -> bool {
    exists|i: int| 0 <= i < fetches.len() && (#[trigger] fetches[i]).url@ == url
}

/// Those who wait for an address, in the order they asked.
pub open spec fn waiting_for(fetches: Seq<Waiting>, url: Seq<char>) -> Seq<u64>
    decreases fetches.len(),
{
    if fetches.len() == 0 {
        Seq::empty()
    } else if fetches[0].url@ == url {
        fetches[0].waiters@
    } else {
        waiting_for(fetches.skip(1), url)
    }
}

/// Every address is there once.
pub open spec fn each_once(fetches: Seq<Waiting>) -> bool {
    forall|i: int, j: int|
        0 <= i < j < fetches.len() ==> (#[trigger] fetches[i]).url@ != (
        #[trigger] fetches[j]).url@
}

/// The fetches after somebody asked for a picture that is not kept: they are
/// queued behind those who wait for it, or a fetch is begun for them.
pub open spec fn asked(
    before: Seq<Waiting>,
    after: Seq<Waiting>,
    url: Seq<char>,
    waiter: u64,
) -> bool {
    if fetching(before, url) {
        &&& after.len() == before.len()
        &&& forall|i: int|
            0 <= i < after.len() ==> (#[trigger] after[i]).url@ == before[i].url@
                && after[i].waiters@ == (if before[i].url@ == url {
                before[i].waiters@.push(waiter)
            } else {
                before[i].waiters@
            })
    } else {
        &&& after.len() == before.len() + 1
        &&& after.drop_last() == before
        &&& after.last().url@ == url
        &&& after.last().waiters@ == seq![waiter]
    }
}

/// The fetches after one has ended, and those who waited for it. Every other
/// fetch stays.
pub open spec fn ended(
    before: Seq<Waiting>,
    after: Seq<Waiting>,
    url: Seq<char>,
    waiters: Seq<u64>,
) -> bool {
    &&& forall|i: int|
        0 <= i < before.len() && (#[trigger] before[i]).url@ == url ==> waiters
            == before[i].waiters@ && after == before.remove(i)
    &&& !fetching(before, url) ==> waiters.len() == 0 && after == before
    &&& !fetching(after, url)
}

impl Inflight {
    pub fn new() -> (r: Inflight)
        ensures
            r.wf(),
            r.fetches@.len() == 0,
    {
        Inflight { fetches: Vec::new() }
    }

    /// No picture is fetched twice at once.
    pub open spec fn wf(&self) -> bool {
        each_once(self.fetches@)
    }

    fn find(&self, url: &str) -> (r: Option<usize>)
        ensures
            match r {
                Some(i) => i < self.fetches.len() && self.fetches@[i as int].url@ == url@,
                None => !fetching(self.fetches@, url@),
            },
    {
        let mut i: usize = 0;
        while i < self.fetches.len()
            invariant
                i <= self.fetches.len(),
                forall|k: int| 0 <= k < i ==> (#[trigger] self.fetches@[k]).url@ != url@,
            decreases self.fetches.len() - i,
        {
            if same(self.fetches[i].url.as_str(), url) {
                return Some(i);
            }
            i = i + 1;
        }
        None
    }

    /// Ask for a picture. Whoever asks for one that is being fetched is queued
    /// behind those who wait for it already.
    pub fn load(&mut self, cached: bool, url: &str, waiter: u64) -> (r: Load)
        requires
            old(self).wf(),
        ensures
            final(self).wf(),
            r == (if url@.len() == 0 {
                Load::Ignore
            } else if cached {
                Load::Show
            } else if fetching(old(self).fetches@, url@) {
                Load::Wait
            } else {
                Load::Fetch
            }),
            r == Load::Ignore || r == Load::Show ==> final(self).fetches@ == old(self).fetches@,
            r == Load::Fetch || r == Load::Wait ==> asked(
                old(self).fetches@,
                final(self).fetches@,
                url@,
                waiter,
            ),
    {
        if url.is_empty() {
            return Load::Ignore;
        }
        if cached {
            return Load::Show;
        }
        let ghost before = self.fetches@;
        match self.find(url) {
            Some(i) => {
                let mut waiters = self.fetches[i].waiters.clone();
                assert(waiters@ =~= before[i as int].waiters@);
                waiters.push(waiter);
                let entry = Waiting { url: self.fetches[i].url.clone(), waiters };
                self.fetches.set(i, entry);
                proof {
                    assert forall|k: int|
                        0 <= k < before.len() && before[k].url@ == url@ implies k == i by {
                        if k < i {
                            assert(before[k].url@ != before[i as int].url@);
                        } else if k > i {
                            assert(before[i as int].url@ != before[k].url@);
                        }
                    }
                }
                Load::Wait
            },
            None => {
                let mut waiters: Vec<u64> = Vec::new();
                waiters.push(waiter);
                assert(waiters@ =~= seq![waiter]);
                self.fetches.push(Waiting { url: url.to_owned(), waiters });
                assert(self.fetches@.drop_last() =~= before);
                Load::Fetch
            },
        }
    }

    /// A fetch has ended, well or not. Gives those who waited, in the order they
    /// asked.
    pub fn done(&mut self, url: &str) -> (waiters: Vec<u64>)
        requires
            old(self).wf(),
        ensures
            final(self).wf(),
            ended(old(self).fetches@, final(self).fetches@, url@, waiters@),
    {
        let ghost before = self.fetches@;
        match self.find(url) {
            Some(i) => {
                let entry = self.fetches.remove(i);
                proof {
                    let after = self.fetches@;
                    assert forall|k: int| 0 <= k < after.len() implies (#[trigger] after[k]).url@
                        != url@ by {
                        if k < i {
                            assert(before[k].url@ != before[i as int].url@);
                        } else {
                            assert(before[i as int].url@ != before[k + 1].url@);
                        }
                    }
                    assert forall|k: int|
                        0 <= k < before.len() && (#[trigger] before[k]).url@ == url@ implies k
                        == i by {
                        if k < i {
                            assert(before[k].url@ != before[i as int].url@);
                        } else if k > i {
                            assert(before[i as int].url@ != before[k].url@);
                        }
                    }
                }
                entry.waiters
            },
            None => Vec::new(),
        }
    }
}

/// A picture was fetched and decoded, or was not. Gives those it is shown to:
/// everybody who waited, or nobody where there is no picture. It is kept, and the
/// fetch is over either way.
pub fn arrived(
    cache: &mut Cache,
    inflight: &mut Inflight,
    url: &str,
    picture: Option<Arc<Decoded>>,
) -> (shown: Vec<u64>)
    requires
        old(cache).wf(),
        old(inflight).wf(),
    ensures
        final(cache).wf(),
        final(inflight).wf(),
        final(cache).capacity == old(cache).capacity,
        match picture {
            Some(p) => {
                &&& final(cache)@ == with_picture(old(cache)@, url@, p, old(cache).capacity as nat)
                &&& ended(old(inflight).fetches@, final(inflight).fetches@, url@, shown@)
            },
            None => {
                &&& final(cache)@ == old(cache)@
                &&& shown@.len() == 0
                &&& exists|waiters: Seq<u64>| #[trigger]
                    ended(old(inflight).fetches@, final(inflight).fetches@, url@, waiters)
            },
        },
{
    let waiters = inflight.done(url);
    match picture {
        Some(p) => {
            cache.insert(url.to_owned(), p);
            waiters
        },
        None => Vec::new(),
    }
}

proof fn lemma_waiting_for(fetches: Seq<Waiting>, url: Seq<char>)
    requires
        each_once(fetches),
    ensures
        forall|i: int|
            0 <= i < fetches.len() && (#[trigger] fetches[i]).url@ == url ==> waiting_for(
                fetches,
                url,
            ) == fetches[i].waiters@,
        !fetching(fetches, url) ==> waiting_for(fetches, url).len() == 0,
    decreases fetches.len(),
{
    if fetches.len() > 0 {
        let rest = fetches.skip(1);
        assert forall|i: int, j: int| 0 <= i < j < rest.len() implies (#[trigger] rest[i]).url@ != (
        #[trigger] rest[j]).url@ by {
            assert(fetches[i + 1].url@ != fetches[j + 1].url@);
        }
        lemma_waiting_for(rest, url);
        assert forall|i: int|
            0 <= i < fetches.len() && (#[trigger] fetches[i]).url@ == url implies waiting_for(
            fetches,
            url,
        ) == fetches[i].waiters@ by {
            if i > 0 {
                assert(fetches[0].url@ != fetches[i].url@);
                assert(rest[i - 1] == fetches[i]);
            }
        }
        if !fetching(fetches, url) {
            assert(fetches[0].url@ != url);
            assert forall|i: int| 0 <= i < rest.len() implies (#[trigger] rest[i]).url@ != url by {
                assert(fetches[i + 1].url@ != url);
            }
        }
    }
}

/// Whoever asks for a picture is queued, behind those who asked before, and nobody
/// who waits for another one is forgotten.
pub proof fn law_waiters_are_queued(
    before: Seq<Waiting>,
    after: Seq<Waiting>,
    url: Seq<char>,
    waiter: u64,
    other: Seq<char>,
)
    requires
        each_once(before),
        each_once(after),
        asked(before, after, url, waiter),
    ensures
        waiting_for(after, url) == waiting_for(before, url).push(waiter),
        other != url ==> waiting_for(after, other) == waiting_for(before, other),
{
    lemma_waiting_for(before, url);
    lemma_waiting_for(after, url);
    lemma_waiting_for(before, other);
    lemma_waiting_for(after, other);
    let n = before.len() as int;
    if fetching(before, url) {
        let i = choose|i: int| 0 <= i < before.len() && (#[trigger] before[i]).url@ == url;
        assert(after[i].url@ == url);
        if fetching(before, other) {
            let k = choose|k: int| 0 <= k < before.len() && (#[trigger] before[k]).url@ == other;
            assert(after[k].url@ == other);
        } else {
            assert(!fetching(after, other));
            assert(waiting_for(after, other) =~= waiting_for(before, other));
        }
    } else {
        assert(after[n].url@ == url);
        assert(waiting_for(before, url).push(waiter) =~= seq![waiter]);
        if fetching(before, other) {
            let k = choose|k: int| 0 <= k < before.len() && (#[trigger] before[k]).url@ == other;
            assert(after.drop_last()[k] == after[k]);
            assert(after[k].url@ == other);
        } else if other != url {
            assert forall|k: int| 0 <= k < after.len() implies (#[trigger] after[k]).url@
                != other by {
                if k < n {
                    assert(after.drop_last()[k] == after[k]);
                    assert(before[k].url@ != other);
                }
            }
            assert(waiting_for(after, other) =~= waiting_for(before, other));
        }
    }
}

/// Whoever waited for a picture is handed out when its fetch ends, and nobody who
/// waits for another one is forgotten.
pub proof fn law_waiters_are_not_dropped(
    before: Seq<Waiting>,
    after: Seq<Waiting>,
    url: Seq<char>,
    waiters: Seq<u64>,
    other: Seq<char>,
)
    requires
        each_once(before),
        each_once(after),
        ended(before, after, url, waiters),
    ensures
        waiters == waiting_for(before, url),
        waiting_for(after, url).len() == 0,
        other != url ==> waiting_for(after, other) == waiting_for(before, other),
{
    lemma_waiting_for(before, url);
    lemma_waiting_for(after, url);
    lemma_waiting_for(before, other);
    lemma_waiting_for(after, other);
    if fetching(before, url) {
        let i = choose|i: int| 0 <= i < before.len() && (#[trigger] before[i]).url@ == url;
        assert(after == before.remove(i));
        if fetching(before, other) {
            let k = choose|k: int| 0 <= k < before.len() && (#[trigger] before[k]).url@ == other;
            if k < i {
                assert(after[k].url@ == other);
            } else if k > i {
                assert(after[k - 1].url@ == other);
            }
        } else {
            assert forall|k: int| 0 <= k < after.len() implies (#[trigger] after[k]).url@
                != other by {
                if k < i {
                    assert(before[k].url@ != other);
                } else {
                    assert(before[k + 1].url@ != other);
                }
            }
            assert(waiting_for(after, other) =~= waiting_for(before, other));
        }
    } else {
        assert(waiters =~= waiting_for(before, url));
    }
}

/// Where there is no room left, the pictures that came first go, and the others stay in
/// their order. A picture that comes again takes the place of the one before.
pub proof fn law_the_oldest_pictures_go(
    entries: Seq<(Seq<char>, Arc<Decoded>)>,
    url: Seq<char>,
    picture: Arc<Decoded>,
    capacity: nat,
    i: int,
)
    ensures
        entries.len() <= capacity ==> newest(entries, capacity) == entries,
        entries.len() > capacity ==> newest(entries, capacity) == entries.skip(
            entries.len() - capacity,
        ),
        !(exists|k: int| 0 <= k < entries.len() && (#[trigger] entries[k]).0 == url)
            ==> with_picture(entries, url, picture, capacity) == newest(
            entries.push((url, picture)),
            capacity,
        ),
        0 <= i < entries.len() <= capacity && entries[i].0 == url && (forall|j: int|
            0 <= j < i ==> (#[trigger] entries[j]).0 != url) ==> with_picture(
            entries,
            url,
            picture,
            capacity,
        ) == entries.update(i, (url, picture)),
        CAPACITY == 400,
{
    lemma_kept_at(entries, url, 0);
    lemma_first_kept(entries, url, 0);
    if kept_at(entries, url, 0) is Some {
        let k = kept_at(entries, url, 0)->0;
        if 0 <= i < entries.len() && entries[i].0 == url && (forall|j: int|
            0 <= j < i ==> (#[trigger] entries[j]).0 != url) {
            if k < i {
                assert(entries[k].0 != url);
            } else if i < k {
                assert(entries[i].0 != url);
            }
        }
    }
}

proof fn lemma_first_kept(entries: Seq<(Seq<char>, Arc<Decoded>)>, url: Seq<char>, i: int)
    requires
        0 <= i,
    ensures
        kept_at(entries, url, i) matches Some(k) ==> forall|j: int|
            i <= j < k ==> (#[trigger] entries[j]).0 != url,
    decreases entries.len() - i,
{
    if i < entries.len() && entries[i].0 != url {
        lemma_first_kept(entries, url, i + 1);
    }
}

} // verus!
