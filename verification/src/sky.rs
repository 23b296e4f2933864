//! What the sky says, and who has not heard it yet.
//!
//! `"night"` and `"day"` are said once each, at the turn. A creature that is born — or read back
//! out of a save — has a script that cannot hear anything for its first frames, so it waits on a
//! list and is told what the sky is doing, on its own, as soon as it can hear.
use vstd::prelude::*;

verus! {

/// How many frames a new script is deaf for: its task first runs the frame after its body is
/// made, subscribes in that run, and can hear what is published from the frame after that.
pub const NEWBORN_DEAF_FRAMES: u32 = 2;

/// The two words the sky says.
#[derive(Clone, Copy, Debug, PartialEq, Eq, Structural)]
pub enum SkyWord {
    Night,
    Day,
}

impl SkyWord {
    pub open spec fn spec_of(night: bool) -> SkyWord {
        if night {
            SkyWord::Night
        } else {
            SkyWord::Day
        }
    }

    /// The word for a sky that is (or is not) in the night.
    pub fn of(night: bool) -> (r: SkyWord)
        ensures
            r == Self::spec_of(night),
    {
        if night {
            SkyWord::Night
        } else {
            SkyWord::Day
        }
    }

    /// The name of the event the creatures subscribe to.
    pub fn name(self) -> (r: &'static str)
        ensures
            r@ == (match self {
                SkyWord::Night => "night"@,
                SkyWord::Day => "day"@,
            }),
    {
        match self {
            SkyWord::Night => "night",
            SkyWord::Day => "day",
        }
    }
}

/// **The turn of the sky**: what is to be said this frame, given whether it was night and whether
/// it is. Nothing while the sky stays on one side; the new side's word on the frame it crosses.
pub fn turned(was_night: bool, night: bool) -> (r: Option<SkyWord>)
    ensures
        was_night == night ==> r is None,
        was_night != night ==> r == Some(SkyWord::spec_of(night)),
{
    if night != was_night {
        Some(SkyWord::of(night))
    } else {
        None
    }
}

/// The entries still waiting after one frame: those whose creature still has a mind, one frame
/// older, if that is still short of hearing.
pub open spec fn kept(w: Seq<(u64, u32)>, minded: Seq<bool>) -> Seq<(u64, u32)>
    decreases w.len(),
{
    if w.len() == 0 || minded.len() == 0 {
        Seq::empty()
    } else {
        let rest = kept(w.drop_last(), minded.drop_last());
        let (child, waited) = w.last();
        if minded.last() && waited + 1 < NEWBORN_DEAF_FRAMES {
            rest.push((child, (waited + 1) as u32))
        } else {
            rest
        }
    }
}

/// The creatures that can hear from this frame on, and are to be told what the sky is doing.
pub open spec fn told(w: Seq<(u64, u32)>, minded: Seq<bool>) -> Seq<u64>
    decreases w.len(),
{
    if w.len() == 0 || minded.len() == 0 {
        Seq::empty()
    } else {
        let rest = told(w.drop_last(), minded.drop_last());
        let (child, waited) = w.last();
        if minded.last() && waited + 1 >= NEWBORN_DEAF_FRAMES {
            rest.push(child)
        } else {
            rest
        }
    }
}

/// **The creatures that have a body and cannot hear yet**, and how many frames each has waited.
pub struct Newborns {
    waiting: Vec<(u64, u32)>,
}

impl Newborns {
    pub closed spec fn waiting(&self) -> Seq<(u64, u32)> {
        self.waiting@
    }

    /// Nobody on the list has waited the whole of the deaf frames: such a one is told and leaves.
    pub closed spec fn wf(&self) -> bool {
        forall|i: int| 0 <= i < self.waiting@.len() ==> self.waiting@[i].1 < NEWBORN_DEAF_FRAMES
    }

    pub fn new() -> (r: Newborns)
        ensures
            r.wf(),
            r.waiting() == Seq::<(u64, u32)>::empty(),
    {
        Newborns { waiting: Vec::new() }
    }

    /// A creature with a body and a fresh script, which has heard nothing yet.
    pub fn arrive(&mut self, child: u64)
        requires
            old(self).wf(),
        ensures
            final(self).wf(),
            final(self).waiting() == old(self).waiting().push((child, 0u32)),
    {
        self.waiting.push((child, 0));
    }

    /// The garden they were waiting in has been thrown away.
    pub fn clear(&mut self)
        ensures
            final(self).wf(),
            final(self).waiting() == Seq::<(u64, u32)>::empty(),
    {
        self.waiting.clear();
    }

    pub fn is_empty(&self) -> (r: bool)
        ensures
            r == (self.waiting().len() == 0),
    {
        self.waiting.len() == 0
    }

    /// How many are waiting.
    pub fn len(&self) -> (r: usize)
        ensures
            r == self.waiting().len(),
    {
        self.waiting.len()
    }

    /// **One frame of the creatures' VM has gone by.** `minded[i]` says whether the `i`th waiting
    /// creature still has a mind (one that starved, or whose species' file will not compile, has
    /// nothing to be told and leaves). What comes back is the creatures to be told the sky now.
    pub fn hear(&mut self, minded: &Vec<bool>) -> (r: Vec<u64>)
        requires
            old(self).wf(),
            minded.len() == old(self).waiting().len(),
        ensures
            final(self).wf(),
            final(self).waiting() == kept(old(self).waiting(), minded@),
            r@ == told(old(self).waiting(), minded@),
    {
        let mut still: Vec<(u64, u32)> = Vec::new();
        let mut ready: Vec<u64> = Vec::new();
        let mut i: usize = 0;
        while i < self.waiting.len()
            invariant
                i <= self.waiting.len(),
                minded.len() == self.waiting.len(),
                forall|k: int| 0 <= k < self.waiting@.len() ==> self.waiting@[k].1 < NEWBORN_DEAF_FRAMES,
                still@ == kept(self.waiting@.take(i as int), minded@.take(i as int)),
                ready@ == told(self.waiting@.take(i as int), minded@.take(i as int)),
                forall|k: int| 0 <= k < still@.len() ==> still@[k].1 < NEWBORN_DEAF_FRAMES,
            decreases self.waiting.len() - i,
        {
            let (child, waited) = self.waiting[i];
            proof {
                assert(self.waiting@.take(i + 1).drop_last() == self.waiting@.take(i as int));
                assert(minded@.take(i + 1).drop_last() == minded@.take(i as int));
            }
            let waited = waited + 1;
            if minded[i] {
                if waited < NEWBORN_DEAF_FRAMES {
                    still.push((child, waited));
                } else {
                    ready.push(child);
                }
            }
            i = i + 1;
        }
        proof {
            assert(self.waiting@.take(self.waiting.len() as int) == self.waiting@);
            assert(minded@.take(minded.len() as int) == minded@);
        }
        self.waiting = still;
        ready
    }
}

/// **A newborn is told once, on the frame it can first hear.** Frame by frame, a creature that
/// keeps its mind either stays on the list one frame older, or — once it has waited the deaf
/// frames — is told and leaves; one that has lost its mind is neither kept nor told.
pub proof fn lemma_told_when_it_can_hear(w: Seq<(u64, u32)>, minded: Seq<bool>, i: int)
    requires
        0 <= i < w.len(),
        minded.len() == w.len(),
    ensures
        minded[i] && w[i].1 + 1 >= NEWBORN_DEAF_FRAMES ==> told(w, minded).contains(w[i].0),
        minded[i] && w[i].1 + 1 < NEWBORN_DEAF_FRAMES ==> kept(w, minded).contains(
            (w[i].0, (w[i].1 + 1) as u32),
        ),
    decreases w.len(),
{
    let last = w.len() - 1;
    if i == last {
        if minded[i] && w[i].1 + 1 >= NEWBORN_DEAF_FRAMES {
            assert(told(w, minded).last() == w[i].0);
        }
        if minded[i] && w[i].1 + 1 < NEWBORN_DEAF_FRAMES {
            assert(kept(w, minded).last() == (w[i].0, (w[i].1 + 1) as u32));
        }
    } else {
        let (w2, m2) = (w.drop_last(), minded.drop_last());
        lemma_told_when_it_can_hear(w2, m2, i);
        assert(w2[i] == w[i]);
        assert(m2[i] == minded[i]);
        let t = told(w2, m2);
        let k = kept(w2, m2);
        if minded[i] && w[i].1 + 1 >= NEWBORN_DEAF_FRAMES {
            let j = choose|j: int| 0 <= j < t.len() && t[j] == w[i].0;
            assert(told(w, minded)[j] == w[i].0);
        }
        if minded[i] && w[i].1 + 1 < NEWBORN_DEAF_FRAMES {
            let j = choose|j: int| 0 <= j < k.len() && k[j] == (w[i].0, (w[i].1 + 1) as u32);
            assert(kept(w, minded)[j] == (w[i].0, (w[i].1 + 1) as u32));
        }
    }
}

/// **The list never grows by waiting**: what is kept and what is told, together, are no more
/// entries than were waiting.
pub proof fn lemma_the_list_only_shrinks(w: Seq<(u64, u32)>, minded: Seq<bool>)
    requires
        minded.len() == w.len(),
    ensures
        kept(w, minded).len() + told(w, minded).len() <= w.len(),
    decreases w.len(),
{
    if w.len() > 0 {
        lemma_the_list_only_shrinks(w.drop_last(), minded.drop_last());
    }
}

} // verus!
