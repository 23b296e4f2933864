//! Children: whether the game will make one it is asked for, and the bookkeeping of the pairings
//! the rules put to the creatures.
use vstd::prelude::*;

verus! {

broadcast use vstd::seq_lib::group_seq_properties;

/// How many creatures the game will make until the rules say otherwise.
pub const POP_MAX: usize = 24;

/// Why a `garden.spawn` was refused before its Hash was read.
#[derive(Clone, Copy, Debug, PartialEq, Eq, Structural)]
pub enum SpawnRefusal {
    /// the garden already holds this many creatures, counting the ones asked for this frame
    Full(usize),
    /// the question carried no Hash to read
    NoHash,
}

/// **The cap comes first**: a garden that is full refuses whatever it was asked; one that is not
/// reads the Hash, if there is one.
pub fn may_spawn(population: usize, cap: usize, has_hash: bool) -> (r: Result<(), SpawnRefusal>)
    ensures
        population >= cap ==> r == Err::<(), SpawnRefusal>(SpawnRefusal::Full(population)),
        population < cap && !has_hash ==> r == Err::<(), SpawnRefusal>(SpawnRefusal::NoHash),
        population < cap && has_hash ==> r is Ok,
{
    if population >= cap {
        Err(SpawnRefusal::Full(population))
    } else if !has_hash {
        Err(SpawnRefusal::NoHash)
    } else {
        Ok(())
    }
}

/// What became of one `"mate"` the rules said, as the check counts it.
#[derive(Clone, Copy, Debug, PartialEq, Eq, Structural)]
pub enum PairingFate {
    /// the told creature's file has no `on(:mate)`: nothing could come of it, and it is not
    /// counted
    Unheard,
    /// it was asleep when it was told: measured nothing
    SleptThrough,
    /// it is waiting to be measured
    Counted,
}

/// `listens` and `asleep` are what the VM said of the told creature's script, `None` where it
/// could not tell; where it cannot tell, the check stays strict and counts the pairing.
pub open spec fn fate_of(listens: Option<bool>, asleep: Option<bool>) -> PairingFate {
    if listens == Some(false) {
        PairingFate::Unheard
    } else if asleep == Some(true) {
        PairingFate::SleptThrough
    } else {
        PairingFate::Counted
    }
}

/// **What the breeding check makes of one pairing**: a creature whose file does not listen for
/// `"mate"` is never counted, awake or asleep; one known to be asleep measured nothing; one that
/// may listen and is not known to be asleep is counted.
pub fn pairing_fate(listens: Option<bool>, asleep: Option<bool>) -> (r: PairingFate)
    ensures
        r == fate_of(listens, asleep),
        listens == Some(false) ==> r == PairingFate::Unheard,
        listens != Some(false) && asleep == Some(true) ==> r == PairingFate::SleptThrough,
        r == PairingFate::Counted <==> (listens != Some(false) && asleep != Some(true)),
{
    match (listens, asleep) {
        (Some(false), _) => PairingFate::Unheard,
        (_, Some(true)) => PairingFate::SleptThrough,
        _ => PairingFate::Counted,
    }
}

/// **A pairing no file listens for is never counted**, whatever the told creature was doing: the
/// rabbits' file has no `on(:mate)`, and nothing can ever come of a pair of rabbits.
pub proof fn lemma_an_unheard_pairing_is_never_counted(asleep: Option<bool>)
    ensures
        fate_of(Some(false), asleep) == PairingFate::Unheard,
{
}

/// **Counted is exactly the pairings that could come to something**: the told creature may listen
/// for `"mate"` and is not known to be asleep.
pub proof fn lemma_counted_only_when_it_could_answer(listens: Option<bool>, asleep: Option<bool>)
    ensures
        fate_of(listens, asleep) == PairingFate::Counted <==> (listens != Some(false) && asleep
            != Some(true)),
        fate_of(listens, asleep) == PairingFate::SleptThrough <==> (listens != Some(false)
            && asleep == Some(true)),
{
}

/// Why a counted pairing measured nothing.
#[derive(Clone, Copy, Debug, PartialEq, Eq, Structural)]
pub enum Gone {
    /// the partner was gone before the handler could ask for a child
    Partner,
    /// the creature that was told was gone before it could ask for a child
    Told,
}

/// One pairing waiting to be measured: who was told, who about, and when.
pub struct Courting<T> {
    pub who: u64,
    pub partner: u64,
    pub at: T,
}

/// The entries of `open` that are still waiting after this frame: not asked about, and both
/// creatures still there.
pub open spec fn still_open<T>(open: Seq<Courting<T>>, asked: Seq<u64>, present: Seq<u64>) -> Seq<
    Courting<T>,
>
    decreases open.len(),
{
    if open.len() == 0 {
        Seq::empty()
    } else {
        let rest = still_open(open.drop_last(), asked, present);
        let c = open.last();
        if !asked.contains(c.who) && present.contains(c.who) && present.contains(c.partner) {
            rest.push(c)
        } else {
            rest
        }
    }
}

/// The entries of `open` that measured nothing because one of the two is gone, and why.
pub open spec fn lost_of<T>(open: Seq<Courting<T>>, asked: Seq<u64>, present: Seq<u64>) -> Seq<
    (T, Gone),
>
    decreases open.len(),
{
    if open.len() == 0 {
        Seq::empty()
    } else {
        let rest = lost_of(open.drop_last(), asked, present);
        let c = open.last();
        if asked.contains(c.who) || (present.contains(c.who) && present.contains(c.partner)) {
            rest
        } else if present.contains(c.who) {
            rest.push((c.at, Gone::Partner))
        } else {
            rest.push((c.at, Gone::Told))
        }
    }
}

/// How many of the pairings in `open` were measured this frame: their creature asked for a child.
pub open spec fn measured<T>(open: Seq<Courting<T>>, asked: Seq<u64>) -> nat
    decreases open.len(),
{
    if open.len() == 0 {
        0
    } else {
        measured(open.drop_last(), asked) + if asked.contains(open.last().who) {
            1nat
        } else {
            0nat
        }
    }
}

/// **No pairing is forgotten**: every pairing that was waiting is, after a frame, either still
/// waiting, measured (its creature asked for a child), or lost — exactly one of the three.
pub proof fn lemma_every_pairing_is_accounted_for<T>(open: Seq<Courting<T>>, asked: Seq<u64>, present: Seq<u64>)
    ensures
        still_open(open, asked, present).len() + lost_of(open, asked, present).len() + measured(
            open,
            asked,
        ) == open.len(),
    decreases open.len(),
{
    if open.len() > 0 {
        lemma_every_pairing_is_accounted_for(open.drop_last(), asked, present);
    }
}

fn holds(list: &Vec<u64>, x: u64) -> (r: bool)
    ensures
        r == list@.contains(x),
{
    let mut i: usize = 0;
    while i < list.len()
        invariant
            i <= list.len(),
            forall|k: int| 0 <= k < i ==> list@[k] != x,
        decreases list.len() - i,
    {
        if list[i] == x {
            return true;
        }
        i = i + 1;
    }
    false
}

/// **The pairings the breeding check may be judged on.** `counted` is the pairings that could
/// have produced a child, `lost` the ones that measured nothing, and `open` the counted ones
/// still waiting for their creature to ask for a child.
pub struct Courtings<T> {
    counted: u32,
    lost: u32,
    open: Vec<Courting<T>>,
}

impl<T> Courtings<T> {
    /// Every pairing still open has been counted.
    pub closed spec fn wf(&self) -> bool {
        self.open@.len() <= self.counted
    }

    pub closed spec fn spec_counted(&self) -> u32 {
        self.counted
    }

    pub closed spec fn spec_lost(&self) -> u32 {
        self.lost
    }

    pub closed spec fn waiting(&self) -> Seq<Courting<T>> {
        self.open@
    }

    pub fn new() -> (r: Courtings<T>)
        ensures
            r.wf(),
            r.spec_counted() == 0,
            r.spec_lost() == 0,
            r.waiting() == Seq::<Courting<T>>::empty(),
    {
        Courtings { counted: 0, lost: 0, open: Vec::new() }
    }

    pub fn counted(&self) -> (r: u32)
        ensures
            r == self.spec_counted(),
    {
        self.counted
    }

    pub fn lost(&self) -> (r: u32)
        ensures
            r == self.spec_lost(),
    {
        self.lost
    }

    /// **The rules told `who` about `partner`** at `at`: counted and left waiting, counted as
    /// lost, or not counted at all, by what the told creature's script can do with it.
    pub fn told(&mut self, who: u64, partner: u64, at: T, listens: Option<bool>, asleep: Option<bool>) -> (r: PairingFate)
        requires
            old(self).wf(),
            old(self).spec_counted() < u32::MAX,
            old(self).spec_lost() < u32::MAX,
        ensures
            final(self).wf(),
            r == fate_of(listens, asleep),
            listens == Some(false) ==> r == PairingFate::Unheard && final(self).waiting() == old(self).waiting() && final(self).spec_counted() == old(self).spec_counted(),
            r == PairingFate::Counted <==> (listens != Some(false) && asleep != Some(true)),
            r == PairingFate::Counted ==> final(self).spec_counted() == old(self).spec_counted() + 1
                && final(self).waiting() == old(self).waiting().push(Courting { who, partner, at })
                && final(self).spec_lost() == old(self).spec_lost(),
            r == PairingFate::SleptThrough ==> final(self).spec_lost() == old(self).spec_lost() + 1
                && final(self).spec_counted() == old(self).spec_counted() && final(self).waiting()
                == old(self).waiting(),
            r == PairingFate::Unheard ==> final(self).spec_lost() == old(self).spec_lost()
                && final(self).spec_counted() == old(self).spec_counted() && final(self).waiting()
                == old(self).waiting(),
    {
        let fate = pairing_fate(listens, asleep);
        match fate {
            PairingFate::Counted => {
                self.counted = self.counted + 1;
                self.open.push(Courting { who, partner, at });
            },
            PairingFate::SleptThrough => {
                self.lost = self.lost + 1;
            },
            PairingFate::Unheard => {},
        }
        fate
    }

    /// **The pairings settled this frame.** `asked` is every creature that asked the game for a
    /// child this frame — its pairing was measured and leaves; `present` is every creature still
    /// in the garden. A pairing one of whose two is gone measured nothing: it comes back out of
    /// the count, into the lost, and is handed back with why.
    pub fn close(&mut self, asked: &Vec<u64>, present: &Vec<u64>) -> (r: Vec<(T, Gone)>)
        requires
            old(self).wf(),
            old(self).spec_lost() + old(self).waiting().len() <= u32::MAX,
        ensures
            final(self).wf(),
            final(self).waiting() == still_open(old(self).waiting(), asked@, present@),
            r@ == lost_of(old(self).waiting(), asked@, present@),
            final(self).spec_counted() == old(self).spec_counted() - r@.len(),
            final(self).spec_lost() == old(self).spec_lost() + r@.len(),
    {
        let ghost before = self.open@;
        let mut open: Vec<Courting<T>> = Vec::new();
        std::mem::swap(&mut open, &mut self.open);
        let mut still: Vec<Courting<T>> = Vec::new();
        let mut lost: Vec<(T, Gone)> = Vec::new();
        let ghost mut k: int = 0;
        while open.len() > 0
            invariant
                0 <= k <= before.len(),
                open@ == before.skip(k),
                still@ == still_open(before.take(k), asked@, present@),
                lost@ == lost_of(before.take(k), asked@, present@),
            decreases open.len(),
        {
            let c = open.remove(0);
            proof {
                assert(before.take(k + 1).drop_last() == before.take(k));
                assert(before.take(k + 1).last() == c);
                assert(open@ == before.skip(k + 1));
            }
            let was_asked = holds(asked, c.who);
            let who_there = holds(present, c.who);
            let partner_there = holds(present, c.partner);
            if was_asked {
            } else if who_there && partner_there {
                still.push(c);
            } else if who_there {
                lost.push((c.at, Gone::Partner));
            } else {
                lost.push((c.at, Gone::Told));
            }
            proof {
                k = k + 1;
            }
        }
        proof {
            assert(before.take(before.len() as int) == before);
        }
        self.open = still;
        proof {
            lemma_every_pairing_is_accounted_for(before, asked@, present@);
        }
        self.counted = self.counted - lost.len() as u32;
        self.lost = self.lost + lost.len() as u32;
        lost
    }
}

} // verus!
