//! Who is touching whom, frame after frame — and which touches are news.
//!
//! A rabbit standing on a beetle, or two bodies the separation pass is pushing apart, stays in
//! contact for many frames; the game tells a script about the first of them only. The entities
//! are their bits (`Entity::to_bits`).
use vstd::prelude::*;

verus! {

broadcast use vstd::seq_lib::group_seq_properties;

/// A pair of entities as a key that does not depend on the order they were met in: the smaller
/// bits first.
pub open spec fn key_of(a: u64, b: u64) -> (u64, u64) {
    if a <= b {
        (a, b)
    } else {
        (b, a)
    }
}

pub fn pair_key(a: u64, b: u64) -> (r: (u64, u64))
    ensures
        r == key_of(a, b),
{
    if a <= b {
        (a, b)
    } else {
        (b, a)
    }
}

/// The key names the same pair whichever of the two came first.
pub proof fn lemma_key_is_unordered(a: u64, b: u64)
    ensures
        key_of(a, b) == key_of(b, a),
        key_of(a, b).0 <= key_of(a, b).1,
        (key_of(a, b) == (a, b)) || (key_of(a, b) == (b, a)),
{
}

/// Whether `pair` is in `list`.
fn holds(list: &Vec<(u64, u64)>, pair: (u64, u64)) -> (r: bool)
    ensures
        r == list@.contains(pair),
{
    let mut i: usize = 0;
    while i < list.len()
        invariant
            i <= list.len(),
            forall|k: int| 0 <= k < i ==> list@[k] != pair,
        decreases list.len() - i,
    {
        if list[i].0 == pair.0 && list[i].1 == pair.1 {
            return true;
        }
        i = i + 1;
    }
    false
}

/// The pairs of `now` that were not in `before`, in the order `now` has them.
pub open spec fn begun(now: Seq<(u64, u64)>, before: Seq<(u64, u64)>) -> Seq<(u64, u64)> {
    now.filter(|p: (u64, u64)| !before.contains(p))
}

/// The pairs of `now` whose key was not among `before`'s keys.
pub open spec fn begun_by_key(now: Seq<(u64, u64)>, before: Seq<(u64, u64)>) -> Seq<(u64, u64)> {
    now.filter(|p: (u64, u64)| !before.contains(key_of(p.0, p.1)))
}

pub open spec fn keys(now: Seq<(u64, u64)>) -> Seq<(u64, u64)> {
    now.map_values(|p: (u64, u64)| key_of(p.0, p.1))
}

/// **Which rabbit is standing on which beetle**: `(rabbit, beetle)` for every contact of the last
/// frame.
pub struct Contacts {
    pairs: Vec<(u64, u64)>,
}

impl Contacts {
    pub closed spec fn touching(&self) -> Seq<(u64, u64)> {
        self.pairs@
    }

    pub fn new() -> (r: Contacts)
        ensures
            r.touching() == Seq::<(u64, u64)>::empty(),
    {
        Contacts { pairs: Vec::new() }
    }

    /// This frame's contacts replace the last frame's; what comes back is the ones that were not
    /// there last frame — the beetles to be told `"touched"`, with the rabbit that did it.
    pub fn update(&mut self, now: Vec<(u64, u64)>) -> (told: Vec<(u64, u64)>)
        ensures
            final(self).touching() == now@,
            told@ == begun(now@, old(self).touching()),
    {
        let mut told: Vec<(u64, u64)> = Vec::new();
        let mut i: usize = 0;
        let ghost pred = |p: (u64, u64)| !self.pairs@.contains(p);
        while i < now.len()
            invariant
                i <= now.len(),
                pred == (|p: (u64, u64)| !self.pairs@.contains(p)),
                told@ == now@.take(i as int).filter(pred),
            decreases now.len() - i,
        {
            let pair = now[i];
            proof {
                assert(now@.take(i + 1) == now@.take(i as int).push(pair));
                now@.take(i as int).lemma_filter_push(pair, pred);
            }
            if !holds(&self.pairs, pair) {
                told.push(pair);
            }
            i = i + 1;
        }
        assert(now@.take(now.len() as int) == now@);
        self.pairs = now;
        told
    }
}

/// **Which pairs the separation pass was pushing apart last frame**, by key.
pub struct Bumps {
    keys: Vec<(u64, u64)>,
}

impl Bumps {
    pub closed spec fn pushed(&self) -> Seq<(u64, u64)> {
        self.keys@
    }

    pub fn new() -> (r: Bumps)
        ensures
            r.pushed() == Seq::<(u64, u64)>::empty(),
    {
        Bumps { keys: Vec::new() }
    }

    /// This frame's touching pairs, each `(creature, other)`; the keys of all of them are kept
    /// for the next frame, and what comes back is the pairs whose key was not there last frame
    /// — the ones `"bumped"` is to be said about.
    pub fn update(&mut self, touching: &Vec<(u64, u64)>) -> (fresh: Vec<(u64, u64)>)
        ensures
            final(self).pushed() == keys(touching@),
            fresh@ == begun_by_key(touching@, old(self).pushed()),
    {
        let mut now: Vec<(u64, u64)> = Vec::new();
        let mut fresh: Vec<(u64, u64)> = Vec::new();
        let mut i: usize = 0;
        let ghost pred = |p: (u64, u64)| !self.keys@.contains(key_of(p.0, p.1));
        while i < touching.len()
            invariant
                i <= touching.len(),
                pred == (|p: (u64, u64)| !self.keys@.contains(key_of(p.0, p.1))),
                fresh@ == touching@.take(i as int).filter(pred),
                now@ == keys(touching@.take(i as int)),
            decreases touching.len() - i,
        {
            let pair = touching[i];
            let key = pair_key(pair.0, pair.1);
            proof {
                assert(touching@.take(i + 1) == touching@.take(i as int).push(pair));
                touching@.take(i as int).lemma_filter_push(pair, pred);
                assert(keys(touching@.take(i + 1)) == keys(touching@.take(i as int)).push(key));
            }
            now.push(key);
            if !holds(&self.keys, key) {
                fresh.push(pair);
            }
            i = i + 1;
        }
        assert(touching@.take(touching.len() as int) == touching@);
        self.keys = now;
        fresh
    }
}

/// Who is told `"bumped"` about whom, for the fresh pushes in order: the first of each pair, which
/// is always a creature, about the second; and the second about the first only where the second
/// is one of `movers`, the creatures (a tree or a rock has nobody to tell).
pub open spec fn bumped_told(fresh: Seq<(u64, u64)>, movers: Seq<u64>) -> Seq<(u64, u64)>
    decreases fresh.len(),
{
    if fresh.len() == 0 {
        Seq::empty()
    } else {
        let (a, b) = fresh.last();
        let told = bumped_told(fresh.drop_last(), movers).push((a, b));
        if movers.contains(b) {
            told.push((b, a))
        } else {
            told
        }
    }
}

/// **Who hears `"bumped"`**: the first of every fresh push hears about the second; the second
/// hears about the first whenever it is a creature; and nobody else hears anything.
pub proof fn lemma_who_hears_bumped(fresh: Seq<(u64, u64)>, movers: Seq<u64>)
    ensures
        forall|i: int| 0 <= i < fresh.len() ==> bumped_told(fresh, movers).contains(#[trigger] fresh[i]),
        forall|i: int|
            0 <= i < fresh.len() && movers.contains(#[trigger] fresh[i].1) ==> bumped_told(
                fresh,
                movers,
            ).contains((fresh[i].1, fresh[i].0)),
        forall|x: (u64, u64)|
            bumped_told(fresh, movers).contains(x) ==> fresh.contains(x) || (movers.contains(x.0)
                && fresh.contains((x.1, x.0))),
    decreases fresh.len(),
{
    if fresh.len() > 0 {
        let rest = fresh.drop_last();
        lemma_who_hears_bumped(rest, movers);
        let (a, b) = fresh.last();
        let before = bumped_told(rest, movers);
        let with_first = before.push((a, b));
        let told = bumped_told(fresh, movers);
        assert(told == if movers.contains(b) { with_first.push((b, a)) } else { with_first });
        assert(forall|x: (u64, u64)| with_first.contains(x) ==> told.contains(x)) by {
            assert forall|x: (u64, u64)| with_first.contains(x) implies told.contains(x) by {
                let k = choose|k: int| 0 <= k < with_first.len() && with_first[k] == x;
                if movers.contains(b) {
                    assert(told[k] == x);
                }
            }
        }
        assert(forall|x: (u64, u64)| before.contains(x) ==> with_first.contains(x)) by {
            assert forall|x: (u64, u64)| before.contains(x) implies with_first.contains(x) by {
                let k = choose|k: int| 0 <= k < before.len() && before[k] == x;
                assert(with_first[k] == x);
            }
        }
        assert(with_first[before.len() as int] == (a, b));
        assert(with_first.contains((a, b)));
        if movers.contains(b) {
            assert(told[with_first.len() as int] == (b, a));
            assert(told.contains((b, a)));
        }
        assert forall|i: int| 0 <= i < fresh.len() implies told.contains(#[trigger] fresh[i]) by {
            if i < fresh.len() - 1 {
                assert(rest[i] == fresh[i]);
            }
        }
        assert forall|i: int|
            0 <= i < fresh.len() && movers.contains(#[trigger] fresh[i].1) implies told.contains(
                (fresh[i].1, fresh[i].0),
            ) by {
            if i < fresh.len() - 1 {
                assert(rest[i] == fresh[i]);
            }
        }
        assert forall|x: (u64, u64)| told.contains(x) implies fresh.contains(x) || (movers.contains(
            x.0,
        ) && fresh.contains((x.1, x.0))) by {
            assert(fresh[fresh.len() - 1] == (a, b));
            let k = choose|k: int| 0 <= k < told.len() && told[k] == x;
            if k < before.len() {
                assert(before[k] == x);
                assert(before.contains(x));
                if rest.contains(x) {
                    let j = choose|j: int| 0 <= j < rest.len() && rest[j] == x;
                    assert(fresh[j] == x);
                } else {
                    let j = choose|j: int| 0 <= j < rest.len() && rest[j] == (x.1, x.0);
                    assert(fresh[j] == (x.1, x.0));
                }
            } else if k == before.len() {
                assert(x == (a, b));
            } else {
                assert(x == (b, a));
            }
        }
    }
}

/// **Who hears `"bumped"`**, each `(to, about)`, for the pushes [`Bumps::update`] found fresh.
pub fn tell_bumped(fresh: &Vec<(u64, u64)>, movers: &Vec<u64>) -> (r: Vec<(u64, u64)>)
    ensures
        r@ == bumped_told(fresh@, movers@),
        forall|i: int| 0 <= i < fresh@.len() ==> r@.contains(#[trigger] fresh@[i]),
        forall|i: int|
            0 <= i < fresh@.len() && movers@.contains(#[trigger] fresh@[i].1) ==> r@.contains(
                (fresh@[i].1, fresh@[i].0),
            ),
        forall|x: (u64, u64)|
            r@.contains(x) ==> fresh@.contains(x) || (movers@.contains(x.0) && fresh@.contains(
                (x.1, x.0),
            )),
{
    proof {
        lemma_who_hears_bumped(fresh@, movers@);
    }
    let mut told: Vec<(u64, u64)> = Vec::new();
    let mut i: usize = 0;
    while i < fresh.len()
        invariant
            i <= fresh.len(),
            told@ == bumped_told(fresh@.take(i as int), movers@),
        decreases fresh.len() - i,
    {
        let (a, b) = fresh[i];
        proof {
            assert(fresh@.take(i + 1).drop_last() == fresh@.take(i as int));
            assert(fresh@.take(i + 1).last() == (a, b));
        }
        told.push((a, b));
        if holds_id(movers, b) {
            told.push((b, a));
        }
        i = i + 1;
    }
    assert(fresh@.take(fresh.len() as int) == fresh@);
    told
}

/// Whether `id` is in `v`.
fn holds_id(v: &Vec<u64>, id: u64) -> (r: bool)
    ensures
        r == v@.contains(id),
{
    let mut i: usize = 0;
    while i < v.len()
        invariant
            i <= v.len(),
            forall|k: int| 0 <= k < i ==> v@[k] != id,
        decreases v.len() - i,
    {
        if v[i] == id {
            assert(v@[i as int] == id);
            return true;
        }
        i = i + 1;
    }
    false
}

/// **A contact is news once**: a contact that lasts into the next frame is not announced again,
/// and everything announced is a contact of this frame.
pub proof fn lemma_a_lasting_contact_is_told_once(now: Seq<(u64, u64)>, before: Seq<(u64, u64)>, p: (u64, u64))
    ensures
        begun(now, before).contains(p) <==> (now.contains(p) && !before.contains(p)),
{
    let pred = |q: (u64, u64)| !before.contains(q);
    if now.contains(p) && !before.contains(p) {
        let i = choose|i: int| 0 <= i < now.len() && now[i] == p;
        now.lemma_filter_contains(pred, i);
    }
    if now.filter(pred).contains(p) {
        now.lemma_filter_contains_rev(pred, p);
        let k = choose|k: int| 0 <= k < now.filter(pred).len() && now.filter(pred)[k] == p;
        now.lemma_filter_pred(pred, k);
    }
}

/// The same for the pushes, by key: a pair pushed in two frames running is news in the first
/// only, whichever order the two bodies were found in.
pub proof fn lemma_a_lasting_push_is_told_once(touching: Seq<(u64, u64)>, before: Seq<(u64, u64)>, p: (u64, u64))
    ensures
        begun_by_key(touching, before).contains(p) <==> (touching.contains(p) && !before.contains(
            key_of(p.0, p.1),
        )),
{
    let pred = |q: (u64, u64)| !before.contains(key_of(q.0, q.1));
    if touching.contains(p) && !before.contains(key_of(p.0, p.1)) {
        let i = choose|i: int| 0 <= i < touching.len() && touching[i] == p;
        touching.lemma_filter_contains(pred, i);
    }
    if touching.filter(pred).contains(p) {
        touching.lemma_filter_contains_rev(pred, p);
        let k = choose|k: int| 0 <= k < touching.filter(pred).len() && touching.filter(pred)[k] == p;
        touching.lemma_filter_pred(pred, k);
    }
}

} // verus!
