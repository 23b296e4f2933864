//! Which creature the editor and the VM panel are about, and what the keys and the editor's
//! buttons do to that.
//!
//! Creatures are their entities' bits, and the list is walked in the order of those bits — the
//! order they were made in, which does not change as others are born and starve.
use vstd::prelude::*;
use crate::brains::WORLD;
use crate::species::Species;

verus! {

/// The bits of every creature in the list.
pub open spec fn ids(all: Seq<(u64, Species)>) -> Seq<u64> {
    all.map_values(|c: (u64, Species)| c.0)
}

/// `x` is a creature of the list and no creature of it comes before it.
pub open spec fn is_first(all: Seq<(u64, Species)>, x: u64) -> bool {
    ids(all).contains(x) && forall|i: int| 0 <= i < all.len() ==> x <= #[trigger] all[i].0
}

/// `x` is the first creature of the species in slot `s`.
pub open spec fn is_first_of(all: Seq<(u64, Species)>, s: u64, x: u64) -> bool {
    (exists|i: int| 0 <= i < all.len() && all[i].0 == x && all[i].1.spec_index() == s) && forall|i: int|
        0 <= i < all.len() && #[trigger] all[i].1.spec_index() == s ==> x <= all[i].0
}

/// `x` is the first creature after `cur`.
pub open spec fn is_next(all: Seq<(u64, Species)>, cur: u64, x: u64) -> bool {
    ids(all).contains(x) && x > cur && forall|i: int|
        0 <= i < all.len() && #[trigger] all[i].0 > cur ==> x <= all[i].0
}

pub open spec fn has_after(all: Seq<(u64, Species)>, cur: u64) -> bool {
    exists|i: int| 0 <= i < all.len() && #[trigger] all[i].0 > cur
}

pub open spec fn has_species(all: Seq<(u64, Species)>, s: u64) -> bool {
    exists|i: int| 0 <= i < all.len() && #[trigger] all[i].1.spec_index() == s
}

/// A creature is above `above` (if given) and of species `species` (if given).
pub open spec fn fits(c: (u64, Species), above: Option<u64>, species: Option<u64>) -> bool {
    &&& above matches Some(a) ==> c.0 > a
    &&& species matches Some(s) ==> c.1.spec_index() == s
}

/// The first creature of the list that fits.
fn first_where(all: &Vec<(u64, Species)>, above: Option<u64>, species: Option<u64>) -> (r: Option<u64>)
    ensures
        r matches Some(x) ==> ids(all@).contains(x),
        r matches Some(x) ==> (exists|i: int|
            0 <= i < all@.len() && #[trigger] all@[i].0 == x && fits(all@[i], above, species)),
        r matches Some(x) ==> forall|i: int|
            0 <= i < all@.len() && fits(#[trigger] all@[i], above, species) ==> x <= all@[i].0,
        r is None ==> forall|i: int| 0 <= i < all@.len() ==> !fits(#[trigger] all@[i], above, species),
{
    let mut best: Option<u64> = None;
    let mut i: usize = 0;
    while i < all.len()
        invariant
            i <= all.len(),
            best matches Some(x) ==> ids(all@).contains(x),
            best matches Some(x) ==> (exists|k: int|
                0 <= k < i && #[trigger] all@[k].0 == x && fits(all@[k], above, species)),
            best matches Some(x) ==> forall|k: int|
                0 <= k < i && fits(#[trigger] all@[k], above, species) ==> x <= all@[k].0,
            best is None ==> forall|k: int| 0 <= k < i ==> !fits(#[trigger] all@[k], above, species),
        decreases all.len() - i,
    {
        let (bits, s) = all[i];
        let fits_above = match above {
            Some(a) => bits > a,
            None => true,
        };
        let fits_species = match species {
            Some(want) => s.index() as u64 == want,
            None => true,
        };
        if fits_above && fits_species {
            proof {
                assert(ids(all@)[i as int] == bits);
            }
            match best {
                Some(b) => {
                    if bits < b {
                        best = Some(bits);
                    }
                },
                None => {
                    best = Some(bits);
                },
            }
        }
        i = i + 1;
    }
    best
}

fn holds(all: &Vec<(u64, Species)>, x: u64) -> (r: bool)
    ensures
        r == ids(all@).contains(x),
{
    let mut i: usize = 0;
    while i < all.len()
        invariant
            i <= all.len(),
            forall|k: int| 0 <= k < i ==> all@[k].0 != x,
        decreases all.len() - i,
    {
        if all[i].0 == x {
            proof {
                assert(ids(all@)[i as int] == x);
            }
            return true;
        }
        i = i + 1;
    }
    proof {
        if ids(all@).contains(x) {
            let k = choose|k: int| 0 <= k < ids(all@).len() && ids(all@)[k] == x;
            assert(all@[k].0 == x);
        }
    }
    false
}

/// What happened this frame that may move the editor: the keys, the file button clicked along
/// the top of the editor (a species' slot, or the rules'), and the creature under a click.
pub struct Asked {
    /// the keyboard belongs to a text field this frame
    pub typing: bool,
    pub f1: bool,
    pub f3: bool,
    pub tab: bool,
    pub picked: Option<u64>,
    pub clicked: Option<u64>,
}

/// Which creature is looked at, and whether the editor is on the rules instead.
pub struct Watched {
    pub entity: Option<u64>,
    pub world: bool,
}

/// Whether the editor ends on the rules: a click or `Tab` put it on a creature; failing those,
/// the rules' button puts it on the rules and a species' button takes it off; failing those, `F3`
/// puts it on the rules.
pub open spec fn ends_on_world(was: bool, any: bool, asked: Asked) -> bool {
    if any && (asked.clicked is Some || (!asked.typing && asked.tab)) {
        false
    } else if asked.picked == Some(WORLD as u64) {
        true
    } else if asked.picked is Some {
        false
    } else if !asked.typing && asked.f3 {
        true
    } else {
        was
    }
}

/// The first creature of the list.
pub open spec fn first_of_all(all: Seq<(u64, Species)>) -> u64 {
    choose|x: u64| is_first(all, x)
}

/// The first creature of the species in slot `p`.
pub open spec fn first_of_species(all: Seq<(u64, Species)>, p: u64) -> u64 {
    choose|x: u64| is_first_of(all, p, x)
}

/// The creature after `cur`, or the first one again when nothing comes after it.
pub open spec fn next_of(all: Seq<(u64, Species)>, cur: u64) -> u64 {
    if has_after(all, cur) {
        choose|x: u64| is_next(all, cur, x)
    } else {
        first_of_all(all)
    }
}

/// Whether a key was pressed for the garden rather than into a text field.
pub open spec fn pressed(asked: Asked, key: bool) -> bool {
    !asked.typing && key
}

/// The creature chosen before `Tab` is looked at: the one that was looked at while it lives (the
/// first creature when it does not), then the first creature of the species whose button was
/// clicked, then the creature under a click.
pub open spec fn before_tab(was: Option<u64>, all: Seq<(u64, Species)>, asked: Asked) -> u64 {
    let base = match was {
        Some(e) => if ids(all).contains(e) {
            e
        } else {
            first_of_all(all)
        },
        None => first_of_all(all),
    };
    let picked = match asked.picked {
        Some(p) => if has_species(all, p) {
            first_of_species(all, p)
        } else {
            base
        },
        None => base,
    };
    match asked.clicked {
        Some(c) => c,
        None => picked,
    }
}

/// Whether the editor is to show: anything that chose a creature, or `F3`, opens it, and `F1`
/// turns it over. A garden with nobody in it is looked at no further than `F3`: the frame ends
/// there, before `F1` is read.
pub open spec fn ends_open(was: Option<u64>, open: bool, all: Seq<(u64, Species)>, asked: Asked) -> bool {
    let opened = open || pressed(asked, asked.f3) || (all.len() > 0 && (asked.clicked is Some
        || pressed(asked, asked.tab) || !(was matches Some(e) && ids(all).contains(e))));
    if all.len() > 0 && pressed(asked, asked.f1) {
        !opened
    } else {
        opened
    }
}

/// **A click or `Tab` puts the editor on a creature**: whatever the editor was on, and whatever
/// else was pressed, a frame with creatures in it in which one was clicked or `Tab` was pressed
/// ends on a creature's file, not on the rules.
pub proof fn lemma_a_click_or_tab_leaves_the_rules(was: bool, asked: Asked)
    requires
        asked.clicked is Some || (!asked.typing && asked.tab),
    ensures
        !ends_on_world(was, true, asked),
{
}

/// **A click chooses the creature clicked**, over the one looked at and over a species' button.
pub proof fn lemma_a_click_chooses_the_clicked(was: Option<u64>, all: Seq<(u64, Species)>, asked: Asked)
    requires
        asked.clicked is Some,
    ensures
        before_tab(was, all, asked) == asked.clicked->0,
{
}

proof fn lemma_first_is_unique(all: Seq<(u64, Species)>, x: u64)
    requires
        is_first(all, x),
    ensures
        first_of_all(all) == x,
{
    let y = first_of_all(all);
    assert(is_first(all, y));
    let i = choose|i: int| 0 <= i < ids(all).len() && ids(all)[i] == x;
    let j = choose|j: int| 0 <= j < ids(all).len() && ids(all)[j] == y;
    assert(x <= all[j].0);
    assert(y <= all[i].0);
}

proof fn lemma_first_of_is_unique(all: Seq<(u64, Species)>, p: u64, x: u64)
    requires
        is_first_of(all, p, x),
    ensures
        first_of_species(all, p) == x,
{
    let y = first_of_species(all, p);
    assert(is_first_of(all, p, y));
    let i = choose|i: int| 0 <= i < all.len() && all[i].0 == x && all[i].1.spec_index() == p;
    let j = choose|j: int| 0 <= j < all.len() && all[j].0 == y && all[j].1.spec_index() == p;
    assert(x <= all[j].0);
    assert(y <= all[i].0);
}

proof fn lemma_next_is_unique(all: Seq<(u64, Species)>, cur: u64, x: u64)
    requires
        is_next(all, cur, x),
    ensures
        has_after(all, cur),
        next_of(all, cur) == x,
{
    let i = choose|i: int| 0 <= i < ids(all).len() && ids(all)[i] == x;
    assert(all[i].0 > cur);
    let y = choose|y: u64| is_next(all, cur, y);
    assert(is_next(all, cur, y));
    let j = choose|j: int| 0 <= j < ids(all).len() && ids(all)[j] == y;
    assert(x <= all[j].0);
    assert(y <= all[i].0);
}

/// **One frame of choosing.** `all` is every creature, its bits and its species; `open` is
/// whether the editor is showing. What comes back is the new choice and whether the editor shows.
pub fn choose_watched(was: Watched, open: bool, all: &Vec<(u64, Species)>, asked: Asked) -> (r: (
    Watched,
    bool,
))
    requires
        asked.clicked matches Some(c) ==> ids(all@).contains(c),
    ensures
        r.0.world == ends_on_world(was.world, all@.len() > 0, asked),
        all@.len() == 0 ==> r.0.entity is None,
        all@.len() > 0 ==> r.0.entity == Some(
            if pressed(asked, asked.tab) {
                next_of(all@, before_tab(was.entity, all@, asked))
            } else {
                before_tab(was.entity, all@, asked)
            },
        ),
        all@.len() > 0 ==> ids(all@).contains(r.0.entity->0),
        r.1 == ends_open(was.entity, open, all@, asked),
        all@.len() > 0 && (asked.clicked is Some || (!asked.typing && asked.tab)) ==> !r.0.world,
        all@.len() > 0 && asked.clicked is Some && !(!asked.typing && asked.tab) ==> r.0.entity
            == asked.clicked,
        all@.len() > 0 && asked.clicked is Some ==> r.1 == !(!asked.typing && asked.f1),
{
    let mut world = was.world;
    let mut open = open;
    if !asked.typing && asked.f3 {
        world = true;
        open = true;
    }
    match asked.picked {
        Some(p) => {
            world = p == WORLD as u64;
        },
        None => {},
    }
    if all.len() == 0 {
        return (Watched { entity: None, world }, open);
    }
    let first = first_where(all, None, None);
    proof {
        assert(fits(all@[0], None, None));
        assert forall|i: int| 0 <= i < all@.len() implies first->0 <= #[trigger] all@[i].0 by {
            assert(fits(all@[i], None, None));
        }
        assert(is_first(all@, first->0));
        lemma_first_is_unique(all@, first->0);
    }
    let mut entity: u64 = match was.entity {
        Some(e) => {
            if holds(all, e) {
                e
            } else {
                open = true;
                first.unwrap()
            }
        },
        None => {
            open = true;
            first.unwrap()
        },
    };
    match asked.picked {
        Some(p) => {
            match first_where(all, None, Some(p)) {
                Some(e) => {
                    proof {
                        assert forall|i: int|
                            0 <= i < all@.len() && #[trigger] all@[i].1.spec_index() == p implies e
                            <= all@[i].0 by {
                            assert(fits(all@[i], None, Some(p)));
                        }
                        assert(is_first_of(all@, p, e));
                        lemma_first_of_is_unique(all@, p, e);
                    }
                    entity = e;
                },
                None => {
                    proof {
                        assert forall|i: int| 0 <= i < all@.len() implies #[trigger] all@[i].1.spec_index()
                            != p by {
                            assert(!fits(all@[i], None, Some(p)));
                        }
                    }
                },
            }
        },
        None => {},
    }
    match asked.clicked {
        Some(c) => {
            entity = c;
            world = false;
            open = true;
        },
        None => {},
    }
    if !asked.typing && asked.tab {
        let cur = entity;
        entity = match first_where(all, Some(cur), None) {
            Some(e) => {
                proof {
                    assert forall|i: int| 0 <= i < all@.len() && #[trigger] all@[i].0 > cur implies e
                        <= all@[i].0 by {
                        assert(fits(all@[i], Some(cur), None));
                    }
                    let k = choose|k: int| 0 <= k < all@.len() && #[trigger] all@[k].0 == e && fits(all@[k], Some(cur), None);
                    assert(e > cur);
                    assert(is_next(all@, cur, e));
                    lemma_next_is_unique(all@, cur, e);
                }
                e
            },
            None => {
                proof {
                    assert forall|i: int| 0 <= i < all@.len() implies !(#[trigger] all@[i].0 > cur) by {
                        assert(!fits(all@[i], Some(cur), None));
                    }
                }
                first.unwrap()
            },
        };
        world = false;
        open = true;
    }
    if !asked.typing && asked.f1 {
        open = !open;
    }
    (Watched { entity: Some(entity), world }, open)
}

} // verus!
