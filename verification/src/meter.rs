//! What one pass of the world's rules costs, frame after frame, and the middle of it.
use vstd::prelude::*;
use vstd::relations::{sorted_by, total_ordering};

verus! {

broadcast use {vstd::seq_lib::group_to_multiset_ensures, vstd::seq_lib::lemma_multiset_commutative};

/// The order the passes are ranked in: fewer instructions first.
pub open spec fn at_most() -> spec_fn(u64, u64) -> bool {
    |a: u64, b: u64| a <= b
}

/// Every entry is no more than every entry after it.
pub open spec fn ascending(s: Seq<u64>) -> bool {
    forall|i: int, j: int| 0 <= i < j < s.len() ==> s[i] <= s[j]
}

/// `at_most` is an order in which any two passes can be compared.
pub proof fn lemma_at_most_is_total()
    ensures
        total_ordering(at_most()),
{
    let r = at_most();
    assert(vstd::relations::reflexive(r));
    assert(vstd::relations::antisymmetric(r));
    assert(vstd::relations::transitive(r));
    assert(vstd::relations::strongly_connected(r));
}

/// An ascending sequence is the one `sort_by` makes of the same entries.
proof fn lemma_ascending_is_the_sort(sorted: Seq<u64>, of: Seq<u64>)
    requires
        ascending(sorted),
        sorted.to_multiset() == of.to_multiset(),
    ensures
        sorted == of.sort_by(at_most()),
{
    lemma_at_most_is_total();
    of.lemma_sort_by_ensures(at_most());
    assert forall|i: int, j: int| 0 <= i < j < sorted.len() implies #[trigger] (at_most())(
        sorted[i],
        sorted[j],
    ) by {}
    assert(sorted_by(sorted, at_most()));
    vstd::seq_lib::lemma_sorted_unique(sorted, of.sort_by(at_most()), at_most());
}

/// Two ascending runs, woven into one.
fn merge(a: &Vec<u64>, b: &Vec<u64>) -> (r: Vec<u64>)
    requires
        ascending(a@),
        ascending(b@),
    ensures
        ascending(r@),
        r@.to_multiset() == a@.to_multiset().add(b@.to_multiset()),
{
    let mut r: Vec<u64> = Vec::new();
    let mut i: usize = 0;
    let mut j: usize = 0;
    while i < a.len() || j < b.len()
        invariant
            ascending(a@),
            ascending(b@),
            i <= a.len(),
            j <= b.len(),
            r.len() == i + j,
            ascending(r@),
            r@.to_multiset() == a@.take(i as int).to_multiset().add(b@.take(j as int).to_multiset()),
            forall|k: int| 0 <= k < r.len() ==> (i < a.len() ==> r@[k] <= a@[i as int]),
            forall|k: int| 0 <= k < r.len() ==> (j < b.len() ==> r@[k] <= b@[j as int]),
        decreases a.len() + b.len() - i - j,
    {
        if j >= b.len() || (i < a.len() && a[i] <= b[j]) {
            let x = a[i];
            assert(a@.take(i + 1) == a@.take(i as int).push(x));
            r.push(x);
            i = i + 1;
        } else {
            let x = b[j];
            assert(b@.take(j + 1) == b@.take(j as int).push(x));
            r.push(x);
            j = j + 1;
        }
    }
    assert(a@.take(a.len() as int) == a@);
    assert(b@.take(b.len() as int) == b@);
    r
}

/// The entries of `v[lo..hi]`, ascending.
fn sort_range(v: &Vec<u64>, lo: usize, hi: usize) -> (r: Vec<u64>)
    requires
        lo <= hi <= v.len(),
    ensures
        ascending(r@),
        r@.to_multiset() == v@.subrange(lo as int, hi as int).to_multiset(),
    decreases hi - lo,
{
    if hi - lo <= 1 {
        let mut r: Vec<u64> = Vec::new();
        if hi - lo == 1 {
            r.push(v[lo]);
            assert(v@.subrange(lo as int, hi as int) == Seq::<u64>::empty().push(v@[lo as int]));
        } else {
            assert(v@.subrange(lo as int, hi as int) == Seq::<u64>::empty());
        }
        r
    } else {
        let mid = lo + (hi - lo) / 2;
        let left = sort_range(v, lo, mid);
        let right = sort_range(v, mid, hi);
        assert(v@.subrange(lo as int, hi as int) == v@.subrange(lo as int, mid as int) + v@.subrange(
            mid as int,
            hi as int,
        ));
        merge(&left, &right)
    }
}

/// The entries of `v`, ascending: the same ones, as often as they were there.
pub fn sorted_passes(v: &Vec<u64>) -> (r: Vec<u64>)
    ensures
        r@ == v@.sort_by(at_most()),
{
    let r = sort_range(v, 0, v.len());
    proof {
        assert(v@.subrange(0, v.len() as int) == v@);
        lemma_ascending_is_the_sort(r@, v@);
    }
    r
}

/// The largest entry, or 0 for none.
pub open spec fn most_of(s: Seq<u64>) -> u64
    decreases s.len(),
{
    if s.len() == 0 {
        0
    } else {
        let rest = most_of(s.drop_last());
        if s.last() > rest {
            s.last()
        } else {
            rest
        }
    }
}

proof fn lemma_most_of_bounds(s: Seq<u64>)
    ensures
        forall|i: int| 0 <= i < s.len() ==> s[i] <= most_of(s),
        s.len() > 0 ==> s.contains(most_of(s)),
    decreases s.len(),
{
    if s.len() > 0 {
        lemma_most_of_bounds(s.drop_last());
        assert forall|i: int| 0 <= i < s.len() implies s[i] <= most_of(s) by {
            if i < s.len() - 1 {
                assert(s[i] == s.drop_last()[i]);
            }
        }
        if most_of(s) != s.last() {
            let k = choose|k: int| 0 <= k < s.drop_last().len() && s.drop_last()[k] == most_of(
                s.drop_last(),
            );
            assert(s[k] == most_of(s));
        } else {
            assert(s[s.len() - 1] == most_of(s));
        }
    }
}

/// **What the rules cost in each frame they ran in**, counted in VM instructions.
///
/// The world's script waits on one question per frame, so the instructions it ran between two
/// frames are one pass of `each_frame`: one entry per frame in which it ran at all.
pub struct WorldMeter {
    /// the VM's running total at the end of the last frame
    last_instructions: u64,
    /// one entry per frame the rules ran in
    ran_in: Vec<u64>,
    /// the last of them
    last_pass: u64,
    /// the biggest of them
    most: u64,
}

impl WorldMeter {
    /// Every entry is a frame the rules ran in, `last_pass` is the last of them and `most` the
    /// largest (both 0 before the first).
    pub closed spec fn wf(&self) -> bool {
        &&& forall|i: int| 0 <= i < self.ran_in@.len() ==> self.ran_in@[i] > 0
        &&& self.most == most_of(self.ran_in@)
        &&& self.last_pass == (if self.ran_in@.len() == 0 {
            0
        } else {
            self.ran_in@.last()
        })
    }

    pub closed spec fn last_total(&self) -> u64 {
        self.last_instructions
    }

    pub closed spec fn passes(&self) -> Seq<u64> {
        self.ran_in@
    }

    pub closed spec fn spec_most(&self) -> u64 {
        self.most
    }

    pub closed spec fn spec_last_pass(&self) -> u64 {
        self.last_pass
    }

    pub fn new() -> (m: WorldMeter)
        ensures
            m.wf(),
            m.passes() == Seq::<u64>::empty(),
            m.last_total() == 0,
    {
        WorldMeter { last_instructions: 0, ran_in: Vec::new(), last_pass: 0, most: 0 }
    }

    /// The VM's running total at the end of a frame. What it grew by since the last frame is a
    /// pass; a total that went *down* is a restarted script, whose first frame is not one.
    pub fn record(&mut self, ran: u64)
        requires
            old(self).wf(),
        ensures
            final(self).wf(),
            final(self).last_total() == ran,
            final(self).passes() == (if ran > old(self).last_total() {
                old(self).passes().push((ran - old(self).last_total()) as u64)
            } else {
                old(self).passes()
            }),
    {
        let pass = ran.saturating_sub(self.last_instructions);
        self.last_instructions = ran;
        if pass > 0 {
            let ghost before = self.ran_in@;
            if pass > self.most {
                self.most = pass;
            }
            self.last_pass = pass;
            self.ran_in.push(pass);
            assert(self.ran_in@.drop_last() == before);
        }
    }

    /// How many frames the rules ran in.
    pub fn frames(&self) -> (r: usize)
        ensures
            r == self.passes().len(),
    {
        self.ran_in.len()
    }

    /// The last pass, or 0 before the first.
    pub fn last_pass(&self) -> (r: u64)
        ensures
            r == self.spec_last_pass(),
    {
        self.last_pass
    }

    /// The most any pass cost, or 0 before the first.
    pub fn most(&self) -> (r: u64)
        ensures
            r == self.spec_most(),
    {
        self.most
    }

    /// **The middle frame's worth**: the pass half-way up the list of them, least first. `None`
    /// until one has been measured.
    pub fn median(&self) -> (r: Option<u64>)
        ensures
            self.passes().len() == 0 ==> r is None,
            self.passes().len() > 0 ==> r == Some(
                self.passes().sort_by(at_most())[(self.passes().len() / 2) as int],
            ),
    {
        if self.ran_in.len() == 0 {
            return None;
        }
        let sorted = sorted_passes(&self.ran_in);
        proof {
            lemma_at_most_is_total();
            self.ran_in@.lemma_sort_by_ensures(at_most());
            assert(sorted@.to_multiset().len() == self.ran_in@.to_multiset().len());
        }
        Some(sorted[sorted.len() / 2])
    }
}

/// **The middle is one of the passes, and never above the most**: whatever was recorded, the
/// median the meter reports is a frame that happened, and it lies between the cheapest pass and
/// the dearest one.
pub proof fn lemma_median_is_a_pass(m: &WorldMeter)
    requires
        m.wf(),
        m.passes().len() > 0,
    ensures
        m.passes().contains(m.passes().sort_by(at_most())[(m.passes().len() / 2) as int]),
        m.passes().sort_by(at_most())[(m.passes().len() / 2) as int] <= m.spec_most(),
{
    let s = m.passes();
    let t = s.sort_by(at_most());
    lemma_at_most_is_total();
    s.lemma_sort_by_ensures(at_most());
    let k = (s.len() / 2) as int;
    assert(t.to_multiset().len() == s.to_multiset().len());
    assert(t.contains(t[k]));
    assert(t.to_multiset().count(t[k]) > 0);
    assert(s.contains(t[k]));
    lemma_most_of_bounds(s);
    let i = choose|i: int| 0 <= i < s.len() && s[i] == t[k];
    assert(s[i] <= most_of(s));
}

} // verus!
