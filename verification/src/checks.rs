//! What a run asked to prove about itself says at the end, for the checks that are counts.
use vstd::prelude::*;
use crate::save::VersionRefusal;

verus! {

/// A check's word on the run.
#[derive(Clone, Copy, Debug, PartialEq, Eq, Structural)]
pub enum Verdict {
    Pass,
    Fail,
    /// the run never gave the check anything to judge
    Unmeasured,
}

impl Verdict {
    /// How the line in the log begins.
    pub fn mark(self) -> (r: &'static str)
        ensures
            r@ == (match self {
                Verdict::Pass => "ok  "@,
                Verdict::Fail => "FAIL"@,
                Verdict::Unmeasured => "--  "@,
            }),
    {
        match self {
            Verdict::Pass => "ok  ",
            Verdict::Fail => "FAIL",
            Verdict::Unmeasured => "--  ",
        }
    }
}

/// Nothing walked through anything: no frame had a pair closer than nine tenths of their radii,
/// and at least one frame was looked at.
pub fn nothing_walked_through(overlaps: u32, frames: u32) -> (r: Verdict)
    ensures
        r == (if overlaps == 0 && frames > 0 {
            Verdict::Pass
        } else {
            Verdict::Fail
        }),
{
    if overlaps == 0 && frames > 0 {
        Verdict::Pass
    } else {
        Verdict::Fail
    }
}

/// Every beetle touched by a rabbit that could be looked at afterwards changed heading — and at
/// least one could.
pub fn touched_ones_turned(turned: u32, checked: u32) -> (r: Verdict)
    ensures
        r == (if checked > 0 && turned == checked {
            Verdict::Pass
        } else {
            Verdict::Fail
        }),
{
    if checked > 0 && turned == checked {
        Verdict::Pass
    } else {
        Verdict::Fail
    }
}

/// **A child was born whose genome is its parents' mixed and mutated.** `born` is what the check
/// made of the first child, if one was born; `counted` is the pairings that could have produced
/// one. No child out of no such pairing is not a failure: nothing asked for one.
pub fn child_verdict(born: Option<bool>, counted: u32) -> (r: Verdict)
    ensures
        born matches Some(ok) ==> r == (if ok {
            Verdict::Pass
        } else {
            Verdict::Fail
        }),
        born is None && counted == 0 ==> r == Verdict::Unmeasured,
        born is None && counted > 0 ==> r == Verdict::Fail,
{
    match born {
        Some(ok) => {
            if ok {
                Verdict::Pass
            } else {
                Verdict::Fail
            }
        },
        None => {
            if counted == 0 {
                Verdict::Unmeasured
            } else {
                Verdict::Fail
            }
        },
    }
}

/// The version the check writes its file with: anything but this build's.
pub const ANOTHER_VERSION: u32 = 99;

/// **A save with the wrong version is refused**, and refused for its number.
pub fn version_verdict(refused: Option<VersionRefusal>) -> (r: Verdict)
    ensures
        r == (if refused == Some(VersionRefusal::Other(ANOTHER_VERSION)) {
            Verdict::Pass
        } else {
            Verdict::Fail
        }),
{
    match refused {
        Some(VersionRefusal::Other(v)) => {
            if v == ANOTHER_VERSION {
                Verdict::Pass
            } else {
                Verdict::Fail
            }
        },
        _ => Verdict::Fail,
    }
}

/// **The rules can be taken away and given back while the world runs**: the world's script
/// restarted on the frozen rules, no meter fell while they were in force, and hunger came back
/// after.
pub fn freeze_verdict(frozen: bool, fell_while_frozen: u32, fell_after_thaw: bool) -> (r: Verdict)
    ensures
        r == (if frozen && fell_while_frozen == 0 && fell_after_thaw {
            Verdict::Pass
        } else {
            Verdict::Fail
        }),
{
    if frozen && fell_while_frozen == 0 && fell_after_thaw {
        Verdict::Pass
    } else {
        Verdict::Fail
    }
}

/// **The starved creature's entity is gone.** `starved` is, for the first creature that starved,
/// whether its entity was still there at the end; a run in which nobody starved fails it.
pub fn starved_verdict(still_there: Option<bool>) -> (r: Verdict)
    ensures
        r == (if still_there == Some(false) {
            Verdict::Pass
        } else {
            Verdict::Fail
        }),
{
    match still_there {
        Some(there) => {
            if there {
                Verdict::Fail
            } else {
                Verdict::Pass
            }
        },
        None => Verdict::Fail,
    }
}

/// **A hungry creature with a plant in sight reaches it.** Reaching it passes; a rabbit walking
/// into the probe on the way means nothing was measured; otherwise it fails.
pub fn probe_verdict(reached: bool, disturbed: bool) -> (r: Verdict)
    ensures
        reached ==> r == Verdict::Pass,
        !reached && disturbed ==> r == Verdict::Unmeasured,
        !reached && !disturbed ==> r == Verdict::Fail,
{
    if reached {
        Verdict::Pass
    } else if disturbed {
        Verdict::Unmeasured
    } else {
        Verdict::Fail
    }
}

/// `word` stands in `s` from position `i` on.
pub open spec fn mentions_at(s: Seq<char>, word: Seq<char>, i: int) -> bool {
    0 <= i && i + word.len() <= s.len() && s.subrange(i, i + word.len()) == word
}

/// Whether `word` stands anywhere in `s`, as `str::contains` answers.
pub fn mentions(s: &str, word: &str) -> (r: bool)
    ensures
        r == exists|i: int| mentions_at(s@, word@, i),
{
    let n = s.unicode_len();
    let m = word.unicode_len();
    if m > n {
        proof {
            assert forall|i: int| !mentions_at(s@, word@, i) by {
                if mentions_at(s@, word@, i) {
                    assert(s@.subrange(i, i + word@.len()).len() == m);
                }
            }
        }
        return false;
    }
    let mut i: usize = 0;
    while i <= n - m
        invariant
            n == s@.len(),
            m == word@.len(),
            m <= n,
            i <= n - m + 1,
            forall|k: int| 0 <= k < i ==> !mentions_at(s@, word@, k),
        decreases n - m + 1 - i,
    {
        let mut j: usize = 0;
        while j < m && s.get_char(i + j) == word.get_char(j)
            invariant
                n == s@.len(),
                m == word@.len(),
                i + m <= n,
                j <= m,
                forall|k: int| 0 <= k < j ==> s@[i + k] == word@[k],
            decreases m - j,
        {
            j = j + 1;
        }
        if j == m {
            proof {
                assert(s@.subrange(i as int, i + m) =~= word@);
                assert(mentions_at(s@, word@, i as int));
            }
            return true;
        }
        proof {
            assert(s@.subrange(i as int, i + m)[j as int] == s@[i + j]);
        }
        i = i + 1;
    }
    proof {
        assert forall|k: int| !mentions_at(s@, word@, k) by {
            if 0 <= k < i {
            }
        }
    }
    false
}

/// **A spawn Hash with a gene missing names the gene**: the first refusal of a malformed spawn
/// says `sight`. A run in which nothing was refused fails it.
pub fn bad_spawn_verdict(why: Option<&str>) -> (r: Verdict)
    ensures
        why is None ==> r == Verdict::Fail,
        why matches Some(w) ==> r == (if exists|i: int| mentions_at(w@, "sight"@, i) {
            Verdict::Pass
        } else {
            Verdict::Fail
        }),
{
    match why {
        Some(w) => {
            if mentions(w, "sight") {
                Verdict::Pass
            } else {
                Verdict::Fail
            }
        },
        None => Verdict::Fail,
    }
}

/// **What the world declares reaches a creature's memory**: some creature's `@memory` had the
/// season in it.
pub fn season_verdict(heard: bool) -> (r: Verdict)
    ensures
        r == (if heard {
            Verdict::Pass
        } else {
            Verdict::Fail
        }),
{
    if heard {
        Verdict::Pass
    } else {
        Verdict::Fail
    }
}

} // verus!
