//! What the two VMs are allowed in a frame, and `P`, which stops the world by taking it away.
use vstd::prelude::*;

verus! {

/// The world's share of a frame, in VM instructions: 1.74 times the worst frame measured at the
/// garden's own caps.
pub const WORLD_BUDGET: u64 = 45_000;

/// The creatures' share of a frame, borrowed the same way: the worst frame measured at the caps,
/// times the world's margin, rounded to the nearest thousand.
pub const CREATURE_BUDGET: u64 = 41_000;

/// How many instructions the scheduler gets through in one frame, which a budget is measured in
/// when the checks work out how long a restart may take to come round.
pub const SCHEDULER_INSTRUCTIONS_PER_FRAME: u64 = 45_600;

/// `ceil(budget / SCHEDULER_INSTRUCTIONS_PER_FRAME)`.
pub open spec fn frames_to_spend(budget: u64) -> int {
    (budget + SCHEDULER_INSTRUCTIONS_PER_FRAME - 1) / (SCHEDULER_INSTRUCTIONS_PER_FRAME as int)
}

/// **How many frames the checks allow a restarted script to come round**: the two that are
/// structural, and as many more as the creatures' budget takes to spend.
pub fn scheduler_frames(creature_budget: u64) -> (r: u64)
    ensures
        r == 2 + frames_to_spend(creature_budget),
{
    let whole = creature_budget / SCHEDULER_INSTRUCTIONS_PER_FRAME;
    let part: u64 = if creature_budget % SCHEDULER_INSTRUCTIONS_PER_FRAME != 0 {
        1
    } else {
        0
    };
    2 + whole + part
}

/// **A bigger budget buys at least as many frames.**
pub proof fn lemma_more_budget_more_frames(a: u64, b: u64)
    requires
        a <= b,
    ensures
        frames_to_spend(a) <= frames_to_spend(b),
{
    vstd::arithmetic::div_mod::lemma_div_is_ordered(
        a + SCHEDULER_INSTRUCTIONS_PER_FRAME - 1,
        b + SCHEDULER_INSTRUCTIONS_PER_FRAME - 1,
        SCHEDULER_INSTRUCTIONS_PER_FRAME as int,
    );
}

/// **`P`: the world is stopped.** The budgets the two VMs get when they are not paused, kept
/// while they are.
pub struct Paused {
    was: Option<u64>,
    was_world: Option<u64>,
}

/// What one press of `P` does: from running, the budgets are kept and the VMs get none; from
/// stopped, the kept budgets go back. What is kept afterwards, and the two budgets.
pub open spec fn after_press(kept: Option<(u64, u64)>, creatures: u64, world: u64) -> (
    Option<(u64, u64)>,
    u64,
    u64,
) {
    match kept {
        None => (Some((creatures, world)), 0, 0),
        Some((c, w)) => (None, c, w),
    }
}

/// **Pressing `P` twice gives the world back exactly as it was**: both VMs get the budgets they
/// had, and nothing is kept.
pub proof fn lemma_two_presses_restore(creatures: u64, world: u64)
    ensures
        ({
            let (k1, c1, w1) = after_press(None, creatures, world);
            after_press(k1, c1, w1)
        }) == (None::<(u64, u64)>, creatures, world),
{
}

impl Paused {
    pub closed spec fn kept(&self) -> Option<(u64, u64)> {
        match (self.was, self.was_world) {
            (Some(c), Some(w)) => Some((c, w)),
            _ => None,
        }
    }

    /// The two are kept together or not at all.
    pub closed spec fn wf(&self) -> bool {
        self.was.is_some() == self.was_world.is_some()
    }

    pub fn new() -> (p: Paused)
        ensures
            p.wf(),
            p.kept() is None,
    {
        Paused { was: None, was_world: None }
    }

    /// Whether the world is stopped.
    pub fn on(&self) -> (r: bool)
        requires
            self.wf(),
        ensures
            r == self.kept() is Some,
    {
        self.was.is_some()
    }

    /// **`P` was pressed.** Running: the two budgets are kept and the VMs get none. Stopped: the
    /// kept budgets go back. What comes back is whether the world is now stopped.
    pub fn press(&mut self, creatures: &mut u64, world: &mut u64) -> (r: bool)
        requires
            old(self).wf(),
        ensures
            final(self).wf(),
            r == final(self).kept() is Some,
            (final(self).kept(), *final(creatures), *final(world)) == after_press(
                old(self).kept(),
                *old(creatures),
                *old(world),
            ),
    {
        match self.was.take() {
            Some(budget) => {
                *creatures = budget;
                *world = match self.was_world.take() {
                    Some(w) => w,
                    None => *world,
                };
                false
            },
            None => {
                self.was = Some(*creatures);
                self.was_world = Some(*world);
                *creatures = 0;
                *world = 0;
                true
            },
        }
    }
}

/// Whether the world is stopped by `P`: `None` is a world nobody can pause (a headless run has no
/// key to press).
pub open spec fn stopped(paused: Option<&Paused>) -> bool {
    paused matches Some(p) && p.kept() is Some
}

/// **The other half of `P`**: while the world is stopped, so is its clock.
pub fn is_paused(paused: Option<&Paused>) -> (r: bool)
    requires
        paused matches Some(p) ==> p.wf(),
    ensures
        r == stopped(paused),
{
    match paused {
        Some(p) => p.on(),
        None => false,
    }
}

/// **The run condition of every rule**: the garden moves only while it is not being restored
/// from a file and nobody has stopped it with `P`. Whatever the world is waiting for, the whole of
/// it waits together.
pub fn is_still(restoring: bool, paused: Option<&Paused>) -> (r: bool)
    requires
        paused matches Some(p) ==> p.wf(),
    ensures
        r == (!restoring && !stopped(paused)),
{
    !restoring && !is_paused(paused)
}

/// **The VM panel's two keys, `F2` and `P`.** While a text field has the keyboard neither is
/// read, and nothing changes. Otherwise `F2` turns the panel over, and `P` is pressed on `paused`
/// with the two VMs' budgets, and the panel says whether the world is now stopped.
pub fn inspect_keys(
    paused: &mut Paused,
    panel_open: &mut bool,
    panel_paused: &mut bool,
    typing: bool,
    f2: bool,
    p: bool,
    creatures: &mut u64,
    world: &mut u64,
)
    requires
        old(paused).wf(),
    ensures
        final(paused).wf(),
        typing ==> final(paused).kept() == old(paused).kept() && *final(panel_open) == *old(panel_open)
            && *final(panel_paused) == *old(panel_paused) && *final(creatures) == *old(creatures)
            && *final(world) == *old(world),
        !typing ==> *final(panel_open) == (*old(panel_open) != f2),
        !typing && p ==> (final(paused).kept(), *final(creatures), *final(world)) == after_press(
            old(paused).kept(),
            *old(creatures),
            *old(world),
        ) && *final(panel_paused) == final(paused).kept() is Some,
        !typing && !p ==> final(paused).kept() == old(paused).kept() && *final(panel_paused)
            == *old(panel_paused) && *final(creatures) == *old(creatures) && *final(world)
            == *old(world),
{
    if typing {
        return;
    }
    if f2 {
        *panel_open = !*panel_open;
    }
    if p {
        *panel_paused = paused.press(creatures, world);
    }
}

} // verus!
