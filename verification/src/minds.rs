//! What a creature's script has cost, counted frame by frame.
//!
//! A creature's task runs in bursts and is parked between them. A gap that begins on the frame the
//! game answered one of its questions is a round trip; a gap long enough to be nothing but a
//! `sleep` ends one pass of the behaviour's loop — one decision — and begins the next. What a
//! pass costs is the difference between the VM's running totals at its two ends.
use vstd::prelude::*;

verus! {

/// **The counters of one creature's mind.**
pub struct MindMeter {
    /// instructions the script had run at the end of the last frame
    pub last_instructions: u64,
    /// and how many it spent on that frame
    pub spent: u64,
    /// how many frames it has been looked at
    pub frames: u64,
    /// the frame the script last ran an instruction in (0: not yet)
    pub ran_frame: u32,
    /// the frame the game last answered one of its questions
    pub asked_frame: Option<u32>,
    /// round trips the game answered, and the frames they took
    pub ask_trips: u32,
    pub ask_frames: u32,
    /// passes of the behaviour's loop finished, and what they cost
    pub decisions: u32,
    pub decision_instructions: u64,
    /// the running total as the pass now under way began; `None` until a `sleep` has been seen
    /// to end
    pub pass_start: Option<u64>,
}

/// How many frames have gone by since `was`, or none if the clock is behind it.
pub open spec fn gap(now: u32, was: u32) -> u32 {
    if now >= was {
        (now - was) as u32
    } else {
        0
    }
}

/// The task ran this frame, and a gap before it is one to be measured.
pub open spec fn counts_gap(m: MindMeter, now: u32, instructions: u64) -> bool {
    instructions > m.last_instructions && m.ran_frame > 0 && gap(now, m.ran_frame) >= 1
}

/// The gap began on the frame the game answered it: a round trip.
pub open spec fn is_trip(m: MindMeter, now: u32, instructions: u64) -> bool {
    counts_gap(m, now, instructions) && m.asked_frame == Some(m.ran_frame)
}

/// The gap was long enough to be a `sleep`: a pass of the loop ends here.
pub open spec fn is_nap(m: MindMeter, now: u32, instructions: u64, sleep_floor: u32) -> bool {
    counts_gap(m, now, instructions) && gap(now, m.ran_frame) >= sleep_floor
}

/// What the pass that ends at this nap cost.
pub open spec fn pass_cost(m: MindMeter) -> u64 {
    match m.pass_start {
        Some(start) => if m.last_instructions >= start {
            (m.last_instructions - start) as u64
        } else {
            0
        },
        None => 0,
    }
}

/// The counters do not run past their type in this frame.
pub open spec fn fits(m: MindMeter, now: u32, instructions: u64, sleep_floor: u32) -> bool {
    &&& m.frames < u64::MAX
    &&& is_trip(m, now, instructions) ==> m.ask_trips < u32::MAX && m.ask_frames + gap(
        now,
        m.ran_frame,
    ) <= u32::MAX
    &&& (is_nap(m, now, instructions, sleep_floor) && m.pass_start is Some) ==> m.decisions
        < u32::MAX && m.decision_instructions + pass_cost(m) <= u64::MAX
}

impl MindMeter {
    pub fn new() -> (m: MindMeter)
        ensures
            m.last_instructions == 0 && m.spent == 0 && m.frames == 0,
            m.ran_frame == 0 && m.asked_frame is None && m.pass_start is None,
            m.ask_trips == 0 && m.ask_frames == 0,
            m.decisions == 0 && m.decision_instructions == 0,
    {
        MindMeter {
            last_instructions: 0,
            spent: 0,
            frames: 0,
            ran_frame: 0,
            asked_frame: None,
            ask_trips: 0,
            ask_frames: 0,
            decisions: 0,
            decision_instructions: 0,
            pass_start: None,
        }
    }

    /// **The script is being replaced**: what a round trip or a pass cost the old one says nothing
    /// about the new one. What it has spent in all, and for how many frames, stays.
    pub fn restart(&mut self)
        ensures
            final(self).ran_frame == 0,
            final(self).asked_frame is None,
            final(self).ask_trips == 0,
            final(self).ask_frames == 0,
            final(self).decisions == 0,
            final(self).decision_instructions == 0,
            final(self).pass_start is None,
            final(self).last_instructions == old(self).last_instructions,
            final(self).spent == old(self).spent,
            final(self).frames == old(self).frames,
    {
        self.ran_frame = 0;
        self.asked_frame = None;
        self.ask_trips = 0;
        self.ask_frames = 0;
        self.decisions = 0;
        self.decision_instructions = 0;
        self.pass_start = None;
    }

    /// **One frame of the script**: `now` is the frame's number, `instructions` the VM's running
    /// total for the script, and `sleep_floor` the shortest gap, in frames, that can only be a
    /// `sleep`.
    pub fn observe(&mut self, now: u32, instructions: u64, sleep_floor: u32)
        requires
            fits(*old(self), now, instructions, sleep_floor),
        ensures
            final(self).last_instructions == instructions,
            final(self).spent == (if instructions >= old(self).last_instructions {
                (instructions - old(self).last_instructions) as u64
            } else {
                0
            }),
            final(self).frames == old(self).frames + 1,
            final(self).ran_frame == (if instructions > old(self).last_instructions {
                now
            } else {
                old(self).ran_frame
            }),
            final(self).asked_frame == old(self).asked_frame,
            final(self).ask_trips == old(self).ask_trips + (if is_trip(*old(self), now, instructions) {
                1int
            } else {
                0int
            }),
            final(self).ask_frames == old(self).ask_frames + (if is_trip(*old(self), now, instructions) {
                gap(now, old(self).ran_frame) as int
            } else {
                0int
            }),
            final(self).decisions == old(self).decisions + (if is_nap(
                *old(self),
                now,
                instructions,
                sleep_floor,
            ) && old(self).pass_start is Some {
                1int
            } else {
                0int
            }),
            final(self).decision_instructions == old(self).decision_instructions + (if is_nap(
                *old(self),
                now,
                instructions,
                sleep_floor,
            ) {
                pass_cost(*old(self)) as int
            } else {
                0int
            }),
            final(self).pass_start == (if is_nap(*old(self), now, instructions, sleep_floor) {
                Some(old(self).last_instructions)
            } else {
                old(self).pass_start
            }),
            old(self).ran_frame == 0 ==> final(self).ask_trips == old(self).ask_trips
                && final(self).ask_frames == old(self).ask_frames && final(self).decisions == old(self).decisions && final(self).decision_instructions == old(self).decision_instructions
                && final(self).pass_start == old(self).pass_start,
    {
        let before = self.last_instructions;
        let ran = instructions > before;
        self.spent = instructions.saturating_sub(before);
        self.last_instructions = instructions;
        self.frames = self.frames + 1;
        if ran {
            let was = self.ran_frame;
            let gap = now.saturating_sub(was);
            if was > 0 && gap >= 1 {
                if self.asked_frame == Some(was) {
                    self.ask_trips = self.ask_trips + 1;
                    self.ask_frames = self.ask_frames + gap;
                }
                if gap >= sleep_floor {
                    if let Some(start) = self.pass_start {
                        self.decisions = self.decisions + 1;
                        self.decision_instructions = self.decision_instructions + before.saturating_sub(
                            start,
                        );
                    }
                    self.pass_start = Some(before);
                }
            }
            self.ran_frame = now;
        }
    }

    /// The game answered one of the script's questions on frame `frame`.
    pub fn answered(&mut self, frame: u32)
        ensures
            final(self).asked_frame == Some(frame),
            final(self).ran_frame == old(self).ran_frame,
            final(self).last_instructions == old(self).last_instructions,
    {
        self.asked_frame = Some(frame);
    }

    /// What a frame costs it on average: the instructions of the last frame's total over the
    /// frames it has been looked at (at least one).
    pub fn insn_per_frame(&self) -> (r: u64)
        ensures
            r == self.last_instructions / (if self.frames == 0 {
                1
            } else {
                self.frames
            }),
    {
        let frames = if self.frames == 0 {
            1
        } else {
            self.frames
        };
        self.last_instructions / frames
    }

    /// The instructions the finished passes cost, and how many passes: what the HUD's
    /// **insn/decision** is the quotient of. `None` until one pass has finished.
    pub fn decision_totals(&self) -> (r: Option<(u64, u32)>)
        ensures
            self.decisions == 0 ==> r is None,
            self.decisions > 0 ==> r == Some((self.decision_instructions, self.decisions)),
    {
        if self.decisions > 0 {
            Some((self.decision_instructions, self.decisions))
        } else {
            None
        }
    }
}

/// **A script's first run is no gap**: a meter that has never seen its script run (`ran_frame`
/// 0) takes the first run for neither a round trip nor a wake from a `sleep`, however late it
/// comes; it only starts the clock.
pub proof fn lemma_a_first_run_is_no_gap(m: MindMeter, now: u32, instructions: u64, sleep_floor: u32)
    requires
        m.ran_frame == 0,
    ensures
        !is_trip(m, now, instructions),
        !is_nap(m, now, instructions, sleep_floor),
{
}

/// **The first pass is never counted short.** A meter that has not yet seen a `sleep` end has no
/// pass under way, so the first nap it sees opens a pass and closes none.
pub proof fn lemma_first_nap_opens_a_pass(m: MindMeter, now: u32, instructions: u64, sleep_floor: u32)
    requires
        m.pass_start is None,
        is_nap(m, now, instructions, sleep_floor),
    ensures
        !(is_nap(m, now, instructions, sleep_floor) && m.pass_start is Some),
        pass_cost(m) == 0,
{
}

/// Where a creature is standing in its own file: the first frame of its stack whose line is past
/// the prelude's, with the prelude's lines taken off — its index, and the line in the creature's
/// own file.
pub open spec fn first_own(lines: Seq<u32>, prelude_lines: u32) -> Option<(int, u32)>
    decreases lines.len(),
{
    if lines.len() == 0 {
        None
    } else if lines[0] > prelude_lines {
        Some((0, (lines[0] - prelude_lines) as u32))
    } else {
        match first_own(lines.drop_first(), prelude_lines) {
            Some((i, l)) => Some((i + 1, l)),
            None => None,
        }
    }
}

/// The line of the creature's own file its script is standing on, where it is in that file.
pub fn own_line(lines: &Vec<u32>, prelude_lines: u32) -> (r: Option<(usize, u32)>)
    ensures
        r matches Some((i, l)) ==> first_own(lines@, prelude_lines) == Some((i as int, l)),
        r is None ==> first_own(lines@, prelude_lines) is None,
{
    let mut i: usize = 0;
    assert(lines@.skip(0) == lines@);
    while i < lines.len()
        invariant
            i <= lines.len(),
            forall|k: int| 0 <= k < i ==> lines@[k] <= prelude_lines,
            first_own(lines@, prelude_lines) == (match first_own(lines@.skip(i as int), prelude_lines) {
                Some((j, l)) => Some((j + i, l)),
                None => None,
            }),
        decreases lines.len() - i,
    {
        if lines[i] > prelude_lines {
            return Some((i, lines[i] - prelude_lines));
        }
        proof {
            assert(lines@.skip(i as int).drop_first() == lines@.skip(i + 1));
        }
        i = i + 1;
    }
    None
}

} // verus!
