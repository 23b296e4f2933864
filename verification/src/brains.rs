//! The editor's texts and the programs each species is wearing.
//!
//! Every creature of a species runs the species' file, so a text applied in the editor belongs to
//! the species: every beetle restarts on it, and a beetle born an hour later is born running it.
//! A third slot holds the world's rules, which are edited in the same panel.
use vstd::prelude::*;
use crate::species::Species;
use vstd::std_specs::iter::IteratorSpec;

verus! {

/// How many slots there are: the two species, and the world's rules after them.
pub const SLOTS: usize = 3;

/// The world's rules' slot.
pub const WORLD: usize = 2;

/// The rules' file name.
pub const WORLD_FILE: &'static str = "world.rb";

/// What goes in front of a creature's file, and in front of the world's.
pub const PRELUDE_FILE: &'static str = "prelude.rb";

pub const WORLD_PRELUDE_FILE: &'static str = "world_prelude.rb";

/// **One hand-over**: the program a species is to be wearing, and which hand-over it was.
pub struct Wearing<H> {
    pub handle: H,
    pub prelude_lines: u32,
    /// it came from the editor rather than from the file
    pub in_memory: bool,
    /// hand-overs so far, starting at 1; the first program a species compiles is 0
    pub generation: u32,
}

/// **The editor's texts per slot, and what every creature of a species is to be running.**
///
/// `H` is the handle of a compiled program.
pub struct Brains<H> {
    applied: Vec<Option<String>>,
    wearing: Vec<Option<Wearing<H>>>,
}

/// The generation a slot of `wearing` is on: 0 where nothing has been handed over.
pub open spec fn generation_of<H>(w: Option<Wearing<H>>) -> u32 {
    match w {
        Some(w) => w.generation,
        None => 0,
    }
}

/// What the editor says after one of its buttons. The words are the panel's; what is said is
/// decided here. A compiler's message is kept whole, and the panel shows its first line
/// ([`first_trouble`]).
pub enum EditorNote {
    /// Apply: the text would not compile, and nothing changed
    NotApplied(String),
    /// Apply: the slot is running the text, in memory until it is saved
    Applied,
    /// Save: the file could not be written, and nothing changed
    CouldNotSave(String),
    /// Save: the file says the text now, but it would not compile
    SavedButBroken(String),
    /// Save: the file says the text, and the slot is running it
    Saved,
    /// Revert: the file could not be read, and nothing changed
    CouldNotRead,
    /// Revert: the file would not compile, and nothing changed
    DoesNotCompile(String),
    /// Revert: the slot is running the file again
    Back,
}

/// What the game does after one step of a button.
pub enum EditorOutcome<H> {
    /// A species was handed a program ([`Brains::hand_over`]): every creature of it restarts on
    /// what it now wears ([`Brains::wearing`]), stamped with this generation, and so is every
    /// creature born into it from now on.
    Worn { generation: u32, in_memory: bool, note: EditorNote },
    /// The rules restart on this program; they are worn by one entity and have no hand-over.
    Restart { handle: H, prelude_lines: u32, in_memory: bool, note: EditorNote },
    /// Nothing restarts.
    Stay(EditorNote),
}

/// The slot an editor's button is about: a species', or the rules' where there is no species.
pub open spec fn slot_of(on: Option<Species>) -> int {
    match on {
        Some(s) => s.spec_index() as int,
        None => WORLD as int,
    }
}

/// What the slots wear once a program is taken: a species is handed it, one generation on; the
/// rules keep no program here.
pub open spec fn wears<H>(worn: Seq<Option<Wearing<H>>>, on: Option<Species>, handle: H, prelude_lines: u32, in_memory: bool) -> Seq<Option<Wearing<H>>> {
    match on {
        Some(s) => worn.update(
            s.spec_index() as int,
            Some(
                Wearing {
                    handle,
                    prelude_lines,
                    in_memory,
                    generation: (generation_of(worn[s.spec_index() as int]) + 1) as u32,
                },
            ),
        ),
        None => worn,
    }
}

/// What the game is told to restart once a program is taken.
pub open spec fn restarted<H>(worn: Seq<Option<Wearing<H>>>, on: Option<Species>, handle: H, prelude_lines: u32, in_memory: bool, note: EditorNote) -> EditorOutcome<H> {
    match on {
        Some(s) => EditorOutcome::Worn {
            generation: (generation_of(worn[s.spec_index() as int]) + 1) as u32,
            in_memory,
            note,
        },
        None => EditorOutcome::Restart { handle, prelude_lines, in_memory, note },
    }
}

impl<H> Brains<H> {
    /// One text and one program per slot.
    pub open spec fn wf(&self) -> bool {
        self.texts().len() == SLOTS && self.worn().len() == SLOTS
    }

    /// The text applied in each slot: `None` is "whatever the file says".
    pub closed spec fn texts(&self) -> Seq<Option<String>> {
        self.applied@
    }

    /// The program each slot is wearing, if it has been handed one.
    pub closed spec fn worn(&self) -> Seq<Option<Wearing<H>>> {
        self.wearing@
    }

    pub open spec fn spec_generation(&self, species: Species) -> u32 {
        generation_of(self.worn()[species.spec_index() as int])
    }

    pub fn new() -> (b: Brains<H>)
        ensures
            b.wf(),
            forall|i: int| 0 <= i < SLOTS ==> b.texts()[i] is None,
            forall|i: int| 0 <= i < SLOTS ==> b.worn()[i] is None,
    {
        let mut applied: Vec<Option<String>> = Vec::new();
        let mut wearing: Vec<Option<Wearing<H>>> = Vec::new();
        applied.push(None);
        applied.push(None);
        applied.push(None);
        wearing.push(None);
        wearing.push(None);
        wearing.push(None);
        Brains { applied, wearing }
    }

    /// Which hand-over this species is on. 0 until the first one.
    pub fn generation(&self, species: Species) -> (r: u32)
        requires
            self.wf(),
        ensures
            r == self.spec_generation(species),
    {
        match &self.wearing[species.index()] {
            Some(w) => w.generation,
            None => 0,
        }
    }

    /// **A species has been handed a new program**: Apply, Revert, Save, or the file changing on
    /// disk. It is on the next generation now, and that is what comes back.
    pub fn hand_over(&mut self, species: Species, handle: H, prelude_lines: u32, in_memory: bool) -> (r: u32)
        requires
            old(self).wf(),
            old(self).spec_generation(species) < u32::MAX,
        ensures
            final(self).wf(),
            r == old(self).spec_generation(species) + 1,
            final(self).worn() == old(self).worn().update(
                species.spec_index() as int,
                Some(Wearing { handle, prelude_lines, in_memory, generation: r }),
            ),
            final(self).texts() == old(self).texts(),
    {
        let generation = self.generation(species) + 1;
        self.wearing.set(species.index(), Some(Wearing { handle, prelude_lines, in_memory, generation }));
        generation
    }

    /// The program this species is to be wearing, if it has been handed one.
    pub fn wearing(&self, species: Species) -> (r: Option<&Wearing<H>>)
        requires
            self.wf(),
        ensures
            r == match self.worn()[species.spec_index() as int] {
                Some(w) => Some(&w),
                None => None::<&Wearing<H>>,
            },
    {
        match &self.wearing[species.index()] {
            Some(w) => Some(w),
            None => None,
        }
    }

    /// **The first program of a species, compiled once**, which every creature of it wears until
    /// the first hand-over. It is generation 0: nobody is behind it.
    pub fn first_program(&mut self, species: Species, handle: H, prelude_lines: u32, in_memory: bool)
        requires
            old(self).wf(),
        ensures
            final(self).wf(),
            final(self).worn() == old(self).worn().update(
                species.spec_index() as int,
                Some(Wearing { handle, prelude_lines, in_memory, generation: 0 }),
            ),
            final(self).texts() == old(self).texts(),
    {
        self.wearing.set(species.index(), Some(Wearing { handle, prelude_lines, in_memory, generation: 0 }));
    }

    /// The text applied to a species, if any.
    pub fn text(&self, species: Species) -> (r: Option<&String>)
        requires
            self.wf(),
        ensures
            r == match self.texts()[species.spec_index() as int] {
                Some(t) => Some(&t),
                None => None::<&String>,
            },
    {
        match &self.applied[species.index()] {
            Some(t) => Some(t),
            None => None,
        }
    }

    pub fn set(&mut self, species: Species, text: Option<String>)
        requires
            old(self).wf(),
        ensures
            final(self).wf(),
            final(self).texts() == old(self).texts().update(species.spec_index() as int, text),
            final(self).worn() == old(self).worn(),
    {
        self.applied.set(species.index(), text);
    }

    /// The rules as the editor has them: `None` is "whatever `world.rb` says".
    pub fn world(&self) -> (r: Option<&String>)
        requires
            self.wf(),
        ensures
            r == match self.texts()[WORLD as int] {
                Some(t) => Some(&t),
                None => None::<&String>,
            },
    {
        match &self.applied[WORLD] {
            Some(t) => Some(t),
            None => None,
        }
    }

    pub fn set_world(&mut self, text: Option<String>)
        requires
            old(self).wf(),
        ensures
            final(self).wf(),
            final(self).texts() == old(self).texts().update(WORLD as int, text),
            final(self).worn() == old(self).worn(),
    {
        self.applied.set(WORLD, text);
    }

    /// Whether a species' generation can go one on: a counter's limit.
    pub open spec fn can_take(&self, on: Option<Species>) -> bool {
        on matches Some(s) ==> self.spec_generation(s) < u32::MAX
    }

    /// A compiled program, taken by the slot: handed to the species, or given to the rules.
    fn take(&mut self, on: Option<Species>, handle: H, prelude_lines: u32, in_memory: bool, note: EditorNote) -> (r: EditorOutcome<H>)
        requires
            old(self).wf(),
            old(self).can_take(on),
        ensures
            final(self).wf(),
            final(self).texts() == old(self).texts(),
            final(self).worn() == wears(old(self).worn(), on, handle, prelude_lines, in_memory),
            r == restarted(old(self).worn(), on, handle, prelude_lines, in_memory, note),
    {
        match on {
            Some(s) => {
                let generation = self.hand_over(s, handle, prelude_lines, in_memory);
                EditorOutcome::Worn { generation, in_memory, note }
            },
            None => EditorOutcome::Restart { handle, prelude_lines, in_memory, note },
        }
    }

    /// **Apply, once the editor's text was compiled.** A text that compiled is the slot's from now
    /// on, held in memory: a species is handed the program, so that its creatures restart on it
    /// and every one born into it runs it; the rules restart on it. A text that would not compile
    /// changes nothing.
    pub fn apply(&mut self, on: Option<Species>, text: String, compiled: Result<(H, u32), String>) -> (r: EditorOutcome<H>)
        requires
            old(self).wf(),
            old(self).can_take(on),
        ensures
            final(self).wf(),
            compiled matches Ok((h, l)) ==> (final(self).texts() == old(self).texts().update(
                slot_of(on),
                Some(text),
            ) && final(self).worn() == wears(old(self).worn(), on, h, l, true) && r == restarted(
                old(self).worn(),
                on,
                h,
                l,
                true,
                EditorNote::Applied,
            )),
            compiled matches Err(why) ==> (final(self).texts() == old(self).texts() && final(self).worn() == old(self).worn() && r == EditorOutcome::<H>::Stay(
                EditorNote::NotApplied(why),
            )),
    {
        match compiled {
            Ok((handle, prelude_lines)) => {
                self.set_slot(on, Some(text));
                self.take(on, handle, prelude_lines, true, EditorNote::Applied)
            },
            Err(why) => EditorOutcome::Stay(EditorNote::NotApplied(why)),
        }
    }

    /// The slot's text.
    fn set_slot(&mut self, on: Option<Species>, text: Option<String>)
        requires
            old(self).wf(),
        ensures
            final(self).wf(),
            final(self).texts() == old(self).texts().update(slot_of(on), text),
            final(self).worn() == old(self).worn(),
    {
        match on {
            Some(s) => self.set(s, text),
            None => self.set_world(text),
        }
    }

    /// **Save, once the file was written.** A file that could not be written changes nothing and is
    /// the last word. One that was: the file says the text now, so the slot runs no text of its
    /// own, and the file is to be compiled next ([`Brains::save_compiled`]); `None` says so.
    pub fn save_written(&mut self, on: Option<Species>, wrote: Result<(), String>) -> (r: Option<EditorNote>)
        requires
            old(self).wf(),
        ensures
            final(self).wf(),
            final(self).worn() == old(self).worn(),
            wrote is Ok ==> final(self).texts() == old(self).texts().update(slot_of(on), None)
                && r is None,
            wrote matches Err(e) ==> final(self).texts() == old(self).texts() && r == Some(
                EditorNote::CouldNotSave(e),
            ),
    {
        match wrote {
            Ok(()) => {
                self.set_slot(on, None);
                None
            },
            Err(e) => Some(EditorNote::CouldNotSave(e)),
        }
    }

    /// **Save, once the written file was compiled**: the slot takes the file's program, from the
    /// file; a file that would not compile leaves the slot on what it was running.
    pub fn save_compiled(&mut self, on: Option<Species>, compiled: Result<(H, u32), String>) -> (r: EditorOutcome<H>)
        requires
            old(self).wf(),
            old(self).can_take(on),
        ensures
            final(self).wf(),
            final(self).texts() == old(self).texts(),
            compiled matches Ok((h, l)) ==> (final(self).worn() == wears(old(self).worn(), on, h, l, false)
                && r == restarted(old(self).worn(), on, h, l, false, EditorNote::Saved)),
            compiled matches Err(why) ==> (final(self).worn() == old(self).worn() && r
                == EditorOutcome::<H>::Stay(EditorNote::SavedButBroken(why))),
    {
        match compiled {
            Ok((handle, prelude_lines)) => self.take(on, handle, prelude_lines, false, EditorNote::Saved),
            Err(why) => EditorOutcome::Stay(EditorNote::SavedButBroken(why)),
        }
    }

    /// **Revert, once the file was read** (`read` false: it could not be) **and, where it was,
    /// compiled**. A file that was read and compiled is what the slot runs from now on, with no
    /// text of its own; anything short of that changes nothing.
    pub fn revert(&mut self, on: Option<Species>, read: bool, compiled: Option<Result<(H, u32), String>>) -> (r: EditorOutcome<H>)
        requires
            old(self).wf(),
            old(self).can_take(on),
            read ==> compiled is Some,
        ensures
            final(self).wf(),
            !read ==> (final(self).texts() == old(self).texts() && final(self).worn() == old(self).worn() && r == EditorOutcome::<H>::Stay(EditorNote::CouldNotRead)),
            read ==> (compiled matches Some(Ok((h, l))) ==> final(self).texts() == old(self).texts().update(slot_of(on), None) && final(self).worn() == wears(
                old(self).worn(),
                on,
                h,
                l,
                false,
            ) && r == restarted(old(self).worn(), on, h, l, false, EditorNote::Back)),
            read ==> (compiled matches Some(Err(why)) ==> final(self).texts() == old(self).texts()
                && final(self).worn() == old(self).worn() && r == EditorOutcome::<H>::Stay(
                EditorNote::DoesNotCompile(why),
            )),
    {
        if !read {
            return EditorOutcome::Stay(EditorNote::CouldNotRead);
        }
        match compiled {
            Some(Ok((handle, prelude_lines))) => {
                self.set_slot(on, None);
                self.take(on, handle, prelude_lines, false, EditorNote::Back)
            },
            Some(Err(why)) => EditorOutcome::Stay(EditorNote::DoesNotCompile(why)),
            None => EditorOutcome::Stay(EditorNote::CouldNotRead),
        }
    }

    /// Where that species' file lives: `creatures/<file>` under the Ruby directory.
    pub fn path(&self, ruby: &str, species: Species) -> (r: String)
        ensures
            r@ == joined(ruby@, "creatures/"@ + species.file_name()),
    {
        let mut rel = String::from_str("creatures/");
        rel.append(species.file());
        join(ruby, rel.as_str())
    }

    /// Where the rules live: beside `creatures/`, not in it.
    pub fn world_path(&self, ruby: &str) -> (r: String)
        ensures
            r@ == joined(ruby@, WORLD_FILE@),
    {
        join(ruby, WORLD_FILE)
    }
}

/// `rel` under the directory `base`, as a path is joined on a Unix system: nothing in front of it
/// when there is no directory, and one `/` between the two unless the directory already ends in
/// one.
pub open spec fn joined(base: Seq<char>, rel: Seq<char>) -> Seq<char> {
    if base.len() == 0 {
        rel
    } else if base.last() == '/' {
        base + rel
    } else {
        base + "/"@ + rel
    }
}

/// The last character of `s`, if it has one.
fn last_char(s: &str) -> (r: Option<char>)
    ensures
        s@.len() == 0 ==> r is None,
        s@.len() > 0 ==> r == Some(s@.last()),
{
    broadcast use vstd::string::axiom_spec_iter;
    let mut it = s.chars();
    let mut last: Option<char> = None;
    let ghost mut k: int = 0;
    loop
        invariant
            0 <= k <= s@.len(),
            it.remaining() == s@.skip(k),
            k == 0 ==> last is None,
            k > 0 ==> last == Some(s@[k - 1]),
        ensures
            s@.len() == 0 ==> last is None,
            s@.len() > 0 ==> last == Some(s@.last()),
        decreases s@.len() - k,
    {
        match it.next() {
            Some(c) => {
                proof {
                    assert(s@.skip(k)[0] == s@[k]);
                    assert(s@.skip(k).drop_first() == s@.skip(k + 1));
                    k = k + 1;
                }
                last = Some(c);
            },
            None => {
                break;
            },
        }
    }
    last
}

/// `rel` joined onto `base`.
fn join(base: &str, rel: &str) -> (r: String)
    ensures
        r@ == joined(base@, rel@),
{
    let mut r = String::from_str(base);
    match last_char(base) {
        None => {
            return String::from_str(rel);
        },
        Some(c) => {
            if c != '/' {
                r.append("/");
            }
        },
    }
    r.append(rel);
    r
}

impl Species {
    pub open spec fn file_name(self) -> Seq<char> {
        match self {
            Species::Beetle => "beetle.rb"@,
            Species::Rabbit => "rabbit.rb"@,
        }
    }
}

/// **What the editor says when a text will not compile**: the first line of the compiler's
/// message, whole, as `str::lines` gives it (a line ends at a line feed, and a carriage return
/// just before that is not part of it). A message with no line feed is all one line.
pub fn first_trouble(why: &str) -> (r: &str)
    ensures
        (forall|k: int| 0 <= k < why@.len() ==> why@[k] != '\n') ==> r@ == why@,
        forall|n: int|
            0 <= n < why@.len() && #[trigger] why@[n] == '\n' && (forall|k: int|
                0 <= k < n ==> why@[k] != '\n') ==> r@ == (if n > 0 && why@[n - 1] == '\r' {
                why@.take(n - 1)
            } else {
                why@.take(n)
            }),
{
    let len = why.unicode_len();
    let mut i: usize = 0;
    while i < len && why.get_char(i) != '\n'
        invariant
            len == why@.len(),
            i <= len,
            forall|k: int| 0 <= k < i ==> why@[k] != '\n',
        decreases len - i,
    {
        i = i + 1;
    }
    if i == len {
        why
    } else if i > 0 && why.get_char(i - 1) == '\r' {
        why.substring_char(0, i - 1)
    } else {
        why.substring_char(0, i)
    }
}

/// **A hand-over moves its species on by one and nobody else**: the other species stays on the
/// generation it was on, and every text in the editor is as it was.
pub proof fn lemma_hand_over_moves_one_species<H>(
    before: Seq<Option<Wearing<H>>>,
    species: Species,
    other: Species,
    w: Wearing<H>,
)
    requires
        before.len() == SLOTS,
        w.generation == generation_of(before[species.spec_index() as int]) + 1,
        other != species,
    ensures
        generation_of(before.update(species.spec_index() as int, Some(w))[species.spec_index() as int])
            == generation_of(before[species.spec_index() as int]) + 1,
        generation_of(before.update(species.spec_index() as int, Some(w))[other.spec_index() as int])
            == generation_of(before[other.spec_index() as int]),
{
}

} // verus!
