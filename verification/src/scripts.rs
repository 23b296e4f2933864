//! What the game reads out of a creature's script, and what it puts back.
//!
//! A creature's script runs in sabiruby's VM as a task, and the prelude hangs the object the
//! script made (`Creature.new`, one per script) on that task as `@being`. Everything the game
//! asks of a script goes down that road: the object's `@memory` for the save file, its `@asleep`
//! for the breeding check, and the `@handlers` its class collected from `Creature.on`.
//!
//! What the VM answers depends on everything the scripts have done, so nothing is promised of
//! it here; what is proved is what the game does with each answer.
use vstd::prelude::*;
use sabiruby::value::ObjId;
use sabiruby::{Value, Vm};

verus! {

#[verifier::external_type_specification]
#[verifier::external_body]
pub struct ExVm(Vm);

#[verifier::external_type_specification]
#[verifier::external_body]
pub struct ExValue(Value);

#[verifier::external_type_specification]
#[verifier::external_body]
pub struct ExObjId(ObjId);

#[verifier::external_type_specification]
#[verifier::external_body]
pub struct ExJson(serde_json::Value);

/// The instance variable the prelude hangs the creature object on, in its task.
pub const BEING_IVAR: &'static str = "@being";

/// The class-level list `Creature.on` fills: `[[:touched, 0], [:mate, 1], …]`.
pub const HANDLERS_IVAR: &'static str = "@handlers";

/// What a creature's own file sets when the sun goes down and clears when it comes up.
pub const ASLEEP_IVAR: &'static str = "@asleep";

/// What a script remembers, and the save file keeps.
pub const MEMORY_IVAR: &'static str = "@memory";

/// An object the VM has in use. Only this module makes one: from a task id the VM says is not
/// free, or from an object read out of such an object, which the VM keeps alive with it. It is
/// what the VM's own calls are handed, so that none of them is handed an id past its heap.
#[derive(Clone, Copy, Debug)]
pub struct Live(ObjId);

/// What an instance variable held, variant for variant as the VM's `Value` has them. A Float's
/// number and a Symbol's name are not looked at by anything here.
#[derive(Clone, Copy, Debug)]
pub enum Held {
    Nil,
    False,
    True,
    Int(i64),
    Float,
    Sym(u32),
    Obj(Live),
}

impl Held {
    /// The object it refers to, if it refers to one (what `Value::obj` answers).
    pub fn obj(self) -> (r: Option<Live>)
        ensures
            r == (match self {
                Held::Obj(o) => Some(o),
                _ => None::<Live>,
            }),
    {
        match self {
            Held::Obj(o) => Some(o),
            _ => None,
        }
    }

    /// Ruby's truth: everything but `nil` and `false` (what `Value::truthy` answers).
    pub fn truthy(self) -> (r: bool)
        ensures
            r == !(self is Nil || self is False),
    {
        match self {
            Held::Nil => false,
            Held::False => false,
            _ => true,
        }
    }
}

/// `Heap::is_free`: whether the VM has no object under `obj`, because its slot was swept or lies
/// past the end of the heap. It reads a flag with a bounds check and never panics; which ids are
/// free is the VM's, and nothing is said of it.
#[verifier::external_body]
fn is_free(vm: &Vm, obj: ObjId) -> (r: bool) {
    vm.heap.is_free(obj)
}

/// `Vm::ivar_get`: what `@name` of a live object holds now, `nil` where it was never set. That is
/// the scripts' doing, so nothing is said of it.
#[verifier::external_body]
fn ivar_get(vm: &Vm, obj: Live, name: &str) -> (r: Value) {
    vm.ivar_get(obj.0, name)
}

/// `Vm::ivar_set`: `@name` of a live object becomes `v`. What the VM does with it is its own, and
/// nothing is said of it.
#[verifier::external_body]
fn ivar_set(vm: &mut Vm, obj: Live, name: &str, v: Value) {
    vm.ivar_set(obj.0, name, v)
}

/// `Vm::real_class_of`: the class a live object is an instance of, skipping singleton and include
/// classes; a class the VM keeps alive with its instances. Which class it is depends on the VM's
/// heap, and nothing is said of it.
#[verifier::external_body]
fn real_class_of(vm: &Vm, obj: Live) -> (r: Live) {
    Live(vm.real_class_of(Value::Obj(obj.0)))
}

/// The VM's `Value`, told apart by its variant and nothing else: a conversion, with nothing
/// stated of it because the `Value` it reads is opaque here.
#[verifier::external_body]
fn held(v: Value) -> (r: Held) {
    match v {
        Value::Nil => Held::Nil,
        Value::False => Held::False,
        Value::True => Held::True,
        Value::Int(n) => Held::Int(n),
        Value::Float(_) => Held::Float,
        Value::Sym(s) => Held::Sym(s.0),
        Value::Obj(o) => Held::Obj(Live(o)),
    }
}

/// `Vm::ary_vals`: the elements of an Array (or of a Struct or Data, which have an Array's shape),
/// `None` for anything else. The VM's, and nothing is said of it.
#[verifier::external_body]
fn ary_vals(vm: &Vm, v: Value) -> (r: Option<Vec<Value>>) {
    vm.ary_vals(v)
}

/// `Vm::hash_entries`: the key and value of each entry of a Hash, `None` for anything else. The
/// VM's, and nothing is said of it.
#[verifier::external_body]
fn hash_entries(vm: &Vm, v: Value) -> (r: Option<Vec<(Value, Value)>>) {
    vm.hash_entries(v)
}

/// How many levels deep a value the game reads out of a script may nest.
pub const READ_DEPTH: u32 = 100;

/// How many values in all, counting each one every time it is reached, a value the game reads
/// out of a script may hold.
pub const READ_VALUES: u64 = 100_000;

/// A value that [`readable`] walked whole within [`READ_DEPTH`] levels and [`READ_VALUES`] values.
/// Only that walk makes one.
struct Readable(Value);

/// The levels of a walk made one level further down: what a walk from a value inside another
/// came upon, counted from the outer one.
pub open spec fn deeper(levels: Seq<nat>) -> Seq<nat> {
    levels.map_values(|l: nat| l + 1)
}

/// A walk that came upon these values, one level each, fits within `depth` levels below where it
/// began and `count` values in all.
pub open spec fn fits_within(levels: Seq<nat>, depth: nat, count: nat) -> bool {
    levels.len() <= count && forall|i: int| 0 <= i < levels.len() ==> levels[i] <= depth
}

/// Walks `v` and everything inside it the way serde reading it would: the elements of an Array,
/// and the keys and values of a Hash. What comes back beside the answer is the level of each
/// value it came upon, in order, the value itself first at level 0. **It answers yes exactly
/// when what it came upon fits within `depth` levels and `left` values**, and then it has used
/// one of `left` per value; where it answers no, it stopped at the first value too many or too
/// deep. A value that contains itself always goes too deep.
fn walk(vm: &Vm, v: Value, depth: u32, left: &mut u64) -> (r: (bool, Ghost<Seq<nat>>))
    ensures
        r.1@.len() >= 1,
        r.1@[0] == 0,
        r.0 == fits_within(r.1@, depth as nat, *old(left) as nat),
        r.0 ==> *final(left) == *old(left) - r.1@.len(),
    decreases depth,
{
    let ghost start: u64 = *left;
    if *left == 0 {
        let ghost at_once: Seq<nat> = seq![0nat];
        let seen: Ghost<Seq<nat>> = Ghost(at_once);
        return (false, seen);
    }
    *left = *left - 1;
    let mut inside: Vec<Value> = Vec::new();
    match ary_vals(vm, v) {
        Some(items) => {
            inside = items;
        },
        None => match hash_entries(vm, v) {
            Some(entries) => {
                let mut i: usize = 0;
                while i < entries.len()
                    invariant
                        i <= entries.len(),
                    decreases entries.len() - i,
                {
                    let (k, x) = entries[i];
                    inside.push(k);
                    inside.push(x);
                    i = i + 1;
                }
            },
            None => {},
        },
    }
    if inside.len() == 0 {
        let ghost at_once: Seq<nat> = seq![0nat];
        let seen: Ghost<Seq<nat>> = Ghost(at_once);
        return (true, seen);
    }
    if depth == 0 {
        proof {
            assert(seq![0nat, 1nat][1] == 1nat);
        }
        let ghost too_deep: Seq<nat> = seq![0nat, 1nat];
        let seen: Ghost<Seq<nat>> = Ghost(too_deep);
        return (false, seen);
    }
    let ghost mut seen: Seq<nat> = seq![0nat];
    let mut j: usize = 0;
    while j < inside.len()
        invariant
            j <= inside.len(),
            depth > 0,
            seen.len() >= 1,
            seen[0] == 0,
            seen.len() <= start,
            start == *old(left),
            *left == start - seen.len(),
            forall|i: int| 0 <= i < seen.len() ==> seen[i] <= depth as nat,
        decreases inside.len() - j,
    {
        let ghost before = seen;
        let ghost left_before: u64 = *left;
        let (ok, Ghost(sub)) = walk(vm, inside[j], depth - 1, left);
        proof {
            seen = before + deeper(sub);
            assert(seen[0] == 0);
            if ok {
                assert forall|i: int| 0 <= i < seen.len() implies seen[i] <= depth as nat by {
                    if i >= before.len() {
                        assert(seen[i] == sub[i - before.len()] + 1);
                    }
                }
            } else {
                if sub.len() > left_before {
                    assert(seen.len() > start);
                } else {
                    let k = choose|k: int| 0 <= k < sub.len() && !(sub[k] <= (depth - 1) as nat);
                    assert(seen[before.len() + k] == sub[k] + 1);
                    assert(!(seen[before.len() + k] <= depth as nat));
                }
                assert(!fits_within(seen, depth as nat, start as nat));
            }
        }
        if !ok {
            let walked: Ghost<Seq<nat>> = Ghost(seen);
            return (false, walked);
        }
        j = j + 1;
    }
    let walked: Ghost<Seq<nat>> = Ghost(seen);
    (true, walked)
}

/// The value, if it is one serde can read to the end: within [`READ_DEPTH`] levels and
/// [`READ_VALUES`] values.
fn readable(vm: &Vm, v: Value) -> (r: Option<Readable>) {
    let mut left: u64 = READ_VALUES;
    let (ok, _) = walk(vm, v, READ_DEPTH, &mut left);
    if ok {
        Some(Readable(v))
    } else {
        None
    }
}

/// `sabiruby_serde::from_value`: a Ruby value read as `T` by serde; `None` where it is not one
/// (a list that is not a list, or a memory holding something JSON has no name for). What comes
/// back is the script's, and nothing is said of it. It is handed only a [`Readable`] value:
/// sabiruby-serde goes into nothing but the elements of an Array and the entries of a Hash, and
/// has no limit of its own on how deep, so a value it could read without end never reaches it.
#[verifier::external_body]
fn from_value<T: serde::de::DeserializeOwned>(vm: &mut Vm, v: Readable) -> (r: Option<T>) {
    sabiruby_serde::from_value::<T>(vm, v.0).ok()
}

/// A list of `[event, slot]` pairs read by serde, if [`readable`] lets it be read at all.
fn read_handlers(vm: &mut Vm, v: Value) -> (r: Option<Vec<(String, u32)>>) {
    match readable(vm, v) {
        Some(v) => from_value::<Vec<(String, u32)>>(vm, v),
        None => None,
    }
}

/// A value read by serde as JSON, if [`readable`] lets it be read at all.
fn read_json(vm: &mut Vm, v: Value) -> (r: Option<serde_json::Value>) {
    match readable(vm, v) {
        Some(v) => from_value::<serde_json::Value>(vm, v),
        None => None,
    }
}

/// `sabiruby_serde::to_value`: JSON made into Ruby values in the VM; `None` where the VM refused.
#[verifier::external_body]
fn write_json(vm: &mut Vm, json: &serde_json::Value) -> (r: Option<Value>) {
    sabiruby_serde::to_value(vm, json).ok()
}

/// The name of every event in the list, in its order.
pub open spec fn event_names(handlers: Seq<(String, u32)>) -> Seq<Seq<char>> {
    handlers.map_values(|h: (String, u32)| h.0@)
}

/// **Does the list name the event?** One `[event, slot]` pair with that event is enough.
pub fn names_event(handlers: &Vec<(String, u32)>, event: &str) -> (r: bool)
    ensures
        r == event_names(handlers@).contains(event@),
{
    let wanted = String::from_str(event);
    let mut i: usize = 0;
    while i < handlers.len()
        invariant
            i <= handlers@.len(),
            wanted@ == event@,
            forall|j: int| 0 <= j < i ==> handlers@[j].0@ != event@,
        decreases handlers.len() - i,
    {
        if handlers[i].0 == wanted {
            proof {
                assert(event_names(handlers@)[i as int] == event@);
            }
            return true;
        }
        i = i + 1;
    }
    proof {
        if event_names(handlers@).contains(event@) {
            let k = choose|k: int| 0 <= k < event_names(handlers@).len() && event_names(handlers@)[k] == event@;
            assert(handlers@[k].0@ == event@);
        }
    }
    false
}

/// The creature object a task holds as `@being`: `nil` where the task id names no object the VM
/// has, or where the script has not made its creature yet.
fn being_of(vm: &Vm, task: ObjId) -> (r: Held) {
    if is_free(vm, task) {
        Held::Nil
    } else {
        held(ivar_get(vm, Live(task), BEING_IVAR))
    }
}

/// **What the game makes of the answers to "does it listen?"**: `being` is the task's `@being`,
/// `handlers` its class's `@handlers`, and `list` that list as serde read it. No creature yet:
/// it cannot be told. A class with no `@handlers` listens for nothing. A list that would not read:
/// it cannot be told. Otherwise, whether the list names the event.
pub fn listening(being: Held, handlers: Held, list: Option<Vec<(String, u32)>>, event: &str) -> (r: Option<bool>)
    ensures
        !(being is Obj) ==> r is None,
        being is Obj && !(handlers is Obj) ==> r == Some(false),
        being is Obj && handlers is Obj && list is None ==> r is None,
        being is Obj && handlers is Obj && list is Some ==> r == Some(
            event_names(list->0@).contains(event@),
        ),
{
    match (being, handlers) {
        (Held::Obj(_), Held::Obj(_)) => match list {
            Some(l) => Some(names_event(&l, event)),
            None => None,
        },
        (Held::Obj(_), _) => Some(false),
        _ => None,
    }
}

/// **Does this creature's script listen for `event` at all?** The task's `@being` is the
/// creature object, its class is the one `creature "Beetle" do … end` made, and `Creature.on` has
/// pushed `[event, slot]` onto that class's `@handlers`; [`listening`] says what is made of what
/// the VM answers. A task id the VM has no object under is a task with no creature.
pub fn listens_for(vm: &mut Vm, task: ObjId, event: &str) -> (r: Option<bool>) {
    let being = being_of(vm, task);
    let (handlers, list) = match being.obj() {
        None => (Held::Nil, None),
        Some(b) => {
            let class = real_class_of(vm, b);
            let found = ivar_get(vm, class, HANDLERS_IVAR);
            let handlers = held(found);
            // nil rather than an Array: a file with no `on` in it at all, and nothing to read
            let list = if handlers.obj().is_some() {
                read_handlers(vm, found)
            } else {
                None
            };
            (handlers, list)
        },
    };
    listening(being, handlers, list, event)
}

/// **What the game makes of `@asleep`**: no creature yet, it cannot be told; otherwise the flag
/// read as Ruby reads it, so that never set is awake.
pub fn asleep(being: Held, flag: Held) -> (r: Option<bool>)
    ensures
        !(being is Obj) ==> r is None,
        being is Obj ==> r == Some(!(flag is Nil || flag is False)),
{
    match being {
        Held::Obj(_) => Some(flag.truthy()),
        _ => None,
    }
}

/// **Was the creature asleep in that moment?** Whatever its own file left in `@asleep`, as
/// [`asleep`] reads it.
pub fn asleep_now(vm: &Vm, task: ObjId) -> (r: Option<bool>) {
    let being = being_of(vm, task);
    let flag = match being.obj() {
        Some(b) => held(ivar_get(vm, b, ASLEEP_IVAR)),
        None => Held::Nil,
    };
    asleep(being, flag)
}

/// **What goes into the save file for one creature**: nothing where there is no creature yet,
/// and otherwise what its memory read as, which is nothing where it holds something JSON has no
/// name for.
pub fn memory_for_the_file(being: Held, read: Option<serde_json::Value>) -> (r: Option<serde_json::Value>)
    ensures
        !(being is Obj) ==> r is None,
        being is Obj ==> r == read,
{
    match being {
        Held::Obj(_) => read,
        _ => None,
    }
}

/// **One creature's `@memory`, for the save file**, as [`memory_for_the_file`] decides. The
/// creature keeps a memory the file does not get; that includes one deeper than [`READ_DEPTH`]
/// levels or bigger than [`READ_VALUES`] values, such as a memory that contains itself.
pub fn read_memory(vm: &mut Vm, task: ObjId) -> (r: Option<serde_json::Value>) {
    let being = being_of(vm, task);
    let read = match being.obj() {
        Some(b) => {
            let memory = ivar_get(vm, b, MEMORY_IVAR);
            read_json(vm, memory)
        },
        None => None,
    };
    memory_for_the_file(being, read)
}

/// **What putting a memory back comes to**: `None` while there is no creature to put it on (ask
/// again next frame), and otherwise whether the VM took it.
pub fn memory_given(being: Held, taken: bool) -> (r: Option<bool>)
    ensures
        !(being is Obj) ==> r is None,
        being is Obj ==> r == Some(taken),
{
    match being {
        Held::Obj(_) => Some(taken),
        _ => None,
    }
}

/// **A memory from the save file, put back on the creature it was read from**, as
/// [`memory_given`] says. A memory the VM would not take is lost.
pub fn give_memory(vm: &mut Vm, task: ObjId, memory: &serde_json::Value) -> (r: Option<bool>) {
    let being = being_of(vm, task);
    match being.obj() {
        None => memory_given(being, false),
        Some(b) => match write_json(vm, memory) {
            Some(value) => {
                ivar_set(vm, b, MEMORY_IVAR, value);
                memory_given(being, true)
            },
            None => memory_given(being, false),
        },
    }
}

} // verus!
