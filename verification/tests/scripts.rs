use garden::brains::first_trouble;
use garden::scripts::{
    asleep, asleep_now, give_memory, listening, listens_for, memory_for_the_file, memory_given,
    names_event, read_memory, Held, ASLEEP_IVAR, BEING_IVAR, HANDLERS_IVAR, MEMORY_IVAR,
};
use sabiruby::value::ObjId;
use sabiruby::{Value, Vm};

/// A task with a creature on it: two Hashes, the second hung on the first as `@being`.
fn task_with_being(vm: &mut Vm) -> (ObjId, ObjId) {
    let task = vm.hash_new().obj().unwrap();
    let being = vm.hash_new();
    vm.ivar_set(task, BEING_IVAR, being);
    (task, being.obj().unwrap())
}

#[test]
fn a_list_of_handlers_names_its_events() {
    let list = vec![("touched".to_string(), 0), ("mate".to_string(), 1)];
    assert!(names_event(&list, "mate"));
    assert!(names_event(&list, "touched"));
    assert!(!names_event(&list, "night"));
    assert!(!names_event(&list, "mat"));
    assert!(!names_event(&vec![], "mate"));
}

#[test]
fn ruby_truth_is_everything_but_nil_and_false() {
    assert!(!Held::Nil.truthy());
    assert!(!Held::False.truthy());
    assert!(Held::True.truthy());
    assert!(Held::Int(0).truthy());
    assert!(Held::Float.truthy());
    assert!(Held::Sym(3).truthy());
    assert!(Held::Int(7).obj().is_none());
    assert!(Held::Nil.obj().is_none());
}

#[test]
fn a_script_that_has_not_made_its_creature_cannot_be_asked() {
    let mut vm = Vm::new();
    let task = vm.hash_new().obj().unwrap();
    assert_eq!(listens_for(&mut vm, task, "mate"), None);
    assert_eq!(asleep_now(&vm, task), None);
    assert!(read_memory(&mut vm, task).is_none());
    assert_eq!(give_memory(&mut vm, task, &serde_json::Value::Null), None);
}

#[test]
fn a_class_with_no_handlers_listens_for_nothing() {
    let mut vm = Vm::new();
    let (task, _) = task_with_being(&mut vm);
    assert_eq!(listens_for(&mut vm, task, "mate"), Some(false));
}

#[test]
fn the_handlers_are_read_off_the_creatures_class() {
    let mut vm = Vm::new();
    let (task, being) = task_with_being(&mut vm);
    let class = vm.real_class_of(Value::Obj(being));
    let handlers = vec![("touched".to_string(), 0u32), ("mate".to_string(), 1u32)];
    let list = sabiruby_serde::to_value(&mut vm, &handlers).unwrap();
    vm.ivar_set(class, HANDLERS_IVAR, list);
    assert_eq!(listens_for(&mut vm, task, "mate"), Some(true));
    assert_eq!(listens_for(&mut vm, task, "night"), Some(false));
}

#[test]
fn a_list_that_is_not_one_cannot_be_read() {
    let mut vm = Vm::new();
    let (task, being) = task_with_being(&mut vm);
    let class = vm.real_class_of(Value::Obj(being));
    let not_a_list = vm.hash_new();
    vm.ivar_set(class, HANDLERS_IVAR, not_a_list);
    assert_eq!(listens_for(&mut vm, task, "mate"), None);
}

#[test]
fn asleep_is_whatever_the_file_left_there() {
    let mut vm = Vm::new();
    let (task, being) = task_with_being(&mut vm);
    assert_eq!(asleep_now(&vm, task), Some(false));
    vm.ivar_set(being, ASLEEP_IVAR, Value::True);
    assert_eq!(asleep_now(&vm, task), Some(true));
    vm.ivar_set(being, ASLEEP_IVAR, Value::Nil);
    assert_eq!(asleep_now(&vm, task), Some(false));
    vm.ivar_set(being, ASLEEP_IVAR, Value::Int(0));
    assert_eq!(asleep_now(&vm, task), Some(true));
}

#[test]
fn a_memory_goes_into_the_file_and_back() {
    let mut vm = Vm::new();
    let (task, being) = task_with_being(&mut vm);
    // never touched: null
    assert_eq!(read_memory(&mut vm, task), Some(serde_json::Value::Null));
    let remembered: serde_json::Value =
        serde_json::from_str(r#"{"home": [1, 2], "friends": 3, "seen": "a tree"}"#).unwrap();
    assert_eq!(give_memory(&mut vm, task, &remembered), Some(true));
    assert!(vm.ivar_get(being, MEMORY_IVAR).obj().is_some());
    let back = read_memory(&mut vm, task).unwrap();
    assert_eq!(back["friends"], serde_json::Value::from(3));
}

#[test]
fn the_editor_shows_the_first_line_of_the_trouble() {
    assert_eq!(first_trouble("beetle.rb:12: syntax error\nbeetle.rb:40: another"), "beetle.rb:12: syntax error");
    assert_eq!(first_trouble("one line only"), "one line only");
    assert_eq!(first_trouble("windows\r\nsecond"), "windows");
    assert_eq!(first_trouble("\nafter an empty line"), "");
    assert_eq!(first_trouble(""), "");
    assert_eq!(first_trouble("ends in a return\r"), "ends in a return\r");
}

#[test]
fn a_task_the_vm_does_not_have_is_a_task_with_no_creature() {
    let mut vm = Vm::new();
    let nowhere = ObjId(u32::MAX - 1);
    assert_eq!(listens_for(&mut vm, nowhere, "mate"), None);
    assert_eq!(asleep_now(&vm, nowhere), None);
    assert!(read_memory(&mut vm, nowhere).is_none());
    assert_eq!(give_memory(&mut vm, nowhere, &serde_json::Value::Null), None);
}

#[test]
fn what_is_made_of_the_answers_with_no_creature() {
    let list = vec![("mate".to_string(), 1u32)];
    assert_eq!(listening(Held::Nil, Held::Nil, Some(list.clone()), "mate"), None);
    assert_eq!(asleep(Held::Nil, Held::True), None);
    assert!(memory_for_the_file(Held::Nil, Some(serde_json::Value::from(3))).is_none());
    assert_eq!(memory_given(Held::Nil, true), None);
}

#[test]
fn a_memory_that_contains_itself_is_not_read_and_the_read_returns() {
    let mut vm = Vm::new();
    let (task, being) = task_with_being(&mut vm);
    let memory = vm.hash_new();
    vm.hash_set(memory, Value::Int(1), memory).unwrap();
    vm.ivar_set(being, MEMORY_IVAR, memory);
    assert!(read_memory(&mut vm, task).is_none());
}
