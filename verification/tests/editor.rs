use garden::brains::{Brains, EditorNote, EditorOutcome};
use garden::species::Species;

fn worn(r: &EditorOutcome<u32>) -> Option<(u32, bool)> {
    match r {
        EditorOutcome::Worn { generation, in_memory, .. } => Some((*generation, *in_memory)),
        _ => None,
    }
}

#[test]
fn apply_hands_a_species_the_text_that_compiled_and_nothing_else() {
    let mut brains: Brains<u32> = Brains::new();
    let r = brains.apply(Some(Species::Beetle), "creature".to_string(), Err("beetle.rb:3: oops\nmore".to_string()));
    assert!(matches!(r, EditorOutcome::Stay(EditorNote::NotApplied(ref why)) if why == "beetle.rb:3: oops\nmore"));
    assert_eq!(brains.text(Species::Beetle), None);
    assert!(brains.wearing(Species::Beetle).is_none());
    let r = brains.apply(Some(Species::Beetle), "creature".to_string(), Ok((7, 40)));
    assert_eq!(worn(&r), Some((1, true)));
    assert!(matches!(r, EditorOutcome::Worn { note: EditorNote::Applied, .. }));
    assert_eq!(brains.text(Species::Beetle).map(|t| t.as_str()), Some("creature"));
    // and a beetle born from now on is born running it
    let w = brains.wearing(Species::Beetle).unwrap();
    assert_eq!((w.handle, w.prelude_lines, w.in_memory, w.generation), (7, 40, true, 1));
    assert_eq!(brains.text(Species::Rabbit), None);
    assert!(brains.wearing(Species::Rabbit).is_none());
}

#[test]
fn apply_restarts_the_rules_on_their_text() {
    let mut brains: Brains<u32> = Brains::new();
    let r = brains.apply(None, "rules".to_string(), Ok((3, 12)));
    assert!(matches!(r, EditorOutcome::Restart { handle: 3, prelude_lines: 12, in_memory: true, note: EditorNote::Applied }));
    assert_eq!(brains.world().map(|t| t.as_str()), Some("rules"));
}

#[test]
fn save_forgets_the_text_once_the_file_has_it() {
    let mut brains: Brains<u32> = Brains::new();
    brains.set_world(Some("rules".to_string()));
    let note = brains.save_written(None, Err("read-only".to_string()));
    assert!(matches!(note, Some(EditorNote::CouldNotSave(ref e)) if e == "read-only"));
    assert_eq!(brains.world().map(|t| t.as_str()), Some("rules"));
    assert!(brains.save_written(None, Ok(())).is_none());
    assert_eq!(brains.world(), None);
    let r = brains.save_compiled(None, Ok((3, 12)));
    assert!(matches!(r, EditorOutcome::Restart { handle: 3, prelude_lines: 12, in_memory: false, note: EditorNote::Saved }));
    assert!(matches!(brains.save_compiled(None, Err("x".to_string())), EditorOutcome::Stay(EditorNote::SavedButBroken(_))));
    let r = brains.save_compiled(Some(Species::Rabbit), Ok((4, 2)));
    assert_eq!(worn(&r), Some((1, false)));
}

#[test]
fn revert_goes_back_to_the_file_only_when_it_compiles() {
    let mut brains: Brains<u32> = Brains::new();
    brains.set(Species::Rabbit, Some("mine".to_string()));
    let on = Some(Species::Rabbit);
    assert!(matches!(brains.revert(on, false, None), EditorOutcome::Stay(EditorNote::CouldNotRead)));
    assert!(matches!(brains.revert(on, true, Some(Err("bad".to_string()))), EditorOutcome::Stay(EditorNote::DoesNotCompile(_))));
    assert_eq!(brains.text(Species::Rabbit).map(|t| t.as_str()), Some("mine"));
    let r = brains.revert(on, true, Some(Ok((9, 1))));
    assert_eq!(worn(&r), Some((1, false)));
    assert!(matches!(r, EditorOutcome::Worn { note: EditorNote::Back, .. }));
    assert_eq!(brains.text(Species::Rabbit), None);
    assert_eq!(brains.wearing(Species::Rabbit).unwrap().handle, 9);
}
