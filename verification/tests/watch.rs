use garden::brains::WORLD;
use garden::hud::hud_order;
use garden::species::Species::{self, Beetle, Rabbit};
use garden::watch::{choose_watched, Asked, Watched};

fn nothing() -> Asked {
    Asked { typing: false, f1: false, f3: false, tab: false, picked: None, clicked: None }
}

fn garden() -> Vec<(u64, Species)> {
    vec![(30, Rabbit), (10, Beetle), (20, Beetle), (40, Rabbit)]
}

#[test]
fn the_first_creature_is_looked_at_when_nobody_is() {
    let (w, open) = choose_watched(Watched { entity: None, world: false }, false, &garden(), nothing());
    assert_eq!((w.entity, w.world, open), (Some(10), false, true));
    // and one that is looked at stays looked at, without opening anything
    let (w, open) = choose_watched(Watched { entity: Some(30), world: false }, false, &garden(), nothing());
    assert_eq!((w.entity, open), (Some(30), false));
    // one that starved is replaced by the first
    let (w, open) = choose_watched(Watched { entity: Some(99), world: false }, false, &garden(), nothing());
    assert_eq!((w.entity, open), (Some(10), true));
}

#[test]
fn tab_goes_round_in_the_order_they_were_made() {
    let tab = Asked { tab: true, ..nothing() };
    let mut at = Watched { entity: Some(10), world: true };
    let mut seen = Vec::new();
    for _ in 0..5 {
        let (w, _) = choose_watched(at, false, &garden(), Asked { ..tab });
        assert!(!w.world);
        seen.push(w.entity.unwrap());
        at = w;
    }
    assert_eq!(seen, vec![20, 30, 40, 10, 20]);
    // while a text field has the keyboard, Tab is the text field's
    let (w, _) = choose_watched(Watched { entity: Some(10), world: false }, false, &garden(), Asked { typing: true, ..tab });
    assert_eq!(w.entity, Some(10));
}

#[test]
fn the_buttons_and_the_keys_choose_the_file() {
    // a species' button: the first creature of that species
    let (w, _) = choose_watched(Watched { entity: Some(10), world: true }, true, &garden(), Asked { picked: Some(1), ..nothing() });
    assert_eq!((w.entity, w.world), (Some(30), false));
    // the rules' button keeps the creature and shows the rules
    let (w, _) = choose_watched(Watched { entity: Some(20), world: false }, true, &garden(), Asked { picked: Some(WORLD as u64), ..nothing() });
    assert_eq!((w.entity, w.world), (Some(20), true));
    // F3 does the same, and opens the editor
    let (w, open) = choose_watched(Watched { entity: Some(20), world: false }, false, &garden(), Asked { f3: true, ..nothing() });
    assert_eq!((w.entity, w.world, open), (Some(20), true, true));
    // a click wins over the button
    let (w, _) = choose_watched(Watched { entity: Some(20), world: true }, true, &garden(), Asked { picked: Some(0), clicked: Some(40), ..nothing() });
    assert_eq!((w.entity, w.world), (Some(40), false));
    // F1 turns the editor over
    let (_, open) = choose_watched(Watched { entity: Some(20), world: false }, true, &garden(), Asked { f1: true, ..nothing() });
    assert!(!open);
    // an empty garden looks at nobody, but F3 still shows the rules
    let (w, open) = choose_watched(Watched { entity: Some(20), world: false }, false, &vec![], Asked { f3: true, ..nothing() });
    assert_eq!((w.entity, w.world, open), (None, true, true));
}

#[test]
fn the_hud_lists_beetles_first_and_the_oldest_first() {
    // bigger bits are older
    let rows = vec![(Rabbit, 5), (Beetle, 7), (Rabbit, 9), (Beetle, 100), (Beetle, 8)];
    assert_eq!(hud_order(&rows), vec![3, 4, 1, 2, 0]);
    assert_eq!(hud_order(&vec![]), Vec::<usize>::new());
}

#[test]
fn a_newborn_appears_at_the_bottom_and_nobody_jumps() {
    let rows = vec![(Rabbit, 900), (Beetle, 800), (Beetle, 700)];
    let names = |rows: &Vec<(Species, u64)>| -> Vec<(Species, u64)> { hud_order(rows).into_iter().map(|i| rows[i]).collect() };
    assert_eq!(names(&rows), vec![(Beetle, 800), (Beetle, 700), (Rabbit, 900)]);
    // a beetle is born (smaller bits: younger) and the rabbit at the top starves
    let later = vec![(Beetle, 700), (Beetle, 650), (Beetle, 800)];
    assert_eq!(names(&later), vec![(Beetle, 800), (Beetle, 700), (Beetle, 650)]);
}

#[test]
fn an_empty_garden_ends_the_frame_before_f1() {
    let (w, open) = choose_watched(Watched { entity: Some(20), world: false }, true, &vec![], Asked { f1: true, ..nothing() });
    assert_eq!((w.entity, open), (None, true));
    let (_, open) = choose_watched(Watched { entity: None, world: false }, false, &vec![], Asked { f1: true, ..nothing() });
    assert!(!open);
}
