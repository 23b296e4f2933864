use garden::budgets::inspect_keys;
use garden::budgets::{is_paused, is_still, scheduler_frames, Paused, CREATURE_BUDGET, WORLD_BUDGET};

/// The checks' patience follows the creatures' budget: `2 + ceil(budget / 45,600)`.
#[test]
fn a_bigger_budget_buys_the_checks_more_frames() {
    // `2 + ceil(41,000 / 45,600)`, which is what the default budget buys
    assert_eq!(scheduler_frames(CREATURE_BUDGET), 3);
    // five times the budget is five times the frames a restart may take to come round
    assert_eq!(scheduler_frames(1_000_000), 2 + 22);
    // and a VM given almost nothing still gets the two frames that are structural
    assert_eq!(scheduler_frames(1), 3);
}

#[test]
fn a_budget_of_exactly_one_frame_is_one_frame() {
    assert_eq!(scheduler_frames(45_600), 3);
    assert_eq!(scheduler_frames(45_601), 4);
    assert_eq!(scheduler_frames(0), 2);
    assert_eq!(scheduler_frames(u64::MAX), 2 + u64::MAX / 45_600 + 1);
}

#[test]
fn the_two_budgets_are_the_measured_ones() {
    assert_eq!(WORLD_BUDGET, 45_000);
    assert_eq!(CREATURE_BUDGET, 41_000);
}

#[test]
fn pressing_p_twice_gives_the_world_back() {
    let mut paused = Paused::new();
    let (mut creatures, mut world) = (CREATURE_BUDGET, WORLD_BUDGET);
    assert!(!paused.on());
    assert!(paused.press(&mut creatures, &mut world));
    assert!(paused.on());
    assert_eq!((creatures, world), (0, 0));
    assert!(!paused.press(&mut creatures, &mut world));
    assert!(!paused.on());
    assert_eq!((creatures, world), (CREATURE_BUDGET, WORLD_BUDGET));
}

#[test]
fn the_garden_waits_for_a_restore_and_for_p() {
    let mut paused = Paused::new();
    let (mut creatures, mut world) = (CREATURE_BUDGET, WORLD_BUDGET);
    // a headless run has nobody to press P
    assert!(!is_paused(None));
    assert!(is_still(false, None));
    assert!(!is_still(true, None));
    assert!(is_still(false, Some(&paused)));
    paused.press(&mut creatures, &mut world);
    assert!(is_paused(Some(&paused)));
    assert!(!is_still(false, Some(&paused)));
    assert!(!is_still(true, Some(&paused)));
    paused.press(&mut creatures, &mut world);
    assert!(is_still(false, Some(&paused)));
}

#[test]
fn the_panel_keys_wait_while_somebody_types() {
    let mut paused = Paused::new();
    let (mut open, mut shows_paused) = (false, false);
    let (mut creatures, mut world) = (CREATURE_BUDGET, WORLD_BUDGET);
    inspect_keys(&mut paused, &mut open, &mut shows_paused, true, true, true, &mut creatures, &mut world);
    assert_eq!((open, shows_paused, creatures, world, paused.on()), (false, false, CREATURE_BUDGET, WORLD_BUDGET, false));
    inspect_keys(&mut paused, &mut open, &mut shows_paused, false, true, true, &mut creatures, &mut world);
    assert_eq!((open, shows_paused, creatures, world, paused.on()), (true, true, 0, 0, true));
    inspect_keys(&mut paused, &mut open, &mut shows_paused, false, false, true, &mut creatures, &mut world);
    assert_eq!((open, shows_paused, creatures, world, paused.on()), (true, false, CREATURE_BUDGET, WORLD_BUDGET, false));
}
