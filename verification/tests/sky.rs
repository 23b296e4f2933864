use garden::sky::{turned, Newborns, SkyWord, NEWBORN_DEAF_FRAMES};

#[test]
fn the_sky_speaks_at_the_turn_only() {
    assert_eq!(turned(false, false), None);
    assert_eq!(turned(true, true), None);
    assert_eq!(turned(false, true), Some(SkyWord::Night));
    assert_eq!(turned(true, false), Some(SkyWord::Day));
    assert_eq!(SkyWord::Night.name(), "night");
    assert_eq!(SkyWord::Day.name(), "day");
    assert_eq!(SkyWord::of(true), SkyWord::Night);
}

#[test]
fn a_newborn_is_told_the_sky_two_frames_later() {
    assert_eq!(NEWBORN_DEAF_FRAMES, 2);
    let mut newborns = Newborns::new();
    newborns.arrive(42);
    // the frame after it was made: still deaf
    assert!(newborns.hear(&vec![true]).is_empty());
    assert_eq!(newborns.len(), 1);
    // the frame after that: it can hear, and is told
    assert_eq!(newborns.hear(&vec![true]), vec![42]);
    assert!(newborns.is_empty());
}

#[test]
fn a_newborn_without_a_mind_is_told_nothing() {
    let mut newborns = Newborns::new();
    newborns.arrive(1);
    newborns.arrive(2);
    assert!(newborns.hear(&vec![true, false]).is_empty());
    assert_eq!(newborns.len(), 1);
    newborns.arrive(3);
    assert_eq!(newborns.hear(&vec![true, true]), vec![1]);
    assert_eq!(newborns.hear(&vec![true]), vec![3]);
    newborns.arrive(4);
    newborns.clear();
    assert!(newborns.is_empty());
}
