use garden::checks::{bad_spawn_verdict, mentions, probe_verdict, season_verdict, starved_verdict};
use garden::births::{pairing_fate, Courtings, Gone, PairingFate};
use garden::checks::{child_verdict, freeze_verdict, nothing_walked_through, touched_ones_turned, version_verdict, Verdict, ANOTHER_VERSION};
use garden::save::VersionRefusal;
use garden::tell::{tell_target, TellRefusal};

#[test]
fn a_pairing_counts_if_it_could_come_to_something() {
    assert_eq!(pairing_fate(Some(false), Some(true)), PairingFate::Unheard);
    assert_eq!(pairing_fate(Some(true), Some(true)), PairingFate::SleptThrough);
    assert_eq!(pairing_fate(None, Some(true)), PairingFate::SleptThrough);
    assert_eq!(pairing_fate(Some(true), Some(false)), PairingFate::Counted);
    assert_eq!(pairing_fate(None, None), PairingFate::Counted);
}

#[test]
fn a_pairing_is_measured_or_lost_but_not_forgotten() {
    let mut c: Courtings<&str> = Courtings::new();
    assert_eq!(c.told(1, 2, "first", Some(true), Some(false)), PairingFate::Counted);
    assert_eq!(c.told(3, 4, "second", None, None), PairingFate::Counted);
    assert_eq!(c.told(5, 6, "third", Some(true), None), PairingFate::Counted);
    assert_eq!(c.told(7, 8, "asleep", Some(true), Some(true)), PairingFate::SleptThrough);
    assert_eq!(c.told(9, 10, "rabbits", Some(false), None), PairingFate::Unheard);
    assert_eq!((c.counted(), c.lost()), (3, 1));
    // 1 asked for a child; 4 is gone; 5 is gone; everyone else is there
    let lost = c.close(&vec![1], &vec![1, 2, 3, 6]);
    assert_eq!(lost, vec![("second", Gone::Partner), ("third", Gone::Told)]);
    assert_eq!((c.counted(), c.lost()), (1, 3));
    // nothing is waiting any more
    assert!(c.close(&vec![], &vec![]).is_empty());
}

#[test]
fn a_waiting_pairing_stays_while_both_are_there() {
    let mut c: Courtings<u32> = Courtings::new();
    c.told(1, 2, 10, None, None);
    assert!(c.close(&vec![], &vec![1, 2]).is_empty());
    assert_eq!(c.counted(), 1);
    assert!(c.close(&vec![1], &vec![]).is_empty());
    assert_eq!((c.counted(), c.lost()), (1, 0));
}

#[test]
fn the_checks_that_are_counts() {
    assert_eq!(nothing_walked_through(0, 100), Verdict::Pass);
    assert_eq!(nothing_walked_through(1, 100), Verdict::Fail);
    assert_eq!(nothing_walked_through(0, 0), Verdict::Fail);
    assert_eq!(touched_ones_turned(4, 4), Verdict::Pass);
    assert_eq!(touched_ones_turned(3, 4), Verdict::Fail);
    assert_eq!(touched_ones_turned(0, 0), Verdict::Fail);
    assert_eq!(child_verdict(Some(true), 3), Verdict::Pass);
    assert_eq!(child_verdict(Some(false), 3), Verdict::Fail);
    assert_eq!(child_verdict(None, 0), Verdict::Unmeasured);
    assert_eq!(child_verdict(None, 2), Verdict::Fail);
    assert_eq!(version_verdict(Some(VersionRefusal::Other(ANOTHER_VERSION))), Verdict::Pass);
    assert_eq!(version_verdict(Some(VersionRefusal::Missing)), Verdict::Fail);
    assert_eq!(version_verdict(None), Verdict::Fail);
    assert_eq!(freeze_verdict(true, 0, true), Verdict::Pass);
    assert_eq!(freeze_verdict(true, 1, true), Verdict::Fail);
    assert_eq!(freeze_verdict(false, 0, true), Verdict::Fail);
    assert_eq!(Verdict::Pass.mark(), "ok  ");
    assert_eq!(Verdict::Fail.mark(), "FAIL");
    assert_eq!(Verdict::Unmeasured.mark(), "--  ");
}

#[test]
fn a_message_goes_to_a_creature_or_to_all() {
    assert_eq!(tell_target(Some(7), false, true), Ok(Some(7)));
    assert_eq!(tell_target(Some(7), true, true), Ok(Some(7)));
    assert_eq!(tell_target(None, true, true), Ok(None));
    assert_eq!(tell_target(None, false, true), Err(TellRefusal::NoAddressee));
    assert_eq!(tell_target(None, false, false), Err(TellRefusal::NoAddressee));
    assert_eq!(tell_target(None, true, false), Err(TellRefusal::NoName));
}

#[test]
fn the_verdicts_that_are_counts_and_words() {
    assert_eq!(starved_verdict(Some(false)), Verdict::Pass);
    assert_eq!(starved_verdict(Some(true)), Verdict::Fail);
    assert_eq!(starved_verdict(None), Verdict::Fail);
    assert_eq!(probe_verdict(true, true), Verdict::Pass);
    assert_eq!(probe_verdict(false, true), Verdict::Unmeasured);
    assert_eq!(probe_verdict(false, false), Verdict::Fail);
    assert_eq!(bad_spawn_verdict(Some("missing field `sight` at line 1")), Verdict::Pass);
    assert_eq!(bad_spawn_verdict(Some("the garden is full (24 creatures)")), Verdict::Fail);
    assert_eq!(bad_spawn_verdict(None), Verdict::Fail);
    assert_eq!(season_verdict(true), Verdict::Pass);
    assert_eq!(season_verdict(false), Verdict::Fail);
    assert!(mentions("abc", ""));
    assert!(mentions("insight", "sight"));
    assert!(!mentions("sigh", "sight"));
    assert!(!mentions("", "a"));
}
