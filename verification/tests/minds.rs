use garden::minds::{own_line, MindMeter};

#[test]
fn a_sleep_ends_a_pass_and_the_first_only_opens_one() {
    let mut m = MindMeter::new();
    // frame 1: the script runs for the first time
    m.observe(1, 100, 3);
    assert_eq!((m.ran_frame, m.decisions, m.pass_start), (1, 0, None));
    // frame 5: back from a sleep of four frames — opens a pass, closes none
    m.observe(5, 150, 3);
    assert_eq!((m.decisions, m.pass_start), (0, Some(100)));
    // frame 6: runs on, a gap of one frame is not a sleep
    m.observe(6, 170, 3);
    assert_eq!(m.decisions, 0);
    // frame 10: back from another sleep — the pass from 100 to 170 is one decision
    m.observe(10, 400, 3);
    assert_eq!((m.decisions, m.decision_instructions, m.pass_start), (1, 70, Some(170)));
    assert_eq!(m.decision_totals(), Some((70, 1)));
    assert_eq!(m.spent, 230);
    assert_eq!(m.frames, 4);
    assert_eq!(m.insn_per_frame(), 100);
}

#[test]
fn a_round_trip_is_counted_from_the_frame_it_was_answered() {
    let mut m = MindMeter::new();
    m.observe(3, 10, 5);
    m.answered(3);
    // parked two frames on the answer
    m.observe(4, 10, 5);
    m.observe(5, 30, 5);
    assert_eq!((m.ask_trips, m.ask_frames), (1, 2));
    // and a frame without instructions changes nothing but the count of frames
    m.observe(6, 30, 5);
    assert_eq!((m.ask_trips, m.ran_frame, m.frames, m.spent), (1, 5, 4, 0));
}

#[test]
fn a_restart_forgets_the_passes_but_not_the_spending() {
    let mut m = MindMeter::new();
    m.observe(1, 100, 2);
    m.observe(4, 200, 2);
    m.observe(8, 300, 2);
    assert_eq!(m.decisions, 1);
    m.restart();
    assert_eq!(m.decision_totals(), None);
    assert_eq!((m.ran_frame, m.ask_trips, m.pass_start), (0, 0, None));
    assert_eq!((m.last_instructions, m.frames), (300, 3));
    assert_eq!(MindMeter::new().insn_per_frame(), 0);
}

#[test]
fn the_line_in_the_creatures_own_file() {
    // the prelude is 40 lines: 12 and 38 are the prelude's, 52 is line 12 of the creature's file
    assert_eq!(own_line(&vec![12, 38, 52, 60], 40), Some((2, 12)));
    assert_eq!(own_line(&vec![12, 40], 40), None);
    assert_eq!(own_line(&vec![], 40), None);
}
