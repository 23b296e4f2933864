use garden::meter::{sorted_passes, WorldMeter};

#[test]
fn the_middle_pass_is_the_median() {
    let mut meter = WorldMeter::new();
    assert_eq!(meter.median(), None);
    for total in [100, 400, 450, 1450, 1460] {
        meter.record(total);
    }
    // passes 100, 300, 50, 1000, 10: sorted 10, 50, 100, 300, 1000
    assert_eq!(meter.frames(), 5);
    assert_eq!(meter.median(), Some(100));
    assert_eq!(meter.most(), 1000);
    assert_eq!(meter.last_pass(), 10);
}

#[test]
fn a_restarted_script_is_not_a_pass() {
    let mut meter = WorldMeter::new();
    meter.record(500);
    // the script was swapped: the count starts again below where it was
    meter.record(20);
    assert_eq!(meter.frames(), 1);
    meter.record(80);
    assert_eq!(meter.frames(), 2);
    assert_eq!(meter.last_pass(), 60);
    // and a frame the rules did not run in is not one either
    meter.record(80);
    assert_eq!(meter.frames(), 2);
    // of an even number, the upper of the two middle ones
    assert_eq!(meter.median(), Some(500));
}

#[test]
fn passes_sort_least_first() {
    assert_eq!(sorted_passes(&vec![5, 3, 9, 3, 1, 12, 0]), vec![0, 1, 3, 3, 5, 9, 12]);
    assert_eq!(sorted_passes(&vec![]), Vec::<u64>::new());
    let many: Vec<u64> = (0..1000u64).map(|i| (i * 7919) % 1000).collect();
    let sorted = sorted_passes(&many);
    assert_eq!(sorted, (0..1000u64).collect::<Vec<_>>());
}
