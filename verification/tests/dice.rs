use garden::dice::{Dice, GOLDEN_GAMMA};

/// SplitMix64 from a zero seed: the first three outputs, top 24 bits.
#[test]
fn the_dice_roll_splitmix64() {
    let mut dice = Dice(0);
    assert_eq!(dice.roll_bits(), (0xe220_a839_7b1d_cdaf_u64 >> 40) as u32);
    assert_eq!((0xe220_a839_7b1d_cdaf_u64 >> 40) as u32, 14_819_496);
    assert_eq!(dice.0, GOLDEN_GAMMA);
    assert_eq!(dice.roll_bits(), 7_239_838);
    assert_eq!(dice.roll_bits(), 443_485);
    assert_eq!(dice.0, 0xdaa66d2c7ddf743f);
}

#[test]
fn the_same_seed_rolls_the_same_numbers() {
    let mut a = Dice(12345);
    let mut b = Dice(12345);
    assert_eq!(a.roll_bits(), 2_232_706);
    assert_eq!(b.roll_bits(), 2_232_706);
    for _ in 0..100 {
        let x = a.roll_bits();
        assert_eq!(x, b.roll_bits());
        assert!(x < 1 << 24);
    }
    assert_eq!(a.0, b.0);
}

#[test]
fn the_state_wraps_round() {
    let mut dice = Dice(u64::MAX);
    dice.roll_bits();
    assert_eq!(dice.0, GOLDEN_GAMMA - 1);
}
