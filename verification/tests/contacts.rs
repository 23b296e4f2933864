use garden::contacts::tell_bumped;
use garden::contacts::{pair_key, Bumps, Contacts};

#[test]
fn a_pair_has_one_key_whichever_way_round() {
    assert_eq!(pair_key(7, 3), (3, 7));
    assert_eq!(pair_key(3, 7), (3, 7));
    assert_eq!(pair_key(5, 5), (5, 5));
}

#[test]
fn a_touch_is_told_on_the_frame_it_begins() {
    let mut contacts = Contacts::new();
    // a rabbit (1) walks onto a beetle (10)
    assert_eq!(contacts.update(vec![(1, 10)]), vec![(1, 10)]);
    // and stays there: nothing more to say
    assert_eq!(contacts.update(vec![(1, 10)]), vec![]);
    // a second rabbit arrives while the first stays
    assert_eq!(contacts.update(vec![(1, 10), (2, 10)]), vec![(2, 10)]);
    // both leave, and the first comes back: that is a new touch
    assert_eq!(contacts.update(vec![]), vec![]);
    assert_eq!(contacts.update(vec![(1, 10)]), vec![(1, 10)]);
}

#[test]
fn a_push_is_news_once_whatever_order_the_pair_was_found_in() {
    let mut bumps = Bumps::new();
    assert_eq!(bumps.update(&vec![(4, 9), (5, 6)]), vec![(4, 9), (5, 6)]);
    // the same pairs, found the other way round: not news
    assert_eq!(bumps.update(&vec![(9, 4), (6, 5)]), vec![]);
    // one of them ends, a new one begins
    assert_eq!(bumps.update(&vec![(6, 5), (4, 8)]), vec![(4, 8)]);
}

#[test]
fn a_tree_is_not_told_it_was_bumped() {
    // 1 bumped 2 (a creature) and 3 (a tree)
    let told = tell_bumped(&vec![(1, 2), (1, 3)], &vec![1, 2]);
    assert_eq!(told, vec![(1, 2), (2, 1), (1, 3)]);
    assert!(tell_bumped(&vec![], &vec![1]).is_empty());
}
