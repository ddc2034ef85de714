use echo_rsvp::orp::anchor_index;

#[test]
fn known_positions() {
    assert_eq!(anchor_index(0), 0);
    assert_eq!(anchor_index(1), 0);
    assert_eq!(anchor_index(2), 0);
    assert_eq!(anchor_index(3), 1);
    assert_eq!(anchor_index(5), 1);
    assert_eq!(anchor_index(6), 2);
    assert_eq!(anchor_index(9), 2);
    assert_eq!(anchor_index(10), 3);
    assert_eq!(anchor_index(13), 3);
    assert_eq!(anchor_index(14), 4);
    assert_eq!(anchor_index(42), 4);
}

#[test]
fn anchor_stays_inside_words() {
    for len in 1..64usize {
        assert!(anchor_index(len) < len);
        assert!(anchor_index(len) <= anchor_index(len + 1));
    }
}
