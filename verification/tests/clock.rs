use rdpweb::clock::next_stamp;

#[test]
fn stamps_follow_the_clock_and_never_repeat() {
    assert_eq!(next_stamp(0, 0), 1);
    assert_eq!(next_stamp(5, 100), 100);
    assert_eq!(next_stamp(100, 100), 101);
    assert_eq!(next_stamp(100, 7), 101);
    assert_eq!(next_stamp(7, u128::MAX), u64::MAX);
    assert_eq!(next_stamp(u64::MAX, 3), u64::MAX);
}
