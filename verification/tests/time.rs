use morse_input::{Duration, Timestamp};

#[test]
fn millis_are_a_million_nanos() {
    assert_eq!(Duration::from_millis(100).as_nanos(), 100_000_000);
    assert_eq!(Duration::from_millis(0).as_nanos(), 0);
    assert_eq!(Timestamp::from_millis(750).as_nanos(), 750_000_000);
    assert_eq!(Duration::from_millis(u64::MAX).as_nanos(), (u64::MAX as u128) * 1_000_000);
    assert_eq!(Timestamp::from_millis(u64::MAX).as_nanos(), (u64::MAX as u128) * 1_000_000);
}

#[test]
fn nanos_are_kept() {
    assert_eq!(Duration::from_nanos(17).as_nanos(), 17);
    assert_eq!(Timestamp::from_nanos(u128::MAX).as_nanos(), u128::MAX);
    assert_eq!(Duration::from_nanos(5), Duration { nanos: 5 });
    assert_eq!(Timestamp::from_nanos(5), Timestamp { nanos: 5 });
}

#[test]
fn duration_since_is_the_difference() {
    let earlier = Timestamp::from_millis(200);
    let later = Timestamp::from_millis(350);
    assert_eq!(later.duration_since(earlier), Duration::from_millis(150));
    assert_eq!(later.duration_since(later), Duration::from_nanos(0));
    assert_eq!(
        Timestamp::from_nanos(u128::MAX).duration_since(Timestamp::from_nanos(0)),
        Duration::from_nanos(u128::MAX)
    );
}

#[test]
fn duration_since_a_later_time_is_zero() {
    let earlier = Timestamp::from_millis(200);
    let later = Timestamp::from_millis(350);
    assert_eq!(earlier.duration_since(later), Duration::from_nanos(0));
}
