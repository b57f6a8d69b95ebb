use morse_input::{key_hold_duration, update_key_state, Duration, KeySamples, KeyState, Timestamp};

#[test]
fn key_found_down_starts_being_held() {
    let mut state = KeyState::NotPressed;
    update_key_state(&mut state, true, Timestamp::from_millis(7));
    assert_eq!(state, KeyState::Down(Timestamp::from_millis(7)));
}

#[test]
fn held_key_keeps_the_time_of_its_press() {
    let mut state = KeyState::Down(Timestamp::from_millis(7));
    update_key_state(&mut state, true, Timestamp::from_millis(12));
    assert_eq!(state, KeyState::Down(Timestamp::from_millis(7)));
}

#[test]
fn key_found_up_is_not_pressed() {
    let mut state = KeyState::Down(Timestamp::from_millis(7));
    update_key_state(&mut state, false, Timestamp::from_millis(12));
    assert_eq!(state, KeyState::NotPressed);
    update_key_state(&mut state, false, Timestamp::from_millis(17));
    assert_eq!(state, KeyState::NotPressed);
}

#[test]
fn release_reports_how_long_the_key_was_held() {
    let state = KeyState::Down(Timestamp::from_millis(100));
    assert_eq!(
        key_hold_duration(state, false, Timestamp::from_millis(250)),
        Some(Duration::from_millis(150))
    );
    assert_eq!(
        key_hold_duration(state, false, Timestamp::from_millis(100)),
        Some(Duration::from_nanos(0))
    );
}

#[test]
fn no_release_without_a_press_before() {
    assert_eq!(key_hold_duration(KeyState::NotPressed, false, Timestamp::from_millis(5)), None);
    assert_eq!(key_hold_duration(KeyState::NotPressed, true, Timestamp::from_millis(5)), None);
}

#[test]
fn no_release_while_the_key_is_held() {
    let state = KeyState::Down(Timestamp::from_millis(100));
    assert_eq!(key_hold_duration(state, true, Timestamp::from_millis(250)), None);
}

#[test]
fn release_is_reported_once() {
    let mut state = KeyState::NotPressed;
    let mut releases = 0;
    let samples = [false, true, true, true, false, false, true, false, false];
    for (i, is_down) in samples.iter().enumerate() {
        let now = Timestamp::from_millis(5 * i as u64);
        if key_hold_duration(state, *is_down, now).is_some() {
            releases += 1;
        }
        update_key_state(&mut state, *is_down, now);
    }
    assert_eq!(releases, 2);
    assert_eq!(state, KeyState::NotPressed);
}

#[test]
fn release_on_a_clock_that_went_back_counts_as_no_time() {
    let state = KeyState::Down(Timestamp::from_millis(100));
    assert_eq!(
        key_hold_duration(state, false, Timestamp::from_millis(50)),
        Some(Duration::from_nanos(0))
    );
}

#[test]
fn samples_with_no_key_down() {
    let samples = KeySamples::none();
    assert!(!samples.main);
    assert!(!samples.change_lang);
    assert!(!samples.change_case);
    assert!(!samples.pause);
    assert!(!samples.exit);
}
