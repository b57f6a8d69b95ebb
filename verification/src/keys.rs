//! Edge detection on the raw state of a key. The program around the decoder
//! samples each key once per tick as a plain "is it down now"; presses and
//! releases are found here.

use crate::time::{elapsed, Duration, Timestamp};
use vstd::prelude::*;

verus! {

/// What the decoder remembers of one key between two ticks.
#[derive(Debug, Clone, Copy, PartialEq, Eq, Structural)]
pub enum KeyState {
    /// Held since the tick at this time.
    Down(Timestamp),
    NotPressed,
}

/// One tick's samples of the five keys: `true` where the key is down.
#[derive(Debug, Clone, Copy, PartialEq, Eq, Structural)]
pub struct KeySamples {
    pub main: bool,
    pub change_lang: bool,
    pub change_case: bool,
    pub pause: bool,
    pub exit: bool,
}

/// The state of a key after a sample of it: a key found down starts being
/// held now unless it was held already, a key found up is not pressed.
pub open spec fn next_key_state(state: KeyState, is_down: bool, now: Timestamp) -> KeyState {
    if is_down {
        match state {
            KeyState::NotPressed => KeyState::Down(now),
            KeyState::Down(since) => KeyState::Down(since),
        }
    } else {
        KeyState::NotPressed
    }
}

/// For how long a key was held, where this sample shows its release: the
/// key is up now and was down before.
pub open spec fn hold_duration(state: KeyState, is_down: bool, now: Timestamp) -> Option<
    Duration,
> {
    match state {
        KeyState::Down(since) if !is_down => Some(elapsed(since, now)),
        _ => None,
    }
}

/// Whether this sample shows the release of the key.
pub open spec fn is_release(state: KeyState, is_down: bool) -> bool {
    !is_down && state is Down
}

/// Moves a key's state on by one sample.
pub fn update_key_state(state: &mut KeyState, is_down: bool, now: Timestamp)
    ensures
        *final(state) == next_key_state(*old(state), is_down, now),
{
    if is_down {
        match *state {
            KeyState::NotPressed => {
                *state = KeyState::Down(now);
            },
            KeyState::Down(_) => {},
        }
    } else {
        *state = KeyState::NotPressed;
    }
}

/// The length of the press that this sample ends, if it ends one.
pub fn key_hold_duration(state: KeyState, is_down: bool, now: Timestamp) -> (held: Option<
    Duration,
>)
    ensures
        held == hold_duration(state, is_down, now),
        held is Some <==> is_release(state, is_down),
{
    match state {
        KeyState::Down(since) => {
            if is_down {
                None
            } else {
                Some(now.duration_since(since))
            }
        },
        KeyState::NotPressed => None,
    }
}

impl KeySamples {
    /// Samples with no key down.
    pub fn none() -> (samples: KeySamples)
        ensures
            samples == (KeySamples {
                main: false,
                change_lang: false,
                change_case: false,
                pause: false,
                exit: false,
            }),
    {
        KeySamples {
            main: false,
            change_lang: false,
            change_case: false,
            pause: false,
            exit: false,
        }
    }
}

} // verus!
