//! A decoding engine for Morse-style keyboard input: timed presses of one
//! main key become symbols, runs of symbols become key strokes looked up in a
//! per-language dictionary, and four more keys switch language and case,
//! pause and stop.
//!
//! The engine does no input or output of its own. A program that uses it
//! keeps an [`InputState`] and, once per tick, samples the five keys and a
//! monotonic clock and lets the state make the steps of the tick, either all
//! at once with [`InputState::tick`] or one by one with [`InputState::step`],
//! where each event is to be handled before the next step. The loop of ticks
//! ends when the work state is [`InputWorkState::Exit`].

pub mod config;
pub mod dictionary;
pub mod event;
pub mod keys;
pub mod laws;
pub mod sequence;
pub mod state;
pub mod time;

pub use config::{Config, ConfigSerde};
pub use dictionary::{ConfigKey, ConfigKeySerde, Dictionary};
pub use event::{InputEvent, SequenceRejectReason};
pub use keys::{key_hold_duration, update_key_state, KeySamples, KeyState};
pub use sequence::{parse_sequence, same_sequence, MorseKey, MorseSequence};
pub use state::{listen_loop, InputState, InputWorkState, Sample, TickStep};
pub use time::{Duration, Timestamp};
