//! What the decoder reports to the program around it.

use crate::sequence::{MorseKey, MorseSequence};
use vstd::prelude::*;

verus! {

/// Why a finished sequence produced no key stroke.
#[derive(Debug, Clone, Copy, PartialEq, Eq, Hash, Structural)]
pub enum SequenceRejectReason {
    /// No language is active, or the active one is not configured.
    NoLangsLoaded,
    /// The active language has no entry for the sequence.
    InvalidSequence,
}

/// One occurrence that the decoder reports. `K` is the type of a key
/// identifier; the decoder hands such values on and never looks into them.
#[derive(Debug, Clone, PartialEq, Eq, Hash)]
pub enum InputEvent<K> {
    /// The main key was released and its press counted as this symbol.
    MorseKey(MorseKey),
    /// The sequence stands for this key in the active language.
    SequenceParsed(MorseSequence, K),
    /// The sequence stands for nothing, for the reason given.
    SeqRejected(MorseSequence, SequenceRejectReason),
    /// The language key was released.
    LangChange,
    /// The case key was released.
    CaseChange,
    /// The exit key was released.
    Exit,
    /// The pause key was released.
    PauseToggle,
}

/// An event with its sequence as a mathematical one.
pub enum InputEventView<K> {
    MorseKey(MorseKey),
    SequenceParsed(Seq<MorseKey>, K),
    SeqRejected(Seq<MorseKey>, SequenceRejectReason),
    LangChange,
    CaseChange,
    Exit,
    PauseToggle,
}

impl<K> View for InputEvent<K> {
    type V = InputEventView<K>;

    open spec fn view(&self) -> InputEventView<K> {
        match *self {
            InputEvent::MorseKey(symbol) => InputEventView::MorseKey(symbol),
            InputEvent::SequenceParsed(sequence, key) => InputEventView::SequenceParsed(
                sequence@,
                key,
            ),
            InputEvent::SeqRejected(sequence, reason) => InputEventView::SeqRejected(
                sequence@,
                reason,
            ),
            InputEvent::LangChange => InputEventView::LangChange,
            InputEvent::CaseChange => InputEventView::CaseChange,
            InputEvent::Exit => InputEventView::Exit,
            InputEvent::PauseToggle => InputEventView::PauseToggle,
        }
    }
}

/// The views of a list of events, in the same order.
pub open spec fn event_views<K>(events: Seq<InputEvent<K>>) -> Seq<InputEventView<K>> {
    events.map_values(|event: InputEvent<K>| event@)
}

} // verus!
