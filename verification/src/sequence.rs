//! The two-symbol Morse alphabet, sequences of its symbols, and their
//! textual form.

use vstd::prelude::*;

verus! {

/// One symbol of the alphabet: a short press or a long one.
#[derive(Debug, Clone, Copy, PartialEq, Eq, Hash, Structural)]
pub enum MorseKey {
    Dot,
    Slash,
}

/// Symbols in the order in which they were keyed.
pub type MorseSequence = Vec<MorseKey>;

/// The two characters that a textual sequence may hold.
pub open spec fn is_glyph(c: char) -> bool {
    c == '.' || c == '-'
}

/// The symbol that a glyph stands for.
pub open spec fn symbol_of(c: char) -> MorseKey {
    if c == '.' {
        MorseKey::Dot
    } else {
        MorseKey::Slash
    }
}

/// A text is a sequence definition when it holds glyphs only.
pub open spec fn is_sequence_text(text: Seq<char>) -> bool {
    forall|i: int| 0 <= i < text.len() ==> is_glyph(#[trigger] text[i])
}

/// The sequence that a text spells, glyph by glyph.
pub open spec fn decode(text: Seq<char>) -> Seq<MorseKey> {
    Seq::new(text.len(), |i: int| symbol_of(text[i]))
}

/// Reads a sequence definition. Fails on the first character that is not a
/// glyph; the empty text spells the empty sequence.
pub fn parse_sequence(text: &str) -> (res: Result<MorseSequence, ()>)
    ensures
        res is Ok <==> is_sequence_text(text@),
        res matches Ok(sequence) ==> sequence@ == decode(text@),
{
    let mut sequence: MorseSequence = Vec::new();
    for c in it: text.chars()
        invariant
            it.seq() == text@,
            sequence@.len() == it.index(),
            forall|j: int| 0 <= j < it.index() ==> is_glyph(#[trigger] text@[j]),
            forall|j: int| 0 <= j < it.index() ==> sequence@[j] == symbol_of(text@[j]),
    {
        if c == '.' {
            sequence.push(MorseKey::Dot);
        } else if c == '-' {
            sequence.push(MorseKey::Slash);
        } else {
            return Err(());
        }
    }
    Ok(sequence)
}

/// Whether two sequences hold the same symbols in the same places.
pub fn same_sequence(a: &MorseSequence, b: &MorseSequence) -> (same: bool)
    ensures
        same == (a@ == b@),
{
    if a.len() != b.len() {
        return false;
    }
    let mut i: usize = 0;
    while i < a.len()
        invariant
            a@.len() == b@.len(),
            i <= a@.len(),
            forall|j: int| 0 <= j < i ==> a@[j] == b@[j],
        decreases a@.len() - i,
    {
        if a[i] != b[i] {
            return false;
        }
        i += 1;
    }
    assert(a@ =~= b@);
    true
}

} // verus!
