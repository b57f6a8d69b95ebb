use morse_input::{parse_sequence, same_sequence, MorseKey, MorseSequence};

#[test]
fn parse_reads_glyph_by_glyph() {
    assert_eq!(parse_sequence(".-"), Ok(vec![MorseKey::Dot, MorseKey::Slash]));
    assert_eq!(
        parse_sequence("-..."),
        Ok(vec![MorseKey::Slash, MorseKey::Dot, MorseKey::Dot, MorseKey::Dot])
    );
}

#[test]
fn parse_of_empty_text_is_empty_sequence() {
    assert_eq!(parse_sequence(""), Ok(Vec::new()));
}

#[test]
fn parse_of_single_glyphs() {
    assert_eq!(parse_sequence("."), Ok(vec![MorseKey::Dot]));
    assert_eq!(parse_sequence("-"), Ok(vec![MorseKey::Slash]));
}

#[test]
fn parse_rejects_other_characters() {
    assert_eq!(parse_sequence(".x-"), Err(()));
    assert_eq!(parse_sequence(" "), Err(()));
    assert_eq!(parse_sequence(".- "), Err(()));
    assert_eq!(parse_sequence("_"), Err(()));
    assert_eq!(parse_sequence("\u{2212}"), Err(()));
    assert_eq!(parse_sequence("..--..a"), Err(()));
}

#[test]
fn parse_keeps_length_and_places() {
    let text = ".--.-..-";
    let sequence = parse_sequence(text).unwrap();
    assert_eq!(sequence.len(), text.chars().count());
    for (symbol, glyph) in sequence.iter().zip(text.chars()) {
        let expected = if glyph == '.' { MorseKey::Dot } else { MorseKey::Slash };
        assert_eq!(*symbol, expected);
    }
}

#[test]
fn parse_of_a_very_long_text() {
    let text: String = (0..100_000).map(|i| if i % 3 == 0 { '-' } else { '.' }).collect();
    let sequence = parse_sequence(&text).unwrap();
    assert_eq!(sequence.len(), 100_000);
    assert_eq!(sequence[0], MorseKey::Slash);
    assert_eq!(sequence[1], MorseKey::Dot);
    assert_eq!(sequence[99_999], MorseKey::Slash);
}

#[test]
fn same_sequence_compares_symbols_and_length() {
    let a: MorseSequence = vec![MorseKey::Dot, MorseKey::Slash];
    let b: MorseSequence = vec![MorseKey::Dot, MorseKey::Slash];
    let c: MorseSequence = vec![MorseKey::Dot, MorseKey::Dot];
    let d: MorseSequence = vec![MorseKey::Dot];
    let e: MorseSequence = Vec::new();
    assert!(same_sequence(&a, &b));
    assert!(!same_sequence(&a, &c));
    assert!(!same_sequence(&a, &d));
    assert!(!same_sequence(&d, &a));
    assert!(!same_sequence(&a, &e));
    assert!(same_sequence(&e, &e));
}
