use morse_input::{
    Config, ConfigKey, ConfigKeySerde, ConfigSerde, Dictionary, Duration, MorseKey,
};

fn written(sequence: &str, lower: char, upper: Option<char>) -> ConfigKeySerde<char> {
    ConfigKeySerde { sequence: sequence.to_string(), lower, upper }
}

fn written_config(langs: Vec<(String, Vec<ConfigKeySerde<char>>)>) -> ConfigSerde<char> {
    ConfigSerde {
        langs,
        functional: vec![written("---.-", ' ', None), written(".-.--", '\u{8}', None)],
        main: 'm',
        exit: 'x',
        pause: 'p',
        change_lang: 'l',
        change_case: 'c',
        time_to_long_press: Duration::from_millis(100),
        listen_delay: Duration::from_millis(5),
        accept_sequence_delay: Duration::from_millis(750),
    }
}

fn two_languages() -> Config<char> {
    written_config(vec![
        ("en".to_string(), vec![written(".-", 'a', Some('A')), written("-...", 'b', Some('B'))]),
        ("ru".to_string(), vec![written(".-", 'а', Some('А')), written("-...", 'б', Some('Б'))]),
    ])
    .try_into()
    .unwrap()
}

#[test]
fn entry_is_parsed_from_its_written_form() {
    let key = ConfigKey::try_from(written(".-", 'a', Some('A'))).unwrap();
    assert_eq!(key.sequence, vec![MorseKey::Dot, MorseKey::Slash]);
    assert_eq!(key.lower, 'a');
    assert_eq!(key.upper, Some('A'));
}

#[test]
fn entry_with_a_foreign_character_is_refused() {
    assert!(ConfigKey::try_from(written(".a", 'a', None)).is_err());
    assert!(ConfigKey::try_from(written("- .", 'a', Some('A'))).is_err());
}

#[test]
fn entry_with_empty_sequence_is_accepted() {
    let key = ConfigKey::try_from(written("", 'a', None)).unwrap();
    assert!(key.sequence.is_empty());
}

#[test]
fn output_follows_the_case() {
    let both = ConfigKey::try_from(written(".-", 'a', Some('A'))).unwrap();
    assert_eq!(both.output(false), 'a');
    assert_eq!(both.output(true), 'A');
}

#[test]
fn output_falls_back_to_lower() {
    let lower_only = ConfigKey::try_from(written(".-", ' ', None)).unwrap();
    assert_eq!(lower_only.output(false), ' ');
    assert_eq!(lower_only.output(true), ' ');
}

#[test]
fn empty_dictionary_holds_nothing() {
    let dictionary: Dictionary<char> = Dictionary::new();
    assert!(dictionary.get(&vec![MorseKey::Dot]).is_none());
    assert!(dictionary.get(&Vec::new()).is_none());
}

#[test]
fn dictionary_finds_what_was_entered() {
    let mut dictionary: Dictionary<char> = Dictionary::new();
    dictionary.insert(ConfigKey::try_from(written(".-", 'a', Some('A'))).unwrap());
    dictionary.insert(ConfigKey::try_from(written("-...", 'b', Some('B'))).unwrap());
    let a = dictionary.get(&vec![MorseKey::Dot, MorseKey::Slash]).unwrap();
    assert_eq!(a.lower, 'a');
    assert_eq!(a.sequence, vec![MorseKey::Dot, MorseKey::Slash]);
    let b = dictionary
        .get(&vec![MorseKey::Slash, MorseKey::Dot, MorseKey::Dot, MorseKey::Dot])
        .unwrap();
    assert_eq!(b.lower, 'b');
    assert_eq!(b.upper, Some('B'));
    assert!(dictionary.get(&vec![MorseKey::Dot, MorseKey::Dot]).is_none());
    assert!(dictionary.get(&vec![MorseKey::Dot]).is_none());
}

#[test]
fn later_entry_replaces_earlier_one() {
    let mut dictionary: Dictionary<char> = Dictionary::new();
    dictionary.insert(ConfigKey::try_from(written(".-", 'a', Some('A'))).unwrap());
    dictionary.insert(ConfigKey::try_from(written("..", 'i', None)).unwrap());
    dictionary.insert(ConfigKey::try_from(written(".-", 'z', None)).unwrap());
    let found = dictionary.get(&vec![MorseKey::Dot, MorseKey::Slash]).unwrap();
    assert_eq!(found.lower, 'z');
    assert_eq!(found.upper, None);
    assert_eq!(dictionary.get(&vec![MorseKey::Dot, MorseKey::Dot]).unwrap().lower, 'i');
}

#[test]
fn dictionary_from_written_entries() {
    let raws = vec![written(".-", 'a', None), written(".-", 'b', None), written("-", 't', None)];
    let dictionary = Dictionary::from_serde(&raws).unwrap();
    assert_eq!(dictionary.get(&vec![MorseKey::Dot, MorseKey::Slash]).unwrap().lower, 'b');
    assert_eq!(dictionary.get(&vec![MorseKey::Slash]).unwrap().lower, 't');
    let bad = vec![written(".-", 'a', None), written(".?", 'b', None)];
    assert!(Dictionary::from_serde(&bad).is_err());
    let none: Vec<ConfigKeySerde<char>> = Vec::new();
    assert!(Dictionary::from_serde(&none).unwrap().get(&Vec::new()).is_none());
}

#[test]
fn config_keeps_keys_and_times() {
    let config = two_languages();
    assert_eq!(config.main(), 'm');
    assert_eq!(config.exit(), 'x');
    assert_eq!(config.pause(), 'p');
    assert_eq!(config.change_lang(), 'l');
    assert_eq!(config.change_case(), 'c');
    assert_eq!(config.time_to_long_press(), Duration::from_millis(100));
    assert_eq!(config.listen_delay(), Duration::from_millis(5));
    assert_eq!(config.accept_sequence_delay(), Duration::from_millis(750));
    assert_eq!(config.lang_count(), 2);
}

#[test]
fn config_holds_each_language_under_its_name() {
    let config = two_languages();
    let en = config.dictionary(&"en".to_string()).unwrap();
    assert_eq!(en.get(&vec![MorseKey::Dot, MorseKey::Slash]).unwrap().lower, 'a');
    let ru = config.dictionary(&"ru".to_string()).unwrap();
    assert_eq!(ru.get(&vec![MorseKey::Dot, MorseKey::Slash]).unwrap().lower, 'а');
    assert!(config.dictionary(&"de".to_string()).is_none());
    assert!(config.dictionary(&"".to_string()).is_none());
}

#[test]
fn config_holds_functional_entries() {
    let config = two_languages();
    let space = vec![
        MorseKey::Slash,
        MorseKey::Slash,
        MorseKey::Slash,
        MorseKey::Dot,
        MorseKey::Slash,
    ];
    assert_eq!(config.functional().get(&space).unwrap().lower, ' ');
    assert!(config.functional().get(&vec![MorseKey::Dot, MorseKey::Slash]).is_none());
}

#[test]
fn config_with_a_bad_sequence_in_a_language_is_refused() {
    let written = written_config(vec![
        ("en".to_string(), vec![written(".-", 'a', Some('A'))]),
        ("ru".to_string(), vec![written(".-", 'а', None), written("-*", 'б', None)]),
    ]);
    assert!(written.try_into().is_err());
}

#[test]
fn config_with_a_bad_functional_sequence_is_refused() {
    let mut written = written_config(vec![("en".to_string(), vec![written(".-", 'a', None)])]);
    written.functional.push(ConfigKeySerde { sequence: "dash".to_string(), lower: '-', upper: None });
    assert!(written.try_into().is_err());
}

#[test]
fn config_without_languages_is_accepted() {
    let config = written_config(Vec::new()).try_into().unwrap();
    assert_eq!(config.lang_count(), 0);
    assert_eq!(config.first_lang(), None);
    assert_eq!(config.next_lang(&None), None);
    assert_eq!(config.next_lang(&Some("en".to_string())), None);
    assert!(config.dictionary(&"en".to_string()).is_none());
}

#[test]
fn first_language_is_the_first_declared() {
    assert_eq!(two_languages().first_lang(), Some("en".to_string()));
}

#[test]
fn next_language_follows_declaration_order_and_wraps() {
    let config = written_config(vec![
        ("en".to_string(), Vec::new()),
        ("ru".to_string(), Vec::new()),
        ("de".to_string(), Vec::new()),
    ])
    .try_into()
    .unwrap();
    assert_eq!(config.next_lang(&Some("en".to_string())), Some("ru".to_string()));
    assert_eq!(config.next_lang(&Some("ru".to_string())), Some("de".to_string()));
    assert_eq!(config.next_lang(&Some("de".to_string())), Some("en".to_string()));
}

#[test]
fn next_language_from_none_is_the_first() {
    assert_eq!(two_languages().next_lang(&None), Some("en".to_string()));
}

#[test]
fn next_language_from_an_unknown_name_is_none() {
    assert_eq!(two_languages().next_lang(&Some("fr".to_string())), None);
}

#[test]
fn single_language_follows_itself() {
    let config = written_config(vec![("en".to_string(), Vec::new())]).try_into().unwrap();
    assert_eq!(config.next_lang(&Some("en".to_string())), Some("en".to_string()));
}

#[test]
fn as_many_changes_as_languages_lead_back() {
    let names = ["en", "ru", "de", "fr", "it"];
    let config = written_config(names.iter().map(|n| (n.to_string(), Vec::new())).collect())
        .try_into()
        .unwrap();
    for start in names.iter() {
        let mut lang = Some(start.to_string());
        let mut seen = Vec::new();
        for _ in 0..names.len() {
            lang = config.next_lang(&lang);
            seen.push(lang.clone().unwrap());
        }
        assert_eq!(lang, Some(start.to_string()));
        seen.sort();
        seen.dedup();
        assert_eq!(seen.len(), names.len());
    }
}

#[test]
fn language_declared_twice_keeps_its_place_and_takes_the_later_entries() {
    let config = written_config(vec![
        ("en".to_string(), vec![written(".-", 'a', None)]),
        ("ru".to_string(), vec![written(".-", 'а', None)]),
        ("en".to_string(), vec![written("..", 'i', None)]),
    ])
    .try_into()
    .unwrap();
    assert_eq!(config.lang_count(), 2);
    assert_eq!(config.first_lang(), Some("en".to_string()));
    assert_eq!(config.next_lang(&Some("en".to_string())), Some("ru".to_string()));
    assert_eq!(config.next_lang(&Some("ru".to_string())), Some("en".to_string()));
    let en = config.dictionary(&"en".to_string()).unwrap();
    assert!(en.get(&vec![MorseKey::Dot, MorseKey::Slash]).is_none());
    assert_eq!(en.get(&vec![MorseKey::Dot, MorseKey::Dot]).unwrap().lower, 'i');
}

#[test]
fn copy_of_a_config_holds_the_same() {
    let config = two_languages();
    let copy = config.clone();
    assert_eq!(copy.lang_count(), 2);
    assert_eq!(copy.first_lang(), config.first_lang());
    assert_eq!(copy.next_lang(&Some("en".to_string())), Some("ru".to_string()));
    assert_eq!(copy.main(), 'm');
    assert_eq!(copy.accept_sequence_delay(), Duration::from_millis(750));
    let ru = copy.dictionary(&"ru".to_string()).unwrap();
    let found = ru.get(&vec![MorseKey::Slash, MorseKey::Dot, MorseKey::Dot, MorseKey::Dot]).unwrap();
    assert_eq!(found.lower, 'б');
    assert_eq!(found.upper, Some('Б'));
    assert_eq!(copy.functional().get(&vec![
        MorseKey::Dot,
        MorseKey::Slash,
        MorseKey::Dot,
        MorseKey::Slash,
        MorseKey::Slash
    ]).unwrap().lower, '\u{8}');
}

#[test]
fn copy_of_an_entry_and_of_a_dictionary() {
    let key = ConfigKey::try_from(written("-.", 'n', Some('N'))).unwrap();
    let copy = key.clone();
    assert_eq!(copy.sequence, key.sequence);
    assert_eq!(copy.lower, 'n');
    assert_eq!(copy.upper, Some('N'));
    let mut dictionary: Dictionary<char> = Dictionary::new();
    dictionary.insert(key);
    let mut other = dictionary.clone();
    other.insert(ConfigKey::try_from(written("-.", 'x', None)).unwrap());
    assert_eq!(dictionary.get(&vec![MorseKey::Slash, MorseKey::Dot]).unwrap().lower, 'n');
    assert_eq!(other.get(&vec![MorseKey::Slash, MorseKey::Dot]).unwrap().lower, 'x');
}

#[test]
fn languages_are_named_in_their_order() {
    let config = two_languages();
    assert_eq!(config.lang_name(0), Some(&"en".to_string()));
    assert_eq!(config.lang_name(1), Some(&"ru".to_string()));
    assert_eq!(config.lang_name(2), None);
    assert_eq!(config.lang_name(usize::MAX), None);
}
