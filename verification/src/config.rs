//! The configuration of the decoder: per-language dictionaries from
//! sequences to key strokes, the five control keys and three time spans.
//!
//! A configuration is written down as a [`ConfigSerde`], with sequences as
//! text, and checked once into a [`Config`], which does not change after.

use crate::dictionary::{
    all_valid,
    dict_of,
    entries_of,
    keyed_by_sequence,
    lemma_dict_keyed_by_sequence,
    ConfigKeySerde,
    Dictionary,
    DictionaryView,
};
use crate::time::Duration;
use vstd::prelude::*;

verus! {

/// A configuration as it is written down. The languages stand in the order
/// of their declaration, each with its name and its entries.
#[derive(Debug, Clone)]
pub struct ConfigSerde<K> {
    pub langs: Vec<(String, Vec<ConfigKeySerde<K>>)>,
    pub functional: Vec<ConfigKeySerde<K>>,
    pub main: K,
    pub exit: K,
    pub pause: K,
    pub change_lang: K,
    pub change_case: K,
    pub time_to_long_press: Duration,
    pub listen_delay: Duration,
    /// How long the main key must rest before a sequence counts as finished.
    pub accept_sequence_delay: Duration,
}

/// A language as the decoder sees it: its name and its dictionary.
pub struct LanguageView<K> {
    pub name: Seq<char>,
    pub keys: DictionaryView<K>,
}

/// A configuration as the decoder sees it. The languages stand in the order
/// in which language changes walk through them.
pub struct ConfigView<K> {
    pub langs: Seq<LanguageView<K>>,
    pub functional: DictionaryView<K>,
    pub main: K,
    pub exit: K,
    pub pause: K,
    pub change_lang: K,
    pub change_case: K,
    pub time_to_long_press: Duration,
    pub listen_delay: Duration,
    pub accept_sequence_delay: Duration,
}

/// `at` is the first place among `langs` where a language is called `name`.
pub open spec fn is_position<K>(langs: Seq<LanguageView<K>>, name: Seq<char>, at: int) -> bool {
    &&& 0 <= at < langs.len()
    &&& langs[at].name == name
    &&& forall|j: int| 0 <= j < at ==> (#[trigger] langs[j]).name != name
}

/// The first place among `langs` where a language is called `name`.
pub open spec fn position_of<K>(langs: Seq<LanguageView<K>>, name: Seq<char>) -> Option<int> {
    if exists|at: int| is_position(langs, name, at) {
        Some(choose|at: int| is_position(langs, name, at))
    } else {
        None
    }
}

/// No two languages share a name.
pub open spec fn names_distinct<K>(langs: Seq<LanguageView<K>>) -> bool {
    forall|i: int, j: int|
        0 <= i < j < langs.len() ==> (#[trigger] langs[i]).name != (#[trigger] langs[j]).name
}

/// The languages after one more is declared: a language of a name already
/// there takes the place of the one before it, another goes to the end.
pub open spec fn declare<K>(langs: Seq<LanguageView<K>>, lang: LanguageView<K>) -> Seq<
    LanguageView<K>,
> {
    match position_of(langs, lang.name) {
        Some(at) => langs.update(at, lang),
        None => langs.push(lang),
    }
}

/// The languages that written declarations give, declared in their order.
pub open spec fn langs_of<K>(decls: Seq<(String, Vec<ConfigKeySerde<K>>)>) -> Seq<
    LanguageView<K>,
>
    decreases decls.len(),
{
    if decls.len() == 0 {
        Seq::empty()
    } else {
        declare(
            langs_of(decls.drop_last()),
            LanguageView {
                name: decls.last().0@,
                keys: dict_of(entries_of(decls.last().1@)),
            },
        )
    }
}

/// The name of a language, or of none, as a sequence of characters.
pub open spec fn lang_view(lang: Option<String>) -> Option<Seq<char>> {
    match lang {
        Some(name) => Some(name@),
        None => None,
    }
}

impl<K> ConfigView<K> {
    /// The language that a decoder starts in: the first one, if there is
    /// any.
    pub open spec fn first_language(self) -> Option<Seq<char>> {
        if self.langs.len() > 0 {
            Some(self.langs[0].name)
        } else {
            None
        }
    }

    /// The language that follows `current` in the cycle: after the last one
    /// comes the first. From no language the cycle is entered at the first
    /// one; a name that no language has leads to no language.
    pub open spec fn next_language(self, current: Option<Seq<char>>) -> Option<Seq<char>> {
        match current {
            None => self.first_language(),
            Some(name) => match position_of(self.langs, name) {
                Some(at) => Some(
                    self.langs[if at + 1 < self.langs.len() {
                        at + 1
                    } else {
                        0
                    }].name,
                ),
                None => None,
            },
        }
    }

    /// The dictionary of the language called `name`.
    pub open spec fn dictionary(self, name: Seq<char>) -> Option<DictionaryView<K>> {
        match position_of(self.langs, name) {
            Some(at) => Some(self.langs[at].keys),
            None => None,
        }
    }

    /// What holds of every configuration: the languages differ in name, and
    /// each entry stands under its own sequence.
    pub open spec fn well_formed(self) -> bool {
        &&& names_distinct(self.langs)
        &&& forall|i: int| 0 <= i < self.langs.len() ==> keyed_by_sequence(#[trigger] self.langs[i].keys)
        &&& keyed_by_sequence(self.functional)
    }
}

/// A place that meets `is_position` is the one that `position_of` gives.
pub proof fn lemma_position_found<K>(langs: Seq<LanguageView<K>>, name: Seq<char>, at: int)
    requires
        is_position(langs, name, at),
    ensures
        position_of(langs, name) == Some(at),
{
    let chosen = choose|at: int| is_position(langs, name, at);
    if chosen < at {
        assert(langs[chosen].name != name);
    } else if at < chosen {
        assert(langs[at].name != name);
    }
}

/// A name that no language has is at no place.
pub proof fn lemma_position_missing<K>(langs: Seq<LanguageView<K>>, name: Seq<char>)
    requires
        forall|j: int| 0 <= j < langs.len() ==> (#[trigger] langs[j]).name != name,
    ensures
        position_of(langs, name) is None,
{
}

/// Among languages of distinct names each one is at its own place.
pub proof fn lemma_position_of_distinct<K>(langs: Seq<LanguageView<K>>, at: int)
    requires
        names_distinct(langs),
        0 <= at < langs.len(),
    ensures
        position_of(langs, langs[at].name) == Some(at),
{
    lemma_position_found(langs, langs[at].name, at);
}

/// Declaring a language keeps the names distinct and the entries under
/// their sequences.
pub proof fn lemma_declare_keeps_order<K>(langs: Seq<LanguageView<K>>, lang: LanguageView<K>)
    requires
        names_distinct(langs),
        forall|i: int| 0 <= i < langs.len() ==> keyed_by_sequence(#[trigger] langs[i].keys),
        keyed_by_sequence(lang.keys),
    ensures
        names_distinct(declare(langs, lang)),
        forall|i: int|
            0 <= i < declare(langs, lang).len() ==> keyed_by_sequence(
                #[trigger] declare(langs, lang)[i].keys,
            ),
{
    let after = declare(langs, lang);
    match position_of(langs, lang.name) {
        Some(at) => {
            assert(is_position(langs, lang.name, at));
            assert forall|i: int, j: int| 0 <= i < j < after.len() implies (#[trigger] after[i]).name
                != (#[trigger] after[j]).name by {
                assert(after[i].name == langs[i].name);
                assert(after[j].name == langs[j].name);
            }
        },
        None => {
            assert forall|i: int, j: int| 0 <= i < j < after.len() implies (#[trigger] after[i]).name
                != (#[trigger] after[j]).name by {
                if j == langs.len() {
                    if langs[i].name == lang.name {
                        lemma_first_position_exists(langs, lang.name, i);
                    }
                } else {
                    assert(after[i] == langs[i]);
                    assert(after[j] == langs[j]);
                }
            }
        },
    }
}

/// Where some language is called `name`, one is the first of them.
pub proof fn lemma_first_position_exists<K>(langs: Seq<LanguageView<K>>, name: Seq<char>, at: int)
    requires
        0 <= at < langs.len(),
        langs[at].name == name,
    ensures
        position_of(langs, name) is Some,
    decreases at,
{
    if exists|j: int| 0 <= j < at && (#[trigger] langs[j]).name == name {
        let j = choose|j: int| 0 <= j < at && (#[trigger] langs[j]).name == name;
        lemma_first_position_exists(langs, name, j);
    } else {
        assert(is_position(langs, name, at));
    }
}

/// The languages that declarations give differ in name, and their entries
/// stand under their sequences.
pub proof fn lemma_langs_of_in_order<K>(decls: Seq<(String, Vec<ConfigKeySerde<K>>)>)
    ensures
        names_distinct(langs_of(decls)),
        forall|i: int|
            0 <= i < langs_of(decls).len() ==> keyed_by_sequence(#[trigger] langs_of(decls)[i].keys),
    decreases decls.len(),
{
    if decls.len() > 0 {
        lemma_langs_of_in_order(decls.drop_last());
        lemma_dict_keyed_by_sequence(entries_of(decls.last().1@));
        lemma_declare_keeps_order(
            langs_of(decls.drop_last()),
            LanguageView {
                name: decls.last().0@,
                keys: dict_of(entries_of(decls.last().1@)),
            },
        );
    }
}

/// A language: its name and its dictionary.
#[derive(Debug)]
struct Language<K> {
    name: String,
    keys: Dictionary<K>,
}

impl<K: Copy> Clone for Language<K> {
    fn clone(&self) -> (copy: Self)
        ensures
            copy@ == self@,
    {
        Language { name: self.name.clone(), keys: self.keys.clone() }
    }
}

impl<K> View for Language<K> {
    type V = LanguageView<K>;

    closed spec fn view(&self) -> LanguageView<K> {
        LanguageView { name: self.name@, keys: self.keys@ }
    }
}

spec fn language_views<K>(langs: Seq<Language<K>>) -> Seq<LanguageView<K>> {
    langs.map_values(|lang: Language<K>| lang@)
}

/// The first place among `langs` where a language is called `name`.
fn find_language<K>(langs: &Vec<Language<K>>, name: &String) -> (found: Option<usize>)
    ensures
        lang_index(found) == position_of(language_views(langs@), name@),
        found matches Some(at) ==> at < langs@.len(),
{
    let mut i: usize = 0;
    while i < langs.len()
        invariant
            i <= langs@.len(),
            forall|j: int| 0 <= j < i ==> (#[trigger] language_views(langs@)[j]).name != name@,
        decreases langs@.len() - i,
    {
        if langs[i].name == *name {
            proof {
                lemma_position_found(language_views(langs@), name@, i as int);
            }
            return Some(i);
        }
        i += 1;
    }
    proof {
        lemma_position_missing(language_views(langs@), name@);
    }
    None
}

spec fn lang_index(found: Option<usize>) -> Option<int> {
    match found {
        Some(at) => Some(at as int),
        None => None,
    }
}

/// A checked configuration. It is made from its written form and does not
/// change after.
#[derive(Debug)]
pub struct Config<K> {
    langs: Vec<Language<K>>,
    functional: Dictionary<K>,
    main: K,
    exit: K,
    pause: K,
    change_lang: K,
    change_case: K,
    time_to_long_press: Duration,
    listen_delay: Duration,
    accept_sequence_delay: Duration,
}

impl<K> View for Config<K> {
    type V = ConfigView<K>;

    closed spec fn view(&self) -> ConfigView<K> {
        ConfigView {
            langs: language_views(self.langs@),
            functional: self.functional@,
            main: self.main,
            exit: self.exit,
            pause: self.pause,
            change_lang: self.change_lang,
            change_case: self.change_case,
            time_to_long_press: self.time_to_long_press,
            listen_delay: self.listen_delay,
            accept_sequence_delay: self.accept_sequence_delay,
        }
    }
}

impl<K: Copy> Clone for Config<K> {
    fn clone(&self) -> (copy: Self)
        ensures
            copy@ == self@,
    {
        proof {
            use_type_invariant(self);
        }
        let langs = self.langs.clone();
        assert(language_views(langs@) =~= language_views(self.langs@));
        Config {
            langs,
            functional: self.functional.clone(),
            main: self.main,
            exit: self.exit,
            pause: self.pause,
            change_lang: self.change_lang,
            change_case: self.change_case,
            time_to_long_press: self.time_to_long_press,
            listen_delay: self.listen_delay,
            accept_sequence_delay: self.accept_sequence_delay,
        }
    }
}

impl<K> ConfigSerde<K> {
    /// Every written sequence, of every language and of the functional
    /// entries, is made of glyphs.
    pub open spec fn is_valid(&self) -> bool {
        &&& forall|i: int| 0 <= i < self.langs@.len() ==> all_valid(#[trigger] self.langs@[i].1@)
        &&& all_valid(self.functional@)
    }

    /// The configuration that this written form spells.
    pub open spec fn config_view(&self) -> ConfigView<K> {
        ConfigView {
            langs: langs_of(self.langs@),
            functional: dict_of(entries_of(self.functional@)),
            main: self.main,
            exit: self.exit,
            pause: self.pause,
            change_lang: self.change_lang,
            change_case: self.change_case,
            time_to_long_press: self.time_to_long_press,
            listen_delay: self.listen_delay,
            accept_sequence_delay: self.accept_sequence_delay,
        }
    }

    /// Checks the written form. Fails when a sequence in it holds a
    /// character other than the two glyphs, and only then.
    pub fn try_into(self) -> (res: Result<Config<K>, ()>) where K: Copy
        ensures
            res is Ok <==> self.is_valid(),
            res matches Ok(config) ==> config@ == self.config_view() && config@.well_formed(),
    {
        let mut langs: Vec<Language<K>> = Vec::new();
        let mut i: usize = 0;
        while i < self.langs.len()
            invariant
                i <= self.langs@.len(),
                forall|j: int| 0 <= j < i ==> all_valid(#[trigger] self.langs@[j].1@),
                language_views(langs@) == langs_of(self.langs@.take(i as int)),
            decreases self.langs@.len() - i,
        {
            let decl = &self.langs[i];
            let keys = match Dictionary::from_serde(&decl.1) {
                Ok(keys) => keys,
                Err(_) => {
                    return Err(());
                },
            };
            let language = Language { name: decl.0.clone(), keys };
            let ghost before = language_views(langs@);
            match find_language(&langs, &decl.0) {
                Some(at) => {
                    langs.set(at, language);
                    assert(language_views(langs@) =~= before.update(at as int, language@));
                },
                None => {
                    langs.push(language);
                    assert(language_views(langs@) =~= before.push(language@));
                },
            }
            proof {
                let longer = self.langs@.take(i + 1);
                assert(longer.drop_last() =~= self.langs@.take(i as int));
                assert(longer.last() == self.langs@[i as int]);
            }
            i += 1;
        }
        let functional = match Dictionary::from_serde(&self.functional) {
            Ok(functional) => functional,
            Err(_) => {
                return Err(());
            },
        };
        proof {
            assert(self.langs@.take(i as int) =~= self.langs@);
            lemma_langs_of_in_order(self.langs@);
            lemma_dict_keyed_by_sequence(entries_of(self.functional@));
        }
        Ok(
            Config {
                langs,
                functional,
                main: self.main,
                exit: self.exit,
                pause: self.pause,
                change_lang: self.change_lang,
                change_case: self.change_case,
                time_to_long_press: self.time_to_long_press,
                listen_delay: self.listen_delay,
                accept_sequence_delay: self.accept_sequence_delay,
            },
        )
    }
}

impl<K> Config<K> {
    /// Every configuration is well formed.
    #[verifier::type_invariant]
    spec fn in_order(self) -> bool {
        self@.well_formed()
    }

    /// The language that a decoder starts in.
    pub fn first_lang(&self) -> (first: Option<String>)
        ensures
            lang_view(first) == self@.first_language(),
            self@.well_formed(),
    {
        proof {
            use_type_invariant(self);
        }
        if self.langs.len() > 0 {
            Some(self.langs[0].name.clone())
        } else {
            None
        }
    }

    /// The language that a change of language leads to from `current`.
    pub fn next_lang(&self, current: &Option<String>) -> (next: Option<String>)
        ensures
            lang_view(next) == self@.next_language(lang_view(*current)),
            self@.well_formed(),
    {
        proof {
            use_type_invariant(self);
        }
        match current {
            None => self.first_lang(),
            Some(name) => match find_language(&self.langs, name) {
                Some(at) => {
                    let count: usize = self.langs.len();
                    let follower: usize = if at + 1 < count {
                        at + 1
                    } else {
                        0
                    };
                    Some(self.langs[follower].name.clone())
                },
                None => None,
            },
        }
    }

    /// The dictionary of the language called `name`, if there is such a
    /// language.
    pub fn dictionary(&self, name: &String) -> (found: Option<&Dictionary<K>>)
        ensures
            found is Some <==> self@.dictionary(name@) is Some,
            found matches Some(keys) ==> Some(keys@) == self@.dictionary(name@),
            self@.well_formed(),
    {
        proof {
            use_type_invariant(self);
        }
        match find_language(&self.langs, name) {
            Some(at) => Some(&self.langs[at].keys),
            None => None,
        }
    }

    /// The entries whose meaning does not depend on the language.
    pub fn functional(&self) -> (keys: &Dictionary<K>)
        ensures
            keys@ == self@.functional,
    {
        &self.functional
    }

    /// The number of languages.
    pub fn lang_count(&self) -> (count: usize)
        ensures
            count == self@.langs.len(),
    {
        self.langs.len()
    }

    /// The name of the language at place `at` in the order of the
    /// languages, counted from 0.
    pub fn lang_name(&self, at: usize) -> (name: Option<&String>)
        ensures
            name is Some <==> at < self@.langs.len(),
            name matches Some(name) ==> name@ == self@.langs[at as int].name,
    {
        if at < self.langs.len() {
            Some(&self.langs[at].name)
        } else {
            None
        }
    }

    /// The key whose presses are the symbols.
    pub fn main(&self) -> (key: K) where K: Copy
        ensures
            key == self@.main,
    {
        self.main
    }

    /// The key whose release stops the decoder.
    pub fn exit(&self) -> (key: K) where K: Copy
        ensures
            key == self@.exit,
    {
        self.exit
    }

    /// The key whose release pauses the decoder or lets it go on.
    pub fn pause(&self) -> (key: K) where K: Copy
        ensures
            key == self@.pause,
    {
        self.pause
    }

    /// The key whose release moves on to the next language.
    pub fn change_lang(&self) -> (key: K) where K: Copy
        ensures
            key == self@.change_lang,
    {
        self.change_lang
    }

    /// The key whose release flips the case.
    pub fn change_case(&self) -> (key: K) where K: Copy
        ensures
            key == self@.change_case,
    {
        self.change_case
    }

    /// A press of the main key that lasts at least this long is a long one.
    pub fn time_to_long_press(&self) -> (span: Duration)
        ensures
            span == self@.time_to_long_press,
    {
        self.time_to_long_press
    }

    /// The pause between two ticks.
    pub fn listen_delay(&self) -> (span: Duration)
        ensures
            span == self@.listen_delay,
    {
        self.listen_delay
    }

    /// A sequence is finished once the main key has rested for longer than
    /// this.
    pub fn accept_sequence_delay(&self) -> (span: Duration)
        ensures
            span == self@.accept_sequence_delay,
    {
        self.accept_sequence_delay
    }
}

} // verus!
