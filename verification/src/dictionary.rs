//! Dictionaries: the entries that say which key a sequence stands for, and
//! the map that holds them.

use crate::sequence::{
    decode,
    is_sequence_text,
    parse_sequence,
    same_sequence,
    MorseKey,
    MorseSequence,
};
use vstd::prelude::*;

verus! {

/// A dictionary entry as it is written down: the sequence as text.
#[derive(Debug, Clone)]
pub struct ConfigKeySerde<K> {
    pub sequence: String,
    pub lower: K,
    pub upper: Option<K>,
}

/// A dictionary entry: the key that a sequence stands for, and the one it
/// stands for in upper case, if that is another.
#[derive(Debug)]
pub struct ConfigKey<K> {
    pub sequence: MorseSequence,
    pub lower: K,
    pub upper: Option<K>,
}

/// An entry with its sequence as a mathematical one.
pub struct ConfigKeyView<K> {
    pub sequence: Seq<MorseKey>,
    pub lower: K,
    pub upper: Option<K>,
}

impl<K> View for ConfigKey<K> {
    type V = ConfigKeyView<K>;

    open spec fn view(&self) -> ConfigKeyView<K> {
        ConfigKeyView { sequence: self.sequence@, lower: self.lower, upper: self.upper }
    }
}

/// What a dictionary holds: at most one entry for a sequence.
pub type DictionaryView<K> = Map<Seq<MorseKey>, ConfigKeyView<K>>;

/// The key that an entry gives: in upper case its upper key if it has one,
/// else its lower key.
pub open spec fn chosen_output<K>(entry: ConfigKeyView<K>, upper_case: bool) -> K {
    match entry.upper {
        Some(upper) if upper_case => upper,
        _ => entry.lower,
    }
}

/// The entry that a written entry spells.
pub open spec fn entry_of<K>(raw: ConfigKeySerde<K>) -> ConfigKeyView<K> {
    ConfigKeyView { sequence: decode(raw.sequence@), lower: raw.lower, upper: raw.upper }
}

/// The entries that written entries spell, in the same order.
pub open spec fn entries_of<K>(raws: Seq<ConfigKeySerde<K>>) -> Seq<ConfigKeyView<K>> {
    raws.map_values(|raw: ConfigKeySerde<K>| entry_of(raw))
}

/// Written entries are valid when each one's sequence is made of glyphs.
pub open spec fn all_valid<K>(raws: Seq<ConfigKeySerde<K>>) -> bool {
    forall|i: int| 0 <= i < raws.len() ==> is_sequence_text(#[trigger] raws[i].sequence@)
}

/// Every entry stands under its own sequence.
pub open spec fn keyed_by_sequence<K>(keys: DictionaryView<K>) -> bool {
    forall|sequence: Seq<MorseKey>| #[trigger]
        keys.contains_key(sequence) ==> keys[sequence].sequence == sequence
}

/// The dictionary that results from entering the entries one after the
/// other: of two entries for one sequence the later one stays.
pub open spec fn dict_of<K>(entries: Seq<ConfigKeyView<K>>) -> DictionaryView<K>
    decreases entries.len(),
{
    if entries.len() == 0 {
        Map::empty()
    } else {
        dict_of(entries.drop_last()).insert(entries.last().sequence, entries.last())
    }
}

/// Every entry of a dictionary built by `dict_of` stands under its own
/// sequence.
pub proof fn lemma_dict_keyed_by_sequence<K>(entries: Seq<ConfigKeyView<K>>)
    ensures
        keyed_by_sequence(dict_of(entries)),
    decreases entries.len(),
{
    if entries.len() > 0 {
        lemma_dict_keyed_by_sequence(entries.drop_last());
    }
}

/// What `dict_of` holds for a sequence is the last entry given for it.
pub proof fn lemma_dict_holds_last_entry<K>(
    entries: Seq<ConfigKeyView<K>>,
    sequence: Seq<MorseKey>,
    from: int,
)
    requires
        0 <= from <= entries.len(),
        forall|j: int| from <= j < entries.len() ==> (#[trigger] entries[j]).sequence != sequence,
    ensures
        from > 0 && entries[from - 1].sequence == sequence ==> dict_of(entries).contains_key(
            sequence,
        ) && dict_of(entries)[sequence] == entries[from - 1],
        from == 0 ==> !dict_of(entries).contains_key(sequence),
    decreases entries.len(),
{
    if entries.len() > from {
        let shorter = entries.drop_last();
        assert(forall|j: int| from <= j < shorter.len() ==> shorter[j] == entries[j]);
        lemma_dict_holds_last_entry(shorter, sequence, from);
        if from > 0 {
            assert(shorter[from - 1] == entries[from - 1]);
        }
    } else if from > 0 {
        assert(entries.last() == entries[from - 1]);
    }
}

impl<K: Copy> Clone for ConfigKey<K> {
    fn clone(&self) -> (copy: Self)
        ensures
            copy@ == self@,
    {
        let sequence = self.sequence.clone();
        assert(sequence@ =~= self.sequence@);
        ConfigKey { sequence, lower: self.lower, upper: self.upper }
    }
}

impl<K> ConfigKey<K> {
    /// Checks a written entry. Fails when its sequence holds a character
    /// other than the two glyphs.
    pub fn try_from(value: ConfigKeySerde<K>) -> (res: Result<ConfigKey<K>, ()>)
        ensures
            res is Ok <==> is_sequence_text(value.sequence@),
            res matches Ok(key) ==> key@ == entry_of(value),
    {
        match parse_sequence(value.sequence.as_str()) {
            Ok(sequence) => Ok(ConfigKey { sequence, lower: value.lower, upper: value.upper }),
            Err(_) => Err(()),
        }
    }

    /// The key to strike for this entry.
    pub fn output(&self, upper_case: bool) -> (key: K) where K: Copy
        ensures
            key == chosen_output(self@, upper_case),
    {
        match self.upper {
            Some(upper) => if upper_case {
                upper
            } else {
                self.lower
            },
            None => self.lower,
        }
    }
}

/// A map from sequences to entries.
#[derive(Debug)]
pub struct Dictionary<K> {
    entries: Vec<ConfigKey<K>>,
}

impl<K: Copy> Clone for Dictionary<K> {
    fn clone(&self) -> (copy: Self)
        ensures
            copy@ == self@,
    {
        let entries = self.entries.clone();
        assert(entries@.map_values(|entry: ConfigKey<K>| entry@) =~= self.entries@.map_values(
            |entry: ConfigKey<K>| entry@,
        ));
        Dictionary { entries }
    }
}

impl<K> View for Dictionary<K> {
    type V = DictionaryView<K>;

    closed spec fn view(&self) -> DictionaryView<K> {
        dict_of(self.entries@.map_values(|entry: ConfigKey<K>| entry@))
    }
}

impl<K> Dictionary<K> {
    /// Every entry of a dictionary stands under its own sequence.
    pub proof fn lemma_keyed_by_sequence(self)
        ensures
            keyed_by_sequence(self@),
    {
        lemma_dict_keyed_by_sequence(self.entries@.map_values(|entry: ConfigKey<K>| entry@));
    }

    /// A dictionary without entries.
    pub fn new() -> (dictionary: Dictionary<K>)
        ensures
            dictionary@ == Map::<Seq<MorseKey>, ConfigKeyView<K>>::empty(),
    {
        Dictionary { entries: Vec::new() }
    }

    /// Enters `key` under its sequence, in place of an entry that the
    /// sequence had before.
    pub fn insert(&mut self, key: ConfigKey<K>)
        ensures
            final(self)@ == old(self)@.insert(key@.sequence, key@),
    {
        let ghost before = self.entries@.map_values(|entry: ConfigKey<K>| entry@);
        self.entries.push(key);
        proof {
            let after = self.entries@.map_values(|entry: ConfigKey<K>| entry@);
            assert(after.drop_last() =~= before);
            assert(after.last() == key@);
        }
    }

    /// The entry for `sequence`, if there is one.
    pub fn get(&self, sequence: &MorseSequence) -> (found: Option<&ConfigKey<K>>)
        ensures
            found is Some <==> self@.contains_key(sequence@),
            found matches Some(entry) ==> entry@ == self@[sequence@] && entry@.sequence
                == sequence@,
    {
        let ghost views = self.entries@.map_values(|entry: ConfigKey<K>| entry@);
        let mut i: usize = self.entries.len();
        while i > 0
            invariant
                i <= self.entries@.len(),
                views == self.entries@.map_values(|entry: ConfigKey<K>| entry@),
                forall|j: int| i <= j < views.len() ==> (#[trigger] views[j]).sequence != sequence@,
            decreases i,
        {
            i -= 1;
            if same_sequence(&self.entries[i].sequence, sequence) {
                proof {
                    lemma_dict_holds_last_entry(views, sequence@, i + 1);
                }
                return Some(&self.entries[i]);
            }
        }
        proof {
            lemma_dict_holds_last_entry(views, sequence@, 0);
        }
        None
    }

    /// Checks written entries and enters them in their order. Fails when one
    /// of them has a sequence that is not made of glyphs.
    pub fn from_serde(raws: &Vec<ConfigKeySerde<K>>) -> (res: Result<Dictionary<K>, ()>) where
        K: Copy,

        ensures
            res is Ok <==> all_valid(raws@),
            res matches Ok(dictionary) ==> dictionary@ == dict_of(entries_of(raws@)),
    {
        let mut dictionary: Dictionary<K> = Dictionary::new();
        let mut i: usize = 0;
        while i < raws.len()
            invariant
                i <= raws@.len(),
                all_valid(raws@.take(i as int)),
                dictionary@ == dict_of(entries_of(raws@.take(i as int))),
            decreases raws@.len() - i,
        {
            let raw = &raws[i];
            let sequence = match parse_sequence(raw.sequence.as_str()) {
                Ok(sequence) => sequence,
                Err(_) => {
                    return Err(());
                },
            };
            dictionary.insert(ConfigKey { sequence, lower: raw.lower, upper: raw.upper });
            proof {
                let longer = raws@.take(i + 1);
                assert(longer.drop_last() =~= raws@.take(i as int));
                assert(entries_of(longer).drop_last() =~= entries_of(raws@.take(i as int)));
                assert(entries_of(longer).last() == entry_of(raws@[i as int]));
                assert forall|j: int| 0 <= j < longer.len() implies is_sequence_text(
                    #[trigger] longer[j].sequence@,
                ) by {
                    if j < i {
                        assert(raws@.take(i as int)[j] == longer[j]);
                    }
                }
            }
            i += 1;
        }
        assert(raws@.take(i as int) =~= raws@);
        Ok(dictionary)
    }
}

} // verus!
