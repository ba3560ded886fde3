//! The entities handed to the game by the data layer: languages, letters and
//! words.

use crate::grid::{distinct_of, distinct_units};
pub use crate::script::decompose;
use crate::script::{
    decomposed, post_process, post_processed, unit_strings, units_of, EmptyWordError,
};
use crate::units::Unit;
use vstd::prelude::*;
use vstd::string::*;

verus! {

/// A language the game can be played in. Two languages are the same language
/// when their identifiers agree.
#[derive(Debug)]
pub struct Language {
    pub id: u32,
    pub name: String,
    pub name_other: Option<String>,
    pub code: String,
    pub strip_diacritics: bool,
}

/// What a [`Language`] is, as plain values.
#[verifier::ext_equal]
pub struct LanguageView {
    pub id: u32,
    pub name: Seq<char>,
    pub name_other: Option<Seq<char>>,
    pub code: Seq<char>,
    pub strip_diacritics: bool,
}

impl View for Language {
    type V = LanguageView;

    open spec fn view(&self) -> LanguageView {
        LanguageView {
            id: self.id,
            name: self.name@,
            name_other: match self.name_other {
                Some(n) => Some(n@),
                None => None,
            },
            code: self.code@,
            strip_diacritics: self.strip_diacritics,
        }
    }
}

impl Clone for Language {
    fn clone(&self) -> (res: Self)
        ensures
            res == *self,
    {
        Language {
            id: self.id,
            name: self.name.clone(),
            name_other: match &self.name_other {
                Some(n) => Some(n.clone()),
                None => None,
            },
            code: self.code.clone(),
            strip_diacritics: self.strip_diacritics,
        }
    }
}

impl Language {
    /// Whether `self` and `other` are the same language.
    pub fn same_as(&self, other: &Language) -> (res: bool)
        ensures
            res == (self.id == other.id),
    {
        self.id == other.id
    }
}

/// A letter of a language's alphabet, as the data layer stores it.
#[derive(Debug)]
pub struct Letter {
    pub id: u32,
    pub letter: String,
    pub language_id: u32,
    pub regular: Option<bool>,
    pub hidden: Option<bool>,
    pub name_en: Option<String>,
}

/// The alphabet that `letters` spell out: the letter of each, in order.
pub open spec fn alphabet_of(letters: Seq<Letter>) -> Seq<Unit> {
    Seq::new(letters.len(), |i: int| letters[i].letter@)
}

/// The alphabet of a language, from the letters that the data layer gave for
/// it.
pub fn alphabet_letters(letters: &Vec<Letter>) -> (alphabet: Vec<String>)
    ensures
        alphabet.deep_view() == alphabet_of(letters@),
{
    let mut alphabet: Vec<String> = Vec::new();
    let mut i: usize = 0;
    while i < letters.len()
        invariant
            i <= letters.len(),
            alphabet.len() == i,
            forall|j: int| 0 <= j < i ==> alphabet.deep_view()[j] == letters@[j].letter@,
        decreases letters.len() - i,
    {
        let ghost before = alphabet.deep_view();
        alphabet.push(letters[i].letter.clone());
        assert(alphabet.deep_view() =~= before.push(letters@[i as int].letter@));
        i += 1;
    }
    assert(alphabet.deep_view() =~= alphabet_of(letters@));
    alphabet
}

/// Where the first language with the code `code` stands in `languages`, if
/// there is one.
pub open spec fn language_at(languages: Seq<Language>, code: Seq<char>, at: int) -> bool {
    &&& 0 <= at < languages.len()
    &&& languages[at].code@ == code
    &&& forall|j: int| 0 <= j < at ==> (#[trigger] languages[j]).code@ != code
}

/// The first of `languages` whose code is `code`.
pub fn find_language(languages: &Vec<Language>, code: &str) -> (found: Option<Language>)
    ensures
        match found {
            Some(language) => exists|at: int|
                language_at(languages@, code@, at) && language == #[trigger] languages@[at],
            None => forall|j: int| 0 <= j < languages.len() ==> (#[trigger] languages@[j]).code@ != code@,
        },
{
    let wanted = String::from_str(code);
    let mut i: usize = 0;
    while i < languages.len()
        invariant
            i <= languages.len(),
            wanted@ == code@,
            forall|j: int| 0 <= j < i ==> (#[trigger] languages@[j]).code@ != code@,
        decreases languages.len() - i,
    {
        if languages[i].code == wanted {
            assert(language_at(languages@, code@, i as int));
            return Some(languages[i].clone());
        }
        i += 1;
    }
    None
}

/// The language that a session starts in: the one that was asked for by its
/// code, where there is such a language, and `fallback` otherwise.
pub fn start_language(requested: Option<&str>, languages: &Vec<Language>, fallback: Language) -> (language: Language)
    ensures
        match requested {
            Some(code) => (exists|at: int|
                language_at(languages@, code@, at) && language == #[trigger] languages@[at]) || (
            language == fallback && forall|j: int|
                0 <= j < languages.len() ==> (#[trigger] languages@[j]).code@ != code@),
            None => language == fallback,
        },
{
    match requested {
        Some(code) => match find_language(languages, code) {
            Some(language) => language,
            None => fallback,
        },
        None => fallback,
    }
}

/// `names`, with `separator` between each two of them.
pub open spec fn joined(names: Seq<Seq<char>>, separator: Seq<char>) -> Seq<char>
    decreases names.len(),
{
    if names.len() == 0 {
        Seq::empty()
    } else if names.len() == 1 {
        names[0]
    } else {
        joined(names.drop_last(), separator) + separator + names.last()
    }
}

/// The names of `languages`, in order.
pub open spec fn names_of(languages: Seq<Language>) -> Seq<Seq<char>> {
    Seq::new(languages.len(), |i: int| languages[i].name@)
}

/// One line that says which languages there are: their names, with a comma
/// and a space between each two.
pub fn found_languages(languages: &Vec<Language>) -> (line: String)
    ensures
        line@ == "Found Languages: "@ + joined(names_of(languages@), ", "@),
{
    let mut line = String::from_str("Found Languages: ");
    let mut i: usize = 0;
    assert(names_of(languages@).take(0) =~= Seq::<Seq<char>>::empty());
    assert(line@ =~= "Found Languages: "@ + Seq::<char>::empty());
    while i < languages.len()
        invariant
            i <= languages.len(),
            line@ == "Found Languages: "@ + joined(names_of(languages@).take(i as int), ", "@),
        decreases languages.len() - i,
    {
        let ghost names = names_of(languages@);
        let ghost before = joined(names.take(i as int), ", "@);
        assert(names.take(i + 1).drop_last() =~= names.take(i as int));
        assert(names.take(i + 1).last() == languages@[i as int].name@);
        if i > 0 {
            line.append(", ");
        }
        line.append(languages[i].name.as_str());
        assert(line@ =~= "Found Languages: "@ + joined(names.take(i + 1), ", "@)) by {
            if i == 0 {
                assert(before =~= Seq::<char>::empty());
                assert(names.take(1)[0] == languages@[0].name@);
            }
        }
        i += 1;
    }
    assert(names_of(languages@).take(languages.len() as int) =~= names_of(languages@));
    line
}

/// A word to spell, as the data layer stores it.
#[derive(Debug)]
pub struct Word {
    pub id: u32,
    pub word: String,
    pub language_id: u32,
}

impl Default for Word {
    fn default() -> (word: Self)
        ensures
            word.id == 0,
            word.word@ == Seq::<char>::empty(),
            word.language_id == 0,
    {
        Word { id: 0, word: String::new(), language_id: 0 }
    }
}

impl Word {
    /// An empty word that belongs to no language.
    pub fn new() -> (word: Self)
        ensures
            word.id == 0,
            word.word@ == Seq::<char>::empty(),
            word.language_id == 0,
    {
        Word { id: 0, word: String::new(), language_id: 0 }
    }

    /// The word cleaned for play in `lang`: cut down to its first word, and
    /// without its diacritics where the language strips them. Fails where
    /// nothing is left.
    pub fn post_process(&self, lang: &Language) -> (res: Result<String, EmptyWordError>)
        ensures
            match res {
                Ok(text) => text@ == post_processed(self.word@, lang@) && text@.len() > 0,
                Err(_) => post_processed(self.word@, lang@).len() == 0,
            },
    {
        post_process(self.word.as_str(), lang)
    }

    /// The letters that seed the grid before distractors are added: those of
    /// the word, each once.
    pub fn letters_for_grid(&self) -> (letters: Vec<String>)
        ensures
            letters.deep_view() == distinct_of(units_of(decomposed(self.word@))),
            letters.deep_view().no_duplicates(),
    {
        let letters = decompose(self.word.clone());
        proof {
            crate::grid::lemma_fresh_units(units_of(decomposed(self.word@)), Seq::empty());
        }
        distinct_units(&unit_strings(&letters))
    }

    /// How many letters the word has.
    pub fn len(&self) -> (n: usize)
        ensures
            n == decomposed(self.word@).len(),
    {
        let letters = decompose(self.word.clone());
        letters.len()
    }

    /// Whether the word has no letter at all.
    pub fn is_empty(&self) -> (empty: bool)
        ensures
            empty == (decomposed(self.word@).len() == 0),
    {
        self.len() == 0
    }
}

} // verus!
