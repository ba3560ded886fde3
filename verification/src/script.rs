//! The script segmenter: turns a word into the grid units that it is spelled
//! and compared by. Hangeul syllables are taken apart into their jamo, Arabic
//! text loses its diacritics where the language says so, and everything else is
//! split into the characters of its first word.

use crate::database::{Language, LanguageView};
use crate::units::Unit;
use vstd::prelude::*;
use vstd::string::*;

verus! {

/// Whether `c` is a composed Hangeul syllable block.
pub open spec fn is_syllable(c: char) -> bool {
    0xAC00 <= c as u32 <= 0xD7A3
}

/// Whether `c` is one of the consonant and vowel letters of the Hangeul
/// compatibility jamo.
pub open spec fn is_jamo_letter(c: char) -> bool {
    0x3131 <= c as u32 <= 0x3163
}

/// Whether `c` is Korean writing: a syllable block or a single jamo letter.
pub open spec fn is_korean(c: char) -> bool {
    is_jamo_letter(c) || is_syllable(c)
}

/// Whether the syllable block `c` ends in a consonant.
pub open spec fn has_tail(c: char) -> bool {
    (c as u32 - 0xAC00) % 28 != 0
}

/// Whether `c` is one of the marks that are taken out of Arabic text.
pub open spec fn is_diacritic(c: char) -> bool {
    let code = c as u32;
    ||| 0x0610 <= code <= 0x0614
    ||| code == 0x0615
    ||| 0x0617 <= code <= 0x061A
    ||| code == 0x061C
    ||| code == 0x0640
    ||| 0x064B <= code <= 0x0652
    ||| 0x0653 <= code <= 0x0655
    ||| 0x0656 <= code <= 0x065F
    ||| code == 0x0660
    ||| 0x06D6 <= code <= 0x06ED
}

/// `text` without its diacritics.
pub open spec fn without_diacritics(text: Seq<char>) -> Seq<char> {
    text.filter(|c: char| !is_diacritic(c))
}

/// Whether `c` separates words: the characters that Unicode gives the property
/// `White_Space`.
pub open spec fn is_whitespace(c: char) -> bool {
    let code = c as u32;
    ||| 0x0009 <= code <= 0x000D
    ||| code == 0x0020
    ||| code == 0x0085
    ||| code == 0x00A0
    ||| code == 0x1680
    ||| 0x2000 <= code <= 0x200A
    ||| code == 0x2028
    ||| code == 0x2029
    ||| code == 0x202F
    ||| code == 0x205F
    ||| code == 0x3000
}

/// What a syllable block is made of: lead, vowel and, where it has one, tail.
pub type Jamo = (char, char, Option<char>);

/// What `hangeul::decompose` yields for `text`: for each character its jamo,
/// or nothing where the character is no syllable block.
pub uninterp spec fn hangeul_decomposed(text: Seq<char>) -> Seq<Option<Jamo>>;

/// `rustkorean::check_korean`: true of the twenty-one vowel and thirty
/// consonant letters of the compatibility jamo, which are the code points
/// U+3131 to U+3163, and of the syllable blocks U+AC00 to U+D7A3; false of
/// every other character.
#[verifier::external_body]
fn check_korean(c: char) -> (korean: bool)
    ensures
        korean == is_korean(c),
{
    rustkorean::check_korean(c)
}

/// `hangeul::decompose`, which decomposes character by character: one entry
/// for each character of `text`, in order. A syllable block yields its jamo,
/// with a tail exactly where its code point, counted from U+AC00, is no
/// multiple of 28; any other character yields an error, which is handed on
/// as `None`. Which jamo they are is not stated here.
#[verifier::external_body]
fn hangeul_blocks(text: &str) -> (blocks: Vec<Option<Jamo>>)
    ensures
        blocks@ == hangeul_decomposed(text@),
        blocks@.len() == text@.len(),
        forall|i: int|
            0 <= i < text@.len() ==> (#[trigger] blocks@[i] is Some <==> is_syllable(text@[i])),
        forall|i: int|
            0 <= i < text@.len() ==> (#[trigger] blocks@[i] matches Some(jamo) ==> (jamo.2 is Some
                <==> has_tail(text@[i]))),
{
    hangeul::decompose(text).into_iter().map(|block| block.ok()).collect()
}

/// `tashkil::remove`: the characters of `text` in order, those left out that
/// the crate counts as diacritics.
#[verifier::external_body]
fn remove_tashkil(text: &str) -> (cleaned: String)
    ensures
        cleaned@ == without_diacritics(text@),
{
    tashkil::remove(text).into_owned()
}

/// Whether `c` separates words.
pub fn separates_words(c: char) -> (white: bool)
    ensures
        white == is_whitespace(c),
{
    let code: u32 = c as u32;
    (0x0009 <= code && code <= 0x000D) || code == 0x0020 || code == 0x0085 || code == 0x00A0
        || code == 0x1680 || (0x2000 <= code && code <= 0x200A) || code == 0x2028 || code
        == 0x2029 || code == 0x202F || code == 0x205F || code == 0x3000
}

/// `String::push`: appends `c` to `text`.
#[verifier::external_body]
fn push_char(text: &mut String, c: char)
    ensures
        final(text)@ == old(text)@.push(c),
{
    text.push(c);
}

/// The characters of `text`.
pub fn chars_of(text: &str) -> (chars: Vec<char>)
    ensures
        chars@ == text@,
{
    let mut chars: Vec<char> = Vec::new();
    for c in it: text.chars()
        invariant
            it.seq() == text@,
            chars@ == text@.take(it.index() as int),
    {
        chars.push(c);
        assert(text@.take(it.index() + 1) =~= text@.take(it.index() as int).push(c));
    }
    assert(text@.take(text@.len() as int) =~= text@);
    chars
}

/// The string that `chars` spell.
pub fn string_of(chars: &Vec<char>) -> (text: String)
    ensures
        text@ == chars@,
{
    let mut text = String::new();
    let mut i: usize = 0;
    while i < chars.len()
        invariant
            i <= chars.len(),
            text@ == chars@.take(i as int),
        decreases chars.len() - i,
    {
        push_char(&mut text, chars[i]);
        assert(chars@.take(i + 1) =~= chars@.take(i as int).push(chars@[i as int]));
        i += 1;
    }
    assert(chars@.take(chars@.len() as int) =~= chars@);
    text
}

/// One unit for each character of `chars`.
pub open spec fn units_of(chars: Seq<char>) -> Seq<Unit> {
    Seq::new(chars.len(), |i: int| seq![chars[i]])
}

/// Splits `chars` into units, one character each, whatever its width in
/// bytes.
pub fn unit_strings(chars: &Vec<char>) -> (units: Vec<String>)
    ensures
        units.deep_view() == units_of(chars@),
{
    let mut units: Vec<String> = Vec::new();
    let mut i: usize = 0;
    while i < chars.len()
        invariant
            i <= chars.len(),
            units.len() == i,
            forall|j: int| 0 <= j < i ==> units.deep_view()[j] == seq![chars@[j]],
        decreases chars.len() - i,
    {
        let ghost before = units.deep_view();
        let mut unit = String::new();
        push_char(&mut unit, chars[i]);
        assert(unit@ =~= seq![chars@[i as int]]);
        units.push(unit);
        assert(units.deep_view() =~= before.push(seq![chars@[i as int]]));
        i += 1;
    }
    assert(units.deep_view() =~= units_of(chars@));
    units
}

/// Where the first word of `text` begins, looking from `from` on: the first
/// position that holds no whitespace, or the end of `text`.
pub open spec fn token_start(text: Seq<char>, from: int) -> int
    decreases text.len() - from,
{
    if 0 <= from < text.len() && is_whitespace(text[from]) {
        token_start(text, from + 1)
    } else {
        from
    }
}

/// Where the word that begins at `from` ends: the first position from there
/// that holds whitespace, or the end of `text`.
pub open spec fn token_end(text: Seq<char>, from: int) -> int
    decreases text.len() - from,
{
    if 0 <= from < text.len() && !is_whitespace(text[from]) {
        token_end(text, from + 1)
    } else {
        from
    }
}

/// The first whitespace-delimited word of `text`; empty where `text` holds
/// nothing but whitespace.
pub open spec fn first_token(text: Seq<char>) -> Seq<char> {
    let start = token_start(text, 0);
    text.subrange(start, token_end(text, start))
}

/// Whether `text` holds nothing but whitespace, if anything.
pub open spec fn is_blank(text: Seq<char>) -> bool {
    forall|i: int| 0 <= i < text.len() ==> is_whitespace(#[trigger] text[i])
}

/// The first word begins after whitespace only, and not past the end.
pub proof fn lemma_token_start(text: Seq<char>, from: int)
    requires
        0 <= from <= text.len(),
    ensures
        from <= token_start(text, from) <= text.len(),
        forall|i: int| from <= i < token_start(text, from) ==> is_whitespace(#[trigger] text[i]),
        token_start(text, from) < text.len() ==> !is_whitespace(text[token_start(text, from)]),
    decreases text.len() - from,
{
    if from < text.len() && is_whitespace(text[from]) {
        lemma_token_start(text, from + 1);
    }
}

/// The first word holds no whitespace, and ends at whitespace or at the end.
pub proof fn lemma_token_end(text: Seq<char>, from: int)
    requires
        0 <= from <= text.len(),
    ensures
        from <= token_end(text, from) <= text.len(),
        forall|i: int| from <= i < token_end(text, from) ==> !is_whitespace(#[trigger] text[i]),
        token_end(text, from) < text.len() ==> is_whitespace(text[token_end(text, from)]),
    decreases text.len() - from,
{
    if from < text.len() && !is_whitespace(text[from]) {
        lemma_token_end(text, from + 1);
    }
}

/// A text has no first word exactly when it is empty or whitespace only.
pub proof fn lemma_first_token_empty(text: Seq<char>)
    ensures
        first_token(text).len() == 0 <==> is_blank(text),
{
    let start = token_start(text, 0);
    lemma_token_start(text, 0);
    lemma_token_end(text, start);
    if start < text.len() {
        assert(!is_whitespace(text[start]));
        assert(token_end(text, start) == token_end(text, start + 1));
        lemma_token_end(text, start + 1);
    }
}

/// The first whitespace-delimited word of `chars`.
pub fn first_word(chars: &Vec<char>) -> (token: Vec<char>)
    ensures
        token@ == first_token(chars@),
{
    let mut start: usize = 0;
    while start < chars.len() && separates_words(chars[start])
        invariant
            start <= chars.len(),
            token_start(chars@, 0) == token_start(chars@, start as int),
        decreases chars.len() - start,
    {
        start += 1;
    }
    let mut token: Vec<char> = Vec::new();
    let mut end: usize = start;
    assert(chars@.subrange(start as int, end as int) =~= Seq::<char>::empty());
    while end < chars.len() && !separates_words(chars[end])
        invariant
            start <= end <= chars.len(),
            token_end(chars@, start as int) == token_end(chars@, end as int),
            token@ == chars@.subrange(start as int, end as int),
        decreases chars.len() - end,
    {
        token.push(chars[end]);
        assert(chars@.subrange(start as int, end + 1) =~= chars@.subrange(
            start as int,
            end as int,
        ).push(chars@[end as int]));
        end += 1;
    }
    token
}

/// The writing systems that the segmenter tells apart.
#[derive(Clone, Copy, Debug, PartialEq, Eq, Structural)]
pub enum ScriptKind {
    /// Syllable blocks, to be taken apart into jamo.
    Hangeul,
    /// Arabic text whose diacritics are to be taken out.
    Arabic,
    /// Anything else: one unit for each character.
    Plain,
}

/// Whether `text` begins with a Hangeul syllable block.
pub open spec fn starts_with_syllable(text: Seq<char>) -> bool {
    text.len() > 0 && is_syllable(text[0])
}

/// Whether words of `language` lose their diacritics: the language asks for
/// it and is written in Arabic script.
pub open spec fn strips_diacritics(language: LanguageView) -> bool {
    language.strip_diacritics && language.code == seq!['a', 'r']
}

/// Which rule applies to `word` in `language`. The word's own first character
/// comes first, the language second.
pub open spec fn script_kind(word: Seq<char>, language: LanguageView) -> ScriptKind {
    if starts_with_syllable(word) {
        ScriptKind::Hangeul
    } else if strips_diacritics(language) {
        ScriptKind::Arabic
    } else {
        ScriptKind::Plain
    }
}

/// Which rule applies to the word spelled by `chars` in `language`.
pub fn script_of(chars: &Vec<char>, language: &Language) -> (kind: ScriptKind)
    ensures
        kind == script_kind(chars@, language@),
{
    if chars.len() > 0 && check_korean(chars[0]) && chars[0] as u32 >= 0xAC00 {
        return ScriptKind::Hangeul;
    }
    if language.strip_diacritics {
        let code = chars_of(language.code.as_str());
        if code.len() == 2 && code[0] == 'a' && code[1] == 'r' {
            assert(code@ =~= seq!['a', 'r']);
            return ScriptKind::Arabic;
        }
    }
    ScriptKind::Plain
}

/// The letters of one decomposed character: the two or three jamo of a
/// syllable block, nothing for anything else.
pub open spec fn block_letters(block: Option<Jamo>) -> Seq<char> {
    match block {
        Some((lead, vowel, Some(tail))) => seq![lead, vowel, tail],
        Some((lead, vowel, None)) => seq![lead, vowel],
        None => Seq::empty(),
    }
}

/// The letters of `blocks`, in order.
pub open spec fn letters_of(blocks: Seq<Option<Jamo>>) -> Seq<char>
    decreases blocks.len(),
{
    if blocks.len() == 0 {
        Seq::empty()
    } else {
        letters_of(blocks.drop_last()) + block_letters(blocks.last())
    }
}

/// The jamo of every syllable block of `text`, in order. What is no syllable
/// block, a space for one, is dropped.
pub open spec fn jamo_letters(text: Seq<char>) -> Seq<char> {
    letters_of(hangeul_decomposed(text))
}

/// How many jamo one character stands for: three for a syllable block with a
/// tail, two for one without, none for anything else.
pub open spec fn block_len(c: char) -> nat {
    if !is_syllable(c) {
        0
    } else if has_tail(c) {
        3
    } else {
        2
    }
}

/// How many jamo the syllable blocks of `text` have between them.
pub open spec fn jamo_count(text: Seq<char>) -> nat
    decreases text.len(),
{
    if text.len() == 0 {
        0
    } else {
        jamo_count(text.drop_last()) + block_len(text.last())
    }
}

/// A text that holds a syllable block stands for two jamo at least.
pub proof fn lemma_jamo_count_of_syllable(text: Seq<char>, at: int)
    requires
        0 <= at < text.len(),
        is_syllable(text[at]),
    ensures
        jamo_count(text) >= 2,
    decreases text.len(),
{
    if at < text.len() - 1 {
        assert(text.drop_last()[at] == text[at]);
        lemma_jamo_count_of_syllable(text.drop_last(), at);
    }
}

/// Where each of `blocks` is the decomposition of the character of `text` in
/// its place, the blocks have as many letters between them as the text
/// stands for.
pub proof fn lemma_letters_count(blocks: Seq<Option<Jamo>>, text: Seq<char>)
    requires
        blocks.len() == text.len(),
        forall|i: int| 0 <= i < text.len() ==> (#[trigger] blocks[i] is Some <==> is_syllable(text[i])),
        forall|i: int|
            0 <= i < text.len() ==> (#[trigger] blocks[i] matches Some(jamo) ==> (jamo.2 is Some
                <==> has_tail(text[i]))),
    ensures
        letters_of(blocks).len() == jamo_count(text),
    decreases text.len(),
{
    if text.len() > 0 {
        let last = text.len() - 1;
        assert(blocks.last() == blocks[last]);
        assert(text.last() == text[last]);
        assert forall|i: int| 0 <= i < text.drop_last().len() implies (
        #[trigger] blocks.drop_last()[i] is Some <==> is_syllable(text.drop_last()[i])) by {
            assert(blocks.drop_last()[i] == blocks[i]);
        }
        assert forall|i: int| 0 <= i < text.drop_last().len() implies (
        #[trigger] blocks.drop_last()[i] matches Some(jamo) ==> (jamo.2 is Some <==> has_tail(
            text.drop_last()[i],
        ))) by {
            assert(blocks.drop_last()[i] == blocks[i]);
        }
        lemma_letters_count(blocks.drop_last(), text.drop_last());
    }
}

/// The letters of decomposed characters, lined up: lead, vowel and, where
/// there is one, tail of each syllable block. What was no syllable block
/// gives nothing.
pub fn flatten_blocks(blocks: &Vec<Option<Jamo>>) -> (letters: Vec<char>)
    ensures
        letters@ == letters_of(blocks@),
{
    let mut letters: Vec<char> = Vec::new();
    let mut i: usize = 0;
    assert(blocks@.take(0) =~= Seq::<Option<Jamo>>::empty());
    while i < blocks.len()
        invariant
            i <= blocks.len(),
            letters@ == letters_of(blocks@.take(i as int)),
        decreases blocks.len() - i,
    {
        let ghost before = letters@;
        let ghost upto = blocks@.take(i + 1);
        assert(upto.drop_last() =~= blocks@.take(i as int));
        assert(upto.last() == blocks@[i as int]);
        match blocks[i] {
            Some((lead, vowel, Some(tail))) => {
                letters.push(lead);
                letters.push(vowel);
                letters.push(tail);
                assert(letters@ =~= before + seq![lead, vowel, tail]);
            },
            Some((lead, vowel, None)) => {
                letters.push(lead);
                letters.push(vowel);
                assert(letters@ =~= before + seq![lead, vowel]);
            },
            None => {
                assert(letters@ =~= before + Seq::<char>::empty());
            },
        }
        i += 1;
    }
    assert(blocks@.take(blocks@.len() as int) =~= blocks@);
    letters
}

/// Takes every syllable block of `text` apart into its jamo. Other
/// characters are dropped. The result has two letters for each syllable block
/// without a tail and three for each with one.
pub fn hangeul_letters(text: &str) -> (letters: Vec<char>)
    ensures
        letters@ == jamo_letters(text@),
        letters@.len() == jamo_count(text@),
{
    let blocks = hangeul_blocks(text);
    proof {
        lemma_letters_count(blocks@, text@);
    }
    flatten_blocks(&blocks)
}

/// The word as it is spelled: a Hangeul word whole, any other word cut down
/// to its first whitespace-delimited token, Arabic text having lost its
/// diacritics before that.
pub open spec fn post_processed(word: Seq<char>, language: LanguageView) -> Seq<char> {
    match script_kind(word, language) {
        ScriptKind::Hangeul => word,
        ScriptKind::Arabic => first_token(without_diacritics(word)),
        ScriptKind::Plain => first_token(word),
    }
}

/// A word that gives nothing to spell: it is empty, or nothing is left of it
/// once it is cleaned.
#[derive(Clone, Copy, Debug, PartialEq, Eq, Structural)]
pub struct EmptyWordError;

impl EmptyWordError {
    /// What went wrong, in words.
    pub fn message(&self) -> (text: String)
        ensures
            text@ == "word should always have non-empty characters"@,
    {
        String::from_str("word should always have non-empty characters")
    }
}

/// Cleans `word` for play in `language`: multi-word phrases are cut down to
/// their first word, and Arabic text loses its diacritics before that, where
/// the language says so. A word that begins with a Hangeul syllable block is
/// kept whole. Fails on a word of which nothing is left.
pub fn post_process(word: &str, language: &Language) -> (res: Result<String, EmptyWordError>)
    ensures
        match res {
            Ok(text) => text@ == post_processed(word@, language@) && text@.len() > 0,
            Err(_) => post_processed(word@, language@).len() == 0,
        },
{
    let chars = chars_of(word);
    let cleaned = match script_of(&chars, language) {
        ScriptKind::Hangeul => chars,
        ScriptKind::Arabic => {
            let stripped = remove_tashkil(word);
            first_word(&chars_of(stripped.as_str()))
        },
        ScriptKind::Plain => first_word(&chars),
    };
    if cleaned.len() == 0 {
        Err(EmptyWordError)
    } else {
        Ok(string_of(&cleaned))
    }
}

/// The letters of a cleaned text: the jamo of its syllable blocks where it
/// begins with one, its characters otherwise.
pub open spec fn decomposed(text: Seq<char>) -> Seq<char> {
    if starts_with_syllable(text) {
        jamo_letters(text)
    } else {
        text
    }
}

/// Splits a cleaned word into its letters. A word that begins with a Hangeul
/// syllable block is taken apart into jamo, two for a block without a tail
/// and three for one with; any other word gives its characters.
pub fn decompose(word: String) -> (letters: Vec<char>)
    ensures
        letters@ == decomposed(word@),
        starts_with_syllable(word@) ==> letters@.len() == jamo_count(word@) && letters@.len() >= 2,
{
    let chars = chars_of(word.as_str());
    if chars.len() > 0 && check_korean(chars[0]) && chars[0] as u32 >= 0xAC00 {
        proof {
            lemma_jamo_count_of_syllable(word@, 0);
        }
        hangeul_letters(word.as_str())
    } else {
        chars
    }
}

/// The grid units of `word` in `language`: the jamo of a Hangeul word, the
/// characters of the first word of anything else.
pub open spec fn segmented(word: Seq<char>, language: LanguageView) -> Seq<Unit> {
    match script_kind(word, language) {
        ScriptKind::Hangeul => units_of(jamo_letters(word)),
        _ => units_of(post_processed(word, language)),
    }
}

/// No unit of `units` holds a diacritic.
pub open spec fn free_of_diacritics(units: Seq<Unit>) -> bool {
    forall|i: int, j: int|
        0 <= i < units.len() && 0 <= j < units[i].len() ==> !is_diacritic(#[trigger] units[i][j])
}

/// Where the diacritics are taken out of a word, none is left in its units,
/// whatever the word held.
pub proof fn lemma_segmented_free_of_diacritics(word: Seq<char>, language: LanguageView)
    requires
        script_kind(word, language) == ScriptKind::Arabic,
    ensures
        free_of_diacritics(segmented(word, language)),
{
    broadcast use vstd::seq_lib::group_filter_ensures;

    let keep = |c: char| !is_diacritic(c);
    let cleaned = without_diacritics(word);
    let start = token_start(cleaned, 0);
    lemma_token_start(cleaned, 0);
    lemma_token_end(cleaned, start);
    let token = first_token(cleaned);
    let units = segmented(word, language);
    assert forall|i: int, j: int|
        0 <= i < units.len() && 0 <= j < units[i].len() implies !is_diacritic(
        #[trigger] units[i][j],
    ) by {
        assert(units[i] == seq![token[i]]);
        assert(token[i] == cleaned[start + i]);
        assert(keep(word.filter(keep)[start + i]));
    }
}

/// A word that is empty or holds whitespace only gives no unit, whatever the
/// language.
pub proof fn lemma_blank_gives_no_unit(word: Seq<char>, language: LanguageView)
    requires
        is_blank(word),
    ensures
        segmented(word, language).len() == 0,
{
    if word.len() > 0 {
        assert(is_whitespace(word[0]));
    }
    match script_kind(word, language) {
        ScriptKind::Hangeul => {},
        ScriptKind::Arabic => {
            let keep = |c: char| !is_diacritic(c);
            let cleaned = without_diacritics(word);
            assert forall|i: int| 0 <= i < cleaned.len() implies is_whitespace(
                #[trigger] cleaned[i],
            ) by {
                assert(word.filter(keep).contains(cleaned[i]));
                word.lemma_filter_contains_rev(keep, cleaned[i]);
                let k = choose|k: int| 0 <= k < word.len() && word[k] == cleaned[i];
                assert(is_whitespace(word[k]));
            }
            lemma_first_token_empty(cleaned);
        },
        ScriptKind::Plain => {
            lemma_first_token_empty(word);
        },
    }
}

/// Turns `word` into the grid units that a round of `language` is played
/// with. This is the one place that says what the units of a word are: the
/// grid is built from its result and the player's input is compared with it.
///
/// A word that begins with a Hangeul syllable block gives the jamo of all its
/// syllable blocks. Any other word gives the characters of its first
/// whitespace-delimited token, one unit each; where the language strips
/// diacritics and is Arabic, they are taken out first. A word that gives no
/// unit at all is refused.
pub fn segment(word: &str, language: &Language) -> (res: Result<Vec<String>, EmptyWordError>)
    ensures
        match res {
            Ok(units) => units.deep_view() == segmented(word@, language@) && units.len() > 0,
            Err(_) => segmented(word@, language@).len() == 0,
        },
        script_kind(word@, language@) == ScriptKind::Hangeul ==> res is Ok && res->Ok_0.len()
            == jamo_count(word@),
        script_kind(word@, language@) == ScriptKind::Arabic ==> (res is Err <==> is_blank(
            without_diacritics(word@),
        )),
        script_kind(word@, language@) == ScriptKind::Arabic && res is Ok ==> free_of_diacritics(
            res->Ok_0.deep_view(),
        ),
        script_kind(word@, language@) == ScriptKind::Plain ==> (res is Err <==> is_blank(word@)),
        is_blank(word@) ==> res is Err,
{
    let chars = chars_of(word);
    let letters = match script_of(&chars, language) {
        ScriptKind::Hangeul => {
            proof {
                lemma_jamo_count_of_syllable(word@, 0);
            }
            hangeul_letters(word)
        },
        ScriptKind::Arabic => {
            proof {
                lemma_first_token_empty(without_diacritics(word@));
                lemma_segmented_free_of_diacritics(word@, language@);
            }
            let stripped = remove_tashkil(word);
            first_word(&chars_of(stripped.as_str()))
        },
        ScriptKind::Plain => {
            proof {
                lemma_first_token_empty(word@);
            }
            first_word(&chars)
        },
    };
    assert(is_blank(word@) ==> segmented(word@, language@).len() == 0) by {
        if is_blank(word@) {
            lemma_blank_gives_no_unit(word@, language@);
        }
    }
    if letters.len() == 0 {
        Err(EmptyWordError)
    } else {
        Ok(unit_strings(&letters))
    }
}

} // verus!
