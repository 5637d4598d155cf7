//! Dictionary substitution: every occurrence of a dictionary word is replaced
//! by its reading, the leftmost occurrence first and, among the words that
//! start there, the longest.
//!
//! An entry with an empty word matches nothing, and of the entries with one
//! word the first counts: the matcher is built of the entries that remain.

use aho_corasick::{AhoCorasickBuilder, BuildError, MatchKind};
use vstd::prelude::*;

verus! {

#[verifier::external_type_specification]
#[verifier::external_body]
pub struct ExBuildError(BuildError);

/// One dictionary entry: `word` is read aloud as `read_as`.
#[derive(Debug, Clone)]
pub struct DictEntry {
    pub word: String,
    pub read_as: String,
}

/// No matcher could be made of a dictionary: the automaton's construction
/// failed, and `reason` is its report.
#[derive(Debug)]
pub struct MatcherBuildError {
    pub reason: String,
}

/// Whether an automaton can be built of `words`: what
/// `AhoCorasickBuilder::build` decides, with leftmost-longest matching and
/// its other settings as they are by default.
pub uninterp spec fn matcher_built(words: Seq<Seq<char>>) -> bool;

/// Some entry of `dict` has an empty word.
pub open spec fn has_empty_word(dict: Seq<DictEntry>) -> bool {
    exists|i: int| 0 <= i < dict.len() && (#[trigger] dict[i]).word@.len() == 0
}

/// Two entries of `dict` have the same word.
pub open spec fn has_duplicate_word(dict: Seq<DictEntry>) -> bool {
    exists|i: int, j: int|
        0 <= i < j < dict.len() && (#[trigger] dict[i]).word@ == (#[trigger] dict[j]).word@
}

/// Some entry of `dict` has the word `word`.
pub open spec fn has_word(dict: Seq<DictEntry>, word: Seq<char>) -> bool {
    exists|i: int| 0 <= i < dict.len() && (#[trigger] dict[i]).word@ == word
}

/// Entry `j` has a word that is not empty and that no entry in front of it has.
pub open spec fn is_first_of_word(dict: Seq<DictEntry>, j: int) -> bool {
    &&& 0 <= j < dict.len()
    &&& dict[j].word@.len() > 0
    &&& !has_word(dict.take(j), dict[j].word@)
}

/// `entry` is an entry of `dict`, and the first with its word.
pub open spec fn stands_first(dict: Seq<DictEntry>, entry: DictEntry) -> bool {
    exists|j: int| #[trigger] is_first_of_word(dict, j) && dict[j] == entry
}

/// The entries that count, in their order: those with a word that is not
/// empty and that no earlier entry has.
pub open spec fn usable_entries(dict: Seq<DictEntry>) -> Seq<DictEntry>
    decreases dict.len(),
{
    if dict.len() == 0 {
        dict
    } else {
        let front = dict.drop_last();
        let entry = dict.last();
        if entry.word@.len() > 0 && !has_word(front, entry.word@) {
            usable_entries(front).push(entry)
        } else {
            usable_entries(front)
        }
    }
}

/// The words of `dict`, in its order.
pub open spec fn words_of(dict: Seq<DictEntry>) -> Seq<Seq<char>> {
    dict.map_values(|entry: DictEntry| entry.word@)
}

/// The substitution succeeds on `dict`: nothing in it counts, or an automaton
/// can be built of the words that count.
pub open spec fn dictionary_accepted(dict: Seq<DictEntry>) -> bool {
    usable_entries(dict).len() == 0 || matcher_built(words_of(usable_entries(dict)))
}

/// The word of entry `k` is not empty and `text` starts with it.
pub open spec fn word_matches(dict: Seq<DictEntry>, text: Seq<char>, k: int) -> bool {
    &&& 0 <= k < dict.len()
    &&& dict[k].word@.len() > 0
    &&& dict[k].word@.is_prefix_of(text)
}

/// Entry `k` matches at the start of `text`, and no entry that matches there
/// has a longer word.
pub open spec fn is_longest_match(dict: Seq<DictEntry>, text: Seq<char>, k: int) -> bool {
    &&& word_matches(dict, text, k)
    &&& forall|j: int| #[trigger]
        word_matches(dict, text, j) ==> dict[j].word@.len() <= dict[k].word@.len()
}

/// The entry whose word is the longest that `text` starts with, if there is one.
pub open spec fn longest_match(dict: Seq<DictEntry>, text: Seq<char>) -> Option<int> {
    if exists|k: int| is_longest_match(dict, text, k) {
        Some(choose|k: int| is_longest_match(dict, text, k))
    } else {
        None
    }
}

/// `text` with the dictionary applied from left to right: where a word
/// starts, the longest such word gives way to its reading and the scan goes
/// on behind it; elsewhere one character is kept.
pub open spec fn substituted(text: Seq<char>, dict: Seq<DictEntry>) -> Seq<char>
    decreases text.len(),
{
    if text.len() == 0 {
        text
    } else {
        match longest_match(dict, text) {
            Some(k) => dict[k].read_as@ + substituted(
                text.skip(dict[k].word@.len() as int),
                dict,
            ),
            None => seq![text[0]] + substituted(text.skip(1), dict),
        }
    }
}

/// Where no word occurs twice, at most one entry is the longest match.
pub proof fn lemma_longest_match_unique(dict: Seq<DictEntry>, text: Seq<char>, a: int, b: int)
    requires
        !has_duplicate_word(dict),
        is_longest_match(dict, text, a),
        is_longest_match(dict, text, b),
    ensures
        a == b,
        longest_match(dict, text) == Some(a),
{
    assert(word_matches(dict, text, a));
    assert(word_matches(dict, text, b));
    assert(dict[a].word@.len() == dict[b].word@.len());
    assert(dict[a].word@ =~= dict[b].word@);
    if a < b {
        assert(dict[a].word@ == dict[b].word@);
    } else if b < a {
        assert(dict[b].word@ == dict[a].word@);
    }
}

/// Among the entries that count no word is empty and none occurs twice, and
/// each of them is the first entry of the dictionary with its word.
pub proof fn lemma_usable_entries(dict: Seq<DictEntry>)
    ensures
        !has_empty_word(usable_entries(dict)),
        !has_duplicate_word(usable_entries(dict)),
        forall|k: int|
            0 <= k < usable_entries(dict).len() ==> stands_first(
                dict,
                #[trigger] usable_entries(dict)[k],
            ),
    decreases dict.len(),
{
    if dict.len() > 0 {
        let front = dict.drop_last();
        let entry = dict.last();
        let usable = usable_entries(dict);
        let before = usable_entries(front);
        lemma_usable_entries(front);
        assert forall|k: int| 0 <= k < before.len() implies stands_first(dict, #[trigger] before[k])
            && has_word(front, before[k].word@) by {
            assert(stands_first(front, before[k]));
            let j = choose|j: int| #[trigger] is_first_of_word(front, j) && front[j] == before[k];
            assert(front.take(j) == dict.take(j));
            assert(is_first_of_word(dict, j) && dict[j] == before[k]);
        }
        if entry.word@.len() > 0 && !has_word(front, entry.word@) {
            let last = dict.len() - 1;
            assert(dict.take(last) == front);
            assert(is_first_of_word(dict, last));
            assert forall|k: int| 0 <= k < usable.len() implies stands_first(
                dict,
                #[trigger] usable[k],
            ) by {
                if k < before.len() {
                    assert(usable[k] == before[k]);
                } else {
                    assert(is_first_of_word(dict, last) && dict[last] == usable[k]);
                }
            }
            assert forall|a: int, b: int| 0 <= a < b < usable.len() implies usable[a].word@
                != usable[b].word@ by {
                assert(usable[a] == before[a]);
                assert(has_word(front, before[a].word@));
                if b < before.len() {
                    assert(usable[b] == before[b]);
                }
            }
            assert forall|a: int| 0 <= a < usable.len() implies (#[trigger] usable[a]).word@.len()
                > 0 by {
                if a < before.len() {
                    assert(usable[a] == before[a]);
                }
            }
        }
    }
}

/// A word that occurs in `text` among the entries that count occurs there
/// among all entries.
pub proof fn lemma_usable_words_occur(dict: Seq<DictEntry>, text: Seq<char>)
    requires
        contains_word(usable_entries(dict), text),
    ensures
        contains_word(dict, text),
{
    lemma_usable_entries(dict);
    let usable = usable_entries(dict);
    let (i, k) = choose|i: int, k: int|
        0 <= i < text.len() && #[trigger] word_matches(usable, text.skip(i), k);
    assert(stands_first(dict, usable[k]));
    let j = choose|j: int| #[trigger] is_first_of_word(dict, j) && dict[j] == usable[k];
    assert(word_matches(dict, text.skip(i), j));
}

/// A text in which none of the dictionary's non-empty words occurs is left
/// as it is, whatever else the dictionary holds, and stays so when the
/// dictionary is applied again.
pub proof fn lemma_dictionary_without_words(text: Seq<char>, dict: Seq<DictEntry>)
    requires
        !contains_word(dict, text),
    ensures
        substituted(text, usable_entries(dict)) == text,
        substituted(substituted(text, usable_entries(dict)), usable_entries(dict)) == text,
{
    if contains_word(usable_entries(dict), text) {
        lemma_usable_words_occur(dict, text);
    }
    lemma_substitution_without_words(text, usable_entries(dict));
}

/// Some non-empty word of `dict` occurs somewhere in `text`.
pub open spec fn contains_word(dict: Seq<DictEntry>, text: Seq<char>) -> bool {
    exists|i: int, k: int| 0 <= i < text.len() && #[trigger] word_matches(dict, text.skip(i), k)
}

/// A text in which no dictionary word occurs is left as it is.
pub proof fn lemma_substitution_without_words(text: Seq<char>, dict: Seq<DictEntry>)
    requires
        !contains_word(dict, text),
    ensures
        substituted(text, dict) == text,
    decreases text.len(),
{
    if text.len() > 0 {
        assert(text.skip(0) == text);
        assert forall|k: int| !is_longest_match(dict, text, k) by {
            if is_longest_match(dict, text, k) {
                assert(word_matches(dict, text.skip(0), k));
            }
        }
        let rest = text.skip(1);
        assert forall|i: int, k: int| 0 <= i < rest.len() implies !word_matches(
            dict,
            rest.skip(i),
            k,
        ) by {
            assert(rest.skip(i) == text.skip(i + 1));
            if word_matches(dict, text.skip(i + 1), k) {
                assert(contains_word(dict, text));
            }
        }
        lemma_substitution_without_words(rest, dict);
        assert(seq![text[0]] + rest == text);
    }
}

/// Applying the dictionary a second time to a text that it left alone
/// changes nothing either.
pub proof fn lemma_substitution_idempotent_without_words(text: Seq<char>, dict: Seq<DictEntry>)
    requires
        !contains_word(dict, text),
    ensures
        substituted(substituted(text, dict), dict) == substituted(text, dict),
{
    lemma_substitution_without_words(text, dict);
}

/// With an empty dictionary every text is left as it is.
pub proof fn lemma_substitution_empty_dictionary(text: Seq<char>)
    ensures
        substituted(text, Seq::<DictEntry>::empty()) == text,
{
    lemma_substitution_without_words(text, Seq::<DictEntry>::empty());
}

/// Calls `AhoCorasickBuilder::build` with leftmost-longest matching on the
/// words of `dict`, and on success `AhoCorasick::replace_all` with the
/// readings. Assumed of the two: a failed construction is handed back as it
/// is; otherwise the result is `text` in which each non-overlapping match,
/// found from left to right, the longest at its place, is replaced by the
/// reading of the entry that matched. The words are neither empty nor
/// repeated, so at most one entry is the longest at a place. Whether the
/// construction succeeds depends on the words alone.
#[verifier::external_body]
fn replace_leftmost_longest(text: &str, dict: &Vec<DictEntry>) -> (res: Result<String, BuildError>)
    requires
        !has_empty_word(dict@),
        !has_duplicate_word(dict@),
    ensures
        res is Ok <==> matcher_built(words_of(dict@)),
        res matches Ok(replaced) ==> replaced@ == substituted(text@, dict@),
{
    let words: Vec<&String> = dict.iter().map(|entry| &entry.word).collect();
    let readings: Vec<&String> = dict.iter().map(|entry| &entry.read_as).collect();
    let matcher = AhoCorasickBuilder::new().match_kind(MatchKind::LeftmostLongest).build(words)?;
    Ok(matcher.replace_all(text, &readings))
}

/// Calls `to_string` on a `BuildError`: the report of a failed construction.
/// Nothing is assumed of the text.
#[verifier::external_body]
fn build_error_report(error: &BuildError) -> (res: String) {
    error.to_string()
}

/// Whether an entry in front of entry `at` has the same word.
fn word_occurs_before(dict: &Vec<DictEntry>, at: usize) -> (res: bool)
    requires
        at < dict.len(),
    ensures
        res == has_word(dict@.take(at as int), dict@[at as int].word@),
{
    let mut i: usize = 0;
    while i < at
        invariant
            i <= at < dict.len(),
            forall|k: int| 0 <= k < i ==> (#[trigger] dict@[k]).word@ != dict@[at as int].word@,
        decreases at - i,
    {
        if dict[i].word == dict[at].word {
            assert(dict@.take(at as int)[i as int] == dict@[i as int]);
            return true;
        }
        i += 1;
    }
    assert forall|k: int| 0 <= k < at implies (#[trigger] dict@.take(at as int)[k]).word@
        != dict@[at as int].word@ by {
        assert(dict@.take(at as int)[k] == dict@[k]);
    }
    false
}

/// The entries that count: those with a word that is not empty and that no
/// earlier entry has.
pub fn usable_dictionary(dict: &Vec<DictEntry>) -> (res: Vec<DictEntry>)
    ensures
        res@ == usable_entries(dict@),
        !has_empty_word(res@),
        !has_duplicate_word(res@),
{
    let mut usable: Vec<DictEntry> = Vec::new();
    let mut i: usize = 0;
    while i < dict.len()
        invariant
            i <= dict.len(),
            usable@ == usable_entries(dict@.take(i as int)),
        decreases dict.len() - i,
    {
        proof {
            assert(dict@.take(i + 1).drop_last() == dict@.take(i as int));
            assert(dict@.take(i + 1).last() == dict@[i as int]);
        }
        if !dict[i].word.as_str().is_empty() && !word_occurs_before(dict, i) {
            let entry = DictEntry { word: dict[i].word.clone(), read_as: dict[i].read_as.clone() };
            assert(entry == dict@[i as int]);
            usable.push(entry);
        }
        i += 1;
    }
    proof {
        assert(dict@.take(dict.len() as int) == dict@);
        lemma_usable_entries(dict@);
    }
    usable
}

/// What the substitution returns once the matcher's outcome is known: the
/// replaced text, or the construction's failure with its report.
pub fn conclude_substitution(
    outcome: Result<String, BuildError>,
) -> (res: Result<String, MatcherBuildError>)
    ensures
        match outcome {
            Ok(replaced) => res == Ok::<String, MatcherBuildError>(replaced),
            Err(_) => res is Err,
        },
{
    match outcome {
        Ok(replaced) => Ok(replaced),
        Err(error) => Err(MatcherBuildError { reason: build_error_report(&error) }),
    }
}

/// Replaces the dictionary's words in `text` by their readings.
///
/// Entries with an empty word, and entries whose word an earlier entry has,
/// do not count. The call fails exactly where the automaton cannot be built
/// of the words that count; with none of them it succeeds and returns the
/// text.
pub fn replace_words_on_dict(
    text: &str,
    dict: &Vec<DictEntry>,
) -> (res: Result<String, MatcherBuildError>)
    ensures
        res is Ok <==> dictionary_accepted(dict@),
        dict@.len() == 0 ==> res is Ok,
        res matches Ok(replaced) ==> replaced@ == substituted(text@, usable_entries(dict@)),
        res matches Ok(replaced) ==> !contains_word(dict@, text@) ==> replaced@ == text@,
{
    let usable = usable_dictionary(dict);
    proof {
        if !contains_word(dict@, text@) {
            lemma_dictionary_without_words(text@, dict@);
        }
    }
    if usable.len() == 0 {
        proof {
            lemma_substitution_empty_dictionary(text@);
            assert(usable@ == Seq::<DictEntry>::empty());
        }
        return Ok(text.to_owned());
    }
    conclude_substitution(replace_leftmost_longest(text, &usable))
}

} // verus!
