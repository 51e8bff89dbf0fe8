//! Choosing the secret word: from a fixed list, or from the text of a word
//! file with one candidate per line.

use rand::Rng;
use vstd::prelude::*;
use crate::text::{chars_of, string_of};

verus! {

/// Where the candidate words come from.
#[derive(Debug, PartialEq, Eq)]
pub enum WordSource {
    /// The fixed list of this library.
    BuiltIn,
    /// A text file, named by its path, with one candidate per line.
    FromFile(String),
}

/// Why no secret could be chosen.
#[derive(Debug, PartialEq, Eq)]
pub enum WordError {
    /// The word file could not be read; the field says why.
    IoError(String),
    /// The word file holds no line that can serve as a secret.
    EmptyWordList,
}

/// An ASCII letter, of either case.
pub open spec fn is_letter(c: char) -> bool {
    ('a' <= c && c <= 'z') || ('A' <= c && c <= 'Z')
}

/// A candidate is usable if it is not empty and made of ASCII letters only.
pub open spec fn valid_word(w: Seq<char>) -> bool {
    w.len() > 0 && forall|i: int| 0 <= i < w.len() ==> is_letter(#[trigger] w[i])
}

/// `valid_word` as a predicate value.
pub open spec fn usable() -> spec_fn(Seq<char>) -> bool {
    |w: Seq<char>| valid_word(w)
}

/// The pieces of `text` between its newline characters: one more than
/// there are newlines, so a text that ends in a newline has an empty last piece.
pub open spec fn lines(text: Seq<char>) -> Seq<Seq<char>>
    decreases text.len(),
{
    if text.len() == 0 {
        seq![Seq::<char>::empty()]
    } else {
        let before = lines(text.drop_last());
        if text.last() == '\n' {
            before.push(Seq::<char>::empty())
        } else {
            before.drop_last().push(before.last().push(text.last()))
        }
    }
}

/// The usable lines of `text`, in order.
pub open spec fn word_list(text: Seq<char>) -> Seq<Seq<char>> {
    lines(text).filter(usable())
}

/// The fixed list.
pub open spec fn built_in_list() -> Seq<Seq<char>> {
    seq!["bacon"@, "egg"@, "sausage"@, "klingon"@]
}

/// What each string of `words` holds.
pub open spec fn views(words: Seq<String>) -> Seq<Seq<char>> {
    Seq::new(words.len(), |i: int| words[i]@)
}

/// The candidates that a source offers, given what came of reading the
/// word file: `Ok` with its text, or `Err` with the cause. The fixed list
/// does not depend on the file.
pub open spec fn candidates(source: WordSource, file: Result<String, String>) -> Result<
    Seq<Seq<char>>,
    WordError,
> {
    match source {
        WordSource::BuiltIn => Ok(built_in_list()),
        WordSource::FromFile(_) => match file {
            Ok(text) => Ok(word_list(text@)),
            Err(cause) => Err(WordError::IoError(cause)),
        },
    }
}

/// `rand::Rng::gen_range(0, len)`, called on the thread-local generator
/// that `rand::thread_rng()` hands out. The contract claims only what the
/// method documents for every draw: the result lies in the half-open range,
/// so it is an index below `len`. Which index comes out is left open, and
/// two calls may differ. `len` must be positive, since the method panics on
/// an empty range. Not covered: `thread_rng` panics where the operating
/// system cannot seed the generator.
#[verifier::external_body]
fn random_index(len: usize) -> (index: usize)
    requires
        len > 0,
    ensures
        index < len,
{
    rand::thread_rng().gen_range(0, len)
}

/// Whether `c` is an ASCII letter.
pub fn is_letter_char(c: char) -> (b: bool)
    ensures
        b == is_letter(c),
{
    ('a' <= c && c <= 'z') || ('A' <= c && c <= 'Z')
}

fn all_letters(word: &Vec<char>) -> (valid: bool)
    ensures
        valid == valid_word(word@),
{
    if word.len() == 0 {
        return false;
    }
    let mut i: usize = 0;
    while i < word.len()
        invariant
            i <= word.len(),
            forall|j: int| 0 <= j < i ==> is_letter(#[trigger] word@[j]),
        decreases word.len() - i,
    {
        if !is_letter_char(word[i]) {
            return false;
        }
        i += 1;
    }
    true
}

/// Whether `word` can serve as a secret.
pub fn is_valid_word(word: &str) -> (valid: bool)
    ensures
        valid == valid_word(word@),
{
    let letters = chars_of(word);
    all_letters(&letters)
}

/// The usable lines of `word_list`, in the order in which they stand.
pub fn extract_words(word_list: String) -> (words: Vec<String>)
    ensures
        views(words@) == self::word_list(word_list@),
        forall|i: int| 0 <= i < words.len() ==> valid_word(#[trigger] words[i]@),
{
    let text = chars_of(word_list.as_str());
    let mut words: Vec<String> = Vec::new();
    let mut current: Vec<char> = Vec::new();
    let ghost mut done: Seq<Seq<char>> = Seq::empty();
    let mut i: usize = 0;
    while i < text.len()
        invariant
            i <= text.len(),
            lines(text@.take(i as int)) == done.push(current@),
            views(words@) == done.filter(usable()),
        decreases text.len() - i,
    {
        let c = text[i];
        proof {
            assert(text@.take(i + 1).drop_last() == text@.take(i as int));
            assert(done.push(current@).drop_last() == done);
        }
        if c == '\n' {
            proof {
                done.lemma_filter_push(current@, usable());
            }
            if all_letters(&current) {
                let word = string_of(&current);
                proof {
                    assert(views(words@.push(word)) == views(words@).push(current@));
                }
                words.push(word);
            }
            proof {
                done = done.push(current@);
            }
            current = Vec::new();
        } else {
            current.push(c);
        }
        i += 1;
    }
    proof {
        assert(text@.take(text@.len() as int) == text@);
        done.lemma_filter_push(current@, usable());
    }
    if all_letters(&current) {
        let word = string_of(&current);
        proof {
            assert(views(words@.push(word)) == views(words@).push(current@));
        }
        words.push(word);
    }
    proof {
        assert forall|i: int| 0 <= i < words.len() implies valid_word(#[trigger] words[i]@) by {
            assert(views(words@)[i] == words[i]@);
            lemma_word_list_usable(word_list@, i);
        }
    }
    words
}

/// The fixed list, as strings.
pub fn built_in_words() -> (words: Vec<String>)
    ensures
        views(words@) == built_in_list(),
{
    let mut words: Vec<String> = Vec::new();
    words.push("bacon".to_owned());
    words.push("egg".to_owned());
    words.push("sausage".to_owned());
    words.push("klingon".to_owned());
    words
}

/// Every word of the fixed list can serve as a secret.
pub proof fn lemma_built_in_words_usable()
    ensures
        built_in_list().len() == 4,
        forall|i: int| 0 <= i < built_in_list().len() ==> valid_word(#[trigger] built_in_list()[i]),
{
    reveal_strlit("bacon");
    reveal_strlit("egg");
    reveal_strlit("sausage");
    reveal_strlit("klingon");
}

/// Every entry of `word_list(text)` is a usable line of `text`.
pub proof fn lemma_word_list_usable(text: Seq<char>, i: int)
    requires
        0 <= i < word_list(text).len(),
    ensures
        valid_word(word_list(text)[i]),
        lines(text).contains(word_list(text)[i]),
{
    lines(text).lemma_filter_pred(usable(), i);
    lines(text).lemma_filter_contains_rev(usable(), word_list(text)[i]);
}

/// Whatever a source offers can serve as a secret.
pub proof fn lemma_candidates_usable(source: WordSource, file: Result<String, String>, i: int)
    requires
        candidates(source, file) is Ok,
        0 <= i < candidates(source, file)->Ok_0.len(),
    ensures
        valid_word(candidates(source, file)->Ok_0[i]),
{
    match source {
        WordSource::BuiltIn => {
            lemma_built_in_words_usable();
        },
        WordSource::FromFile(_) => {
            lemma_word_list_usable(file->Ok_0@, i);
        },
    }
}

/// The candidates of `source`: the fixed list, or the usable lines of the
/// word file, or the reason why the file could not be read.
pub fn load_words(source: WordSource, file: Result<String, String>) -> (words: Result<
    Vec<String>,
    WordError,
>)
    ensures
        match candidates(source, file) {
            Ok(list) => words is Ok && views(words->Ok_0@) == list,
            Err(e) => words == Err::<Vec<String>, WordError>(e),
        },
{
    match source {
        WordSource::BuiltIn => Ok(built_in_words()),
        WordSource::FromFile(_) => words_from_file(file),
    }
}

/// The usable lines of a word file, given what came of reading it.
pub fn words_from_file(file: Result<String, String>) -> (words: Result<Vec<String>, WordError>)
    ensures
        match file {
            Ok(text) => words is Ok && views(words->Ok_0@) == word_list(text@),
            Err(cause) => words == Err::<Vec<String>, WordError>(WordError::IoError(cause)),
        },
{
    match file {
        Ok(text) => Ok(extract_words(text)),
        Err(cause) => Err(WordError::IoError(cause)),
    }
}

/// The word at `index`.
pub fn word_at(words: &Vec<String>, index: usize) -> (word: String)
    requires
        index < words.len(),
    ensures
        word@ == words[index as int]@,
{
    words[index].clone()
}

/// One of `words`, drawn at random; `EmptyWordList` if and only if there is none.
pub fn select_random(words: &Vec<String>) -> (word: Result<String, WordError>)
    ensures
        words.len() == 0 ==> word == Err::<String, WordError>(WordError::EmptyWordList),
        words.len() > 0 ==> word is Ok && views(words@).contains(word->Ok_0@),
{
    if words.len() == 0 {
        return Err(WordError::EmptyWordList);
    }
    let index = random_index(words.len());
    let word = word_at(words, index);
    proof {
        assert(views(words@)[index as int] == word@);
    }
    Ok(word)
}

/// A secret drawn at random from the candidates of `source`. `file` is what
/// came of reading the word file, `Ok` with its text or `Err` with the
/// cause; it is consulted only for `WordSource::FromFile`. The fixed list
/// never fails; a file that could not be read gives `IoError` with the
/// cause, and a file without a usable line gives `EmptyWordList`.
pub fn choose_secret(source: WordSource, file: Result<String, String>) -> (secret: Result<
    String,
    WordError,
>)
    ensures
        match candidates(source, file) {
            Ok(list) => if list.len() == 0 {
                secret == Err::<String, WordError>(WordError::EmptyWordList)
            } else {
                secret is Ok && list.contains(secret->Ok_0@)
            },
            Err(e) => secret == Err::<String, WordError>(e),
        },
        source is BuiltIn ==> secret is Ok,
        secret is Ok ==> valid_word(secret->Ok_0@),
{
    let ghost offered = candidates(source, file);
    proof {
        lemma_built_in_words_usable();
    }
    match load_words(source, file) {
        Ok(words) => {
            let secret = select_random(&words);
            proof {
                if secret is Ok {
                    let list = offered->Ok_0;
                    let i = choose|i: int| 0 <= i < list.len() && list[i] == secret->Ok_0@;
                    lemma_candidates_usable(source, file, i);
                }
            }
            secret
        },
        Err(e) => Err(e),
    }
}

} // verus!
