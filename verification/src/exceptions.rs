//! The two verbs whose stem is read differently from form to form, 来る and
//! 為る. Their furigana is not fitted but looked up: the form decides how
//! the stem is read, and what follows the stem is kept as it is written.

use crate::text::{chars_of, rest_from, same_text, skip_chars, starts_with};
use vstd::prelude::*;
use vstd::string::StringExecFns;

verus! {

/// The furigana of a word whose first character is the stem: `opening` holds
/// the bracket, the stem and the bar, then come the reading, the closing
/// bracket, and the word without its first character.
pub open spec fn stem_furigana(opening: Seq<char>, reading: Seq<char>, word: Seq<char>) -> Seq<
    char,
> {
    opening + reading + "]"@ + rest_from(word, 1)
}

/// How the stem of 来る is read in `word`: き before ま, て and た, and こ in
/// every other form.
pub open spec fn kuru_reading(word: Seq<char>) -> Seq<char> {
    if "来ま"@.is_prefix_of(word) || "来て"@.is_prefix_of(word) || "来た"@.is_prefix_of(word) {
        "き"@
    } else {
        "こ"@
    }
}

/// The furigana of `word` as a form of 来る.
pub open spec fn kuru_furigana(word: Seq<char>) -> Seq<char> {
    if word == "来る"@ {
        "[来|く]る"@
    } else {
        stem_furigana("[来|"@, kuru_reading(word), word)
    }
}

/// How the stem of 為る is read in `word`: し before ま, て, た and ろ, and さ
/// in every other form.
pub open spec fn suru_reading(word: Seq<char>) -> Seq<char> {
    if "為ま"@.is_prefix_of(word) || "為て"@.is_prefix_of(word) || "為た"@.is_prefix_of(word)
        || "為ろ"@.is_prefix_of(word) {
        "し"@
    } else {
        "さ"@
    }
}

/// The furigana of `word` as a form of 為る.
pub open spec fn suru_furigana(word: Seq<char>) -> Seq<char> {
    if word == "為る"@ {
        "[為|す]る"@
    } else {
        stem_furigana("[為|"@, suru_reading(word), word)
    }
}

/// The furigana that the irregular verbs give to `word`, where `written` is
/// the dictionary form of one of them; `None` for every other dictionary
/// form.
pub open spec fn irregular_furigana(word: Seq<char>, written: Seq<char>) -> Option<Seq<char>> {
    if written == "来る"@ {
        Some(kuru_furigana(word))
    } else if written == "為る"@ {
        Some(suru_furigana(word))
    } else {
        None
    }
}

/// Writes the furigana of a word whose first character is the stem.
fn annotate_stem(opening: &str, reading: &str, word: &str) -> (furigana: String)
    ensures
        furigana@ == stem_furigana(opening@, reading@, word@),
{
    let tail = skip_chars(word, 1);
    let mut furigana = String::from_str(opening);
    furigana.append(reading);
    furigana.append("]");
    furigana.append(tail.as_str());
    furigana
}

/// Returns the furigana of `word` as a form of 来る.
pub fn handle_kuru(word: &str) -> (furigana: String)
    ensures
        furigana@ == kuru_furigana(word@),
{
    if same_text(word, "来る") {
        return String::from_str("[来|く]る");
    }
    let chars = chars_of(word);
    let is_formal = starts_with(&chars, "来ま");
    let is_te_form = starts_with(&chars, "来て");
    let is_ta_form = starts_with(&chars, "来た");
    if is_formal || is_te_form || is_ta_form {
        return annotate_stem("[来|", "き", word);
    }
    annotate_stem("[来|", "こ", word)
}

/// Returns the furigana of `word` as a form of 為る.
pub fn handle_suru(word: &str) -> (furigana: String)
    ensures
        furigana@ == suru_furigana(word@),
{
    if same_text(word, "為る") {
        return String::from_str("[為|す]る");
    }
    let chars = chars_of(word);
    let is_formal = starts_with(&chars, "為ま");
    let is_te_form = starts_with(&chars, "為て");
    let is_ta_form = starts_with(&chars, "為た");
    let is_imperative = starts_with(&chars, "為ろ");
    if is_formal || is_te_form || is_ta_form || is_imperative {
        return annotate_stem("[為|", "し", word);
    }
    annotate_stem("[為|", "さ", word)
}

/// Looks `word` up among the forms of the irregular verbs, where `written`
/// is the dictionary form of one of them.
pub fn handle_irregular(word: &str, written: &str) -> (furigana: Option<String>)
    ensures
        match furigana {
            Some(text) => irregular_furigana(word@, written@) == Some(text@),
            None => irregular_furigana(word@, written@) is None,
        },
{
    if same_text(written, "来る") {
        return Some(handle_kuru(word));
    }
    if same_text(written, "為る") {
        return Some(handle_suru(word));
    }
    None
}

} // verus!
