//! Text as a sequence of Unicode scalar values.
//!
//! Every comparison and every count in this crate is made on characters,
//! never on bytes. A word that is being matched is held as a `Vec<char>`
//! together with the position up to which it has been consumed.

use vstd::prelude::*;
use vstd::string::StrSliceExecFns;

verus! {

/// What is left of `text` from position `start` on; nothing where `start`
/// lies behind its end.
pub open spec fn rest_from(text: Seq<char>, start: int) -> Seq<char> {
    if 0 <= start <= text.len() {
        text.subrange(start, text.len() as int)
    } else {
        Seq::empty()
    }
}

/// The characters of `text`, in order.
pub fn chars_of(text: &str) -> (chars: Vec<char>)
    ensures
        chars@ == text@,
{
    let mut chars: Vec<char> = Vec::new();
    for c in it: text.chars()
        invariant
            it.seq() == text@,
            chars@ == it.seq().take(it.index() as int),
    {
        chars.push(c);
    }
    chars
}

/// Tests whether `pattern` stands in `word` at position `start`, and returns
/// the position behind it if it does.
pub(crate) fn match_at(word: &Vec<char>, start: usize, pattern: &str) -> (end: Option<usize>)
    requires
        start <= word.len(),
    ensures
        end is Some <==> pattern@.is_prefix_of(rest_from(word@, start as int)),
        end matches Some(e) ==> e == start + pattern@.len() && e <= word.len(),
{
    let mut pos: usize = start;
    for c in it: pattern.chars()
        invariant
            it.seq() == pattern@,
            start <= pos <= word.len(),
            pos == start + it.index(),
            it.seq().take(it.index() as int) == word@.subrange(start as int, pos as int),
    {
        if pos >= word.len() || word[pos] != c {
            return None;
        }
        pos += 1;
    }
    Some(pos)
}

/// Tests whether `word` begins with `pattern`.
pub fn starts_with(word: &Vec<char>, pattern: &str) -> (begins: bool)
    ensures
        begins == pattern@.is_prefix_of(word@),
{
    match_at(word, 0, pattern).is_some()
}

/// Tests whether two texts hold the same characters.
pub fn same_text(left: &str, right: &str) -> (same: bool)
    ensures
        same == (left@ == right@),
{
    let chars = chars_of(left);
    match match_at(&chars, 0, right) {
        Some(end) => {
            proof {
                if end == chars.len() {
                    assert(right@ =~= left@);
                }
            }
            end == chars.len()
        },
        None => false,
    }
}

/// The text that follows the first `start` characters of `text`; empty where
/// `text` has fewer.
pub fn skip_chars(text: &str, start: usize) -> (rest: String)
    ensures
        rest@ == rest_from(text@, start as int),
{
    let len = text.unicode_len();
    if start <= len {
        text.substring_char(start, len).to_owned()
    } else {
        String::new()
    }
}

} // verus!
