//! Fits the furigana of a word's dictionary form onto a conjugated form of
//! the same word.
//!
//! The annotation of the dictionary form is broken up into reading units,
//! the units are matched against the word from left to right, and what they
//! have become is written out again. Only the trailing kana may differ
//! between the two forms; kanji may also appear spelled out in kana. The two
//! verbs whose stem changes its reading are looked up instead.

pub mod align;
pub mod decompose;
pub mod exceptions;
pub mod fitting_error;
pub mod laws;
pub mod notation;
pub mod rebuild;
pub mod segment;
pub mod text;

use crate::align::{fit_furigana_onto_word, fit_units};
use crate::decompose::{break_up_furigana_into_singles, decomposed};
use crate::exceptions::{handle_irregular, irregular_furigana};
use crate::fitting_error::FittingError;
use crate::notation::{encoded, kanji_text, read_kanji_text, read_segments, segments_of};
use crate::rebuild::{convert_to_furigana, rebuild_segments};
use crate::segment::{AnnotatedSegment, Segment};
use vstd::prelude::*;

verus! {

/// The annotation that the segments of a dictionary form give to `word`, or
/// the reason why `word` cannot carry them.
pub open spec fn fitted_segments(word: Seq<char>, segments: Seq<AnnotatedSegment>) -> Result<
    Seq<char>,
    FittingError,
> {
    match fit_units(decomposed(segments), word) {
        Ok(fitted) => Ok(encoded(rebuild_segments(fitted))),
        Err(error) => Err(error),
    }
}

/// The outcome of fitting onto `word` an annotation that is written over
/// `written` and made of `segments`.
pub open spec fn fitted_furigana(
    word: Seq<char>,
    written: Seq<char>,
    segments: Seq<AnnotatedSegment>,
) -> Result<Seq<char>, FittingError> {
    match irregular_furigana(word, written) {
        Some(furigana) => Ok(furigana),
        None => fitted_segments(word, segments),
    }
}

/// The outcome of a call as a value of the model.
pub open spec fn outcome_view(result: Result<String, FittingError>) -> Result<
    Seq<char>,
    FittingError,
> {
    match result {
        Ok(furigana) => Ok(furigana@),
        Err(error) => Err(error),
    }
}

/// Fits the segments of a dictionary form onto `word` and writes the result
/// in the notation.
pub fn fit_segments(word: &str, segments: &Vec<Segment>) -> (result: Result<String, FittingError>)
    ensures
        outcome_view(result) == fitted_segments(word@, segments.deep_view()),
{
    let broken_up = break_up_furigana_into_singles(segments);
    match fit_furigana_onto_word(&broken_up, word) {
        Ok(fitted) => Ok(convert_to_furigana(fitted)),
        Err(error) => Err(error),
    }
}

/// Fits the furigana of a dictionary form, given in the notation, onto
/// `word`.
///
/// What the notation holds is read by `jp_utils`; the outcome is stated over
/// the word that it is written over and the segments that it is made of.
pub fn fit_furigana(word: &str, raw_furigana: &str) -> (result: Result<String, FittingError>)
    ensures
        outcome_view(result) == fitted_furigana(
            word@,
            kanji_text(raw_furigana@),
            segments_of(raw_furigana@),
        ),
{
    let written = read_kanji_text(raw_furigana);
    match handle_irregular(word, written.as_str()) {
        Some(furigana) => Ok(furigana),
        None => {
            let segments = read_segments(raw_furigana);
            fit_segments(word, &segments)
        },
    }
}

} // verus!
