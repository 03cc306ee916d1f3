//! The greedy aligner: matches the reading units of a dictionary form
//! against a written word, from left to right.

use crate::fitting_error::FittingError;
use crate::segment::{ReadingUnit, SingleReadingSegment};
use crate::text::{chars_of, match_at, rest_from, skip_chars};
use vstd::prelude::*;

verus! {

/// What `unit` becomes when it is matched at the head of `remaining`, paired
/// with what is left of `remaining` behind it; `None` where it does not match.
///
/// Kanji match as written, or else spelled out by their reading, which makes
/// the unit kana. Kana match as written; only in the last unit of a word they
/// take whatever is left, because conjugation changes the trailing kana.
pub open spec fn match_unit(unit: ReadingUnit, is_last: bool, remaining: Seq<char>) -> Option<
    (ReadingUnit, Seq<char>),
> {
    match unit {
        ReadingUnit::Kanji { kanji, reading } => {
            if kanji.is_prefix_of(remaining) {
                Some((unit, remaining.skip(kanji.len() as int)))
            } else if reading.is_prefix_of(remaining) {
                Some((ReadingUnit::Kana(reading), remaining.skip(reading.len() as int)))
            } else {
                None
            }
        },
        ReadingUnit::Kana(text) => {
            if is_last {
                Some((ReadingUnit::Kana(remaining), Seq::empty()))
            } else if text.is_prefix_of(remaining) {
                Some((unit, remaining.skip(text.len() as int)))
            } else {
                None
            }
        },
    }
}

/// `rest` with the units `done` put in front of what it fitted.
pub open spec fn fitted_after(
    done: Seq<ReadingUnit>,
    rest: Result<Seq<ReadingUnit>, FittingError>,
) -> Result<Seq<ReadingUnit>, FittingError> {
    match rest {
        Ok(more) => Ok(done + more),
        Err(error) => Err(error),
    }
}

/// The units of a dictionary form fitted onto `word`, or the reason why
/// `word` cannot carry them.
///
/// The units are taken in order. A unit that finds nothing left of the word
/// makes the word too short; one that does not match makes the furigana
/// differ; text left over behind the last unit makes the word too long.
pub open spec fn fit_units(units: Seq<ReadingUnit>, word: Seq<char>) -> Result<
    Seq<ReadingUnit>,
    FittingError,
>
    decreases units.len(),
{
    if units.len() == 0 {
        if word.len() == 0 {
            Ok(Seq::empty())
        } else {
            Err(FittingError::WordTooLong)
        }
    } else if word.len() == 0 {
        Err(FittingError::WordTooShort)
    } else {
        match match_unit(units[0], units.len() == 1, word) {
            None => Err(FittingError::FuriganaDiffers),
            Some((unit, rest)) => fitted_after(seq![unit], fit_units(units.skip(1), rest)),
        }
    }
}

/// The outcome of a fitting as a value of the model.
pub open spec fn fitting_view(result: Result<Vec<SingleReadingSegment>, FittingError>) -> Result<
    Seq<ReadingUnit>,
    FittingError,
> {
    match result {
        Ok(fitted) => Ok(fitted.deep_view()),
        Err(error) => Err(error),
    }
}

/// Fits the reading units of a dictionary form onto `word`.
pub fn fit_furigana_onto_word(furigana: &Vec<SingleReadingSegment>, word: &str) -> (result: Result<
    Vec<SingleReadingSegment>,
    FittingError,
>)
    ensures
        fitting_view(result) == fit_units(furigana.deep_view(), word@),
{
    let chars = chars_of(word);
    let mut fitted: Vec<SingleReadingSegment> = Vec::new();
    let mut pos: usize = 0;
    let mut i: usize = 0;
    proof {
        assert(furigana.deep_view().skip(0) =~= furigana.deep_view());
        assert(rest_from(chars@, 0) =~= word@);
    }
    while i < furigana.len()
        invariant
            i <= furigana.len(),
            pos <= chars.len(),
            chars@ == word@,
            fit_units(furigana.deep_view(), word@) == fitted_after(
                fitted.deep_view(),
                fit_units(furigana.deep_view().skip(i as int), rest_from(chars@, pos as int)),
            ),
        decreases furigana.len() - i,
    {
        let ghost units = furigana.deep_view().skip(i as int);
        let ghost remaining = rest_from(chars@, pos as int);
        let ghost done = fitted.deep_view();
        proof {
            assert(units.skip(1) =~= furigana.deep_view().skip(i + 1));
        }
        if pos == chars.len() {
            return Err(FittingError::WordTooShort);
        }
        let unit = match &furigana[i] {
            SingleReadingSegment::Kanji { kanji, reading } => {
                match match_at(&chars, pos, kanji.as_str()) {
                    Some(end) => {
                        pos = end;
                        furigana[i].clone()
                    },
                    None => match match_at(&chars, pos, reading.as_str()) {
                        Some(end) => {
                            pos = end;
                            SingleReadingSegment::Kana(reading.clone())
                        },
                        None => {
                            return Err(FittingError::FuriganaDiffers);
                        },
                    },
                }
            },
            SingleReadingSegment::Kana(reading) => {
                if i == furigana.len() - 1 {
                    let rest = skip_chars(word, pos);
                    pos = chars.len();
                    SingleReadingSegment::Kana(rest)
                } else {
                    match match_at(&chars, pos, reading.as_str()) {
                        Some(end) => {
                            pos = end;
                            furigana[i].clone()
                        },
                        None => {
                            return Err(FittingError::FuriganaDiffers);
                        },
                    }
                }
            },
        };
        proof {
            let left = rest_from(chars@, pos as int);
            if let Some((_, rest)) = match_unit(units[0], units.len() == 1, remaining) {
                assert(rest =~= left);
            }
            lemma_fitted_after_push(done, unit@, fit_units(units.skip(1), left));
        }
        fitted.push(unit);
        i += 1;
        proof {
            assert(fitted.deep_view() =~= done.push(unit@));
        }
    }
    if pos < chars.len() {
        return Err(FittingError::WordTooLong);
    }
    Ok(fitted)
}

proof fn lemma_fitted_after_push(
    done: Seq<ReadingUnit>,
    unit: ReadingUnit,
    rest: Result<Seq<ReadingUnit>, FittingError>,
)
    ensures
        fitted_after(done, fitted_after(seq![unit], rest)) == fitted_after(done.push(unit), rest),
{
    if let Ok(more) = rest {
        assert(done + (seq![unit] + more) =~= done.push(unit) + more);
    }
}

} // verus!
