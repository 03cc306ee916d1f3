//! What holds of every fitting.
//!
//! The laws come first. The lemmas that their proofs rest on follow them.

use crate::align::{fit_units, match_unit};
use crate::decompose::decomposed;
use crate::exceptions::irregular_furigana;
use crate::fitting_error::FittingError;
use crate::notation::{encoded, joined, kanji_text, segments_of, units_of};
use crate::rebuild::{absorb, opened_by, rebuild_segments};
use crate::segment::{surface_of, written, AnnotatedSegment, ReadingUnit};
use crate::{fitted_furigana, fitted_segments};
use vstd::prelude::*;

verus! {

/// Segments are in run-length form where no run is empty and no two
/// neighbours are of the same kind: every run is as long as it can be.
pub open spec fn in_run_length_form(segments: Seq<AnnotatedSegment>) -> bool {
    &&& forall|i: int| 0 <= i < segments.len() ==> (#[trigger] segments[i]).surface().len() > 0
    &&& forall|i: int|
        0 < i < segments.len() ==> (segments[i - 1] is Kana) != (#[trigger] segments[i] is Kana)
}

/// A segment as it comes back from its units: a kanji span whose readings
/// cannot be told apart keeps them as one.
pub open spec fn regrouped(segment: AnnotatedSegment) -> AnnotatedSegment {
    match segment {
        AnnotatedSegment::Kana(text) => segment,
        AnnotatedSegment::Kanji { literal, readings } => {
            if literal.len() == readings.len() {
                segment
            } else {
                AnnotatedSegment::Kanji { literal, readings: seq![joined(readings, false)] }
            }
        },
    }
}

/// What a fitting may make of a unit: nothing else, or kana in place of
/// kanji that are spelled out, or other kana in place of the kana that end the
/// word.
pub open spec fn fitted_from(unit: ReadingUnit, fitted: ReadingUnit, is_last: bool) -> bool {
    ||| fitted == unit
    ||| unit matches ReadingUnit::Kanji { kanji, reading } && fitted == ReadingUnit::Kana(reading)
    ||| is_last && unit is Kana && fitted is Kana
}

/// Every fitting ends in exactly one of four ways: with an annotation, or
/// with one of the three errors.
pub proof fn law_one_outcome(word: Seq<char>, written: Seq<char>, segments: Seq<AnnotatedSegment>)
    ensures
        ({
            let outcome = fitted_furigana(word, written, segments);
            let differs = outcome == Err::<Seq<char>, FittingError>(FittingError::FuriganaDiffers);
            let too_long = outcome == Err::<Seq<char>, FittingError>(FittingError::WordTooLong);
            let too_short = outcome == Err::<Seq<char>, FittingError>(FittingError::WordTooShort);
            &&& outcome is Ok || differs || too_long || too_short
            &&& !(outcome is Ok && (differs || too_long || too_short))
            &&& !(differs && too_long) && !(differs && too_short) && !(too_long && too_short)
        }),
{
}

/// A word is never refused as a form of one of the two irregular verbs.
pub proof fn law_irregular_verbs_always_fit(
    word: Seq<char>,
    written: Seq<char>,
    segments: Seq<AnnotatedSegment>,
)
    requires
        written == "来る"@ || written == "為る"@,
    ensures
        fitted_furigana(word, written, segments) is Ok,
{
}

/// An annotation that is written as its own segments are, in run-length
/// form, fits the word that it is written over and comes back unchanged.
///
/// Of the two irregular verbs only the dictionary annotation comes back:
/// their furigana is looked up, and whatever else was written over the
/// dictionary form is lost.
pub proof fn law_round_trip(annotation: Seq<char>, word: Seq<char>)
    requires
        word == kanji_text(annotation),
        word == surface_of(segments_of(annotation)),
        in_run_length_form(segments_of(annotation)),
        encoded(segments_of(annotation)) == annotation,
        word == "来る"@ ==> annotation == "[来|く]る"@,
        word == "為る"@ ==> annotation == "[為|す]る"@,
    ensures
        fitted_furigana(word, kanji_text(annotation), segments_of(annotation)) == Ok::<
            Seq<char>,
            FittingError,
        >(annotation),
{
    if irregular_furigana(word, word) is None {
        law_round_trip_segments(segments_of(annotation));
    }
}

/// Segments in run-length form fit the word that they are written over, and
/// are written out again as they were.
pub proof fn law_round_trip_segments(segments: Seq<AnnotatedSegment>)
    requires
        in_run_length_form(segments),
    ensures
        fitted_segments(surface_of(segments), segments) == Ok::<Seq<char>, FittingError>(
            encoded(segments),
        ),
{
    law_decomposing_keeps_text(segments);
    if segments.len() > 0 {
        lemma_decomposed_ends_in_text(segments);
    }
    law_units_fit_their_text(decomposed(segments));
    law_rebuild_decomposed(segments);
    lemma_encoded_regrouped(segments);
}

/// Units fit the text that they stand for, and are not changed by it,
/// unless the last of them stands for nothing: then the text ends before
/// that unit is reached.
pub proof fn law_units_fit_their_text(units: Seq<ReadingUnit>)
    ensures
        fit_units(units, written(units)) == if units.len() == 0 || units.last().surface().len()
            > 0 {
            Ok::<Seq<ReadingUnit>, FittingError>(units)
        } else {
            Err::<Seq<ReadingUnit>, FittingError>(FittingError::WordTooShort)
        },
    decreases units.len(),
{
    if units.len() == 0 {
        assert(units =~= Seq::<ReadingUnit>::empty());
    } else {
        let word = written(units);
        let first = units[0];
        let others = units.skip(1);
        lemma_written_front(units);
        law_units_fit_their_text(others);
        if word.len() > 0 {
            assert(match_unit(first, units.len() == 1, word) == Some((first, written(others))));
            assert(seq![first] + others =~= units);
        }
    }
}

/// A fitting keeps the units in their number and order, changes them only
/// as [`fitted_from`] allows, and what it returns stands for the word.
pub proof fn law_fitting_keeps_units(units: Seq<ReadingUnit>, word: Seq<char>)
    ensures
        fit_units(units, word) matches Ok(fitted) ==> {
            &&& fitted.len() == units.len()
            &&& written(fitted) == word
            &&& forall|i: int|
                0 <= i < units.len() ==> fitted_from(
                    #[trigger] units[i],
                    fitted[i],
                    i == units.len() - 1,
                )
        },
    decreases units.len(),
{
    if let Ok(fitted) = fit_units(units, word) {
        if units.len() > 0 {
            let others = units.skip(1);
            if let Some((first, rest)) = match_unit(units[0], units.len() == 1, word) {
                law_fitting_keeps_units(others, rest);
                lemma_written_front(fitted);
                assert(fitted.skip(1) =~= fit_units(others, rest)->Ok_0);
                assert forall|i: int| 0 <= i < units.len() implies fitted_from(
                    #[trigger] units[i],
                    fitted[i],
                    i == units.len() - 1,
                ) by {
                    if i > 0 {
                        assert(units[i] == others[i - 1]);
                    }
                }
            }
        }
    }
}

/// Breaking segments up into units keeps the text that they stand for.
pub proof fn law_decomposing_keeps_text(segments: Seq<AnnotatedSegment>)
    ensures
        written(decomposed(segments)) == surface_of(segments),
    decreases segments.len(),
{
    if segments.len() > 0 {
        law_decomposing_keeps_text(segments.drop_last());
        lemma_units_keep_text(segments.last());
        lemma_written_concat(decomposed(segments.drop_last()), units_of(segments.last()));
    }
}

/// The segments that units are merged into stand for the same text as the
/// units.
pub proof fn law_rebuild_keeps_text(units: Seq<ReadingUnit>)
    ensures
        surface_of(rebuild_segments(units)) == written(units),
    decreases units.len(),
{
    if units.len() > 0 {
        law_rebuild_keeps_text(units.drop_last());
        lemma_absorb_keeps_text(rebuild_segments(units.drop_last()), units.last());
    }
}

/// Segments in run-length form come back from their units one for one, each
/// as [`regrouped`] gives it.
pub proof fn law_rebuild_decomposed(segments: Seq<AnnotatedSegment>)
    requires
        in_run_length_form(segments),
    ensures
        rebuild_segments(decomposed(segments)) == segments.map_values(
            |segment: AnnotatedSegment| regrouped(segment),
        ),
    decreases segments.len(),
{
    if segments.len() > 0 {
        let front = segments.drop_last();
        let last = segments.last();
        assert(in_run_length_form(front));
        law_rebuild_decomposed(front);
        lemma_rebuild_concat(decomposed(front), units_of(last));
        lemma_absorb_segment(
            front.map_values(|segment: AnnotatedSegment| regrouped(segment)),
            last,
        );
    }
}

/// An annotation that has been fitted onto a word is written over that
/// word: it is what segments that stand for the word are written as.
pub proof fn law_fitted_annotation_spells_word(word: Seq<char>, segments: Seq<AnnotatedSegment>)
    ensures
        fitted_segments(word, segments) matches Ok(annotation) ==> exists|
            fitted: Seq<AnnotatedSegment>,
        |
            #![trigger encoded(fitted)]
            encoded(fitted) == annotation && surface_of(fitted) == word,
{
    if let Ok(units) = fit_units(decomposed(segments), word) {
        law_fitting_keeps_units(decomposed(segments), word);
        law_rebuild_keeps_text(units);
    }
}

proof fn lemma_written_concat(front: Seq<ReadingUnit>, back: Seq<ReadingUnit>)
    ensures
        written(front + back) == written(front) + written(back),
    decreases back.len(),
{
    if back.len() > 0 {
        assert((front + back).drop_last() =~= front + back.drop_last());
        lemma_written_concat(front, back.drop_last());
    }
}

proof fn lemma_written_one(unit: ReadingUnit)
    ensures
        written(seq![unit]) == unit.surface(),
{
    assert(seq![unit].drop_last() =~= Seq::<ReadingUnit>::empty());
    assert(written(Seq::<ReadingUnit>::empty()) + unit.surface() =~= unit.surface());
}

proof fn lemma_written_front(units: Seq<ReadingUnit>)
    requires
        units.len() > 0,
    ensures
        written(units) == units[0].surface() + written(units.skip(1)),
{
    assert(units =~= seq![units[0]] + units.skip(1));
    lemma_written_concat(seq![units[0]], units.skip(1));
    lemma_written_one(units[0]);
}

/// The units of the first `count` characters of a kanji span that has one
/// reading for each character.
spec fn character_units(literal: Seq<char>, readings: Seq<Seq<char>>, count: int) -> Seq<
    ReadingUnit,
> {
    Seq::new(
        count as nat,
        |i: int| ReadingUnit::Kanji { kanji: seq![literal[i]], reading: readings[i] },
    )
}

proof fn lemma_character_units_text(literal: Seq<char>, readings: Seq<Seq<char>>, count: int)
    requires
        0 <= count <= literal.len(),
    ensures
        written(character_units(literal, readings, count)) == literal.take(count),
    decreases count,
{
    if count > 0 {
        lemma_character_units_text(literal, readings, count - 1);
        assert(character_units(literal, readings, count).drop_last() =~= character_units(
            literal,
            readings,
            count - 1,
        ));
    }
}

/// The units of a segment stand for the text of the segment, and the last
/// of them stands for some text where the segment does.
proof fn lemma_units_keep_text(segment: AnnotatedSegment)
    ensures
        written(units_of(segment)) == segment.surface(),
        segment.surface().len() > 0 ==> units_of(segment).len() > 0 && units_of(
            segment,
        ).last().surface().len() > 0,
{
    match segment {
        AnnotatedSegment::Kana(text) => {
            lemma_written_one(ReadingUnit::Kana(text));
        },
        AnnotatedSegment::Kanji { literal, readings } => {
            if literal.len() == readings.len() {
                lemma_character_units_text(literal, readings, literal.len() as int);
            } else {
                lemma_written_one(
                    ReadingUnit::Kanji { kanji: literal, reading: joined(readings, false) },
                );
            }
        },
    }
}

proof fn lemma_decomposed_ends_in_text(segments: Seq<AnnotatedSegment>)
    requires
        segments.len() > 0,
        segments.last().surface().len() > 0,
    ensures
        decomposed(segments).len() > 0,
        decomposed(segments).last().surface().len() > 0,
{
    lemma_units_keep_text(segments.last());
}

/// `segments` with `units` taken in one after the other.
spec fn absorb_all(segments: Seq<AnnotatedSegment>, units: Seq<ReadingUnit>) -> Seq<
    AnnotatedSegment,
>
    decreases units.len(),
{
    if units.len() == 0 {
        segments
    } else {
        absorb(absorb_all(segments, units.drop_last()), units.last())
    }
}

proof fn lemma_rebuild_concat(front: Seq<ReadingUnit>, back: Seq<ReadingUnit>)
    ensures
        rebuild_segments(front + back) == absorb_all(rebuild_segments(front), back),
    decreases back.len(),
{
    if back.len() > 0 {
        assert((front + back).drop_last() =~= front + back.drop_last());
        lemma_rebuild_concat(front, back.drop_last());
    }
}

proof fn lemma_absorb_one(segments: Seq<AnnotatedSegment>, unit: ReadingUnit)
    ensures
        absorb_all(segments, seq![unit]) == absorb(segments, unit),
{
    assert(absorb_all(segments, seq![unit]) == absorb(
        absorb_all(segments, seq![unit].drop_last()),
        seq![unit].last(),
    ));
}

proof fn lemma_absorb_characters(
    segments: Seq<AnnotatedSegment>,
    literal: Seq<char>,
    readings: Seq<Seq<char>>,
    count: int,
)
    requires
        1 <= count <= literal.len(),
        literal.len() == readings.len(),
        segments.len() == 0 || segments.last() is Kana,
    ensures
        absorb_all(segments, character_units(literal, readings, count)) == segments.push(
            AnnotatedSegment::Kanji {
                literal: literal.take(count),
                readings: readings.take(count),
            },
        ),
    decreases count,
{
    let units = character_units(literal, readings, count);
    if count == 1 {
        assert(units =~= seq![units[0]]);
        lemma_absorb_one(segments, units[0]);
        assert(literal.take(1) =~= seq![literal[0]]);
        assert(readings.take(1) =~= seq![readings[0]]);
    } else {
        lemma_absorb_characters(segments, literal, readings, count - 1);
        assert(units.drop_last() =~= character_units(literal, readings, count - 1));
        assert(literal.take(count - 1) + seq![literal[count - 1]] =~= literal.take(count));
        assert(readings.take(count - 1).push(readings[count - 1]) =~= readings.take(count));
    }
}

/// A segment that stands for some text, taken in unit by unit behind a run
/// of the other kind, comes back as one segment.
proof fn lemma_absorb_segment(segments: Seq<AnnotatedSegment>, segment: AnnotatedSegment)
    requires
        segment.surface().len() > 0,
        segments.len() == 0 || (segments.last() is Kana) != (segment is Kana),
    ensures
        absorb_all(segments, units_of(segment)) == segments.push(regrouped(segment)),
{
    match segment {
        AnnotatedSegment::Kana(text) => {
            lemma_absorb_one(segments, ReadingUnit::Kana(text));
        },
        AnnotatedSegment::Kanji { literal, readings } => {
            if literal.len() == readings.len() {
                let count = literal.len() as int;
                lemma_absorb_characters(segments, literal, readings, count);
                assert(literal.take(count) =~= literal);
                assert(readings.take(count) =~= readings);
            } else {
                lemma_absorb_one(
                    segments,
                    ReadingUnit::Kanji { kanji: literal, reading: joined(readings, false) },
                );
            }
        },
    }
}

proof fn lemma_encoded_regrouped(segments: Seq<AnnotatedSegment>)
    ensures
        encoded(segments.map_values(|segment: AnnotatedSegment| regrouped(segment))) == encoded(
            segments,
        ),
    decreases segments.len(),
{
    if segments.len() > 0 {
        let regroup = |segment: AnnotatedSegment| regrouped(segment);
        lemma_encoded_regrouped(segments.drop_last());
        assert(segments.map_values(regroup).drop_last() =~= segments.drop_last().map_values(
            regroup,
        ));
    }
}

proof fn lemma_surface_push(front: Seq<AnnotatedSegment>, last: AnnotatedSegment)
    ensures
        surface_of(front.push(last)) == surface_of(front) + last.surface(),
{
    assert(front.push(last).drop_last() =~= front);
}

/// Taking a unit in adds the text that it stands for.
proof fn lemma_absorb_keeps_text(segments: Seq<AnnotatedSegment>, unit: ReadingUnit)
    ensures
        surface_of(absorb(segments, unit)) == surface_of(segments) + unit.surface(),
{
    let opened = opened_by(unit);
    if segments.len() == 0 {
        assert(seq![opened] =~= segments.push(opened));
        lemma_surface_push(segments, opened);
    } else {
        let front = segments.drop_last();
        match (segments.last(), unit) {
            (AnnotatedSegment::Kana(run), ReadingUnit::Kana(text)) => {
                lemma_surface_push(front, AnnotatedSegment::Kana(run + text));
            },
            (
                AnnotatedSegment::Kanji { literal, readings },
                ReadingUnit::Kanji { kanji, reading },
            ) => {
                lemma_surface_push(
                    front,
                    AnnotatedSegment::Kanji {
                        literal: literal + kanji,
                        readings: readings.push(reading),
                    },
                );
            },
            _ => {
                lemma_surface_push(segments, opened);
            },
        }
    }
}

} // verus!
