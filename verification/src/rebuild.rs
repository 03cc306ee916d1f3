//! The re-encoder: merges fitted reading units back into the runs that the
//! notation is written in.

use crate::notation::{encode, encoded};
use crate::segment::{AnnotatedSegment, ReadingUnit, Segment, SingleReadingSegment};
use vstd::prelude::*;
use vstd::string::StringExecFns;

verus! {

/// The segment that a unit opens when it cannot join the run before it.
pub open spec fn opened_by(unit: ReadingUnit) -> AnnotatedSegment {
    match unit {
        ReadingUnit::Kana(text) => AnnotatedSegment::Kana(text),
        ReadingUnit::Kanji { kanji, reading } => AnnotatedSegment::Kanji {
            literal: kanji,
            readings: seq![reading],
        },
    }
}

/// `segments` with `unit` taken in at the end: kana lengthen a kana run,
/// kanji lengthen a kanji span and add their reading to it, and a unit of
/// the other kind closes the run and opens the next.
pub open spec fn absorb(segments: Seq<AnnotatedSegment>, unit: ReadingUnit) -> Seq<
    AnnotatedSegment,
> {
    if segments.len() == 0 {
        seq![opened_by(unit)]
    } else {
        match (segments.last(), unit) {
            (AnnotatedSegment::Kana(run), ReadingUnit::Kana(text)) => segments.drop_last().push(
                AnnotatedSegment::Kana(run + text),
            ),
            (
                AnnotatedSegment::Kanji { literal, readings },
                ReadingUnit::Kanji { kanji, reading },
            ) => segments.drop_last().push(
                AnnotatedSegment::Kanji {
                    literal: literal + kanji,
                    readings: readings.push(reading),
                },
            ),
            _ => segments.push(opened_by(unit)),
        }
    }
}

/// The segments that a sequence of units is written as: every maximal run of
/// kana units is one kana segment, every maximal run of kanji units one kanji
/// span that keeps one reading for each unit.
pub open spec fn rebuild_segments(units: Seq<ReadingUnit>) -> Seq<AnnotatedSegment>
    decreases units.len(),
{
    if units.len() == 0 {
        Seq::empty()
    } else {
        absorb(rebuild_segments(units.drop_last()), units.last())
    }
}

/// Merges reading units into segments.
pub fn rebuild(units: &Vec<SingleReadingSegment>) -> (segments: Vec<Segment>)
    ensures
        segments.deep_view() == rebuild_segments(units.deep_view()),
{
    let mut segments: Vec<Segment> = Vec::new();
    let mut i: usize = 0;
    while i < units.len()
        invariant
            i <= units.len(),
            segments.deep_view() == rebuild_segments(units.deep_view().take(i as int)),
        decreases units.len() - i,
    {
        proof {
            let taken = units.deep_view().take(i + 1);
            assert(taken.drop_last() =~= units.deep_view().take(i as int));
        }
        let open = segments.pop();
        match (open, &units[i]) {
            (Some(Segment::Kana(run)), SingleReadingSegment::Kana(text)) => {
                let mut run = run;
                run.append(text.as_str());
                segments.push(Segment::Kana(run));
            },
            (
                Some(Segment::Kanji { literal, readings }),
                SingleReadingSegment::Kanji { kanji, reading },
            ) => {
                let mut literal = literal;
                let mut readings = readings;
                let ghost old_readings = readings.deep_view();
                literal.append(kanji.as_str());
                readings.push(reading.clone());
                proof {
                    assert(readings.deep_view() =~= old_readings.push(reading@));
                }
                segments.push(Segment::Kanji { literal, readings });
            },
            (Some(closed), unit) => {
                segments.push(closed);
                segments.push(open_segment(unit));
            },
            (None, unit) => {
                segments.push(open_segment(unit));
            },
        }
        i += 1;
    }
    proof {
        assert(units.deep_view().take(units.len() as int) =~= units.deep_view());
    }
    segments
}

/// Writes fitted reading units in the notation.
pub fn convert_to_furigana(fitted: Vec<SingleReadingSegment>) -> (furigana: String)
    ensures
        furigana@ == encoded(rebuild_segments(fitted.deep_view())),
{
    let segments = rebuild(&fitted);
    encode(&segments)
}

/// The segment that `unit` opens.
fn open_segment(unit: &SingleReadingSegment) -> (segment: Segment)
    ensures
        segment@ == opened_by(unit@),
{
    match unit {
        SingleReadingSegment::Kana(text) => Segment::Kana(text.clone()),
        SingleReadingSegment::Kanji { kanji, reading } => {
            let mut readings: Vec<String> = Vec::new();
            readings.push(reading.clone());
            proof {
                assert(readings.deep_view() =~= seq![reading@]);
            }
            Segment::Kanji { literal: kanji.clone(), readings }
        },
    }
}

} // verus!
