//! The bracketed notation for furigana, `[漢字|かん|じ]` between plain kana,
//! as the `jp_utils` crate reads and writes it.
//!
//! Reading the notation is left to `jp_utils` and is not described here
//! beyond a name for what it yields. What `jp_utils` writes for a segment is
//! short enough to be stated in full.

use crate::segment::{AnnotatedSegment, ReadingUnit, Segment, SingleReadingSegment};
use jp_utils::furi::segment::encode::FuriEncoder;
use jp_utils::furi::segment::kanji::as_kanji::AsKanjiSegment;
use jp_utils::furi::segment::kanji::Kanji;
use jp_utils::furi::segment::{AsSegment, SegmentRef};
use jp_utils::furi::Furigana;
use vstd::prelude::*;

verus! {

/// The word that an annotation is written over: the text that
/// `Furigana::kanji_str` returns for it, which keeps kanji and kana and
/// leaves the readings out.
pub uninterp spec fn kanji_text(annotation: Seq<char>) -> Seq<char>;

/// The segments of an annotation: what `Furigana::segments` yields for it,
/// in order.
pub uninterp spec fn segments_of(annotation: Seq<char>) -> Seq<AnnotatedSegment>;

/// `readings` one after the other, with a bar between neighbours where
/// `barred` holds.
pub open spec fn joined(readings: Seq<Seq<char>>, barred: bool) -> Seq<char>
    decreases readings.len(),
{
    if readings.len() == 0 {
        Seq::empty()
    } else if readings.len() == 1 {
        readings[0]
    } else {
        joined(readings.drop_last(), barred) + (if barred {
            seq!['|']
        } else {
            Seq::empty()
        }) + readings.last()
    }
}

/// A kanji span as it is written: the literal and its readings between
/// brackets. The readings are told apart by bars only where there is exactly
/// one for each character of the literal.
pub open spec fn kanji_block(literal: Seq<char>, readings: Seq<Seq<char>>) -> Seq<char> {
    seq!['['] + literal + seq!['|'] + joined(readings, literal.len() == readings.len())
        + seq![']']
}

/// A segment as it is written.
pub open spec fn segment_text(segment: AnnotatedSegment) -> Seq<char> {
    match segment {
        AnnotatedSegment::Kana(text) => text,
        AnnotatedSegment::Kanji { literal, readings } => kanji_block(literal, readings),
    }
}

/// A sequence of segments as it is written.
pub open spec fn encoded(segments: Seq<AnnotatedSegment>) -> Seq<char>
    decreases segments.len(),
{
    if segments.len() == 0 {
        Seq::empty()
    } else {
        encoded(segments.drop_last()) + segment_text(segments.last())
    }
}

/// The reading units that a segment is made of. Kana are one unit. A kanji
/// span with one reading for each of its characters is one unit for each
/// character; any other span is a single unit that is read as all its
/// readings in a row.
pub open spec fn units_of(segment: AnnotatedSegment) -> Seq<ReadingUnit> {
    match segment {
        AnnotatedSegment::Kana(text) => seq![ReadingUnit::Kana(text)],
        AnnotatedSegment::Kanji { literal, readings } => {
            if literal.len() == readings.len() {
                Seq::new(
                    literal.len(),
                    |i: int| ReadingUnit::Kanji { kanji: seq![literal[i]], reading: readings[i] },
                )
            } else {
                seq![ReadingUnit::Kanji { kanji: literal, reading: joined(readings, false) }]
            }
        },
    }
}

/// Calls `Furigana::kanji_str` on `annotation`. The result is known only by
/// its name, [`kanji_text`].
#[verifier::external_body]
pub(crate) fn read_kanji_text(annotation: &str) -> (text: String)
    ensures
        text@ == kanji_text(annotation@),
{
    Furigana(annotation).kanji_str()
}

/// Collects what `Furigana::segments` yields for `annotation`, each segment
/// copied into a [`Segment`] with its literal and readings as they are. The
/// result is known only by its name, [`segments_of`].
#[verifier::external_body]
pub(crate) fn read_segments(annotation: &str) -> (segments: Vec<Segment>)
    ensures
        segments.deep_view() == segments_of(annotation@),
{
    Furigana(annotation).segments().map(
        |part| match part {
            SegmentRef::Kana(kana) => kana_segment(kana),
            SegmentRef::Kanji(kanji) => kanji_segment(kanji.literals(), kanji.readings()),
        },
    ).collect()
}

/// A segment of kana.
pub fn kana_segment(kana: &str) -> (segment: Segment)
    ensures
        segment@ == AnnotatedSegment::Kana(kana@),
{
    Segment::Kana(kana.to_owned())
}

/// A kanji span with its readings.
pub fn kanji_segment(literal: &str, readings: &[&str]) -> (segment: Segment)
    ensures
        segment@ == (AnnotatedSegment::Kanji {
            literal: literal@,
            readings: readings@.map_values(|reading: &str| reading@),
        }),
{
    let mut owned: Vec<String> = Vec::new();
    let mut i: usize = 0;
    while i < readings.len()
        invariant
            i <= readings.len(),
            owned.deep_view() == readings@.take(i as int).map_values(|reading: &str| reading@),
        decreases readings.len() - i,
    {
        let ghost before = owned.deep_view();
        owned.push(readings[i].to_owned());
        i += 1;
        proof {
            assert(readings@.take(i as int).map_values(|reading: &str| reading@) =~= before.push(
                readings@[i - 1]@,
            ));
        }
    }
    proof {
        assert(readings@.take(readings.len() as int) =~= readings@);
    }
    Segment::Kanji { literal: literal.to_owned(), readings: owned }
}

/// Collects what `AsSegment::reading_iter` yields for `segment`: one reading
/// without kanji for a kana segment; for a kanji span either each character
/// with its own reading, where the span has as many readings as characters
/// (`AsKanjiSegment::is_detailed`), or the whole literal with all its
/// readings in a row (`AsKanjiSegment::full_reading`).
#[verifier::external_body]
pub(crate) fn read_units(segment: &Segment) -> (units: Vec<SingleReadingSegment>)
    ensures
        units.deep_view() == units_of(segment@),
{
    let outside = match segment {
        Segment::Kana(text) => jp_utils::furi::segment::Segment::new_kana(text.clone()),
        Segment::Kanji { literal, readings } => {
            jp_utils::furi::segment::Segment::new_kanji(literal.clone(), readings)
        },
    };
    outside.reading_iter().map(|group| single_reading(group.kanji(), group.kana())).collect()
}

/// The unit that a reading stands for: kanji with their reading, or kana
/// alone.
pub fn single_reading(kanji: Option<&str>, kana: &str) -> (unit: SingleReadingSegment)
    ensures
        unit@ == match kanji {
            Some(literal) => ReadingUnit::Kanji { kanji: literal@, reading: kana@ },
            None => ReadingUnit::Kana(kana@),
        },
{
    match kanji {
        Some(literal) => SingleReadingSegment::Kanji {
            kanji: literal.to_owned(),
            reading: kana.to_owned(),
        },
        None => SingleReadingSegment::Kana(kana.to_owned()),
    }
}

/// Calls `FuriEncoder::write_kana`, which appends `kana` to `out` as it is.
#[verifier::external_body]
pub(crate) fn write_kana(out: &mut String, kana: &str)
    ensures
        final(out)@ == old(out)@ + kana@,
{
    FuriEncoder::new(out).write_kana(kana)
}

/// Calls `FuriEncoder::write_kanji`, which appends to `out` an opening
/// bracket, the literal, a bar, the readings and a closing bracket, and sets
/// the readings apart by bars where there are as many as the literal has
/// characters (`AsKanjiSegment::is_detailed`).
#[verifier::external_body]
pub(crate) fn write_kanji(out: &mut String, literal: &str, readings: &Vec<String>)
    ensures
        final(out)@ == old(out)@ + kanji_block(literal@, readings.deep_view()),
{
    FuriEncoder::new(out).write_kanji(Kanji::new(literal.to_string(), readings))
}

/// Writes `segments` in the notation.
pub fn encode(segments: &Vec<Segment>) -> (annotation: String)
    ensures
        annotation@ == encoded(segments.deep_view()),
{
    let mut annotation = String::new();
    let mut i: usize = 0;
    while i < segments.len()
        invariant
            i <= segments.len(),
            annotation@ == encoded(segments.deep_view().take(i as int)),
        decreases segments.len() - i,
    {
        proof {
            let taken = segments.deep_view().take(i + 1);
            assert(taken.drop_last() =~= segments.deep_view().take(i as int));
        }
        match &segments[i] {
            Segment::Kana(text) => write_kana(&mut annotation, text.as_str()),
            Segment::Kanji { literal, readings } => write_kanji(
                &mut annotation,
                literal.as_str(),
                readings,
            ),
        }
        i += 1;
    }
    proof {
        assert(segments.deep_view().take(segments.len() as int) =~= segments.deep_view());
    }
    annotation
}

} // verus!
