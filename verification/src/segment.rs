//! The two shapes in which furigana is held: reading units, the atoms that
//! are matched against a word, and segments, the runs that the notation is
//! written in.

use vstd::prelude::*;

verus! {

/// The smallest piece of furigana that is matched as a whole.
pub enum ReadingUnit {
    /// A run of kana that annotates nothing.
    Kana(Seq<char>),
    /// Kanji that are read together, with their reading in kana.
    Kanji { kanji: Seq<char>, reading: Seq<char> },
}

impl ReadingUnit {
    /// The characters that the unit stands for in a written word.
    pub open spec fn surface(self) -> Seq<char> {
        match self {
            ReadingUnit::Kana(text) => text,
            ReadingUnit::Kanji { kanji, reading } => kanji,
        }
    }
}

/// A run of the notation: kana, or a span of kanji with the readings of its
/// groups in order.
pub enum AnnotatedSegment {
    Kana(Seq<char>),
    Kanji { literal: Seq<char>, readings: Seq<Seq<char>> },
}

impl AnnotatedSegment {
    /// The characters that the segment stands for in a written word.
    pub open spec fn surface(self) -> Seq<char> {
        match self {
            AnnotatedSegment::Kana(text) => text,
            AnnotatedSegment::Kanji { literal, readings } => literal,
        }
    }
}

/// The text that a sequence of units stands for in a written word.
pub open spec fn written(units: Seq<ReadingUnit>) -> Seq<char>
    decreases units.len(),
{
    if units.len() == 0 {
        Seq::empty()
    } else {
        written(units.drop_last()) + units.last().surface()
    }
}

/// The text that a sequence of segments stands for in a written word.
pub open spec fn surface_of(segments: Seq<AnnotatedSegment>) -> Seq<char>
    decreases segments.len(),
{
    if segments.len() == 0 {
        Seq::empty()
    } else {
        surface_of(segments.drop_last()) + segments.last().surface()
    }
}

/// A reading unit as the program holds it. Its view is a [`ReadingUnit`].
#[derive(Debug, PartialEq)]
pub enum SingleReadingSegment {
    Kana(String),
    Kanji { kanji: String, reading: String },
}

impl View for SingleReadingSegment {
    type V = ReadingUnit;

    open spec fn view(&self) -> ReadingUnit {
        match self {
            SingleReadingSegment::Kana(text) => ReadingUnit::Kana(text@),
            SingleReadingSegment::Kanji { kanji, reading } => ReadingUnit::Kanji {
                kanji: kanji@,
                reading: reading@,
            },
        }
    }
}

impl Clone for SingleReadingSegment {
    fn clone(&self) -> (copy: Self)
        ensures
            copy@ == self@,
    {
        match self {
            SingleReadingSegment::Kana(text) => SingleReadingSegment::Kana(text.clone()),
            SingleReadingSegment::Kanji { kanji, reading } => SingleReadingSegment::Kanji {
                kanji: kanji.clone(),
                reading: reading.clone(),
            },
        }
    }
}

impl DeepView for SingleReadingSegment {
    type V = ReadingUnit;

    open spec fn deep_view(&self) -> ReadingUnit {
        self@
    }
}

/// A segment as the program holds it. Its view is an [`AnnotatedSegment`].
#[derive(Debug, PartialEq)]
pub enum Segment {
    Kana(String),
    Kanji { literal: String, readings: Vec<String> },
}

impl View for Segment {
    type V = AnnotatedSegment;

    open spec fn view(&self) -> AnnotatedSegment {
        match self {
            Segment::Kana(text) => AnnotatedSegment::Kana(text@),
            Segment::Kanji { literal, readings } => AnnotatedSegment::Kanji {
                literal: literal@,
                readings: readings.deep_view(),
            },
        }
    }
}

impl Clone for Segment {
    fn clone(&self) -> (copy: Self)
        ensures
            copy@ == self@,
    {
        match self {
            Segment::Kana(text) => Segment::Kana(text.clone()),
            Segment::Kanji { literal, readings } => Segment::Kanji {
                literal: literal.clone(),
                readings: readings.clone(),
            },
        }
    }
}

impl DeepView for Segment {
    type V = AnnotatedSegment;

    open spec fn deep_view(&self) -> AnnotatedSegment {
        self@
    }
}

} // verus!
