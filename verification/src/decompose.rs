//! The decomposer: breaks the segments of an annotation up into reading
//! units, keeping the groups that the notation gives them.

use crate::notation::{read_units, units_of};
use crate::segment::{AnnotatedSegment, ReadingUnit, Segment, SingleReadingSegment};
use vstd::prelude::*;

verus! {

/// The reading units of a sequence of segments: those of each segment, in
/// the order of the segments.
pub open spec fn decomposed(segments: Seq<AnnotatedSegment>) -> Seq<ReadingUnit>
    decreases segments.len(),
{
    if segments.len() == 0 {
        Seq::empty()
    } else {
        decomposed(segments.drop_last()) + units_of(segments.last())
    }
}

/// Breaks segments up into reading units.
pub fn break_up_furigana_into_singles(furigana: &Vec<Segment>) -> (singles: Vec<
    SingleReadingSegment,
>)
    ensures
        singles.deep_view() == decomposed(furigana.deep_view()),
{
    let mut singles: Vec<SingleReadingSegment> = Vec::new();
    let mut i: usize = 0;
    while i < furigana.len()
        invariant
            i <= furigana.len(),
            singles.deep_view() == decomposed(furigana.deep_view().take(i as int)),
        decreases furigana.len() - i,
    {
        proof {
            let taken = furigana.deep_view().take(i + 1);
            assert(taken.drop_last() =~= furigana.deep_view().take(i as int));
        }
        let mut units = read_units(&furigana[i]);
        singles.append(&mut units);
        i += 1;
    }
    proof {
        assert(furigana.deep_view().take(furigana.len() as int) =~= furigana.deep_view());
    }
    singles
}

} // verus!
