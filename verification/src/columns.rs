//! A batch of results laid out as four columns.

use vstd::prelude::*;
use crate::kernel::OverlapResult;

verus! {

/// The results of one batch, one vector to a field. The four vectors are as
/// long as the batch, and what stands at one position in each belongs to one
/// result.
#[derive(Debug)]
pub struct Columns {
    pub indices: Vec<usize>,
    pub overlaps: Vec<u64>,
    pub overlap_over_data_length: Vec<u64>,
    pub overlap_over_segment_length: Vec<u64>,
}

/// The positions that the results report, in the order of the results.
pub open spec fn indices_of(results: Seq<OverlapResult>) -> Seq<usize> {
    Seq::new(results.len(), |k: int| results[k].data_index)
}

/// The overlaps of the results, in their order.
pub open spec fn overlaps_of(results: Seq<OverlapResult>) -> Seq<u64> {
    Seq::new(results.len(), |k: int| results[k].overlap)
}

/// The overlaps as fractions of the data intervals' lengths, in the order of the results.
pub open spec fn data_fractions_of(results: Seq<OverlapResult>) -> Seq<u64> {
    Seq::new(results.len(), |k: int| results[k].overlap_over_data_length)
}

/// The overlaps as fractions of the segment's length, in the order of the results.
pub open spec fn segment_fractions_of(results: Seq<OverlapResult>) -> Seq<u64> {
    Seq::new(results.len(), |k: int| results[k].overlap_over_segment_length)
}

/// Lays a batch out as four columns.
pub fn unzip(results: &Vec<OverlapResult>) -> (columns: Columns)
    ensures
        columns.indices@ == indices_of(results@),
        columns.overlaps@ == overlaps_of(results@),
        columns.overlap_over_data_length@ == data_fractions_of(results@),
        columns.overlap_over_segment_length@ == segment_fractions_of(results@),
{
    let mut indices: Vec<usize> = Vec::new();
    let mut overlaps: Vec<u64> = Vec::new();
    let mut data_fractions: Vec<u64> = Vec::new();
    let mut segment_fractions: Vec<u64> = Vec::new();
    let mut k: usize = 0;
    while k < results.len()
        invariant
            k <= results.len(),
            indices@ == indices_of(results@).take(k as int),
            overlaps@ == overlaps_of(results@).take(k as int),
            data_fractions@ == data_fractions_of(results@).take(k as int),
            segment_fractions@ == segment_fractions_of(results@).take(k as int),
        decreases results.len() - k,
    {
        let result = results[k];
        indices.push(result.data_index);
        overlaps.push(result.overlap);
        data_fractions.push(result.overlap_over_data_length);
        segment_fractions.push(result.overlap_over_segment_length);
        k += 1;
    }
    Columns {
        indices,
        overlaps,
        overlap_over_data_length: data_fractions,
        overlap_over_segment_length: segment_fractions,
    }
}

} // verus!
