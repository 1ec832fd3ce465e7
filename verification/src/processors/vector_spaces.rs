//! Vector-space processor — reads data as a vector of byte values: its
//! dimension and an estimate of its rank, from which its norm and
//! statistics are computed.
use vstd::prelude::*;
use crate::observation::ProcessorError;
use crate::processors::byte_stats::{counts_of, distinct_bytes, distinct_count, histogram};
use crate::text::{chars_of, string_of};

verus! {

/// Processor for vector-space views of data.
pub struct VectorSpaceProcessor;

/// The counts that the vector view of data is described by.
#[derive(Debug)]
pub struct VectorCounts {
    /// The dimension: one coordinate per byte.
    pub dimension: usize,
    /// The rank estimate: the distinct byte values, at most the dimension.
    pub rank_estimate: usize,
    /// Where the second half of the coordinates starts.
    pub half: usize,
}

impl VectorSpaceProcessor {
    pub fn new() -> (r: Self) {
        VectorSpaceProcessor
    }

    /// Processor name.
    pub fn name(&self) -> (r: &'static str)
        ensures
            r@ == "vector_spaces"@,
    {
        "vector_spaces"
    }

    /// Processor description.
    pub fn description(&self) -> (r: &'static str)
        ensures
            r@ == "Analyzes data as vectors: dimensionality, basis estimation, linear independence checks"@,
    {
        "Analyzes data as vectors: dimensionality, basis estimation, linear independence checks"
    }

    /// Content types this processor accepts.
    pub fn content_types(&self) -> (r: Vec<&'static str>)
        ensures
            r@.map_values(|s: &'static str| s@) == seq!["application/x-vector-spaces"@, "application/x-mathematics"@],
    {
        let r = vec!["application/x-vector-spaces", "application/x-mathematics"];
        assert(r@.map_values(|s: &'static str| s@) =~= seq!["application/x-vector-spaces"@, "application/x-mathematics"@]);
        r
    }

    /// The dimension, rank estimate and midpoint of the data. Empty data
    /// is refused.
    pub fn counts(&self, data: &[u8]) -> (r: Result<VectorCounts, ProcessorError>)
        ensures
            data@.len() == 0 <==> r matches Err(ProcessorError::InvalidInput(_)),
            data@.len() > 0 ==> r is Ok,
            r matches Ok(c) ==> {
                &&& c.dimension == data@.len()
                &&& c.rank_estimate == if distinct_bytes(data@) < data@.len() { distinct_bytes(data@) } else { data@.len() as nat }
                &&& c.half == data@.len() / 2
            },
    {
        if data.len() == 0 {
            return Err(ProcessorError::InvalidInput(string_of(chars_of("cannot perform vector analysis on empty data").as_slice())));
        }
        let h = histogram(data);
        assert(h@.len() == 256) by {
            assert(counts_of(h@).len() == 256);
        }
        let distinct = distinct_count(&h);
        let rank = if distinct < data.len() { distinct } else { data.len() };
        Ok(VectorCounts { dimension: data.len(), rank_estimate: rank, half: data.len() / 2 })
    }
}

} // verus!
