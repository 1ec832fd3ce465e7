//! Information-theory processor — the byte frequencies of data, over the
//! whole and over each half, from which its entropy, redundancy, mutual
//! information and compressibility are computed.
use vstd::prelude::*;
use crate::observation::ProcessorError;
use crate::processors::byte_stats::{counts_of, distinct_count, distinct_bytes, histogram, histogram_of};
use crate::text::{chars_of, string_of};

verus! {

/// Processor for information measures.
pub struct InformationTheoryProcessor;

/// The byte counts that the information measures of data are computed
/// from.
#[derive(Debug)]
pub struct InformationCounts {
    /// How often each byte value occurs.
    pub histogram: Vec<usize>,
    /// How often each byte value occurs in the first half (the first
    /// `len / 2` bytes).
    pub first_half: Vec<usize>,
    /// How often each byte value occurs in the rest.
    pub second_half: Vec<usize>,
    /// How many byte values occur.
    pub distinct: usize,
    /// How many bytes there are.
    pub total: usize,
}

impl InformationTheoryProcessor {
    pub fn new() -> (r: Self) {
        InformationTheoryProcessor
    }

    /// Processor name.
    pub fn name(&self) -> (r: &'static str)
        ensures
            r@ == "information_theory"@,
    {
        "information_theory"
    }

    /// Processor description.
    pub fn description(&self) -> (r: &'static str)
        ensures
            r@ == "Computes Shannon entropy, mutual information, redundancy, and compression estimates from data"@,
    {
        "Computes Shannon entropy, mutual information, redundancy, and compression estimates from data"
    }

    /// Content types this processor accepts.
    pub fn content_types(&self) -> (r: Vec<&'static str>)
        ensures
            r@.map_values(|s: &'static str| s@) == seq!["application/x-information-theory"@, "application/x-mathematics"@],
    {
        let r = vec!["application/x-information-theory", "application/x-mathematics"];
        assert(r@.map_values(|s: &'static str| s@) =~= seq!["application/x-information-theory"@, "application/x-mathematics"@]);
        r
    }

    /// The byte counts of the data, whole and by halves. Empty data is
    /// refused.
    pub fn counts(&self, data: &[u8]) -> (r: Result<InformationCounts, ProcessorError>)
        ensures
            data@.len() == 0 <==> r matches Err(ProcessorError::InvalidInput(_)),
            data@.len() > 0 ==> r is Ok,
            r matches Ok(c) ==> {
                &&& counts_of(c.histogram@) == histogram_of(data@)
                &&& counts_of(c.first_half@) == histogram_of(data@.subrange(0, (data@.len() / 2) as int))
                &&& counts_of(c.second_half@) == histogram_of(data@.subrange((data@.len() / 2) as int, data@.len() as int))
                &&& c.distinct == distinct_bytes(data@)
                &&& c.total == data@.len()
            },
    {
        if data.len() == 0 {
            return Err(ProcessorError::InvalidInput(string_of(chars_of("cannot compute information metrics on empty data").as_slice())));
        }
        let half = data.len() / 2;
        let h = histogram(data);
        let h1 = histogram(&data[0..half]);
        let h2 = histogram(&data[half..data.len()]);
        assert(h@.len() == 256) by {
            assert(counts_of(h@).len() == 256);
        }
        let distinct = distinct_count(&h);
        Ok(InformationCounts { histogram: h, first_half: h1, second_half: h2, distinct, total: data.len() })
    }
}

} // verus!
