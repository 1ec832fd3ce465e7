//! Probability processor — the byte-frequency distribution of data, its
//! most frequent values and its mode, from which the entropy and moments
//! are computed.
use vstd::prelude::*;
use crate::observation::ProcessorError;
use crate::processors::byte_stats::{
    counts_of, distinct_bytes, distinct_count, histogram, histogram_of, mode, mode_upto, ranked, ranked_bytes, ranked_of,
};
use crate::text::{chars_of, string_of};

verus! {

/// Processor for byte distributions.
pub struct ProbabilityProcessor;

/// How many of the most frequent byte values the distribution lists.
pub const TOP_VALUES: usize = 16;

/// The counts that the distribution of data is described by.
#[derive(Debug)]
pub struct DistributionCounts {
    /// How often each byte value occurs.
    pub histogram: Vec<usize>,
    /// How many byte values occur.
    pub distinct: usize,
    /// The most frequent byte value (the smallest where several tie).
    pub mode_byte: u8,
    /// The byte values that occur most often, at most sixteen, most
    /// frequent first (equal counts in increasing order of value).
    pub top: Vec<(u8, usize)>,
    /// How many bytes there are.
    pub total: usize,
}

impl ProbabilityProcessor {
    pub fn new() -> (r: Self) {
        ProbabilityProcessor
    }

    /// Processor name.
    pub fn name(&self) -> (r: &'static str)
        ensures
            r@ == "probability"@,
    {
        "probability"
    }

    /// Processor description.
    pub fn description(&self) -> (r: &'static str)
        ensures
            r@ == "Computes byte-frequency distributions, Shannon entropy, and statistical moments from data"@,
    {
        "Computes byte-frequency distributions, Shannon entropy, and statistical moments from data"
    }

    /// Content types this processor accepts.
    pub fn content_types(&self) -> (r: Vec<&'static str>)
        ensures
            r@.map_values(|s: &'static str| s@) == seq!["application/x-probability"@, "application/x-mathematics"@],
    {
        let r = vec!["application/x-probability", "application/x-mathematics"];
        assert(r@.map_values(|s: &'static str| s@) =~= seq!["application/x-probability"@, "application/x-mathematics"@]);
        r
    }

    /// The distribution counts of the data. Empty data is refused.
    pub fn counts(&self, data: &[u8]) -> (r: Result<DistributionCounts, ProcessorError>)
        ensures
            data@.len() == 0 <==> r matches Err(ProcessorError::InvalidInput(_)),
            data@.len() > 0 ==> r is Ok,
            r matches Ok(c) ==> {
                &&& counts_of(c.histogram@) == histogram_of(data@)
                &&& c.distinct == distinct_bytes(data@)
                &&& c.mode_byte as int == mode_upto(histogram_of(data@), 256).0
                &&& ranked_of(c.top@) == if ranked_bytes(data@).len() > TOP_VALUES {
                    ranked_bytes(data@).subrange(0, TOP_VALUES as int)
                } else {
                    ranked_bytes(data@)
                }
                &&& c.total == data@.len()
            },
    {
        if data.len() == 0 {
            return Err(ProcessorError::InvalidInput(string_of(chars_of("cannot compute probability distribution on empty data").as_slice())));
        }
        let h = histogram(data);
        assert(h@.len() == 256) by {
            assert(counts_of(h@).len() == 256);
        }
        let distinct = distinct_count(&h);
        let (m, _) = mode(&h);
        let all = ranked(&h);
        let ghost ra = ranked_of(all@);
        let mut top: Vec<(u8, usize)> = Vec::new();
        let mut i: usize = 0;
        let limit = if all.len() > TOP_VALUES { TOP_VALUES } else { all.len() };
        while i < limit
            invariant
                i <= limit <= all@.len(),
                ra == ranked_of(all@),
                ranked_of(top@) == ra.subrange(0, i as int),
            decreases limit - i,
        {
            let ghost before = ranked_of(top@);
            top.push(all[i]);
            assert(ranked_of(top@) =~= before.push(ra[i as int]));
            i += 1;
            assert(ranked_of(top@) =~= ra.subrange(0, i as int));
        }
        assert(ra.len() == all@.len());
        assert(ranked_of(top@) =~= if ra.len() > TOP_VALUES { ra.subrange(0, TOP_VALUES as int) } else { ra });
        Ok(DistributionCounts { histogram: h, distinct, mode_byte: m, top, total: data.len() })
    }
}

} // verus!
