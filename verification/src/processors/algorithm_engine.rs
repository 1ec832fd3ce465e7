//! Algorithm engine — picks the algorithm that a request names and checks
//! its input; the algorithms themselves (graph search, PageRank,
//! similarity sketches, indexes) are run by the algorithm library.
use vstd::prelude::*;
use vstd::utf8::{decode_utf8, valid_utf8};
use crate::observation::ProcessorError;
use crate::text::{append_chars, chars_of, same_chars, str_from_utf8, string_of};

verus! {

/// Processor that runs a named algorithm on its input.
pub struct AlgorithmEngine;

/// The algorithms the engine runs.
#[derive(Debug, Clone, Copy, PartialEq, Eq, Structural)]
pub enum Algorithm {
    Bfs,
    Dfs,
    Dijkstra,
    TarjanScc,
    PageRank,
    AStar,
    Jaccard,
    Cosine,
    MinHash,
    SimHash,
    BloomFilter,
    MerkleTree,
    HyperLogLog,
    Trie,
    FmIndex,
    InvertedIndex,
}

/// The algorithm a name selects (each has a few accepted spellings).
pub open spec fn algorithm_named(n: Seq<char>) -> Option<Algorithm> {
    if n == "bfs"@ || n == "BFS"@ {
        Some(Algorithm::Bfs)
    } else if n == "dfs"@ || n == "DFS"@ {
        Some(Algorithm::Dfs)
    } else if n == "dijkstra"@ || n == "Dijkstra"@ {
        Some(Algorithm::Dijkstra)
    } else if n == "tarjan_scc"@ || n == "tarjan"@ || n == "Tarjan"@ {
        Some(Algorithm::TarjanScc)
    } else if n == "pagerank"@ || n == "PageRank"@ {
        Some(Algorithm::PageRank)
    } else if n == "a_star"@ || n == "AStar"@ || n == "A*"@ {
        Some(Algorithm::AStar)
    } else if n == "jaccard"@ || n == "Jaccard"@ {
        Some(Algorithm::Jaccard)
    } else if n == "cosine"@ || n == "Cosine"@ {
        Some(Algorithm::Cosine)
    } else if n == "minhash"@ || n == "MinHash"@ {
        Some(Algorithm::MinHash)
    } else if n == "simhash"@ || n == "SimHash"@ {
        Some(Algorithm::SimHash)
    } else if n == "bloom"@ || n == "BloomFilter"@ || n == "bloom_filter"@ {
        Some(Algorithm::BloomFilter)
    } else if n == "merkle"@ || n == "MerkleTree"@ || n == "merkle_tree"@ {
        Some(Algorithm::MerkleTree)
    } else if n == "hyperloglog"@ || n == "HLL"@ || n == "HyperLogLog"@ {
        Some(Algorithm::HyperLogLog)
    } else if n == "trie"@ || n == "Trie"@ {
        Some(Algorithm::Trie)
    } else if n == "fm_index"@ || n == "FMIndex"@ || n == "FM_Index"@ {
        Some(Algorithm::FmIndex)
    } else if n == "inverted_index"@ || n == "InvertedIndex"@ {
        Some(Algorithm::InvertedIndex)
    } else {
        None
    }
}

/// Whether `n` spells `s`.
fn spells(n: &[char], s: &str) -> (r: bool)
    ensures
        r == (n@ == s@),
{
    same_chars(n, chars_of(s).as_slice())
}

/// The algorithm a name selects.
pub fn algorithm_by_name(name: &str) -> (r: Option<Algorithm>)
    ensures
        r == algorithm_named(name@),
{
    proof {
        reveal_strlit("bfs");
        reveal_strlit("BFS");
        reveal_strlit("dfs");
        reveal_strlit("DFS");
        reveal_strlit("dijkstra");
        reveal_strlit("Dijkstra");
        reveal_strlit("tarjan_scc");
        reveal_strlit("tarjan");
        reveal_strlit("Tarjan");
        reveal_strlit("pagerank");
        reveal_strlit("PageRank");
        reveal_strlit("a_star");
        reveal_strlit("AStar");
        reveal_strlit("A*");
        reveal_strlit("jaccard");
        reveal_strlit("Jaccard");
        reveal_strlit("cosine");
        reveal_strlit("Cosine");
        reveal_strlit("minhash");
        reveal_strlit("MinHash");
        reveal_strlit("simhash");
        reveal_strlit("SimHash");
        reveal_strlit("bloom");
        reveal_strlit("BloomFilter");
        reveal_strlit("bloom_filter");
        reveal_strlit("merkle");
        reveal_strlit("MerkleTree");
        reveal_strlit("merkle_tree");
        reveal_strlit("hyperloglog");
        reveal_strlit("HLL");
        reveal_strlit("HyperLogLog");
        reveal_strlit("trie");
        reveal_strlit("Trie");
        reveal_strlit("fm_index");
        reveal_strlit("FMIndex");
        reveal_strlit("FM_Index");
        reveal_strlit("inverted_index");
        reveal_strlit("InvertedIndex");
    }
    let c = chars_of(name);
    let n = c.as_slice();
    if spells(n, "bfs") || spells(n, "BFS") {
        Some(Algorithm::Bfs)
    } else if spells(n, "dfs") || spells(n, "DFS") {
        Some(Algorithm::Dfs)
    } else if spells(n, "dijkstra") || spells(n, "Dijkstra") {
        Some(Algorithm::Dijkstra)
    } else if spells(n, "tarjan_scc") || spells(n, "tarjan") || spells(n, "Tarjan") {
        Some(Algorithm::TarjanScc)
    } else if spells(n, "pagerank") || spells(n, "PageRank") {
        Some(Algorithm::PageRank)
    } else if spells(n, "a_star") || spells(n, "AStar") || spells(n, "A*") {
        Some(Algorithm::AStar)
    } else if spells(n, "jaccard") || spells(n, "Jaccard") {
        Some(Algorithm::Jaccard)
    } else if spells(n, "cosine") || spells(n, "Cosine") {
        Some(Algorithm::Cosine)
    } else if spells(n, "minhash") || spells(n, "MinHash") {
        Some(Algorithm::MinHash)
    } else if spells(n, "simhash") || spells(n, "SimHash") {
        Some(Algorithm::SimHash)
    } else if spells(n, "bloom") || spells(n, "BloomFilter") || spells(n, "bloom_filter") {
        Some(Algorithm::BloomFilter)
    } else if spells(n, "merkle") || spells(n, "MerkleTree") || spells(n, "merkle_tree") {
        Some(Algorithm::MerkleTree)
    } else if spells(n, "hyperloglog") || spells(n, "HLL") || spells(n, "HyperLogLog") {
        Some(Algorithm::HyperLogLog)
    } else if spells(n, "trie") || spells(n, "Trie") {
        Some(Algorithm::Trie)
    } else if spells(n, "fm_index") || spells(n, "FMIndex") || spells(n, "FM_Index") {
        Some(Algorithm::FmIndex)
    } else if spells(n, "inverted_index") || spells(n, "InvertedIndex") {
        Some(Algorithm::InvertedIndex)
    } else {
        None
    }
}

impl AlgorithmEngine {
    pub fn new() -> (r: Self) {
        AlgorithmEngine
    }

    /// Processor name.
    pub fn name(&self) -> (r: &'static str)
        ensures
            r@ == "algorithm_engine"@,
    {
        "algorithm_engine"
    }

    /// Processor description.
    pub fn description(&self) -> (r: &'static str)
        ensures
            r@
                == "Bridges algorithm implementations into the observation pipeline: BFS, DFS, Dijkstra, SCC, PageRank, A*, Jaccard, Cosine, MinHash, SimHash, BloomFilter, MerkleTree, HyperLogLog, Trie, FMIndex, InvertedIndex"@,
    {
        "Bridges algorithm implementations into the observation pipeline: BFS, DFS, Dijkstra, SCC, PageRank, A*, Jaccard, Cosine, MinHash, SimHash, BloomFilter, MerkleTree, HyperLogLog, Trie, FMIndex, InvertedIndex"
    }

    /// Content types this processor accepts.
    pub fn content_types(&self) -> (r: Vec<&'static str>)
        ensures
            r@.map_values(|s: &'static str| s@) == seq!["application/x-algorithm-engine"@, "application/x-mathematics"@],
    {
        let r = vec!["application/x-algorithm-engine", "application/x-mathematics"];
        assert(r@.map_values(|s: &'static str| s@) =~= seq!["application/x-algorithm-engine"@, "application/x-mathematics"@]);
        r
    }

    /// The algorithm that the `algorithm` metadata entry names, and the
    /// text to run it on. An absent or empty name, data that is not UTF-8
    /// (checked next) and an unknown name are refused.
    pub fn select<'a>(&self, algorithm: Option<&str>, data: &'a [u8]) -> (r: Result<(Algorithm, &'a str), ProcessorError>)
        ensures
            match algorithm {
                None => r matches Err(ProcessorError::InvalidInput(_)),
                Some(a) => if a@.len() == 0 {
                    r matches Err(ProcessorError::InvalidInput(_))
                } else if !valid_utf8(data@) {
                    r matches Err(ProcessorError::InvalidInput(_))
                } else {
                    match algorithm_named(a@) {
                        Some(k) => r matches Ok((x, t)) && x == k && t@ == decode_utf8(data@),
                        None => r matches Err(ProcessorError::UnsupportedContent(m)) && m@ == "unknown algorithm: "@ + a@,
                    }
                },
            },
    {
        proof {
            reveal_strlit("");
        }
        let name = match algorithm {
            Some(a) => a,
            None => "",
        };
        if chars_of(name).len() == 0 {
            return Err(ProcessorError::InvalidInput(
                string_of(chars_of("algorithm metadata field required: specify which algorithm to run").as_slice()),
            ));
        }
        let text = match str_from_utf8(data) {
            Ok(t) => t,
            Err(_) => {
                return Err(ProcessorError::InvalidInput(string_of(chars_of("data must be valid UTF-8 for algorithm processing").as_slice())));
            },
        };
        match algorithm_by_name(name) {
            Some(k) => Ok((k, text)),
            None => {
                let mut m = string_of(chars_of("unknown algorithm: ").as_slice());
                append_chars(&mut m, chars_of(name).as_slice());
                Err(ProcessorError::UnsupportedContent(m))
            },
        }
    }
}

} // verus!
