//! Graph-theory processor — reads an edge list (`a--b` or `a,b` per line)
//! and reports its nodes, edges and metrics.
use vstd::prelude::*;
use vstd::utf8::{decode_utf8, valid_utf8};
use crate::json::{json_pair_list, json_string_list, to_json_pairs, to_json_string_list};
use crate::observation::{
    meta_texts, ObsModel, ProcessedObservation, ProcessorError, decimal_text, obs, obs_models, push_obs,
    suffixed, text_bytes, utf8, with_meta,
};
use crate::sorted::{sorted_set, sorted_set_exec};
use crate::text::{
    append_chars, char_index, char_index_exec, chars_of, decimal, find, find_str, lemma_char_index,
    lemma_find_bounds, lemma_starts_with_char, lines, next_line, str_from_utf8, string_of, texts, trim,
    trimmed,
};

verus! {

/// Processor for edge-list graphs.
pub struct GraphTheoryProcessor;

/// An edge between two named nodes.
pub type GraphEdge = (Seq<char>, Seq<char>);

/// The edge a trimmed line states, if any: `a--b`, or else `a,b`, with
/// both ends non-blank.
pub open spec fn edge_of(l: Seq<char>) -> Option<GraphEdge> {
    match find(l, "--"@) {
        Some(p) => {
            let a = trim(l.subrange(0, p));
            let b = trim(l.subrange(p + 2, l.len() as int));
            if a.len() > 0 && b.len() > 0 {
                Some((a, b))
            } else {
                None
            }
        },
        None => match char_index(l, ',') {
            Some(p) => {
                let a = trim(l.subrange(0, p));
                let b = trim(l.subrange(p + 1, l.len() as int));
                if a.len() > 0 && b.len() > 0 {
                    Some((a, b))
                } else {
                    None
                }
            },
            None => None,
        },
    }
}

/// The edges stated by the lines `ls` (blank and `#` lines skipped).
pub open spec fn edges_of_lines(ls: Seq<Seq<char>>) -> Seq<GraphEdge>
    decreases ls.len(),
{
    if ls.len() == 0 {
        seq![]
    } else {
        let l = trim(ls.last());
        let prev = edges_of_lines(ls.drop_last());
        if l.len() == 0 || l[0] == '#' {
            prev
        } else {
            match edge_of(l) {
                Some(e) => prev.push(e),
                None => prev,
            }
        }
    }
}

/// The edges of a text, in order.
pub open spec fn graph_edges(s: Seq<char>) -> Seq<GraphEdge> {
    edges_of_lines(lines(s))
}

/// Both ends of each edge, in order.
pub open spec fn edge_ends(es: Seq<GraphEdge>) -> Seq<Seq<char>>
    decreases es.len(),
{
    if es.len() == 0 {
        seq![]
    } else {
        edge_ends(es.drop_last()).push(es.last().0).push(es.last().1)
    }
}

/// The nodes of a text: the distinct ends of its edges, sorted.
pub open spec fn graph_nodes(s: Seq<char>) -> Seq<Seq<char>> {
    sorted_set(edge_ends(graph_edges(s)))
}

/// The texts that the floating-point metrics of a graph are written as.
pub struct GraphMetricTexts {
    /// The density (edges over possible edges), shortest form.
    pub density: String,
    /// The density to four decimals.
    pub density_fixed: String,
    /// The average degree (twice the edges over the nodes), shortest form.
    pub average_degree: String,
    /// The average degree to two decimals.
    pub average_degree_fixed: String,
}

/// The observations of a graph text of `n` bytes.
pub open spec fn graph_observations(id: Seq<char>, s: Seq<char>, n: nat, m: GraphMetricTexts) -> Seq<ObsModel> {
    let nodes = graph_nodes(s);
    let edges = graph_edges(s);
    seq![
        with_meta(
            with_meta(
                with_meta(
                    with_meta(
                        obs(id + "_graph_summary"@, "graph.summary"@, utf8(decimal(nodes.len()) + " nodes, "@ + decimal(edges.len()) + " edges"@), "text/plain"@),
                        "node_count"@,
                        decimal(nodes.len()),
                    ),
                    "edge_count"@,
                    decimal(edges.len()),
                ),
                "density"@,
                m.density_fixed@,
            ),
            "source_observation"@,
            id,
        ),
        with_meta(
            with_meta(obs(id + "_graph_nodes"@, "graph.nodes"@, utf8(json_string_list(nodes)), "application/json"@), "metric"@, "nodes"@),
            "source_observation"@,
            id,
        ),
        with_meta(
            with_meta(obs(id + "_graph_edges"@, "graph.edges"@, utf8(json_pair_list(edges)), "application/json"@), "metric"@, "edges"@),
            "source_observation"@,
            id,
        ),
        with_meta(
            with_meta(
                with_meta(obs(id + "_graph_density"@, "graph.metrics"@, utf8(m.density@), "text/plain"@), "metric"@, "density"@),
                "value"@,
                m.density_fixed@,
            ),
            "source_observation"@,
            id,
        ),
        with_meta(
            with_meta(
                with_meta(obs(id + "_graph_degree"@, "graph.metrics"@, utf8(m.average_degree@), "text/plain"@), "metric"@, "average_degree"@),
                "value"@,
                m.average_degree_fixed@,
            ),
            "source_observation"@,
            id,
        ),
        with_meta(
            with_meta(
                with_meta(obs(id + "_graph_size"@, "graph.metadata"@, utf8(decimal(n)), "text/plain"@), "metric"@, "byte_size"@),
                "value"@,
                decimal(n),
            ),
            "source_observation"@,
            id,
        ),
    ]
}

/// The edge a trimmed line states.
fn edge_exec(l: &[char]) -> (r: Option<(String, String)>)
    ensures
        match edge_of(l@) {
            Some(e) => r matches Some(p) && p.0@ == e.0 && p.1@ == e.1,
            None => r is None,
        },
{
    proof {
        lemma_find_bounds(l@, "--"@);
        reveal_strlit("--");
        lemma_char_index(l@, ',');
    }
    let len = l.len();
    match find_str(l, "--") {
        Some(p) => {
            let a = trimmed(&l[0..p]);
            let b = trimmed(&l[p + 2..len]);
            if a.len() > 0 && b.len() > 0 {
                Some((string_of(a), string_of(b)))
            } else {
                None
            }
        },
        None => match char_index_exec(l, ',') {
            Some(p) => {
                let a = trimmed(&l[0..p]);
                let b = trimmed(&l[p + 1..len]);
                if a.len() > 0 && b.len() > 0 {
                    Some((string_of(a), string_of(b)))
                } else {
                    None
                }
            },
            None => None,
        },
    }
}

impl GraphTheoryProcessor {
    pub fn new() -> (r: Self) {
        GraphTheoryProcessor
    }

    /// Processor name.
    pub fn name(&self) -> (r: &'static str)
        ensures
            r@ == "graph_theory"@,
    {
        "graph_theory"
    }

    /// Processor description.
    pub fn description(&self) -> (r: &'static str)
        ensures
            r@ == "Analyzes graph structure from edge-list data, detects nodes, edges, and computes graph metrics"@,
    {
        "Analyzes graph structure from edge-list data, detects nodes, edges, and computes graph metrics"
    }

    /// Content types this processor accepts.
    pub fn content_types(&self) -> (r: Vec<&'static str>)
        ensures
            r@.map_values(|s: &'static str| s@) == seq!["application/x-graph-theory"@, "application/x-mathematics"@],
    {
        let r = vec!["application/x-graph-theory", "application/x-mathematics"];
        assert(r@.map_values(|s: &'static str| s@) =~= seq!["application/x-graph-theory"@, "application/x-mathematics"@]);
        r
    }

    /// The edges that the lines of a text state, in order.
    pub fn edges(source: &str) -> (r: Vec<(String, String)>)
        ensures
            meta_texts(r@) == graph_edges(source@),
    {
        let text = chars_of(source);
        let text = text.as_slice();
        let mut edges: Vec<(String, String)> = Vec::new();
        let mut pos: usize = 0;
        let ghost all = lines(source@);
        assert(text@.subrange(0, text@.len() as int) == text@);
        assert(all.subrange(0, 0) =~= Seq::<Seq<char>>::empty());
        assert(meta_texts(edges@) =~= Seq::<GraphEdge>::empty());
        let ghost mut k: int = 0;
        while pos < text.len()
            invariant
                pos <= text@.len(),
                text@ == source@,
                all == lines(source@),
                0 <= k <= all.len(),
                all.subrange(k, all.len() as int) == lines(text@.subrange(pos as int, text@.len() as int)),
                meta_texts(edges@) == edges_of_lines(all.subrange(0, k)),
            decreases text@.len() - pos,
        {
            let (a, b, n) = next_line(text, pos);
            let ghost rest = lines(text@.subrange(pos as int, text@.len() as int));
            proof {
                assert(rest.len() > 0);
                assert(all.subrange(k, all.len() as int)[0] == all[k]);
                assert(all.subrange(0, k + 1).drop_last() =~= all.subrange(0, k));
                assert(all.subrange(0, k + 1).last() == all[k]);
            }
            let line = trimmed(&text[a..b]);
            proof {
                lemma_starts_with_char(line@, '#');
            }
            if line.len() == 0 || line[0] == '#' {
            } else {
                match edge_exec(line) {
                    Some(e) => {
                        let ghost before = meta_texts(edges@);
                        let ghost ev = (e.0@, e.1@);
                        edges.push(e);
                        assert(meta_texts(edges@) =~= before.push(ev));
                    },
                    None => {},
                }
            }
            proof {
                assert(rest.drop_first() == lines(text@.subrange(n as int, text@.len() as int)));
                assert(all.subrange(k + 1, all.len() as int) =~= all.subrange(k, all.len() as int).drop_first());
                k = k + 1;
            }
            pos = n;
        }
        proof {
            assert(text@.subrange(pos as int, text@.len() as int).len() == 0);
            assert(all.subrange(k, all.len() as int).len() == 0);
            assert(all.subrange(0, k) =~= all);
        }
        edges
    }

    /// The nodes of a text: the distinct ends of its edges, sorted.
    pub fn nodes(edges: &Vec<(String, String)>) -> (r: Vec<String>)
        ensures
            texts(r@) == sorted_set(edge_ends(meta_texts(edges@))),
    {
        let mut ends: Vec<String> = Vec::new();
        let mut i: usize = 0;
        assert(texts(ends@) =~= Seq::<Seq<char>>::empty());
        while i < edges.len()
            invariant
                i <= edges@.len(),
                texts(ends@) == edge_ends(meta_texts(edges@).subrange(0, i as int)),
            decreases edges@.len() - i,
        {
            let ghost before = texts(ends@);
            ends.push(edges[i].0.clone());
            ends.push(edges[i].1.clone());
            assert(meta_texts(edges@).subrange(0, i + 1).drop_last() =~= meta_texts(edges@).subrange(0, i as int));
            assert(texts(ends@) =~= before.push(edges@[i as int].0@).push(edges@[i as int].1@));
            i += 1;
        }
        assert(meta_texts(edges@).subrange(0, edges@.len() as int) =~= meta_texts(edges@));
        sorted_set_exec(&ends)
    }

    /// Summary, nodes, edges, density, average degree and size of an edge
    /// list, with the floating-point metrics as written in `metrics`. Text
    /// that is not valid UTF-8 is refused; text that states no edge fails.
    pub fn observations(&self, id: &str, data: &[u8], metrics: &GraphMetricTexts) -> (r: Result<Vec<ProcessedObservation>, ProcessorError>)
        ensures
            !valid_utf8(data@) <==> r matches Err(ProcessorError::InvalidInput(_)),
            valid_utf8(data@) && graph_nodes(decode_utf8(data@)).len() == 0 <==> r matches Err(
                ProcessorError::ProcessingFailed(_),
            ),
            valid_utf8(data@) && graph_nodes(decode_utf8(data@)).len() > 0 ==> r is Ok,
            r matches Ok(v) ==> obs_models(v@) == graph_observations(id@, decode_utf8(data@), data@.len(), *metrics),
    {
        let text = match str_from_utf8(data) {
            Ok(s) => s,
            Err(_) => {
                return Err(ProcessorError::InvalidInput(string_of(chars_of("graph data must be valid UTF-8").as_slice())));
            },
        };
        let edges = Self::edges(text);
        let nodes = Self::nodes(&edges);
        assert(nodes@.len() == texts(nodes@).len() && edges@.len() == meta_texts(edges@).len());
        if nodes.len() == 0 {
            return Err(ProcessorError::ProcessingFailed(
                string_of(chars_of("no graph structure detected: no edge-list patterns found").as_slice()),
            ));
        }
        let nc = decimal_text(nodes.len());
        let ec = decimal_text(edges.len());
        let mut summary = string_of(chars_of(nc.as_str()).as_slice());
        append_chars(&mut summary, chars_of(" nodes, ").as_slice());
        append_chars(&mut summary, chars_of(ec.as_str()).as_slice());
        append_chars(&mut summary, chars_of(" edges").as_slice());
        let mut results: Vec<ProcessedObservation> = Vec::new();
        push_obs(
            &mut results,
            ProcessedObservation::new(suffixed(id, "_graph_summary"), "graph.summary", text_bytes(summary.as_str()), "text/plain")
                .with_metadata("node_count", nc.as_str())
                .with_metadata("edge_count", ec.as_str())
                .with_metadata("density", metrics.density_fixed.as_str())
                .with_metadata("source_observation", id),
        );
        let nj = to_json_string_list(&nodes);
        push_obs(
            &mut results,
            ProcessedObservation::new(suffixed(id, "_graph_nodes"), "graph.nodes", text_bytes(nj.as_str()), "application/json")
                .with_metadata("metric", "nodes")
                .with_metadata("source_observation", id),
        );
        let ej = to_json_pairs(&edges);
        push_obs(
            &mut results,
            ProcessedObservation::new(suffixed(id, "_graph_edges"), "graph.edges", text_bytes(ej.as_str()), "application/json")
                .with_metadata("metric", "edges")
                .with_metadata("source_observation", id),
        );
        push_obs(
            &mut results,
            ProcessedObservation::new(suffixed(id, "_graph_density"), "graph.metrics", text_bytes(metrics.density.as_str()), "text/plain")
                .with_metadata("metric", "density")
                .with_metadata("value", metrics.density_fixed.as_str())
                .with_metadata("source_observation", id),
        );
        push_obs(
            &mut results,
            ProcessedObservation::new(
                suffixed(id, "_graph_degree"),
                "graph.metrics",
                text_bytes(metrics.average_degree.as_str()),
                "text/plain",
            )
                .with_metadata("metric", "average_degree")
                .with_metadata("value", metrics.average_degree_fixed.as_str())
                .with_metadata("source_observation", id),
        );
        let size = decimal_text(data.len());
        push_obs(
            &mut results,
            ProcessedObservation::new(suffixed(id, "_graph_size"), "graph.metadata", text_bytes(size.as_str()), "text/plain")
                .with_metadata("metric", "byte_size")
                .with_metadata("value", size.as_str())
                .with_metadata("source_observation", id),
        );
        assert(obs_models(results@) =~= graph_observations(id@, text@, data@.len(), *metrics));
        Ok(results)
    }
}

} // verus!
