//! Repository intelligence as a processor: a JSON request names a file, or
//! the files of a package, to analyze; the report, call graph and control
//! flow graphs can be asked for. The `action` metadata entry picks the
//! operation.
use vstd::prelude::*;
use crate::json::{as_text, get_member, json_read, member, read_json, JsonValue};
use crate::language::lang_name;
use crate::observation::{decimal_text, obs, with_meta, ObsModel, ProcessedObservation, ProcessorError};
use crate::processors::search_processor::member_text;
use crate::analysis::built_graph;
use crate::parser::{detected_language, module_model};
use crate::repo_intel::{
    analyzed, file_texts, grouped, single_package, sum_counts, sum_lines, sum_totals, text_total, FileAnalysis,
    IntelModel, RepoIntel, RepositoryAnalysis,
};
use crate::text::{append_chars, chars_of, decimal, same_text, string_of};

verus! {

/// A decoded repository-intelligence request.
#[derive(Debug)]
pub enum RepoRequest {
    /// Analyze one file.
    AnalyzeFile { path: String, content: String },
    /// Analyze the files of a package, as `(path, content)` pairs.
    AnalyzePackage(Vec<(String, String)>),
    /// The full report.
    Report,
    /// The call graph.
    CallGraph,
    /// The control flow graphs.
    Cfg,
}

/// The `(path, content)` pairs of the entries that have both as strings,
/// in order.
pub open spec fn file_entries(fs: Seq<JsonValue>) -> Seq<(Seq<char>, Seq<char>)>
    decreases fs.len(),
{
    if fs.len() == 0 {
        seq![]
    } else {
        let prev = file_entries(fs.drop_last());
        match (member_text(fs.last(), "path"@), member_text(fs.last(), "content"@)) {
            (Some(p), Some(c)) => prev.push((p, c)),
            _ => prev,
        }
    }
}

/// Why a request fails, in the order the checks run: the data is no JSON,
/// the action is unknown, or a member the action needs is missing.
pub open spec fn request_error(action: Seq<char>, data: Seq<u8>) -> Option<Seq<char>> {
    match json_read(data) {
        Err(m) => Some("invalid JSON: "@ + m),
        Ok(v) => if action == "analyze_file"@ {
            if member_text(v, "path"@) is None {
                Some("missing 'path' field"@)
            } else if member_text(v, "content"@) is None {
                Some("missing 'content' field"@)
            } else {
                None
            }
        } else if action == "analyze_package"@ {
            match member(v, "files"@) {
                Some(JsonValue::Array(fs)) => if file_entries(fs@).len() == 0 {
                    Some("'files' array is empty or contains invalid entries"@)
                } else {
                    None
                },
                _ => Some("missing 'files' array field"@),
            }
        } else if action == "report"@ || action == "call_graph"@ || action == "cfg"@ {
            None
        } else {
            Some("unknown action: "@ + action)
        },
    }
}

/// The action of an `action` entry; `analyze_file` where there is none.
pub open spec fn action_text(action: Option<&str>) -> Seq<char> {
    match action {
        Some(a) => a@,
        None => "analyze_file"@,
    }
}

/// Whether a decoded request is the one the action and the JSON data ask
/// for.
pub open spec fn request_matches(r: RepoRequest, action: Seq<char>, v: JsonValue) -> bool {
    match r {
        RepoRequest::AnalyzeFile { path, content } => action == "analyze_file"@ && member_text(v, "path"@) == Some(
            path@,
        ) && member_text(v, "content"@) == Some(content@),
        RepoRequest::AnalyzePackage(files) => action == "analyze_package"@ && (match member(v, "files"@) {
            Some(JsonValue::Array(fs)) => file_texts(files@) == file_entries(fs@),
            _ => false,
        }),
        RepoRequest::Report => action == "report"@,
        RepoRequest::CallGraph => action == "call_graph"@,
        RepoRequest::Cfg => action == "cfg"@,
    }
}

/// The `(path, content)` pairs of the file entries.
fn file_entries_exec(fs: &Vec<JsonValue>) -> (r: Vec<(String, String)>)
    ensures
        file_texts(r@) == file_entries(fs@),
{
    let mut r: Vec<(String, String)> = Vec::new();
    let mut i: usize = 0;
    assert(fs@.subrange(0, 0) =~= Seq::<JsonValue>::empty());
    while i < fs.len()
        invariant
            i <= fs@.len(),
            file_texts(r@) == file_entries(fs@.subrange(0, i as int)),
        decreases fs@.len() - i,
    {
        let ghost before = file_texts(r@);
        assert(fs@.subrange(0, i + 1).drop_last() =~= fs@.subrange(0, i as int));
        assert(fs@.subrange(0, i + 1).last() == fs@[i as int]);
        let p = as_text(get_member(&fs[i], "path"));
        let c = as_text(get_member(&fs[i], "content"));
        match (p, c) {
            (Some(p), Some(c)) => {
                let e = (string_of(chars_of(p).as_slice()), string_of(chars_of(c).as_slice()));
                r.push(e);
                assert(file_texts(r@) =~= before.push((p@, c@)));
            },
            _ => {},
        }
        i += 1;
    }
    assert(fs@.subrange(0, fs@.len() as int) =~= fs@);
    r
}

fn invalid(text: &str) -> (r: ProcessorError)
    ensures
        r matches ProcessorError::InvalidInput(m) && m@ == text@,
{
    ProcessorError::InvalidInput(string_of(chars_of(text).as_slice()))
}

fn invalid_with(prefix: &str, rest: &str) -> (r: ProcessorError)
    ensures
        r matches ProcessorError::InvalidInput(m) && m@ == prefix@ + rest@,
{
    let mut m = string_of(chars_of(prefix).as_slice());
    append_chars(&mut m, chars_of(rest).as_slice());
    ProcessorError::InvalidInput(m)
}

/// Decodes a request from the `action` entry and the JSON data; every
/// failure is an `InvalidInput` error with the message `request_error`
/// gives.
pub fn repo_request(action: Option<&str>, data: &[u8]) -> (r: Result<RepoRequest, ProcessorError>)
    ensures
        match request_error(action_text(action), data@) {
            Some(m) => r matches Err(ProcessorError::InvalidInput(e)) && e@ == m,
            None => r matches Ok(q) && (json_read(data@) matches Ok(v) && request_matches(
                q,
                action_text(action),
                v,
            )),
        },
{
    let a: &str = match action {
        Some(a) => a,
        None => "analyze_file",
    };
    let v = match read_json(data) {
        Ok(v) => v,
        Err(m) => return Err(invalid_with("invalid JSON: ", m.as_str())),
    };
    if same_text(a, "analyze_file") {
        let path = match as_text(get_member(&v, "path")) {
            Some(p) => p,
            None => return Err(invalid("missing 'path' field")),
        };
        let content = match as_text(get_member(&v, "content")) {
            Some(c) => c,
            None => return Err(invalid("missing 'content' field")),
        };
        Ok(
            RepoRequest::AnalyzeFile {
                path: string_of(chars_of(path).as_slice()),
                content: string_of(chars_of(content).as_slice()),
            },
        )
    } else if same_text(a, "analyze_package") {
        match get_member(&v, "files") {
            Some(JsonValue::Array(fs)) => {
                let files = file_entries_exec(fs);
                if files.len() == 0 {
                    Err(invalid("'files' array is empty or contains invalid entries"))
                } else {
                    Ok(RepoRequest::AnalyzePackage(files))
                }
            },
            _ => Err(invalid("missing 'files' array field")),
        }
    } else if same_text(a, "report") {
        Ok(RepoRequest::Report)
    } else if same_text(a, "call_graph") {
        Ok(RepoRequest::CallGraph)
    } else if same_text(a, "cfg") {
        Ok(RepoRequest::Cfg)
    } else {
        Err(invalid_with("unknown action: ", a))
    }
}

/// Whether the contents of the files, taken together, are short enough for
/// a package analysis to count their lines.
pub fn contents_fit(files: &Vec<(String, String)>) -> (r: bool)
    ensures
        r == (text_total(file_texts(files@)) <= usize::MAX),
{
    let ghost t = file_texts(files@);
    let mut total: usize = 0;
    let mut i: usize = 0;
    assert(t.subrange(0, 0) =~= Seq::<(Seq<char>, Seq<char>)>::empty());
    while i < files.len()
        invariant
            i <= files@.len(),
            t == file_texts(files@),
            total == text_total(t.subrange(0, i as int)),
        decreases files@.len() - i,
    {
        assert(t.subrange(0, i + 1).drop_last() =~= t.subrange(0, i as int));
        let n = chars_of(files[i].1.as_str()).len();
        if total > usize::MAX - n {
            proof {
                crate::processors::repo_intel_processor::lemma_text_total_grows(t, i as int + 1);
            }
            return false;
        }
        total = total + n;
        i += 1;
    }
    assert(t.subrange(0, files@.len() as int) =~= t);
    true
}

/// Totals only grow as files are added.
pub proof fn lemma_text_total_grows(t: Seq<(Seq<char>, Seq<char>)>, k: int)
    requires
        0 <= k <= t.len(),
    ensures
        text_total(t.subrange(0, k)) <= text_total(t),
    decreases t.len() - k,
{
    if k < t.len() {
        lemma_text_total_grows(t, k + 1);
        assert(t.subrange(0, k + 1).drop_last() =~= t.subrange(0, k));
    } else {
        assert(t.subrange(0, k) =~= t);
    }
}

/// The observation for an analyzed file, given its serialised form.
pub open spec fn file_obs(id: Seq<char>, path: Seq<char>, fa: crate::parser::ModuleModel, payload: Seq<u8>) -> ObsModel {
    with_meta(
        with_meta(
            with_meta(
                with_meta(
                    obs(id, "repo_intel.file_analyzed"@, payload, "application/x-repo-intel+file"@),
                    "file"@,
                    path,
                ),
                "language"@,
                lang_name(fa.language),
            ),
            "symbol_count"@,
            decimal(fa.symbols.len()),
        ),
        "import_count"@,
        decimal(fa.imports.len()),
    )
}

/// The observation for a report (after a package analysis, or asked for),
/// given its serialised form.
pub open spec fn report_obs(
    id: Seq<char>,
    kind: Seq<char>,
    content_type: Seq<char>,
    file_count: nat,
    total_lines: nat,
    package_count: nat,
    payload: Seq<u8>,
) -> ObsModel {
    with_meta(
        with_meta(
            with_meta(obs(id, kind, payload, content_type), "file_count"@, decimal(file_count)),
            "total_lines"@,
            decimal(total_lines),
        ),
        "package_count"@,
        decimal(package_count),
    )
}

/// Repository intelligence behind the processor interface.
#[derive(Debug)]
pub struct RepoIntelProcessor {
    intel: RepoIntel,
}

impl View for RepoIntelProcessor {
    type V = IntelModel;

    closed spec fn view(&self) -> IntelModel {
        self.intel@
    }
}

impl RepoIntelProcessor {
    /// A processor with nothing analyzed.
    pub fn new() -> (r: Self)
        ensures
            r@.workspace.root == Seq::<char>::empty(),
            r@.workspace.packages.len() == 0,
            r@.call_graph.nodes.len() == 0,
            r@.call_graph.edges.len() == 0,
            r@.cfgs.len() == 0,
    {
        RepoIntelProcessor { intel: RepoIntel::new() }
    }

    /// Processor name.
    pub fn name(&self) -> (r: &'static str)
        ensures
            r@ == "RepoIntelProcessor"@,
    {
        "RepoIntelProcessor"
    }

    /// Processor description.
    pub fn description(&self) -> (r: &'static str)
        ensures
            r@
                == "Universal code understanding across 15 languages — symbol extraction, imports, call graphs, control flow graphs, and full repository analysis"@,
    {
        "Universal code understanding across 15 languages — symbol extraction, imports, call graphs, control flow graphs, and full repository analysis"
    }

    /// Content types this processor accepts.
    pub fn content_types(&self) -> (r: Vec<&'static str>)
        ensures
            r@.map_values(|s: &'static str| s@) == seq!["application/x-repo-intel"@],
    {
        let r = vec!["application/x-repo-intel"];
        assert(r@.map_values(|s: &'static str| s@) =~= seq!["application/x-repo-intel"@]);
        r
    }

    /// Analyzes one file; a file of no recognized language is an
    /// `InvalidInput` error naming it, and changes nothing.
    pub fn analyze_file(&mut self, path: &str, content: &str) -> (r: Result<FileAnalysis, ProcessorError>)
        ensures
            match detected_language(path@, content@) {
                Some(l) => {
                    let m = module_model(path@, l, content@);
                    &&& r matches Ok(fa) && fa.module@ == m
                    &&& final(self)@.workspace.packages == old(self)@.workspace.packages.push(single_package(m))
                    &&& final(self)@.call_graph == built_graph(crate::repo_intel::all_modules(final(self)@.workspace.packages))
                    &&& final(self)@.cfgs == old(self)@.cfgs
                },
                None => final(self)@ == old(self)@ && (r matches Err(ProcessorError::InvalidInput(m)) && m@
                    == "unable to analyze file: "@ + path@ + " (unsupported language or extension)"@),
            },
    {
        match self.intel.analyze_file(path, content) {
            Some(fa) => Ok(fa),
            None => {
                let mut m = string_of(chars_of("unable to analyze file: ").as_slice());
                append_chars(&mut m, chars_of(path).as_slice());
                append_chars(&mut m, chars_of(" (unsupported language or extension)").as_slice());
                Err(ProcessorError::InvalidInput(m))
            },
        }
    }

    /// Analyzes the files as a package (see [`RepoIntel::analyze_package`]).
    pub fn analyze_package(&mut self, files: Vec<(String, String)>)
        requires
            text_total(file_texts(files@)) <= usize::MAX,
        ensures
            final(self)@.workspace.packages == grouped(analyzed(file_texts(files@))),
            final(self)@.call_graph == built_graph(analyzed(file_texts(files@))),
            final(self)@.cfgs == old(self)@.cfgs,
            sum_counts(final(self)@.workspace.packages) == analyzed(file_texts(files@)).len(),
            sum_totals(final(self)@.workspace.packages) == sum_lines(analyzed(file_texts(files@))),
    {
        self.intel.analyze_package(files);
    }

    /// Whether the line and file totals of the workspace can be counted.
    pub fn report_fits(&self) -> (r: bool)
        ensures
            r == (sum_totals(self@.workspace.packages) <= usize::MAX && sum_counts(self@.workspace.packages)
                <= usize::MAX),
    {
        self.intel.report_fits()
    }

    /// The full report.
    pub fn report(&self) -> (r: RepositoryAnalysis)
        requires
            sum_totals(self@.workspace.packages) <= usize::MAX,
            sum_counts(self@.workspace.packages) <= usize::MAX,
        ensures
            r.workspace@ == self@.workspace,
            crate::repo_intel::cfg_models(r.cfgs@) == self@.cfgs,
            r.call_graph@ == self@.call_graph,
            r.total_lines == sum_totals(self@.workspace.packages),
            r.file_count == sum_counts(self@.workspace.packages),
    {
        self.intel.report()
    }
}

/// The observation for an analyzed file, given its serialised form.
pub fn file_observation(id: &str, path: &str, fa: &FileAnalysis, payload: Vec<u8>) -> (r: ProcessedObservation)
    ensures
        r@ == file_obs(id@, path@, fa.module@, payload@),
{
    ProcessedObservation::new(
        string_of(chars_of(id).as_slice()),
        "repo_intel.file_analyzed",
        payload,
        "application/x-repo-intel+file",
    ).with_metadata("file", path).with_metadata("language", fa.module.language.name()).with_metadata(
        "symbol_count",
        decimal_text(fa.module.symbols.len()).as_str(),
    ).with_metadata("import_count", decimal_text(fa.module.imports.len()).as_str())
}

/// The observation for a report, given its serialised form: after a
/// package analysis (`package` true) or asked for.
pub fn report_observation(id: &str, package: bool, report: &RepositoryAnalysis, payload: Vec<u8>) -> (r:
    ProcessedObservation)
    ensures
        r@ == report_obs(
            id@,
            if package {
                "repo_intel.package_analyzed"@
            } else {
                "repo_intel.report"@
            },
            if package {
                "application/x-repo-intel+package"@
            } else {
                "application/x-repo-intel+report"@
            },
            report.file_count as nat,
            report.total_lines as nat,
            report.workspace@.packages.len(),
            payload@,
        ),
{
    let (kind, ct) = if package {
        ("repo_intel.package_analyzed", "application/x-repo-intel+package")
    } else {
        ("repo_intel.report", "application/x-repo-intel+report")
    };
    ProcessedObservation::new(string_of(chars_of(id).as_slice()), kind, payload, ct).with_metadata(
        "file_count",
        decimal_text(report.file_count).as_str(),
    ).with_metadata("total_lines", decimal_text(report.total_lines).as_str()).with_metadata(
        "package_count",
        decimal_text(report.workspace.packages.len()).as_str(),
    )
}

/// The observation for the call graph of a report, given its serialised
/// form.
pub fn call_graph_observation(id: &str, report: &RepositoryAnalysis, payload: Vec<u8>) -> (r: ProcessedObservation)
    ensures
        r@ == with_meta(
            with_meta(
                obs(id@, "repo_intel.call_graph"@, payload@, "application/x-repo-intel+callgraph"@),
                "node_count"@,
                decimal(report.call_graph@.nodes.len()),
            ),
            "edge_count"@,
            decimal(report.call_graph@.edges.len()),
        ),
{
    ProcessedObservation::new(
        string_of(chars_of(id).as_slice()),
        "repo_intel.call_graph",
        payload,
        "application/x-repo-intel+callgraph",
    ).with_metadata("node_count", decimal_text(report.call_graph.node_count()).as_str()).with_metadata(
        "edge_count",
        decimal_text(report.call_graph.edge_count()).as_str(),
    )
}

/// The observation for the control flow graphs of a report, given their
/// serialised form.
pub fn cfgs_observation(id: &str, report: &RepositoryAnalysis, payload: Vec<u8>) -> (r: ProcessedObservation)
    ensures
        r@ == with_meta(
            obs(id@, "repo_intel.cfgs"@, payload@, "application/x-repo-intel+cfg"@),
            "cfg_count"@,
            decimal(report.cfgs@.len()),
        ),
{
    ProcessedObservation::new(
        string_of(chars_of(id).as_slice()),
        "repo_intel.cfgs",
        payload,
        "application/x-repo-intel+cfg",
    ).with_metadata("cfg_count", decimal_text(report.cfgs.len()).as_str())
}

} // verus!
