//! The repository intelligence engine: a workspace of analyzed modules,
//! their call graph, and summary reports.
use vstd::prelude::*;
use crate::analysis::{
    CallGraph, CallGraphModel, CfgModel, ControlFlowGraph, built_graph,
    };
use crate::language::{Language, lang_name, lower_text, to_lowercase};
use crate::parser::{
    Module, ModuleModel, Package, PackageModel, SourceAnalyzer, Workspace, WorkspaceModel,
    detected_language, module_model, module_models, package_models,
};
use crate::text::{
    after_last_char, after_last_char_exec, append_chars, chars_of, lemma_lines_len, lines,
    string_of,
};

verus! {

/// Full analysis result for a single source file.
#[derive(Debug)]
pub struct FileAnalysis {
    pub module: Module,
    pub cfg: Option<ControlFlowGraph>,
}

/// Complete analysis of a repository.
#[derive(Debug)]
pub struct RepositoryAnalysis {
    /// The workspace-level hierarchy.
    pub workspace: Workspace,
    /// Per-function control flow graphs.
    pub cfgs: Vec<ControlFlowGraph>,
    /// The full call graph.
    pub call_graph: CallGraph,
    /// Total lines of code.
    pub total_lines: usize,
    /// Total file count.
    pub file_count: usize,
}

/// Repository intelligence engine — analyzes source code repositories
/// and produces structured knowledge.
#[derive(Debug)]
pub struct RepoIntel {
    workspace: Workspace,
    call_graph: CallGraph,
    cfgs: Vec<ControlFlowGraph>,
}

/// Abstract value of a [`RepoIntel`].
pub struct IntelModel {
    pub workspace: WorkspaceModel,
    pub call_graph: CallGraphModel,
    pub cfgs: Seq<CfgModel>,
}

/// The models of a list of control flow graphs.
pub open spec fn cfg_models(v: Seq<ControlFlowGraph>) -> Seq<CfgModel> {
    v.map_values(|g: ControlFlowGraph| g@)
}

impl View for RepoIntel {
    type V = IntelModel;

    closed spec fn view(&self) -> IntelModel {
        IntelModel { workspace: self.workspace@, call_graph: self.call_graph@, cfgs: cfg_models(self.cfgs@) }
    }
}

// ───────────────────────────── specifications ─────────────────────────────

/// Every module of the packages, package by package.
pub open spec fn all_modules(ps: Seq<PackageModel>) -> Seq<ModuleModel>
    decreases ps.len(),
{
    if ps.len() == 0 {
        seq![]
    } else {
        all_modules(ps.drop_last()) + ps.last().modules
    }
}

/// Sum of the packages' line totals.
pub open spec fn sum_totals(ps: Seq<PackageModel>) -> int
    decreases ps.len(),
{
    if ps.len() == 0 {
        0
    } else {
        sum_totals(ps.drop_last()) + ps.last().total_lines
    }
}

/// Sum of the packages' module counts.
pub open spec fn sum_counts(ps: Seq<PackageModel>) -> int
    decreases ps.len(),
{
    if ps.len() == 0 {
        0
    } else {
        sum_counts(ps.drop_last()) + ps.last().modules.len()
    }
}

/// Sum of the modules' line counts.
pub open spec fn sum_lines(ms: Seq<ModuleModel>) -> int
    decreases ms.len(),
{
    if ms.len() == 0 {
        0
    } else {
        sum_lines(ms.drop_last()) + ms.last().line_count
    }
}

/// The package that a single analyzed file becomes.
pub open spec fn single_package(m: ModuleModel) -> PackageModel {
    PackageModel {
        name: after_last_char(m.path, '/'),
        language: m.language,
        modules: seq![m],
        total_lines: m.line_count,
    }
}

/// The texts of `(path, content)` pairs.
pub open spec fn file_texts(files: Seq<(String, String)>) -> Seq<(Seq<char>, Seq<char>)> {
    files.map_values(|f: (String, String)| (f.0@, f.1@))
}

/// The modules that analysis yields for files, skipping unrecognized ones.
pub open spec fn analyzed(files: Seq<(Seq<char>, Seq<char>)>) -> Seq<ModuleModel>
    decreases files.len(),
{
    if files.len() == 0 {
        seq![]
    } else {
        let prev = analyzed(files.drop_last());
        let (p, c) = files.last();
        match detected_language(p, c) {
            Some(l) => prev.push(module_model(p, l, c)),
            None => prev,
        }
    }
}

/// Total number of characters of the files' contents.
pub open spec fn text_total(files: Seq<(Seq<char>, Seq<char>)>) -> int
    decreases files.len(),
{
    if files.len() == 0 {
        0
    } else {
        text_total(files.drop_last()) + files.last().1.len()
    }
}

/// Languages of the modules in order of first appearance.
pub open spec fn langs_of(ms: Seq<ModuleModel>) -> Seq<Language>
    decreases ms.len(),
{
    if ms.len() == 0 {
        seq![]
    } else {
        let p = langs_of(ms.drop_last());
        if p.contains(ms.last().language) {
            p
        } else {
            p.push(ms.last().language)
        }
    }
}

/// The modules of one language, in order.
pub open spec fn modules_in(ms: Seq<ModuleModel>, l: Language) -> Seq<ModuleModel>
    decreases ms.len(),
{
    if ms.len() == 0 {
        seq![]
    } else {
        let p = modules_in(ms.drop_last(), l);
        if ms.last().language == l {
            p.push(ms.last())
        } else {
            p
        }
    }
}

/// The name of the package that groups a language's modules.
pub open spec fn package_name(l: Language) -> Seq<char> {
    lower_text(lang_name(l)) + "-package"@
}

/// The package of one language's modules.
pub open spec fn package_of(ms: Seq<ModuleModel>, l: Language) -> PackageModel {
    PackageModel {
        name: package_name(l),
        language: l,
        modules: modules_in(ms, l),
        total_lines: sum_lines(modules_in(ms, l)),
    }
}

/// Modules grouped into one package per language, languages in order of
/// first appearance.
pub open spec fn grouped(ms: Seq<ModuleModel>) -> Seq<PackageModel> {
    langs_of(ms).map_values(|l: Language| package_of(ms, l))
}

// ───────────────────────────── lemmas ─────────────────────────────

proof fn lemma_langs_distinct(ms: Seq<ModuleModel>)
    ensures
        forall|i: int, j: int| 0 <= i < j < langs_of(ms).len() ==> langs_of(ms)[i] != langs_of(ms)[j],
        forall|l: Language| langs_of(ms).contains(l) <==> modules_in(ms, l).len() > 0,
    decreases ms.len(),
{
    if ms.len() > 0 {
        lemma_langs_distinct(ms.drop_last());
        let p = langs_of(ms.drop_last());
        if !p.contains(ms.last().language) {
            let q = p.push(ms.last().language);
            assert forall|i: int, j: int| 0 <= i < j < q.len() implies q[i] != q[j] by {
                if j == q.len() - 1 {
                    assert(p[i] == q[i]);
                } else {
                    assert(p[i] == q[i] && p[j] == q[j]);
                }
            }
            assert forall|l: Language| q.contains(l) <==> modules_in(ms, l).len() > 0 by {
                if l == ms.last().language {
                    assert(q[q.len() - 1] == l);
                } else {
                    if q.contains(l) {
                        let k = choose|k: int| 0 <= k < q.len() && q[k] == l;
                        assert(p[k] == l);
                    }
                    if p.contains(l) {
                        let k = choose|k: int| 0 <= k < p.len() && p[k] == l;
                        assert(q[k] == l);
                    }
                }
            }
        }
    }
}

proof fn lemma_sum_lines_nonneg(ms: Seq<ModuleModel>)
    requires
        forall|k: int| 0 <= k < ms.len() ==> (#[trigger] ms[k]).line_count >= 0,
    ensures
        sum_lines(ms) >= 0,
    decreases ms.len(),
{
    if ms.len() > 0 {
        lemma_sum_lines_nonneg(ms.drop_last());
    }
}

proof fn lemma_modules_in_le(ms: Seq<ModuleModel>, l: Language)
    requires
        forall|k: int| 0 <= k < ms.len() ==> (#[trigger] ms[k]).line_count >= 0,
    ensures
        0 <= sum_lines(modules_in(ms, l)) <= sum_lines(ms),
        forall|k: int| 0 <= k < modules_in(ms, l).len() ==> (#[trigger] modules_in(ms, l)[k]).line_count >= 0,
    decreases ms.len(),
{
    if ms.len() > 0 {
        lemma_modules_in_le(ms.drop_last(), l);
        let p = modules_in(ms.drop_last(), l);
        if ms.last().language == l {
            assert(p.push(ms.last()).drop_last() == p);
            assert forall|k: int| 0 <= k < p.push(ms.last()).len() implies (#[trigger] p.push(ms.last())[k]).line_count >= 0 by {
                if k < p.len() {
                    assert(p.push(ms.last())[k] == p[k]);
                }
            }
        }
    }
}

proof fn lemma_analyzed_bound(files: Seq<(Seq<char>, Seq<char>)>)
    ensures
        sum_lines(analyzed(files)) <= text_total(files),
        text_total(files) >= 0,
        forall|k: int| 0 <= k < analyzed(files).len() ==> (#[trigger] analyzed(files)[k]).line_count >= 0,
    decreases files.len(),
{
    if files.len() > 0 {
        lemma_analyzed_bound(files.drop_last());
        let prev = analyzed(files.drop_last());
        let (p, c) = files.last();
        lemma_lines_len(c);
        if let Some(l) = detected_language(p, c) {
            let m = module_model(p, l, c);
            assert(prev.push(m).drop_last() == prev);
            assert forall|k: int| 0 <= k < prev.push(m).len() implies (#[trigger] prev.push(m)[k]).line_count >= 0 by {
                if k < prev.len() {
                    assert(prev.push(m)[k] == prev[k]);
                }
            }
        }
    }
}

proof fn lemma_all_modules_push(ps: Seq<PackageModel>, p: PackageModel)
    ensures
        all_modules(ps.push(p)) == all_modules(ps) + p.modules,
        sum_totals(ps.push(p)) == sum_totals(ps) + p.total_lines,
        sum_counts(ps.push(p)) == sum_counts(ps) + p.modules.len(),
{
    assert(ps.push(p).drop_last() == ps);
}

// ───────────────────────────── engine ─────────────────────────────

/// All modules of the packages, package by package.
fn collect_modules(packages: &Vec<Package>) -> (r: Vec<Module>)
    ensures
        module_models(r@) == all_modules(package_models(packages@)),
{
    let mut out: Vec<Module> = Vec::new();
    let mut i: usize = 0;
    while i < packages.len()
        invariant
            i <= packages@.len(),
            module_models(out@) == all_modules(package_models(packages@.subrange(0, i as int))),
        decreases packages@.len() - i,
    {
        let pkg = &packages[i];
        let mut j: usize = 0;
        let ghost base = module_models(out@);
        while j < pkg.modules.len()
            invariant
                j <= pkg.modules@.len(),
                module_models(out@) == base + module_models(pkg.modules@).subrange(0, j as int),
            decreases pkg.modules@.len() - j,
        {
            let m = pkg.modules[j].clone();
            let ghost before = module_models(out@);
            out.push(m);
            assert(module_models(out@) =~= before.push(pkg.modules@[j as int]@));
            assert(module_models(pkg.modules@).subrange(0, j + 1) =~= module_models(pkg.modules@).subrange(0, j as int).push(pkg.modules@[j as int]@));
            j += 1;
        }
        assert(module_models(pkg.modules@).subrange(0, j as int) == module_models(pkg.modules@));
        assert(package_models(packages@.subrange(0, i + 1)) == package_models(packages@.subrange(0, i as int)).push(pkg@));
        proof {
            lemma_all_modules_push(package_models(packages@.subrange(0, i as int)), pkg@);
        }
        i += 1;
    }
    assert(packages@.subrange(0, packages@.len() as int) == packages@);
    out
}

/// Index of the package of a language.
fn find_package(packages: &Vec<Package>, l: Language) -> (r: Option<usize>)
    ensures
        match r {
            Some(j) => j < packages@.len() && packages@[j as int].language == l,
            None => forall|k: int| 0 <= k < packages@.len() ==> packages@[k].language != l,
        },
{
    let mut j: usize = 0;
    while j < packages.len()
        invariant
            j <= packages@.len(),
            forall|k: int| 0 <= k < j ==> packages@[k].language != l,
        decreases packages@.len() - j,
    {
        if packages[j].language == l {
            return Some(j);
        }
        j += 1;
    }
    None
}

/// The name of the package for a language: its lower-cased name and `-package`.
fn package_name_of(l: Language) -> (r: String)
    ensures
        r@ == package_name(l),
{
    let lower = to_lowercase(l.name());
    let mut name = string_of(chars_of(lower.as_str()).as_slice());
    let suffix = chars_of("-package");
    append_chars(&mut name, suffix.as_slice());
    name
}

/// What analysing one recognised file does to the report: the file count
/// grows by one and the line total by the file's line count, since the
/// file comes as a package of its own after the packages already there.
pub proof fn lemma_report_after_file(ps: Seq<PackageModel>, m: ModuleModel)
    ensures
        sum_counts(ps.push(single_package(m))) == sum_counts(ps) + 1,
        sum_totals(ps.push(single_package(m))) == sum_totals(ps) + m.line_count,
{
    assert(ps.push(single_package(m)).drop_last() =~= ps);
}

impl RepoIntel {
    /// Create a new empty repository intelligence engine.
    pub fn new() -> (r: Self)
        ensures
            r@.workspace.root == Seq::<char>::empty(),
            r@.workspace.packages == Seq::<PackageModel>::empty(),
            r@.call_graph.nodes.len() == 0,
            r@.call_graph.edges.len() == 0,
            r@.cfgs.len() == 0,
    {
        let r = Self {
            workspace: Workspace { root: String::new(), packages: Vec::new() },
            call_graph: CallGraph { nodes: Vec::new(), edges: Vec::new() },
            cfgs: Vec::new(),
        };
        assert(package_models(r.workspace.packages@) =~= Seq::<PackageModel>::empty());
        assert(cfg_models(r.cfgs@) =~= Seq::<CfgModel>::empty());
        r
    }

    /// Analyze a single file and add it to the workspace as a package of its
    /// own; the call graph is rebuilt from all modules of the workspace.
    pub fn analyze_file(&mut self, path: &str, content: &str) -> (r: Option<FileAnalysis>)
        ensures
            match detected_language(path@, content@) {
                Some(l) => {
                    let m = module_model(path@, l, content@);
                    &&& r matches Some(fa) && fa.module@ == m && fa.cfg is None
                    &&& final(self)@.workspace.root == old(self)@.workspace.root
                    &&& final(self)@.workspace.packages == old(self)@.workspace.packages.push(single_package(m))
                    &&& final(self)@.call_graph == built_graph(all_modules(final(self)@.workspace.packages))
                    &&& final(self)@.cfgs == old(self)@.cfgs
                    &&& sum_counts(final(self)@.workspace.packages) == sum_counts(old(self)@.workspace.packages) + 1
                    &&& sum_totals(final(self)@.workspace.packages) == sum_totals(old(self)@.workspace.packages) + m.line_count
                },
                None => r is None && final(self)@ == old(self)@,
            },
    {
        let module = match SourceAnalyzer::analyze_file(path, content) {
            Some(m) => m,
            None => return None,
        };
        let file_analysis = FileAnalysis { module: module.clone(), cfg: None };
        let line_count = module.line_count;
        let pc = chars_of(module.path.as_str());
        let name = string_of(after_last_char_exec(pc.as_slice(), '/'));
        let language = module.language;
        let ghost mm = module@;
        let mut modules: Vec<Module> = Vec::new();
        modules.push(module);
        let pkg = Package { name, language, modules, total_lines: line_count };
        assert(pkg@.modules =~= seq![mm]);
        let ghost old_ps = package_models(self.workspace.packages@);
        self.workspace.packages.push(pkg);
        assert(package_models(self.workspace.packages@) =~= old_ps.push(single_package(mm)));
        proof {
            lemma_all_modules_push(old_ps, single_package(mm));
        }
        let all_modules = collect_modules(&self.workspace.packages);
        self.call_graph = CallGraph::build(all_modules.as_slice());
        Some(file_analysis)
    }

    /// Analyze a workspace package structure from multiple files: the
    /// recognized files are grouped into one package per language (in order
    /// of first appearance), and the call graph is built from them.
    pub fn analyze_package(&mut self, files: Vec<(String, String)>)
        requires
            text_total(file_texts(files@)) <= usize::MAX,
        ensures
            final(self)@.workspace.root == "workspace"@,
            final(self)@.workspace.packages == grouped(analyzed(file_texts(files@))),
            final(self)@.call_graph == built_graph(analyzed(file_texts(files@))),
            final(self)@.cfgs == old(self)@.cfgs,
            sum_counts(final(self)@.workspace.packages) == analyzed(file_texts(files@)).len(),
            sum_totals(final(self)@.workspace.packages) == sum_lines(analyzed(file_texts(files@))),
    {
        let ghost fs = file_texts(files@);
        let mut modules: Vec<Module> = Vec::new();
        let mut i: usize = 0;
        while i < files.len()
            invariant
                i <= files@.len(),
                fs == file_texts(files@),
                module_models(modules@) == analyzed(fs.subrange(0, i as int)),
            decreases files@.len() - i,
        {
            let (path, content) = &files[i];
            assert(fs.subrange(0, i + 1).drop_last() == fs.subrange(0, i as int));
            assert(fs.subrange(0, i + 1).last() == (path@, content@));
            if let Some(module) = SourceAnalyzer::analyze_file(path.as_str(), content.as_str()) {
                let ghost before = module_models(modules@);
                modules.push(module);
                assert(module_models(modules@) =~= before.push(modules@.last()@));
            }
            i += 1;
        }
        assert(fs.subrange(0, files@.len() as int) == fs);
        let ghost ms = analyzed(fs);
        proof {
            lemma_analyzed_bound(fs);
        }
        self.call_graph = CallGraph::build(modules.as_slice());
        let packages = Self::group_by_language(&modules);
        self.workspace = Workspace { root: string_of(chars_of("workspace").as_slice()), packages };
    }

    /// Groups modules into one package per language, in order of first appearance.
    fn group_by_language(modules: &Vec<Module>) -> (r: Vec<Package>)
        requires
            sum_lines(module_models(modules@)) <= usize::MAX,
            forall|k: int| 0 <= k < modules@.len() ==> (#[trigger] module_models(modules@)[k]).line_count >= 0,
        ensures
            package_models(r@) == grouped(module_models(modules@)),
            sum_counts(package_models(r@)) == modules@.len(),
            sum_totals(package_models(r@)) == sum_lines(module_models(modules@)),
    {
        let ghost all = module_models(modules@);
        let mut packages: Vec<Package> = Vec::new();
        let mut i: usize = 0;
        assert(package_models(packages@) =~= grouped(all.subrange(0, 0)));
        while i < modules.len()
            invariant
                i <= modules@.len(),
                all == module_models(modules@),
                sum_lines(all) <= usize::MAX,
                forall|k: int| 0 <= k < all.len() ==> (#[trigger] all[k]).line_count >= 0,
                package_models(packages@) == grouped(all.subrange(0, i as int)),
                sum_counts(package_models(packages@)) == i,
                sum_totals(package_models(packages@)) == sum_lines(all.subrange(0, i as int)),
            decreases modules@.len() - i,
        {
            let ghost pre = all.subrange(0, i as int);
            let ghost cur = all.subrange(0, i + 1);
            let m = modules[i].clone();
            let ghost mm = m@;
            assert(cur.drop_last() == pre);
            assert(cur.last() == mm);
            assert(cur == pre.push(mm));
            proof {
                lemma_langs_distinct(pre);
                lemma_langs_distinct(cur);
                lemma_prefix_lines(all, i as int);
                lemma_modules_in_le(cur, mm.language);
            }
            let lc = m.line_count;
            let lang = m.language;
            match find_package(&packages, lang) {
                Some(j) => {
                    let mut p = packages[j].clone();
                    proof {
                        assert(package_models(packages@)[j as int] == packages@[j as int]@);
                        lemma_group_step_existing(pre, mm, j as int);
                    }
                    let ghost old_p = p@;
                    p.modules.push(m);
                    p.total_lines = p.total_lines + lc;
                    let ghost old_ps = package_models(packages@);
                    packages.set(j, p);
                    proof {
                        assert(p@.modules =~= old_p.modules.push(mm));
                        assert(p@ == PackageModel {
                            name: grouped(pre)[j as int].name,
                            language: mm.language,
                            modules: grouped(pre)[j as int].modules.push(mm),
                            total_lines: grouped(pre)[j as int].total_lines + mm.line_count,
                        });
                        assert(package_models(packages@) =~= old_ps.update(j as int, p@));
                        lemma_sums_set(old_ps, j as int, p@);
                    }
                },
                None => {
                    let mut mods: Vec<Module> = Vec::new();
                    mods.push(m);
                    let p = Package { name: package_name_of(lang), language: lang, modules: mods, total_lines: lc };
                    let ghost old_ps = package_models(packages@);
                    proof {
                        assert forall|k: int| 0 <= k < langs_of(pre).len() implies langs_of(pre)[k] != mm.language by {
                            assert(grouped(pre)[k].language == langs_of(pre)[k]);
                            assert(packages@[k]@ == grouped(pre)[k]);
                        }
                        lemma_group_step_new(pre, mm);
                        assert(p@.modules =~= seq![mm]);
                    }
                    packages.push(p);
                    proof {
                        assert(package_models(packages@) =~= old_ps.push(p@));
                        lemma_all_modules_push(old_ps, p@);
                    }
                },
            }
            i += 1;
        }
        assert(all.subrange(0, modules@.len() as int) == all);
        packages
    }

    /// Whether the workspace's line and file totals fit in `usize`, so that
    /// [`RepoIntel::report`] can count them.
    pub fn report_fits(&self) -> (r: bool)
        ensures
            r == (sum_totals(self@.workspace.packages) <= usize::MAX && sum_counts(self@.workspace.packages)
                <= usize::MAX),
    {
        let ps = &self.workspace.packages;
        let ghost pm = package_models(ps@);
        let mut total_lines: usize = 0;
        let mut file_count: usize = 0;
        let mut i: usize = 0;
        proof {
            assert forall|k: int| 0 <= k < pm.len() implies (#[trigger] pm[k]).total_lines >= 0 by {
                assert(pm[k] == ps@[k]@);
            }
            lemma_sums_mono(pm);
        }
        while i < ps.len()
            invariant
                i <= ps@.len(),
                pm == package_models(ps@),
                pm == self@.workspace.packages,
                forall|k: int| 0 <= k <= ps@.len() ==> sum_totals(#[trigger] pm.subrange(0, k)) <= sum_totals(pm),
                forall|k: int| 0 <= k <= ps@.len() ==> sum_counts(#[trigger] pm.subrange(0, k)) <= sum_counts(pm),
                total_lines == sum_totals(pm.subrange(0, i as int)),
                file_count == sum_counts(pm.subrange(0, i as int)),
            decreases ps@.len() - i,
        {
            let ghost next = pm.subrange(0, i + 1);
            assert(next.drop_last() == pm.subrange(0, i as int));
            assert(next.last() == ps@[i as int]@);
            let t = ps[i].total_lines;
            let c = ps[i].modules.len();
            if total_lines > usize::MAX - t || file_count > usize::MAX - c {
                assert(next.last().total_lines == t as int);
                assert(next.last().modules.len() == c as int);
                assert(sum_totals(next) <= sum_totals(pm));
                assert(sum_counts(next) <= sum_counts(pm));
                return false;
            }
            total_lines = total_lines + t;
            file_count = file_count + c;
            i += 1;
        }
        assert(pm.subrange(0, ps@.len() as int) == pm);
        true
    }

    /// Get the full repository analysis result.
    pub fn report(&self) -> (r: RepositoryAnalysis)
        requires
            sum_totals(self@.workspace.packages) <= usize::MAX,
            sum_counts(self@.workspace.packages) <= usize::MAX,
        ensures
            r.workspace@ == self@.workspace,
            cfg_models(r.cfgs@) == self@.cfgs,
            r.call_graph@ == self@.call_graph,
            r.total_lines == sum_totals(self@.workspace.packages),
            r.file_count == sum_counts(self@.workspace.packages),
    {
        let ps = &self.workspace.packages;
        let mut total_lines: usize = 0;
        let mut file_count: usize = 0;
        let mut i: usize = 0;
        proof {
            assert forall|k: int| 0 <= k < package_models(ps@).len() implies (#[trigger] package_models(ps@)[k]).total_lines >= 0 by {
                assert(package_models(ps@)[k] == ps@[k]@);
            }
            lemma_sums_mono(package_models(ps@));
        }
        while i < ps.len()
            invariant
                i <= ps@.len(),
                sum_totals(package_models(ps@)) <= usize::MAX,
                sum_counts(package_models(ps@)) <= usize::MAX,
                forall|k: int| 0 <= k <= ps@.len() ==> sum_totals(#[trigger] package_models(ps@).subrange(0, k)) <= sum_totals(package_models(ps@)),
                forall|k: int| 0 <= k <= ps@.len() ==> sum_counts(#[trigger] package_models(ps@).subrange(0, k)) <= sum_counts(package_models(ps@)),
                total_lines == sum_totals(package_models(ps@).subrange(0, i as int)),
                file_count == sum_counts(package_models(ps@).subrange(0, i as int)),
            decreases ps@.len() - i,
        {
            let ghost next = package_models(ps@).subrange(0, i + 1);
            assert(next.drop_last() == package_models(ps@).subrange(0, i as int));
            total_lines = total_lines + ps[i].total_lines;
            file_count = file_count + ps[i].modules.len();
            i += 1;
        }
        assert(package_models(ps@).subrange(0, ps@.len() as int) == package_models(ps@));
        let cfgs = self.clone_cfgs();
        RepositoryAnalysis {
            workspace: self.workspace.clone(),
            cfgs,
            call_graph: self.call_graph.clone(),
            total_lines,
            file_count,
        }
    }

    fn clone_cfgs(&self) -> (r: Vec<ControlFlowGraph>)
        ensures
            cfg_models(r@) == cfg_models(self.cfgs@),
    {
        let r = self.cfgs.clone();
        assert(cfg_models(r@) =~= cfg_models(self.cfgs@));
        r
    }
}

proof fn lemma_group_step_existing(pre: Seq<ModuleModel>, m: ModuleModel, j: int)
    requires
        0 <= j < langs_of(pre).len(),
        langs_of(pre)[j] == m.language,
    ensures
        grouped(pre.push(m)) == grouped(pre).update(
            j,
            PackageModel {
                name: grouped(pre)[j].name,
                language: m.language,
                modules: grouped(pre)[j].modules.push(m),
                total_lines: grouped(pre)[j].total_lines + m.line_count,
            },
        ),
        sum_lines(modules_in(pre.push(m), m.language)) == grouped(pre)[j].total_lines + m.line_count,
{
    let cur = pre.push(m);
    let l = m.language;
    assert(cur.drop_last() == pre);
    lemma_langs_distinct(pre);
    assert(langs_of(pre).contains(l));
    assert(langs_of(cur) == langs_of(pre));
    let mi = modules_in(pre, l);
    assert(modules_in(cur, l) == mi.push(m));
    assert(mi.push(m).drop_last() == mi);
    assert forall|k: int| 0 <= k < langs_of(cur).len() implies grouped(cur)[k] == grouped(pre).update(
        j,
        PackageModel {
            name: grouped(pre)[j].name,
            language: l,
            modules: grouped(pre)[j].modules.push(m),
            total_lines: grouped(pre)[j].total_lines + m.line_count,
        },
    )[k] by {
        if k != j {
            assert(langs_of(pre)[k] != l);
            assert(modules_in(cur, langs_of(pre)[k]) == modules_in(pre, langs_of(pre)[k]));
        }
    }
    assert(grouped(cur) =~= grouped(pre).update(
        j,
        PackageModel {
            name: grouped(pre)[j].name,
            language: l,
            modules: grouped(pre)[j].modules.push(m),
            total_lines: grouped(pre)[j].total_lines + m.line_count,
        },
    ));
}

proof fn lemma_group_step_new(pre: Seq<ModuleModel>, m: ModuleModel)
    requires
        forall|k: int| 0 <= k < langs_of(pre).len() ==> langs_of(pre)[k] != m.language,
    ensures
        grouped(pre.push(m)) == grouped(pre).push(
            PackageModel { name: package_name(m.language), language: m.language, modules: seq![m], total_lines: m.line_count },
        ),
{
    let cur = pre.push(m);
    let l = m.language;
    assert(cur.drop_last() == pre);
    lemma_langs_distinct(pre);
    assert(!langs_of(pre).contains(l));
    assert(modules_in(pre, l).len() == 0);
    assert(modules_in(pre, l) =~= Seq::<ModuleModel>::empty());
    assert(langs_of(cur) == langs_of(pre).push(l));
    assert(modules_in(cur, l) =~= seq![m]);
    assert(seq![m].drop_last() =~= Seq::<ModuleModel>::empty());
    assert(sum_lines(Seq::<ModuleModel>::empty()) == 0);
    assert(seq![m].last() == m);
    assert(sum_lines(seq![m]) == sum_lines(seq![m].drop_last()) + m.line_count);
    assert(sum_lines(seq![m]) == m.line_count);
    assert forall|k: int| 0 <= k < langs_of(cur).len() implies grouped(cur)[k] == grouped(pre).push(
        PackageModel { name: package_name(l), language: l, modules: seq![m], total_lines: m.line_count },
    )[k] by {
        if k < langs_of(pre).len() {
            assert(langs_of(cur)[k] == langs_of(pre)[k]);
            assert(modules_in(cur, langs_of(pre)[k]) == modules_in(pre, langs_of(pre)[k]));
        }
    }
    assert(grouped(cur) =~= grouped(pre).push(
        PackageModel { name: package_name(l), language: l, modules: seq![m], total_lines: m.line_count },
    ));
}

proof fn lemma_prefix_lines(all: Seq<ModuleModel>, i: int)
    requires
        0 <= i < all.len(),
        forall|k: int| 0 <= k < all.len() ==> (#[trigger] all[k]).line_count >= 0,
    ensures
        sum_lines(all.subrange(0, i + 1)) <= sum_lines(all),
        forall|k: int| 0 <= k < all.subrange(0, i + 1).len() ==> (#[trigger] all.subrange(0, i + 1)[k]).line_count >= 0,
    decreases all.len() - i,
{
    if i + 1 < all.len() {
        lemma_prefix_lines(all, i + 1);
        let nxt = all.subrange(0, i + 2);
        assert(nxt.drop_last() == all.subrange(0, i + 1));
    } else {
        assert(all.subrange(0, i + 1) == all);
    }
}

proof fn lemma_sums_mono(ps: Seq<PackageModel>)
    requires
        forall|k: int| 0 <= k < ps.len() ==> (#[trigger] ps[k]).total_lines >= 0,
    ensures
        forall|k: int| 0 <= k <= ps.len() ==> sum_totals(#[trigger] ps.subrange(0, k)) <= sum_totals(ps),
        forall|k: int| 0 <= k <= ps.len() ==> sum_counts(#[trigger] ps.subrange(0, k)) <= sum_counts(ps),
    decreases ps.len(),
{
    if ps.len() > 0 {
        let q = ps.drop_last();
        lemma_sums_mono(q);
        assert forall|k: int| 0 <= k <= ps.len() implies sum_totals(#[trigger] ps.subrange(0, k)) <= sum_totals(ps)
            && sum_counts(ps.subrange(0, k)) <= sum_counts(ps) by {
            if k == ps.len() {
                assert(ps.subrange(0, k) == ps);
            } else {
                assert(ps.subrange(0, k) == q.subrange(0, k));
            }
        }
    }
}

proof fn lemma_sums_set(ps: Seq<PackageModel>, j: int, p: PackageModel)
    requires
        0 <= j < ps.len(),
    ensures
        sum_totals(ps.update(j, p)) == sum_totals(ps) - ps[j].total_lines + p.total_lines,
        sum_counts(ps.update(j, p)) == sum_counts(ps) - ps[j].modules.len() + p.modules.len(),
    decreases ps.len(),
{
    let q = ps.update(j, p);
    if j == ps.len() - 1 {
        assert(q.drop_last() == ps.drop_last());
    } else {
        lemma_sums_set(ps.drop_last(), j, p);
        assert(q.drop_last() == ps.drop_last().update(j, p));
    }
}

} // verus!
