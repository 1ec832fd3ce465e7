//! Call graphs across modules and control flow graphs of function bodies.
use vstd::prelude::*;
use crate::parser::{Module, ModuleModel, SymbolModel, module_models};
use crate::text::{
    append_chars, chars_of, decimal, decimal_string, lemma_lines_len, lines, next_line,
    same_text, starts_with, starts_with_str, string_of, trim, trimmed,
};

verus! {

/// A call node in the call graph.
#[derive(Debug)]
pub struct CallNode {
    pub name: String,
    pub file: String,
    pub line: usize,
}

/// A call graph — directed graph of function/method calls.
#[derive(Debug)]
pub struct CallGraph {
    pub nodes: Vec<CallNode>,
    /// Edges: (caller_idx, callee_idx)
    pub edges: Vec<(usize, usize)>,
}

/// Abstract value of a [`CallNode`].
pub struct NodeModel {
    pub name: Seq<char>,
    pub file: Seq<char>,
    pub line: int,
}

/// Abstract value of a [`CallGraph`].
pub struct CallGraphModel {
    pub nodes: Seq<NodeModel>,
    pub edges: Seq<(usize, usize)>,
}

impl View for CallNode {
    type V = NodeModel;

    open spec fn view(&self) -> NodeModel {
        NodeModel { name: self.name@, file: self.file@, line: self.line as int }
    }
}

/// The models of a list of call nodes.
pub open spec fn node_models(v: Seq<CallNode>) -> Seq<NodeModel> {
    v.map_values(|n: CallNode| n@)
}

impl View for CallGraph {
    type V = CallGraphModel;

    open spec fn view(&self) -> CallGraphModel {
        CallGraphModel { nodes: node_models(self.nodes@), edges: self.edges@ }
    }
}

impl Clone for CallNode {
    fn clone(&self) -> (r: Self)
        ensures
            r == *self,
    {
        CallNode { name: self.name.clone(), file: self.file.clone(), line: self.line }
    }
}

impl Clone for CallGraph {
    fn clone(&self) -> (r: Self)
        ensures
            r@ == self@,
    {
        let nodes = self.nodes.clone();
        let edges = copy_pairs(&self.edges);
        assert(node_models(nodes@) =~= node_models(self.nodes@));
        CallGraph { nodes, edges }
    }
}

/// A copy of a list of index pairs.
pub fn copy_pairs(v: &Vec<(usize, usize)>) -> (r: Vec<(usize, usize)>)
    ensures
        r@ == v@,
{
    let mut r: Vec<(usize, usize)> = Vec::new();
    let mut i: usize = 0;
    while i < v.len()
        invariant
            i <= v@.len(),
            r@ == v@.subrange(0, i as int),
        decreases v@.len() - i,
    {
        r.push(v[i]);
        i += 1;
        assert(r@ =~= v@.subrange(0, i as int));
    }
    assert(v@.subrange(0, v@.len() as int) == v@);
    r
}

/// The call nodes of one module: one per symbol, in order.
pub open spec fn module_nodes(m: ModuleModel) -> Seq<NodeModel> {
    m.symbols.map_values(|s: SymbolModel| NodeModel { name: s.name, file: m.path, line: s.location.line })
}

/// The call nodes of a list of modules, module by module.
pub open spec fn call_nodes(ms: Seq<ModuleModel>) -> Seq<NodeModel>
    decreases ms.len(),
{
    if ms.len() == 0 {
        seq![]
    } else {
        call_nodes(ms.drop_last()) + module_nodes(ms.last())
    }
}

/// The call graph built from a list of modules: every symbol becomes a
/// node and no edge is inferred.
pub open spec fn built_graph(ms: Seq<ModuleModel>) -> CallGraphModel {
    CallGraphModel { nodes: call_nodes(ms), edges: seq![] }
}

/// Index of the first node named `name`.
pub open spec fn first_named(nodes: Seq<NodeModel>, name: Seq<char>) -> Option<int>
    decreases nodes.len(),
{
    if nodes.len() == 0 {
        None
    } else {
        match first_named(nodes.drop_last(), name) {
            Some(i) => Some(i),
            None => if nodes.last().name == name {
                Some(nodes.len() - 1)
            } else {
                None
            },
        }
    }
}

/// The graph after recording a call from `caller` to `callee`: the edge
/// between the first nodes of those names, when both exist and the edge is new.
pub open spec fn with_call(g: CallGraphModel, caller: Seq<char>, callee: Seq<char>) -> CallGraphModel {
    match (first_named(g.nodes, caller), first_named(g.nodes, callee)) {
        (Some(a), Some(b)) => if g.edges.contains((a as usize, b as usize)) {
            g
        } else {
            CallGraphModel { nodes: g.nodes, edges: g.edges.push((a as usize, b as usize)) }
        },
        _ => g,
    }
}

/// Nodes that call a node named `name`, one per matching edge, in edge order.
pub open spec fn callers(nodes: Seq<NodeModel>, edges: Seq<(usize, usize)>, name: Seq<char>) -> Seq<NodeModel>
    decreases edges.len(),
{
    if edges.len() == 0 {
        seq![]
    } else {
        let (from, to) = edges.last();
        let prev = callers(nodes, edges.drop_last(), name);
        if to < nodes.len() && nodes[to as int].name == name && from < nodes.len() {
            prev.push(nodes[from as int])
        } else {
            prev
        }
    }
}

/// Nodes that a node named `name` calls, one per matching edge, in edge order.
pub open spec fn callees(nodes: Seq<NodeModel>, edges: Seq<(usize, usize)>, name: Seq<char>) -> Seq<NodeModel>
    decreases edges.len(),
{
    if edges.len() == 0 {
        seq![]
    } else {
        let (from, to) = edges.last();
        let prev = callees(nodes, edges.drop_last(), name);
        if from < nodes.len() && nodes[from as int].name == name && to < nodes.len() {
            prev.push(nodes[to as int])
        } else {
            prev
        }
    }
}

/// Every edge joins existing nodes and no edge occurs twice.
pub open spec fn graph_wf(g: CallGraphModel) -> bool {
    &&& forall|k: int| 0 <= k < g.edges.len() ==> (#[trigger] g.edges[k]).0 < g.nodes.len() && g.edges[k].1 < g.nodes.len()
    &&& forall|i: int, j: int| 0 <= i < j < g.edges.len() ==> g.edges[i] != g.edges[j]
}

proof fn lemma_first_named_bounds(nodes: Seq<NodeModel>, name: Seq<char>)
    ensures
        first_named(nodes, name) matches Some(i) ==> 0 <= i < nodes.len() && nodes[i].name == name,
        first_named(nodes, name) is None ==> forall|k: int| 0 <= k < nodes.len() ==> nodes[k].name != name,
    decreases nodes.len(),
{
    if nodes.len() > 0 {
        lemma_first_named_bounds(nodes.drop_last(), name);
        if first_named(nodes, name) is None {
            assert forall|k: int| 0 <= k < nodes.len() implies nodes[k].name != name by {
                if k < nodes.len() - 1 {
                    assert(nodes.drop_last()[k] == nodes[k]);
                }
            }
        }
    }
}

/// `first_named` finds the first node of that name.
pub proof fn lemma_first_named_first(nodes: Seq<NodeModel>, name: Seq<char>)
    ensures
        first_named(nodes, name) matches Some(i) ==> forall|k: int| 0 <= k < i ==> nodes[k].name != name,
    decreases nodes.len(),
{
    lemma_first_named_bounds(nodes, name);
    if nodes.len() > 0 {
        lemma_first_named_first(nodes.drop_last(), name);
        lemma_first_named_bounds(nodes.drop_last(), name);
        if let Some(i) = first_named(nodes, name) {
            assert forall|k: int| 0 <= k < i implies nodes[k].name != name by {
                assert(nodes.drop_last()[k] == nodes[k]);
            }
        }
    }
}

impl CallGraph {
    /// Build a call graph from a set of modules: one node per symbol, with
    /// the module's path and the symbol's line, and no edges.
    pub fn build(modules: &[Module]) -> (r: Self)
        ensures
            r@ == built_graph(module_models(modules@)),
    {
        let mut nodes: Vec<CallNode> = Vec::new();
        let mut i: usize = 0;
        while i < modules.len()
            invariant
                i <= modules@.len(),
                node_models(nodes@) == call_nodes(module_models(modules@.subrange(0, i as int))),
            decreases modules@.len() - i,
        {
            let module = &modules[i];
            let mut j: usize = 0;
            let ghost base = node_models(nodes@);
            while j < module.symbols.len()
                invariant
                    j <= module.symbols@.len(),
                    i < modules@.len(),
                    *module == modules@[i as int],
                    node_models(nodes@) == base + module_nodes(module@).subrange(0, j as int),
                decreases module.symbols@.len() - j,
            {
                let sym = &module.symbols[j];
                let node = CallNode {
                    name: sym.name.clone(),
                    file: module.path.clone(),
                    line: sym.location.line,
                };
                let ghost nv = node@;
                assert(module@.symbols[j as int] == module.symbols@[j as int]@);
                assert(nv == module_nodes(module@)[j as int]);
                let ghost before = node_models(nodes@);
                nodes.push(node);
                assert(node_models(nodes@) =~= before.push(nv));
                assert(module_nodes(module@).subrange(0, j + 1) =~= module_nodes(module@).subrange(0, j as int).push(nv));
                j += 1;
            }
            assert(module_nodes(module@).subrange(0, j as int) == module_nodes(module@));
            assert(module_models(modules@.subrange(0, i + 1)).drop_last() == module_models(modules@.subrange(0, i as int)));
            i += 1;
        }
        assert(modules@.subrange(0, modules@.len() as int) == modules@);
        CallGraph { nodes, edges: Vec::new() }
    }

    /// Index of the first node named `name`.
    fn position(&self, name: &str) -> (r: Option<usize>)
        ensures
            match r {
                Some(i) => first_named(self@.nodes, name@) == Some(i as int),
                None => first_named(self@.nodes, name@) is None,
            },
    {
        let mut i: usize = 0;
        while i < self.nodes.len()
            invariant
                i <= self.nodes@.len(),
                first_named(node_models(self.nodes@).subrange(0, i as int), name@) is None,
            decreases self.nodes@.len() - i,
        {
            let ghost pre = node_models(self.nodes@).subrange(0, i as int);
            let ghost next = node_models(self.nodes@).subrange(0, i + 1);
            assert(next.drop_last() == pre);
            if same_text(self.nodes[i].name.as_str(), name) {
                proof {
                    lemma_first_named_prefix(node_models(self.nodes@), name@, i as int + 1);
                }
                return Some(i);
            }
            i += 1;
        }
        assert(node_models(self.nodes@).subrange(0, self.nodes@.len() as int) == node_models(self.nodes@));
        None
    }

    /// Add a call edge between the first nodes named `caller` and `callee`,
    /// when both exist and the edge is not yet present.
    pub fn add_call(&mut self, caller: &str, callee: &str)
        ensures
            final(self)@ == with_call(old(self)@, caller@, callee@),
    {
        let caller_idx = self.position(caller);
        let callee_idx = self.position(callee);
        if let (Some(ci), Some(ci2)) = (caller_idx, callee_idx) {
            if !self.has_edge(ci, ci2) {
                self.edges.push((ci, ci2));
            }
        }
    }

    fn has_edge(&self, a: usize, b: usize) -> (r: bool)
        ensures
            r == self.edges@.contains((a, b)),
    {
        let mut k: usize = 0;
        while k < self.edges.len()
            invariant
                k <= self.edges@.len(),
                forall|j: int| 0 <= j < k ==> self.edges@[j] != (a, b),
            decreases self.edges@.len() - k,
        {
            let (x, y) = self.edges[k];
            if x == a && y == b {
                assert(self.edges@[k as int] == (a, b));
                return true;
            }
            k += 1;
        }
        false
    }

    /// Number of nodes.
    pub fn node_count(&self) -> (r: usize)
        ensures
            r == self@.nodes.len(),
    {
        self.nodes.len()
    }

    /// Number of edges.
    pub fn edge_count(&self) -> (r: usize)
        ensures
            r == self@.edges.len(),
    {
        self.edges.len()
    }

    /// Find all callers of a function.
    pub fn callers_of(&self, name: &str) -> (r: Vec<&CallNode>)
        ensures
            r@.map_values(|n: &CallNode| n@) == callers(self@.nodes, self@.edges, name@),
    {
        let mut out: Vec<&CallNode> = Vec::new();
        let mut k: usize = 0;
        while k < self.edges.len()
            invariant
                k <= self.edges@.len(),
                out@.map_values(|n: &CallNode| n@) == callers(self@.nodes, self@.edges.subrange(0, k as int), name@),
            decreases self.edges@.len() - k,
        {
            let (from, to) = self.edges[k];
            assert(self@.edges.subrange(0, k + 1).drop_last() == self@.edges.subrange(0, k as int));
            if to < self.nodes.len() && same_text(self.nodes[to].name.as_str(), name) && from < self.nodes.len() {
                out.push(&self.nodes[from]);
                assert(out@.map_values(|n: &CallNode| n@) =~= callers(self@.nodes, self@.edges.subrange(0, k + 1), name@));
            }
            k += 1;
        }
        assert(self@.edges.subrange(0, self@.edges.len() as int) == self@.edges);
        out
    }

    /// Find all callees of a function.
    pub fn callees_of(&self, name: &str) -> (r: Vec<&CallNode>)
        ensures
            r@.map_values(|n: &CallNode| n@) == callees(self@.nodes, self@.edges, name@),
    {
        let mut out: Vec<&CallNode> = Vec::new();
        let mut k: usize = 0;
        while k < self.edges.len()
            invariant
                k <= self.edges@.len(),
                out@.map_values(|n: &CallNode| n@) == callees(self@.nodes, self@.edges.subrange(0, k as int), name@),
            decreases self.edges@.len() - k,
        {
            let (from, to) = self.edges[k];
            assert(self@.edges.subrange(0, k + 1).drop_last() == self@.edges.subrange(0, k as int));
            if from < self.nodes.len() && same_text(self.nodes[from].name.as_str(), name) && to < self.nodes.len() {
                out.push(&self.nodes[to]);
                assert(out@.map_values(|n: &CallNode| n@) =~= callees(self@.nodes, self@.edges.subrange(0, k + 1), name@));
            }
            k += 1;
        }
        assert(self@.edges.subrange(0, self@.edges.len() as int) == self@.edges);
        out
    }
}

proof fn lemma_first_named_prefix(nodes: Seq<NodeModel>, name: Seq<char>, n: int)
    requires
        0 < n <= nodes.len(),
        first_named(nodes.subrange(0, n - 1), name) is None,
        nodes[n - 1].name == name,
    ensures
        first_named(nodes, name) == Some(n - 1),
    decreases nodes.len() - n,
{
    let pre = nodes.subrange(0, n);
    assert(pre.drop_last() == nodes.subrange(0, n - 1));
    assert(first_named(pre, name) == Some(n - 1));
    if n < nodes.len() {
        lemma_first_named_extend(nodes, name, n);
    } else {
        assert(pre == nodes);
    }
}

proof fn lemma_first_named_extend(nodes: Seq<NodeModel>, name: Seq<char>, n: int)
    requires
        0 < n <= nodes.len(),
        first_named(nodes.subrange(0, n), name) is Some,
    ensures
        first_named(nodes, name) == first_named(nodes.subrange(0, n), name),
    decreases nodes.len() - n,
{
    if n < nodes.len() {
        let next = nodes.subrange(0, n + 1);
        assert(next.drop_last() == nodes.subrange(0, n));
        lemma_first_named_extend(nodes, name, n + 1);
    } else {
        assert(nodes.subrange(0, n) == nodes);
    }
}

/// Recording a call keeps a well-formed graph well-formed, and recording
/// the same call twice is the same as recording it once.
pub proof fn lemma_add_call_laws(g: CallGraphModel, caller: Seq<char>, callee: Seq<char>)
    requires
        graph_wf(g),
    ensures
        graph_wf(with_call(g, caller, callee)),
        with_call(with_call(g, caller, callee), caller, callee) == with_call(g, caller, callee),
        with_call(g, caller, callee).nodes == g.nodes,
{
    lemma_first_named_bounds(g.nodes, caller);
    lemma_first_named_bounds(g.nodes, callee);
    let g2 = with_call(g, caller, callee);
    match (first_named(g.nodes, caller), first_named(g.nodes, callee)) {
        (Some(a), Some(b)) => {
            if !g.edges.contains((a as usize, b as usize)) {
                assert(g2.edges.last() == (a as usize, b as usize));
                assert forall|i: int, j: int| 0 <= i < j < g2.edges.len() implies g2.edges[i] != g2.edges[j] by {
                    if j == g2.edges.len() - 1 {
                        assert(g.edges[i] == g2.edges[i]);
                    } else {
                        assert(g.edges[i] == g2.edges[i] && g.edges[j] == g2.edges[j]);
                    }
                }
                assert(g2.edges.contains((a as usize, b as usize)));
            }
        },
        _ => {},
    }
}

// ───────────────────────────── control flow graphs ─────────────────────────────

/// A basic block in a control flow graph.
#[derive(Debug)]
pub struct BasicBlock {
    pub id: usize,
    pub label: String,
    pub start_line: usize,
    pub end_line: usize,
    pub kind: BlockKind,
}

/// Kind of basic block.
#[derive(Debug, Clone, Copy, PartialEq, Eq, Structural)]
pub enum BlockKind {
    Entry,
    Exit,
    Statement,
    Conditional,
    Loop,
    Branch,
}

/// A Control Flow Graph for a single function.
#[derive(Debug)]
pub struct ControlFlowGraph {
    pub function_name: String,
    pub blocks: Vec<BasicBlock>,
    /// Edges: (from_block_id, to_block_id)
    pub jumps: Vec<(usize, usize)>,
}

/// Abstract value of a [`BasicBlock`].
pub struct BlockModel {
    pub id: int,
    pub label: Seq<char>,
    pub start_line: int,
    pub end_line: int,
    pub kind: BlockKind,
}

/// Abstract value of a [`ControlFlowGraph`].
pub struct CfgModel {
    pub function_name: Seq<char>,
    pub blocks: Seq<BlockModel>,
    pub jumps: Seq<(int, int)>,
}

impl View for BasicBlock {
    type V = BlockModel;

    open spec fn view(&self) -> BlockModel {
        BlockModel {
            id: self.id as int,
            label: self.label@,
            start_line: self.start_line as int,
            end_line: self.end_line as int,
            kind: self.kind,
        }
    }
}

/// The models of a list of blocks.
pub open spec fn block_models(v: Seq<BasicBlock>) -> Seq<BlockModel> {
    v.map_values(|b: BasicBlock| b@)
}

/// Jumps as pairs of integers.
pub open spec fn jump_models(v: Seq<(usize, usize)>) -> Seq<(int, int)> {
    v.map_values(|j: (usize, usize)| (j.0 as int, j.1 as int))
}

impl View for ControlFlowGraph {
    type V = CfgModel;

    open spec fn view(&self) -> CfgModel {
        CfgModel {
            function_name: self.function_name@,
            blocks: block_models(self.blocks@),
            jumps: jump_models(self.jumps@),
        }
    }
}

impl Clone for BasicBlock {
    fn clone(&self) -> (r: Self)
        ensures
            r == *self,
    {
        BasicBlock {
            id: self.id,
            label: self.label.clone(),
            start_line: self.start_line,
            end_line: self.end_line,
            kind: self.kind,
        }
    }
}

impl Clone for ControlFlowGraph {
    fn clone(&self) -> (r: Self)
        ensures
            r@ == self@,
    {
        let blocks = self.blocks.clone();
        let jumps = copy_pairs(&self.jumps);
        assert(block_models(blocks@) =~= block_models(self.blocks@));
        ControlFlowGraph { function_name: self.function_name.clone(), blocks, jumps }
    }
}

/// The graph under construction: blocks, jumps, the next block id and
/// the block that flow continues from.
pub struct CfgState {
    pub blocks: Seq<BlockModel>,
    pub jumps: Seq<(int, int)>,
    pub next: int,
    pub prev: int,
}

/// A block of one line.
pub open spec fn line_block(id: int, label: Seq<char>, ln: int, kind: BlockKind) -> BlockModel {
    BlockModel { id, label, start_line: ln, end_line: ln, kind }
}

/// A trimmed line that opens a conditional.
pub open spec fn is_cond_line(l: Seq<char>) -> bool {
    starts_with(l, "if "@) || starts_with(l, "else if "@)
}

/// A trimmed line that opens an else branch.
pub open spec fn is_else_line(l: Seq<char>) -> bool {
    !is_cond_line(l) && starts_with(l, "else"@)
}

/// A trimmed line that opens a loop.
pub open spec fn is_loop_line(l: Seq<char>) -> bool {
    !is_cond_line(l) && !starts_with(l, "else"@) && (starts_with(l, "for "@) || starts_with(l, "while "@) || starts_with(l, "loop"@))
}

/// A trimmed line that leaves the flow.
pub open spec fn is_exit_line(l: Seq<char>) -> bool {
    !is_cond_line(l) && !starts_with(l, "else"@) && !(starts_with(l, "for "@) || starts_with(l, "while "@) || starts_with(l, "loop"@))
        && (starts_with(l, "return"@) || starts_with(l, "break"@) || starts_with(l, "continue"@))
}

/// The effect of one trimmed line on the graph under construction.
pub open spec fn cfg_step(st: CfgState, l: Seq<char>, ln: int) -> CfgState {
    let c = st.next;
    if is_cond_line(l) {
        CfgState {
            blocks: st.blocks.push(line_block(c, "if_"@ + decimal(c as nat), ln, BlockKind::Conditional)).push(
                line_block(c + 1, "then_"@ + decimal((c + 1) as nat), ln, BlockKind::Branch),
            ),
            jumps: st.jumps.push((st.prev, c)).push((c, c + 1)),
            next: c + 2,
            prev: c + 1,
        }
    } else if is_else_line(l) {
        CfgState {
            blocks: st.blocks.push(line_block(c, "else_"@ + decimal(c as nat), ln, BlockKind::Branch)),
            jumps: st.jumps.push((st.prev, c)),
            next: c + 1,
            prev: c,
        }
    } else if is_loop_line(l) {
        CfgState {
            blocks: st.blocks.push(line_block(c, "loop_"@ + decimal(c as nat), ln, BlockKind::Loop)),
            jumps: st.jumps.push((st.prev, c)).push((c, c)),
            next: c + 1,
            prev: c,
        }
    } else if is_exit_line(l) {
        CfgState {
            blocks: st.blocks.push(line_block(c, "exit_"@ + decimal(c as nat), ln, BlockKind::Exit)),
            jumps: st.jumps.push((st.prev, c)),
            next: c + 1,
            prev: c,
        }
    } else {
        st
    }
}

/// The graph under construction after the lines `ls`, the first of which is line `ln`.
pub open spec fn cfg_fold(st: CfgState, ls: Seq<Seq<char>>, ln: int) -> CfgState
    decreases ls.len(),
{
    if ls.len() == 0 {
        st
    } else {
        cfg_fold(cfg_step(st, trim(ls[0]), ln), ls.drop_first(), ln + 1)
    }
}

/// The state before any line: the entry block alone.
pub open spec fn cfg_start(start: int) -> CfgState {
    CfgState {
        blocks: seq![line_block(0, "entry"@, start, BlockKind::Entry)],
        jumps: seq![],
        next: 1,
        prev: 0,
    }
}

/// The control flow graph of a function body starting at line `start`.
pub open spec fn built_cfg(name: Seq<char>, body: Seq<char>, start: int) -> CfgModel {
    let st = cfg_fold(cfg_start(start), lines(body), start);
    let end = start + lines(body).len();
    CfgModel {
        function_name: name,
        blocks: st.blocks.push(line_block(st.next, "exit"@, end, BlockKind::Exit)),
        jumps: st.jumps.push((st.prev, st.next)),
    }
}

/// Number of loop lines among `ls`.
pub open spec fn loop_lines(ls: Seq<Seq<char>>) -> nat
    decreases ls.len(),
{
    if ls.len() == 0 {
        0
    } else {
        (if is_loop_line(trim(ls[0])) { 1nat } else { 0nat }) + loop_lines(ls.drop_first())
    }
}

/// Number of lines among `ls` that open a block.
pub open spec fn block_lines(ls: Seq<Seq<char>>) -> nat
    decreases ls.len(),
{
    if ls.len() == 0 {
        0
    } else {
        let l = trim(ls[0]);
        (if is_cond_line(l) { 2nat } else if is_else_line(l) || is_loop_line(l) || is_exit_line(l) { 1nat } else { 0nat })
            + block_lines(ls.drop_first())
    }
}

/// The structure kept while building: block `k` has id `k`, the next id
/// is the block count, and every jump joins existing blocks.
pub open spec fn cfg_state_wf(st: CfgState) -> bool {
    &&& st.next == st.blocks.len()
    &&& 0 <= st.prev < st.blocks.len()
    &&& forall|k: int| 0 <= k < st.blocks.len() ==> (#[trigger] st.blocks[k]).id == k
    &&& forall|k: int| 0 <= k < st.jumps.len() ==> 0 <= (#[trigger] st.jumps[k]).0 < st.blocks.len() && 0 <= st.jumps[k].1 < st.blocks.len()
}

/// Block `k` has id `k` and every jump joins existing blocks.
pub open spec fn cfg_wf(g: CfgModel) -> bool {
    &&& forall|k: int| 0 <= k < g.blocks.len() ==> (#[trigger] g.blocks[k]).id == k
    &&& forall|k: int| 0 <= k < g.jumps.len() ==> 0 <= (#[trigger] g.jumps[k]).0 < g.blocks.len() && 0 <= g.jumps[k].1 < g.blocks.len()
}

/// Cyclomatic complexity as computed from edge and node counts.
pub open spec fn complexity(e: int, n: int) -> int {
    if n == 0 {
        1
    } else if e + 2 - n >= 1 {
        e + 2 - n
    } else {
        1
    }
}

proof fn lemma_cfg_fold(st: CfgState, ls: Seq<Seq<char>>, ln: int)
    requires
        cfg_state_wf(st),
    ensures
        cfg_state_wf(cfg_fold(st, ls, ln)),
        cfg_fold(st, ls, ln).blocks.len() == st.blocks.len() + block_lines(ls),
        cfg_fold(st, ls, ln).jumps.len() + st.blocks.len() == st.jumps.len() + cfg_fold(st, ls, ln).blocks.len() + loop_lines(ls),
    decreases ls.len(),
{
    if ls.len() > 0 {
        let st2 = cfg_step(st, trim(ls[0]), ln);
        assert(cfg_state_wf(st2)) by {
            let l = trim(ls[0]);
            if is_cond_line(l) {
                assert forall|k: int| 0 <= k < st2.blocks.len() implies (#[trigger] st2.blocks[k]).id == k by {
                    if k < st.blocks.len() {
                        assert(st2.blocks[k] == st.blocks[k]);
                    }
                }
                assert forall|k: int| 0 <= k < st2.jumps.len() implies 0 <= (#[trigger] st2.jumps[k]).0 < st2.blocks.len() && 0 <= st2.jumps[k].1 < st2.blocks.len() by {
                    if k < st.jumps.len() {
                        assert(st2.jumps[k] == st.jumps[k]);
                    }
                }
            } else if is_else_line(l) || is_loop_line(l) || is_exit_line(l) {
                assert forall|k: int| 0 <= k < st2.blocks.len() implies (#[trigger] st2.blocks[k]).id == k by {
                    if k < st.blocks.len() {
                        assert(st2.blocks[k] == st.blocks[k]);
                    }
                }
                assert forall|k: int| 0 <= k < st2.jumps.len() implies 0 <= (#[trigger] st2.jumps[k]).0 < st2.blocks.len() && 0 <= st2.jumps[k].1 < st2.blocks.len() by {
                    if k < st.jumps.len() {
                        assert(st2.jumps[k] == st.jumps[k]);
                    }
                }
            }
        }
        lemma_cfg_fold(st2, ls.drop_first(), ln + 1);
    }
}

/// The built graph is well formed, has two blocks more than twice... more
/// precisely, its counts are fixed by the kinds of its lines, and its
/// cyclomatic complexity is one more than the number of loop lines.
pub proof fn lemma_cfg_laws(name: Seq<char>, body: Seq<char>, start: int)
    ensures
        cfg_wf(built_cfg(name, body, start)),
        built_cfg(name, body, start).blocks.len() == 2 + block_lines(lines(body)),
        built_cfg(name, body, start).jumps.len() == 1 + block_lines(lines(body)) + loop_lines(lines(body)),
        complexity(built_cfg(name, body, start).jumps.len() as int, built_cfg(name, body, start).blocks.len() as int)
            == 1 + loop_lines(lines(body)),
{
    let st0 = cfg_start(start);
    lemma_cfg_fold(st0, lines(body), start);
    let st = cfg_fold(st0, lines(body), start);
    let g = built_cfg(name, body, start);
    assert forall|k: int| 0 <= k < g.blocks.len() implies (#[trigger] g.blocks[k]).id == k by {
        if k < st.blocks.len() {
            assert(g.blocks[k] == st.blocks[k]);
        }
    }
    assert forall|k: int| 0 <= k < g.jumps.len() implies 0 <= (#[trigger] g.jumps[k]).0 < g.blocks.len() && 0 <= g.jumps[k].1 < g.blocks.len() by {
        if k < st.jumps.len() {
            assert(g.jumps[k] == st.jumps[k]);
        }
    }
}

/// `prefix` followed by the decimal rendering of `n`.
fn numbered(prefix: &str, n: usize) -> (r: String)
    ensures
        r@ == prefix@ + decimal(n as nat),
{
    let mut s = string_of(chars_of(prefix).as_slice());
    let d = decimal_string(n);
    let dc = chars_of(d.as_str());
    append_chars(&mut s, dc.as_slice());
    s
}

fn block(id: usize, label: String, ln: usize, kind: BlockKind) -> (r: BasicBlock)
    ensures
        r@ == line_block(id as int, label@, ln as int, kind),
{
    BasicBlock { id, label, start_line: ln, end_line: ln, kind }
}

/// The current graph state as a model.
pub open spec fn state_of(blocks: Seq<BasicBlock>, jumps: Seq<(usize, usize)>, next: usize, prev: usize) -> CfgState {
    CfgState { blocks: block_models(blocks), jumps: jump_models(jumps), next: next as int, prev: prev as int }
}

/// Applies one trimmed line to the graph under construction.
fn apply_line(
    blocks: &mut Vec<BasicBlock>,
    jumps: &mut Vec<(usize, usize)>,
    block_id: &mut usize,
    prev_block: &mut usize,
    line: &[char],
    ln: usize,
)
    requires
        *old(block_id) + 2 <= usize::MAX,
    ensures
        state_of(final(blocks)@, final(jumps)@, *final(block_id), *final(prev_block))
            == cfg_step(state_of(old(blocks)@, old(jumps)@, *old(block_id), *old(prev_block)), line@, ln as int),
        *final(block_id) <= *old(block_id) + 2,
{
    let ghost st = state_of(blocks@, jumps@, *block_id, *prev_block);
    let current = *block_id;
    if starts_with_str(line, "if ") || starts_with_str(line, "else if ") {
        blocks.push(block(current, numbered("if_", current), ln, BlockKind::Conditional));
        jumps.push((*prev_block, current));
        let br_true = current + 1;
        blocks.push(block(br_true, numbered("then_", br_true), ln, BlockKind::Branch));
        jumps.push((current, br_true));
        *prev_block = br_true;
        *block_id = current + 2;
    } else if starts_with_str(line, "else") {
        blocks.push(block(current, numbered("else_", current), ln, BlockKind::Branch));
        jumps.push((*prev_block, current));
        *prev_block = current;
        *block_id = current + 1;
    } else if starts_with_str(line, "for ") || starts_with_str(line, "while ") || starts_with_str(line, "loop") {
        blocks.push(block(current, numbered("loop_", current), ln, BlockKind::Loop));
        jumps.push((*prev_block, current));
        jumps.push((current, current));
        *prev_block = current;
        *block_id = current + 1;
    } else if starts_with_str(line, "return") || starts_with_str(line, "break") || starts_with_str(line, "continue") {
        blocks.push(block(current, numbered("exit_", current), ln, BlockKind::Exit));
        jumps.push((*prev_block, current));
        *prev_block = current;
        *block_id = current + 1;
    }
    let ghost st2 = cfg_step(st, line@, ln as int);
    assert(block_models(blocks@) =~= st2.blocks);
    assert(jump_models(jumps@) =~= st2.jumps);
}

impl ControlFlowGraph {
    /// Build a control flow graph from function source code.
    pub fn build(function_name: &str, body: &str, start_line: usize) -> (r: Self)
        requires
            start_line + lines(body@).len() <= usize::MAX,
            2 * lines(body@).len() + 2 <= usize::MAX,
        ensures
            r@ == built_cfg(function_name@, body@, start_line as int),
    {
        let text = chars_of(body);
        let text = text.as_slice();
        let mut blocks: Vec<BasicBlock> = Vec::new();
        let mut jumps: Vec<(usize, usize)> = Vec::new();
        blocks.push(block(0, string_of(chars_of("entry").as_slice()), start_line, BlockKind::Entry));
        let mut block_id: usize = 1;
        let mut prev_block: usize = 0;
        let mut pos: usize = 0;
        let mut done: usize = 0;
        let ghost all = lines(text@);
        proof {
            assert(text@.subrange(0, text@.len() as int) == text@);
            assert(block_models(blocks@) =~= cfg_start(start_line as int).blocks);
            assert(jump_models(jumps@) =~= cfg_start(start_line as int).jumps);
            lemma_cfg_fold(cfg_start(start_line as int), all, start_line as int);
        }
        while pos < text.len()
            invariant
                pos <= text@.len(),
                all == lines(text@),
                all == lines(body@),
                start_line + all.len() <= usize::MAX,
                2 * all.len() + 2 <= usize::MAX,
                all.subrange(done as int, all.len() as int) == lines(text@.subrange(pos as int, text@.len() as int)),
                done <= all.len(),
                cfg_state_wf(CfgState { blocks: block_models(blocks@), jumps: jump_models(jumps@), next: block_id as int, prev: prev_block as int }),
                block_id <= 1 + 2 * done,
                cfg_fold(CfgState { blocks: block_models(blocks@), jumps: jump_models(jumps@), next: block_id as int, prev: prev_block as int },
                    lines(text@.subrange(pos as int, text@.len() as int)), start_line + done)
                    == cfg_fold(cfg_start(start_line as int), all, start_line as int),
            decreases text@.len() - pos,
        {
            let (a, b, n) = next_line(text, pos);
            let line = trimmed(&text[a..b]);
            proof {
                lemma_lines_len(text@);
                assert(all.subrange(done as int, all.len() as int).len() > 0);
            }
            let ln = start_line + done;
            let ghost st = CfgState { blocks: block_models(blocks@), jumps: jump_models(jumps@), next: block_id as int, prev: prev_block as int };
            apply_line(&mut blocks, &mut jumps, &mut block_id, &mut prev_block, line, ln);
            proof {
                let rest = lines(text@.subrange(pos as int, text@.len() as int));
                assert(rest[0] == text@.subrange(a as int, b as int));
                assert(rest.drop_first() == lines(text@.subrange(n as int, text@.len() as int)));
                assert(all.subrange(done + 1, all.len() as int) == rest.drop_first());
                lemma_cfg_fold(st, rest, ln as int);
            }
            pos = n;
            done = done + 1;
        }
        let ghost st = CfgState { blocks: block_models(blocks@), jumps: jump_models(jumps@), next: block_id as int, prev: prev_block as int };
        proof {
            assert(text@.subrange(pos as int, text@.len() as int).len() == 0);
            assert(all.subrange(done as int, all.len() as int).len() == 0);
        }
        let exit_id = block_id;
        let end = start_line + done;
        blocks.push(block(exit_id, string_of(chars_of("exit").as_slice()), end, BlockKind::Exit));
        jumps.push((prev_block, exit_id));
        let r = ControlFlowGraph { function_name: string_of(chars_of(function_name).as_slice()), blocks, jumps };
        assert(r@.blocks =~= st.blocks.push(line_block(st.next, "exit"@, end as int, BlockKind::Exit)));
        assert(r@.jumps =~= st.jumps.push((st.prev, st.next)));
        r
    }

    /// Number of blocks.
    pub fn block_count(&self) -> (r: usize)
        ensures
            r == self@.blocks.len(),
    {
        self.blocks.len()
    }

    /// Number of jumps/edges.
    pub fn jump_count(&self) -> (r: usize)
        ensures
            r == self@.jumps.len(),
    {
        self.jumps.len()
    }

    /// Cyclomatic complexity: E - N + 2, at least 1.
    pub fn cyclomatic_complexity(&self) -> (r: usize)
        requires
            self@.jumps.len() + 2 <= usize::MAX,
        ensures
            r == complexity(self@.jumps.len() as int, self@.blocks.len() as int),
    {
        let e = self.jump_count();
        let n = self.block_count();
        if n == 0 {
            return 1;
        }
        let d = if e + 2 > n { e + 2 - n } else { 0 };
        if d > 1 { d } else { 1 }
    }
}

} // verus!
