use vstd::prelude::*;

use crate::module_record::ModuleGraph;
use crate::node::{AstNode, AstNodes, Span};

verus! {

#[derive(Clone, Copy, Debug, PartialEq, Eq, Structural)]
pub enum Severity {
    Warning,
    Error,
}

/// A finding of a check.
#[derive(Debug)]
pub struct Diagnostic {
    pub message: String,
    pub severity: Severity,
    /// The source range the finding points at, when it points at one.
    pub span: Option<Span>,
    pub help: Option<String>,
}

/// What the checks read of one file: its syntax tree, the module graph and
/// the file's own record in it.
#[derive(Debug)]
pub struct Semantic {
    pub nodes: AstNodes,
    pub modules: ModuleGraph,
    /// Index of the file's record in `modules`.
    pub module_id: usize,
}

impl Semantic {
    pub open spec fn wf(&self) -> bool {
        &&& self.nodes.wf()
        &&& self.modules.wf()
        &&& self.module_id < self.modules@.len()
    }

    /// Whether the tree, the graph and the file's index are well formed.
    pub fn is_well_formed(&self) -> (r: bool)
        ensures
            r == self.wf(),
    {
        self.nodes.is_well_formed() && self.modules.is_well_formed() && self.module_id
            < self.modules.len()
    }
}

/// The diagnostic sink of one file.
#[derive(Debug)]
pub struct LintContext {
    /// The working directory; paths in messages are shown relative to it.
    pub cwd: String,
    pub diagnostics: Vec<Diagnostic>,
}

impl LintContext {
    pub fn new(cwd: String) -> (r: Self)
        ensures
            r.cwd == cwd,
            r.diagnostics@.len() == 0,
    {
        LintContext { cwd, diagnostics: Vec::new() }
    }

    /// Reports a finding.
    pub fn diagnostic(&mut self, d: Diagnostic)
        ensures
            final(self).cwd == old(self).cwd,
            final(self).diagnostics@ == old(self).diagnostics@.push(d),
    {
        self.diagnostics.push(d);
    }
}

/// A check. It sees every node of a file, parents before children, and then
/// the file as a whole once; what it finds it appends to the context.
pub trait Rule {
    /// `out` is what the check reports for `node`.
    spec fn node_findings(&self, node: AstNode, sem: Semantic, cwd: Seq<char>, out: Seq<Diagnostic>) -> bool;

    /// `out` is what the check reports for the file as a whole.
    spec fn file_findings(&self, sem: Semantic, cwd: Seq<char>, out: Seq<Diagnostic>) -> bool;

    fn run(&self, node: &AstNode, sem: &Semantic, ctx: &mut LintContext)
        requires
            sem.wf(),
        ensures
            final(ctx).cwd == old(ctx).cwd,
            exists|out: Seq<Diagnostic>|
                final(ctx).diagnostics@ == old(ctx).diagnostics@ + out && self.node_findings(
                    *node,
                    *sem,
                    old(ctx).cwd@,
                    out,
                ),
    ;

    fn run_once(&self, sem: &Semantic, ctx: &mut LintContext)
        requires
            sem.wf(),
        ensures
            final(ctx).cwd == old(ctx).cwd,
            exists|out: Seq<Diagnostic>|
                final(ctx).diagnostics@ == old(ctx).diagnostics@ + out && self.file_findings(
                    *sem,
                    old(ctx).cwd@,
                    out,
                ),
    ;
}

/// The parts, one after another.
pub open spec fn concat(parts: Seq<Seq<Diagnostic>>) -> Seq<Diagnostic>
    decreases parts.len(),
{
    if parts.len() == 0 {
        Seq::empty()
    } else {
        concat(parts.drop_last()) + parts.last()
    }
}

/// Runs `rule` over one file: its per-node pass over every node in
/// pre-order, then its whole-file pass, once. The result holds the per-node
/// findings in node order, all of them before the whole-file findings.
pub fn lint_file<R: Rule>(rule: &R, sem: &Semantic, cwd: String) -> (r: Vec<Diagnostic>)
    requires
        sem.wf(),
    ensures
        exists|parts: Seq<Seq<Diagnostic>>, tail: Seq<Diagnostic>|
            {
                &&& parts.len() == sem.nodes@.nodes.len()
                &&& forall|i: int|
                    0 <= i < parts.len() ==> rule.node_findings(
                        sem.nodes@.nodes[i],
                        *sem,
                        cwd@,
                        #[trigger] parts[i],
                    )
                &&& rule.file_findings(*sem, cwd@, tail)
                &&& r@ == concat(parts) + tail
            },
{
    let ghost cwd_text = cwd@;
    let mut ctx = LintContext::new(cwd);
    let nodes = sem.nodes.iter();
    let mut i: usize = 0;
    let ghost mut parts: Seq<Seq<Diagnostic>> = Seq::empty();
    while i < nodes.len()
        invariant
            sem.wf(),
            nodes@ == sem.nodes@.nodes,
            ctx.cwd@ == cwd_text,
            i <= nodes@.len(),
            parts.len() == i,
            forall|j: int|
                0 <= j < i ==> rule.node_findings(sem.nodes@.nodes[j], *sem, cwd_text, #[trigger] parts[j]),
            ctx.diagnostics@ == concat(parts),
        decreases nodes@.len() - i,
    {
        let ghost before = ctx.diagnostics@;
        rule.run(&nodes[i], sem, &mut ctx);
        proof {
            let out = choose|out: Seq<Diagnostic>|
                ctx.diagnostics@ == before + out && rule.node_findings(
                    nodes@[i as int],
                    *sem,
                    cwd_text,
                    out,
                );
            let old_parts = parts;
            parts = parts.push(out);
            assert(parts.drop_last() =~= old_parts);
            assert(parts[i as int] == out);
        }
        i = i + 1;
    }
    let ghost before = ctx.diagnostics@;
    rule.run_once(sem, &mut ctx);
    proof {
        let tail = choose|tail: Seq<Diagnostic>|
            ctx.diagnostics@ == before + tail && rule.file_findings(*sem, cwd_text, tail);
        assert(ctx.diagnostics@ == concat(parts) + tail);
    }
    ctx.diagnostics
}

} // verus!
