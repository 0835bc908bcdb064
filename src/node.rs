use vstd::prelude::*;

use crate::ast::CallExpression;

verus! {

/// Handle of a node in an [`AstNodes`] store: its position in insertion order.
pub type AstNodeId = usize;

/// Handle of a lexical scope, assigned by the binder.
pub type ScopeId = u32;

/// A byte range of the source text.
#[derive(Clone, Copy, Debug, PartialEq, Eq, Structural)]
pub struct Span {
    pub start: u32,
    pub end: u32,
}

/// Per-node flag bits, set during binding.
#[derive(Clone, Copy, Debug, PartialEq, Eq, Structural)]
pub struct NodeFlags {
    pub bits: u32,
}

/// An `export * from "source"` declaration.
#[derive(Debug)]
pub struct ExportAllDeclaration {
    pub span: Span,
    /// The module specifier, as written.
    pub source: String,
}

/// The kinds of node that the checks of this crate tell apart; every other
/// kind of node is `Other`, tagged with the parser's own code for it.
#[derive(Debug)]
pub enum AstKind {
    Program(Span),
    ExportAllDeclaration(ExportAllDeclaration),
    CallExpression(CallExpression),
    Other(u32),
}

/// A syntax-tree node together with its semantic annotations.
#[derive(Debug)]
pub struct AstNode {
    pub id: AstNodeId,
    pub kind: AstKind,
    /// Owning scope (assigned by binding).
    pub scope_id: ScopeId,
    /// Index of the node in the control-flow graph.
    pub cfg_ix: usize,
    pub flags: NodeFlags,
}

impl AstNode {
    /// A node that is not yet in a store; [`AstNodes::add_node`] assigns its id.
    pub fn new(kind: AstKind, scope_id: ScopeId, cfg_ix: usize, flags: NodeFlags) -> (r: Self)
        ensures
            r.id == 0,
            r.kind == kind,
            r.scope_id == scope_id,
            r.cfg_ix == cfg_ix,
            r.flags == flags,
    {
        AstNode { id: 0, kind, scope_id, cfg_ix, flags }
    }

    pub fn id(&self) -> (r: AstNodeId)
        ensures
            r == self.id,
    {
        self.id
    }

    pub fn cfg_ix(&self) -> (r: usize)
        ensures
            r == self.cfg_ix,
    {
        self.cfg_ix
    }

    pub fn kind(&self) -> (r: &AstKind)
        ensures
            *r == self.kind,
    {
        &self.kind
    }

    pub fn scope_id(&self) -> (r: ScopeId)
        ensures
            r == self.scope_id,
    {
        self.scope_id
    }

    pub fn flags(&self) -> (r: NodeFlags)
        ensures
            r == self.flags,
    {
        self.flags
    }

    pub fn flags_mut(&mut self) -> (r: &mut NodeFlags)
        ensures
            *r == old(self).flags,
            final(self).flags == *final(r),
            final(self).id == old(self).id,
            final(self).kind == old(self).kind,
            final(self).scope_id == old(self).scope_id,
            final(self).cfg_ix == old(self).cfg_ix,
    {
        &mut self.flags
    }
}

/// The abstract content of an [`AstNodes`] store.
pub struct NodesView {
    pub root: AstNodeId,
    /// `set_root` has designated the root.
    pub root_set: bool,
    pub nodes: Seq<AstNode>,
    pub parents: Seq<Option<AstNodeId>>,
}

impl NodesView {
    /// One parent entry per node; node `i` carries id `i`; node 0 alone has
    /// no parent and is the root, a `Program` node once it has been
    /// designated; every other node's parent was inserted before it.
    pub open spec fn wf(&self) -> bool {
        &&& self.nodes.len() == self.parents.len()
        &&& self.root == 0
        &&& self.root_set ==> self.nodes.len() > 0 && self.nodes[0].kind is Program
        &&& forall|i: int| 0 <= i < self.nodes.len() ==> #[trigger] self.nodes[i].id == i
        &&& forall|i: int|
            0 <= i < self.parents.len() ==> (#[trigger] self.parents[i] is None <==> i == 0)
        &&& forall|i: int|
            0 <= i < self.parents.len() && #[trigger] self.parents[i] is Some ==> (
            self.parents[i]->0 as int) < i
    }
}

/// The chain of ids from `id` up through its parents, `id` first; it stops
/// at a node without a parent.
pub open spec fn ancestry(parents: Seq<Option<AstNodeId>>, id: AstNodeId) -> Seq<AstNodeId>
    decreases id,
{
    if id < parents.len() && parents[id as int] is Some && parents[id as int]->0 < id {
        seq![id] + ancestry(parents, parents[id as int]->0)
    } else {
        seq![id]
    }
}

/// Syntax-tree nodes flattened into a vector, in pre-order, with parent links.
#[derive(Debug)]
pub struct AstNodes {
    root: AstNodeId,
    root_set: bool,
    nodes: Vec<AstNode>,
    parent_ids: Vec<Option<AstNodeId>>,
}

impl View for AstNodes {
    type V = NodesView;

    closed spec fn view(&self) -> NodesView {
        NodesView { root: self.root, root_set: self.root_set, nodes: self.nodes@, parents: self.parent_ids@ }
    }
}

impl Default for AstNodes {
    fn default() -> (r: Self)
        ensures
            r@.wf(),
            r@.nodes.len() == 0,
            !r@.root_set,
    {
        AstNodes { root: 0, root_set: false, nodes: Vec::new(), parent_ids: Vec::new() }
    }
}

impl AstNodes {
    pub open spec fn wf(&self) -> bool {
        self@.wf()
    }

    /// Whether the store is well formed.
    pub fn is_well_formed(&self) -> (r: bool)
        ensures
            r == self.wf(),
    {
        let n = self.nodes.len();
        if self.parent_ids.len() != n || self.root != 0 {
            return false;
        }
        if self.root_set && (n == 0 || !matches!(self.nodes[0].kind, AstKind::Program(_))) {
            return false;
        }
        let mut i: usize = 0;
        while i < n
            invariant
                n == self@.nodes.len(),
                n == self@.parents.len(),
                i <= n,
                forall|j: int| 0 <= j < i ==> #[trigger] self@.nodes[j].id == j,
                forall|j: int| 0 <= j < i ==> (#[trigger] self@.parents[j] is None <==> j == 0),
                forall|j: int|
                    0 <= j < i && #[trigger] self@.parents[j] is Some ==> (self@.parents[j]->0 as int)
                        < j,
            decreases n - i,
        {
            if self.nodes[i].id != i {
                return false;
            }
            match self.parent_ids[i] {
                Some(p) => {
                    if i == 0 || p >= i {
                        return false;
                    }
                },
                None => {
                    if i != 0 {
                        return false;
                    }
                },
            }
            i = i + 1;
        }
        true
    }

    /// The nodes, in insertion order.
    pub fn iter(&self) -> (r: &[AstNode])
        ensures
            r@ == self@.nodes,
    {
        self.nodes.as_slice()
    }

    /// The node `node_id` and then each of its ancestors, up to the root.
    pub fn iter_parents(&self, node_id: AstNodeId) -> (r: Vec<&AstNode>)
        requires
            self.wf(),
            node_id < self@.nodes.len(),
        ensures
            r@.len() == ancestry(self@.parents, node_id).len(),
            forall|i: int|
                0 <= i < r@.len() ==> *#[trigger] r@[i] == self@.nodes[ancestry(
                    self@.parents,
                    node_id,
                )[i] as int],
    {
        let ids = self.ancestors(node_id);
        proof {
            lemma_ancestry_in_range(self@, node_id);
        }
        let mut out: Vec<&AstNode> = Vec::new();
        let mut i: usize = 0;
        while i < ids.len()
            invariant
                self.wf(),
                ids@ == ancestry(self@.parents, node_id),
                forall|j: int| 0 <= j < ids@.len() ==> ids@[j] < self@.nodes.len(),
                i <= ids@.len(),
                out@.len() == i,
                forall|j: int| 0 <= j < i ==> *#[trigger] out@[j] == self@.nodes[ids@[j] as int],
            decreases ids@.len() - i,
        {
            out.push(&self.nodes[ids[i]]);
            i = i + 1;
        }
        out
    }

    pub fn kind(&self, ast_node_id: AstNodeId) -> (r: &AstKind)
        requires
            ast_node_id < self@.nodes.len(),
        ensures
            *r == self@.nodes[ast_node_id as int].kind,
    {
        &self.nodes[ast_node_id].kind
    }

    pub fn parent_id(&self, ast_node_id: AstNodeId) -> (r: Option<AstNodeId>)
        requires
            self.wf(),
            ast_node_id < self@.nodes.len(),
        ensures
            r == self@.parents[ast_node_id as int],
    {
        self.parent_ids[ast_node_id]
    }

    pub fn parent_kind(&self, ast_node_id: AstNodeId) -> (r: Option<&AstKind>)
        requires
            self.wf(),
            ast_node_id < self@.nodes.len(),
        ensures
            match self@.parents[ast_node_id as int] {
                Some(p) => r is Some && *r->0 == self@.nodes[p as int].kind,
                None => r is None,
            },
    {
        match self.parent_id(ast_node_id) {
            Some(p) => Some(self.kind(p)),
            None => None,
        }
    }

    pub fn parent_node(&self, ast_node_id: AstNodeId) -> (r: Option<&AstNode>)
        requires
            self.wf(),
            ast_node_id < self@.nodes.len(),
        ensures
            match self@.parents[ast_node_id as int] {
                Some(p) => r is Some && *r->0 == self@.nodes[p as int],
                None => r is None,
            },
    {
        match self.parent_id(ast_node_id) {
            Some(p) => Some(self.get_node(p)),
            None => None,
        }
    }

    pub fn get_node(&self, ast_node_id: AstNodeId) -> (r: &AstNode)
        requires
            ast_node_id < self@.nodes.len(),
        ensures
            *r == self@.nodes[ast_node_id as int],
    {
        &self.nodes[ast_node_id]
    }

    /// Mutable access to a node. The store stays well formed as long as the
    /// caller leaves the node's id as it is.
    pub fn get_node_mut(&mut self, ast_node_id: AstNodeId) -> (r: &mut AstNode)
        requires
            ast_node_id < old(self)@.nodes.len(),
        ensures
            *r == old(self)@.nodes[ast_node_id as int],
            final(self)@.nodes == old(self)@.nodes.update(ast_node_id as int, *final(r)),
            final(self)@.parents == old(self)@.parents,
            final(self)@.root == old(self)@.root,
            final(self)@.root_set == old(self)@.root_set,
    {
        &mut self.nodes[ast_node_id]
    }

    /// The id of the root, the node without a parent; a `Program` node once
    /// `set_root` has designated it.
    pub fn root(&self) -> (r: AstNodeId)
        ensures
            r == self@.root,
    {
        self.root
    }

    /// Designates the root, once. It must be the stored `Program` node, the
    /// one node without a parent.
    pub fn set_root(&mut self, root: &AstNode)
        requires
            old(self).wf(),
            !old(self)@.root_set,
            root.kind is Program,
            root.id < old(self)@.nodes.len(),
            old(self)@.nodes[root.id as int].kind is Program,
            old(self)@.parents[root.id as int] is None,
        ensures
            final(self).wf(),
            final(self)@.root_set,
            final(self)@.root == root.id,
            final(self)@.nodes == old(self)@.nodes,
            final(self)@.parents == old(self)@.parents,
    {
        self.root = root.id;
        self.root_set = true;
    }

    pub fn root_node(&self) -> (r: &AstNode)
        requires
            self.wf(),
            self@.nodes.len() > 0,
        ensures
            *r == self@.nodes[self@.root as int],
            self@.root_set ==> r.kind is Program,
    {
        self.get_node(self.root)
    }

    pub fn root_node_mut(&mut self) -> (r: &mut AstNode)
        requires
            old(self).wf(),
            old(self)@.nodes.len() > 0,
        ensures
            *r == old(self)@.nodes[old(self)@.root as int],
            final(self)@.nodes == old(self)@.nodes.update(old(self)@.root as int, *final(r)),
            final(self)@.parents == old(self)@.parents,
            final(self)@.root == old(self)@.root,
            final(self)@.root_set == old(self)@.root_set,
    {
        let root = self.root;
        self.get_node_mut(root)
    }

    /// The ids from `ast_node_id` up to and including the root.
    pub fn ancestors(&self, ast_node_id: AstNodeId) -> (r: Vec<AstNodeId>)
        requires
            self.wf(),
            ast_node_id < self@.nodes.len(),
        ensures
            r@ == ancestry(self@.parents, ast_node_id),
    {
        let mut out: Vec<AstNodeId> = Vec::new();
        let mut cur: AstNodeId = ast_node_id;
        loop
            invariant
                self.wf(),
                cur < self@.nodes.len(),
                out@ + ancestry(self@.parents, cur) == ancestry(self@.parents, ast_node_id),
            decreases cur,
        {
            out.push(cur);
            match self.parent_ids[cur] {
                Some(p) => {
                    assert(out@ + ancestry(self@.parents, p) =~= ancestry(
                        self@.parents,
                        ast_node_id,
                    ));
                    cur = p;
                },
                None => {
                    assert(out@ =~= ancestry(self@.parents, ast_node_id));
                    return out;
                },
            }
        }
    }

    /// Appends `node` under `parent_id` and returns its id, the number of
    /// nodes inserted before it. Only the first node comes without a parent.
    pub fn add_node(&mut self, node: AstNode, parent_id: Option<AstNodeId>) -> (r: AstNodeId)
        requires
            old(self).wf(),
            old(self)@.nodes.len() < usize::MAX,
            parent_id is None <==> old(self)@.nodes.len() == 0,
            parent_id is Some ==> parent_id->0 < old(self)@.nodes.len(),
        ensures
            final(self).wf(),
            r == old(self)@.nodes.len(),
            final(self)@.root == old(self)@.root,
            final(self)@.root_set == old(self)@.root_set,
            final(self)@.parents == old(self)@.parents.push(parent_id),
            final(self)@.nodes.len() == r + 1,
            final(self)@.nodes.subrange(0, r as int) == old(self)@.nodes,
            final(self)@.nodes[r as int].id == r,
            final(self)@.nodes[r as int].kind == node.kind,
            final(self)@.nodes[r as int].scope_id == node.scope_id,
            final(self)@.nodes[r as int].cfg_ix == node.cfg_ix,
            final(self)@.nodes[r as int].flags == node.flags,
    {
        let mut node = node;
        let ast_node_id = self.parent_ids.len();
        self.parent_ids.push(parent_id);
        node.id = ast_node_id;
        self.nodes.push(node);
        assert(self@.nodes.subrange(0, ast_node_id as int) =~= old(self)@.nodes);
        ast_node_id
    }
}

/// Every id on a node's chain of ancestors is a node of the store.
pub proof fn lemma_ancestry_in_range(v: NodesView, id: AstNodeId)
    requires
        v.wf(),
        id < v.nodes.len(),
    ensures
        forall|j: int|
            0 <= j < ancestry(v.parents, id).len() ==> #[trigger] ancestry(v.parents, id)[j]
                < v.nodes.len(),
    decreases id,
{
    if v.parents[id as int] is Some {
        let p = v.parents[id as int]->0;
        lemma_ancestry_in_range(v, p);
        assert forall|j: int| 0 <= j < ancestry(v.parents, id).len() implies #[trigger] ancestry(
            v.parents,
            id,
        )[j] < v.nodes.len() by {
            if j > 0 {
                assert(ancestry(v.parents, id)[j] == ancestry(v.parents, p)[j - 1]);
            }
        }
    }
}

/// The root's chain of ancestors is the root alone.
pub proof fn lemma_root_ancestry(nodes: &AstNodes)
    requires
        nodes.wf(),
        nodes@.nodes.len() > 0,
    ensures
        ancestry(nodes@.parents, nodes@.root) == seq![nodes@.root],
{
}

/// From any node other than the root, the chain of ancestors ends at the
/// root and holds at least the node and the root.
pub proof fn lemma_ancestry_ends_at_root(nodes: &AstNodes, id: AstNodeId)
    requires
        nodes.wf(),
        id < nodes@.nodes.len(),
        id != nodes@.root,
    ensures
        ancestry(nodes@.parents, id).len() >= 2,
        ancestry(nodes@.parents, id).last() == nodes@.root,
    decreases id,
{
    let v = nodes@;
    let p = v.parents[id as int]->0;
    assert(v.parents[id as int] is Some);
    if p != v.root {
        lemma_ancestry_ends_at_root(nodes, p);
    } else {
        assert(ancestry(v.parents, p) == seq![p]);
    }
    assert(ancestry(v.parents, id) == seq![id] + ancestry(v.parents, p));
}

} // verus!
