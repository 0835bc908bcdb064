use oxc_lint_core::node::{AstKind, AstNode, AstNodes, NodeFlags, Span};

fn node(kind: AstKind) -> AstNode {
    AstNode::new(kind, 0, 0, NodeFlags { bits: 0 })
}

fn program() -> AstNode {
    node(AstKind::Program(Span { start: 0, end: 10 }))
}

#[test]
fn add_node_assigns_sequential_ids() {
    let mut nodes = AstNodes::default();
    let root = nodes.add_node(program(), None);
    let a = nodes.add_node(node(AstKind::Other(1)), Some(root));
    let b = nodes.add_node(node(AstKind::Other(2)), Some(a));
    let c = nodes.add_node(node(AstKind::Other(3)), Some(root));
    assert_eq!((root, a, b, c), (0, 1, 2, 3));
    assert_eq!(nodes.iter().len(), 4);
    for (i, n) in nodes.iter().iter().enumerate() {
        assert_eq!(n.id(), i);
    }
}

#[test]
fn ancestors_of_root_is_root_alone() {
    let mut nodes = AstNodes::default();
    let root = nodes.add_node(program(), None);
    nodes.add_node(node(AstKind::Other(1)), Some(root));
    assert_eq!(nodes.ancestors(nodes.root()), vec![root]);
}

#[test]
fn ancestors_end_at_root() {
    let mut nodes = AstNodes::default();
    let root = nodes.add_node(program(), None);
    let a = nodes.add_node(node(AstKind::Other(1)), Some(root));
    let b = nodes.add_node(node(AstKind::Other(2)), Some(a));
    let c = nodes.add_node(node(AstKind::Other(3)), Some(b));
    let d = nodes.add_node(node(AstKind::Other(4)), Some(a));
    assert_eq!(nodes.ancestors(c), vec![c, b, a, root]);
    assert_eq!(nodes.ancestors(d), vec![d, a, root]);
    assert_eq!(nodes.ancestors(a), vec![a, root]);
    let parents: Vec<usize> = nodes.iter_parents(c).iter().map(|n| n.id()).collect();
    assert_eq!(parents, vec![c, b, a, root]);
}

#[test]
fn parent_queries() {
    let mut nodes = AstNodes::default();
    let root = nodes.add_node(program(), None);
    let a = nodes.add_node(node(AstKind::Other(7)), Some(root));
    assert_eq!(nodes.parent_id(a), Some(root));
    assert_eq!(nodes.parent_id(root), None);
    assert!(matches!(nodes.parent_kind(a), Some(AstKind::Program(_))));
    assert!(nodes.parent_node(root).is_none());
    assert_eq!(nodes.parent_node(a).map(|n| n.id()), Some(root));
    assert!(matches!(nodes.kind(a), AstKind::Other(7)));
}

#[test]
fn set_root_and_mutable_access() {
    let mut nodes = AstNodes::default();
    let root = nodes.add_node(program(), None);
    let a = nodes.add_node(node(AstKind::Other(1)), Some(root));
    let root_node = AstNode::new(AstKind::Program(Span { start: 0, end: 10 }), 0, 0, NodeFlags { bits: 0 });
    assert!(nodes.is_well_formed());
    nodes.set_root(&root_node);
    assert!(nodes.is_well_formed());
    assert_eq!(nodes.root(), root);
    assert!(matches!(nodes.root_node().kind(), AstKind::Program(_)));
    assert_eq!(nodes.root_node().id(), root);
    *nodes.get_node_mut(a).flags_mut() = NodeFlags { bits: 5 };
    assert_eq!(nodes.get_node(a).flags(), NodeFlags { bits: 5 });
    nodes.root_node_mut().flags_mut().bits = 2;
    assert_eq!(nodes.root_node().flags().bits, 2);
    assert_eq!(nodes.get_node(a).scope_id(), 0);
    assert_eq!(nodes.get_node(a).cfg_ix(), 0);
}
