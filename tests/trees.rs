use nix_query::resolve::try_advance_ident;
use nix_query::{get_value, input_value, set_value, NodeKind, Payload, ProcessError, SyntaxNode, SyntaxTree, TreeError};

fn node(kind: NodeKind, payload: Payload, children: Vec<usize>, start: u32, end: Option<u32>, text: &str) -> SyntaxNode {
    SyntaxNode { kind, payload, children, start, end, text: Some(text.as_bytes().to_vec()) }
}

fn ident(name: &str, start: u32, before: &str) -> SyntaxNode {
    node(NodeKind::Other, Payload::Ident(name.as_bytes().to_vec()), vec![], start, Some(start + name.len() as u32), before)
}

fn build(nodes: Vec<SyntaxNode>) -> SyntaxTree {
    let mut it = nodes.into_iter();
    let mut tree = SyntaxTree::new(it.next().unwrap()).unwrap();
    let mut last = 0;
    for n in it {
        last = tree.push_node(n).unwrap();
    }
    assert!(tree.set_root(last));
    tree
}

/// `key = value  \n\n;` where the value prints with trailing blanks.
fn binding(value_text: &str, value_end: Option<u32>) -> SyntaxTree {
    build(vec![
        ident("key", 0, "key "),
        node(NodeKind::Attribute, Payload::Other, vec![0], 0, Some(3), "key "),
        node(NodeKind::Other, Payload::Token, vec![], 4, Some(5), "= "),
        node(NodeKind::Other, Payload::Other, vec![], 6, value_end, value_text),
        node(NodeKind::Other, Payload::Token, vec![], 14, Some(15), ";"),
        node(NodeKind::SetEntry, Payload::Other, vec![1, 2, 3, 4], 0, Some(15), "key = value;"),
    ])
}

#[test]
fn trailing_spaces_and_newlines_are_trimmed_only_at_the_end() {
    let tree = binding("a  b \n \n", Some(10));
    assert_eq!(get_value(&tree, "key"), Ok(b"a  b".to_vec()));
}

#[test]
fn tabs_are_not_trimmed() {
    let tree = binding("x\t \n", Some(7));
    assert_eq!(get_value(&tree, "key"), Ok(b"x\t".to_vec()));
}

#[test]
fn all_blank_value_trims_to_empty() {
    let tree = binding(" \n ", Some(9));
    assert_eq!(get_value(&tree, "key"), Ok(Vec::new()));
}

#[test]
fn write_replaces_exactly_the_span() {
    let tree = binding("1", Some(7));
    let mut buf = b"key = 1       ;".to_vec();
    assert_eq!(set_value(&tree, "key", b"200", &mut buf), Ok(()));
    assert_eq!(buf, b"key = 200       ;".to_vec());
}

#[test]
fn write_to_node_without_end_is_invalid_span() {
    let tree = binding("1", None);
    let mut buf = b"key = 1;".to_vec();
    assert_eq!(set_value(&tree, "key", b"2", &mut buf), Err(ProcessError::InvalidSpan));
    assert_eq!(buf, b"key = 1;".to_vec());
}

#[test]
fn write_past_buffer_end_is_invalid_span() {
    let tree = binding("1", Some(7));
    let mut buf = b"key".to_vec();
    assert_eq!(set_value(&tree, "key", b"2", &mut buf), Err(ProcessError::InvalidSpan));
    assert_eq!(buf, b"key".to_vec());
}

#[test]
fn chain_with_foreign_child_is_malformed() {
    let tree = build(vec![
        ident("key", 0, "key"),
        node(NodeKind::Other, Payload::Other, vec![], 3, Some(6), "\"x\""),
        node(NodeKind::Attribute, Payload::Other, vec![0, 1], 0, Some(6), "key\"x\""),
        node(NodeKind::Other, Payload::Token, vec![], 7, Some(8), "="),
        node(NodeKind::Other, Payload::Other, vec![], 9, Some(10), "1"),
        node(NodeKind::SetEntry, Payload::Other, vec![2, 3, 4], 0, Some(10), "key\"x\"=1"),
    ]);
    assert_eq!(get_value(&tree, "key.x"), Err(ProcessError::MalformedChain));
    let mut buf = b"key\"x\" = 1".to_vec();
    assert_eq!(set_value(&tree, "key.x", b"2", &mut buf), Err(ProcessError::MalformedChain));
}

#[test]
fn empty_component_never_matches() {
    let tree = binding("1", Some(7));
    assert_eq!(get_value(&tree, "key."), Err(ProcessError::PathNotFound(Vec::new())));
}

#[test]
fn node_with_unknown_child_is_refused() {
    let mut tree = SyntaxTree::new(ident("a", 0, "a")).unwrap();
    let bad = node(NodeKind::Other, Payload::Other, vec![1], 0, Some(1), "");
    assert_eq!(tree.push_node(bad), Err(TreeError::UnknownChild));
    assert_eq!(tree.nodes.len(), 1);
}

#[test]
fn binding_without_value_is_refused() {
    let mut tree = SyntaxTree::new(ident("a", 0, "a")).unwrap();
    let bad = node(NodeKind::SetEntry, Payload::Other, vec![0], 0, Some(1), "f ");
    assert_eq!(tree.push_node(bad), Err(TreeError::MissingChild));
    assert!(SyntaxTree::new(node(NodeKind::Apply, Payload::Other, vec![], 0, None, "")).is_err());
}

#[test]
fn set_root_rejects_unknown_node() {
    let mut tree = SyntaxTree::new(ident("a", 0, "a")).unwrap();
    assert!(!tree.set_root(3));
    assert_eq!(tree.root, 0);
}

#[test]
fn input_strips_one_line_ending() {
    assert_eq!(input_value(b"42\n".to_vec(), false), b"42".to_vec());
    assert_eq!(input_value(b"42\r\n".to_vec(), false), b"42".to_vec());
    assert_eq!(input_value(b"42\n\n".to_vec(), false), b"42\n".to_vec());
    assert_eq!(input_value(b"42".to_vec(), false), b"42".to_vec());
    assert_eq!(input_value(b"\r".to_vec(), false), b"\r".to_vec());
}

#[test]
fn input_keeps_line_ending_on_request() {
    assert_eq!(input_value(b"42\r\n".to_vec(), true), b"42\r\n".to_vec());
}

#[test]
fn application_named_by_chain_yields_its_argument() {
    // `f { a = 1; }` with `f` given as a chain of one identifier.
    let tree = build(vec![
        ident("f", 0, "f "),
        node(NodeKind::IndexSet, Payload::Other, vec![0], 0, Some(1), "f "),
        node(NodeKind::Other, Payload::Token, vec![], 2, Some(3), "{ "),
        ident("a", 4, "a "),
        node(NodeKind::Attribute, Payload::Other, vec![3], 4, Some(5), "a "),
        node(NodeKind::Other, Payload::Token, vec![], 6, Some(7), "= "),
        node(NodeKind::Other, Payload::Other, vec![], 8, Some(9), "1"),
        node(NodeKind::Other, Payload::Token, vec![], 9, Some(10), "; "),
        node(NodeKind::SetEntry, Payload::Other, vec![4, 5, 6, 7], 4, Some(10), "a = 1; "),
        node(NodeKind::Other, Payload::Token, vec![], 11, Some(12), "}"),
        node(NodeKind::Other, Payload::Other, vec![2, 8, 9], 2, Some(12), "{ a = 1; }"),
        node(NodeKind::Apply, Payload::Other, vec![1, 10], 0, Some(12), "f { a = 1; }"),
    ]);
    assert_eq!(get_value(&tree, "f"), Ok(b"{ a = 1; }".to_vec()));
    assert_eq!(get_value(&tree, "f.a"), Ok(b"1".to_vec()));
    let mut buf = b"f { a = 1; }".to_vec();
    assert_eq!(set_value(&tree, "f.a", b"2", &mut buf), Ok(()));
    assert_eq!(buf, b"f { a = 2; }".to_vec());
}

/// The chain `a.b` as a binding name: identifier, dot, identifier.
fn chain_a_b() -> SyntaxTree {
    build(vec![
        ident("a", 0, "a"),
        node(NodeKind::Other, Payload::Dot, vec![], 1, Some(2), "."),
        ident("b", 2, "b "),
        node(NodeKind::Attribute, Payload::Other, vec![0, 1, 2], 0, Some(3), "a.b "),
        node(NodeKind::Other, Payload::Token, vec![], 4, Some(5), "= "),
        node(NodeKind::Other, Payload::Other, vec![], 6, Some(7), "1"),
        node(NodeKind::SetEntry, Payload::Other, vec![3, 4, 5], 0, Some(7), "a.b = 1"),
    ])
}

#[test]
fn chain_longer_than_path_keeps_the_cursor_reached() {
    let tree = chain_a_b();
    let parts = vec![b"a".to_vec()];
    assert_eq!(try_advance_ident(&tree, 3, &parts, 0), Some(1));
    assert_eq!(get_value(&tree, "a"), Ok(b"1".to_vec()));
}

#[test]
fn chain_equal_to_path_consumes_it() {
    let tree = chain_a_b();
    let parts = vec![b"a".to_vec(), b"b".to_vec()];
    assert_eq!(try_advance_ident(&tree, 3, &parts, 0), Some(2));
    let other = vec![b"x".to_vec(), b"b".to_vec()];
    assert_eq!(try_advance_ident(&tree, 3, &other, 0), Some(0));
}

#[test]
fn node_without_text_is_unprintable() {
    let mut tree = chain_a_b();
    tree.nodes[5].text = None;
    assert_eq!(get_value(&tree, "a.b"), Err(ProcessError::Unprintable));
    let mut buf = b"a.b = 1".to_vec();
    assert_eq!(set_value(&tree, "a.b", b"22", &mut buf), Ok(()));
    assert_eq!(buf, b"a.b = 22".to_vec());
}
