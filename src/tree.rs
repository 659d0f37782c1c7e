use vstd::prelude::*;

verus! {

/// Syntactic category of a node, as far as path resolution distinguishes them.
#[derive(Clone, Copy, Debug, PartialEq, Eq, Structural)]
pub enum NodeKind {
    /// A function application: child 0 is the function, child 1 the argument.
    Apply,
    /// A binding `name = value;`: child 0 is the name, child 1 the `=`, child 2 the value.
    SetEntry,
    /// A dotted attribute chain such as `a.b.c`.
    Attribute,
    /// The dotted chain on the left of a binding.
    IndexSet,
    /// Any other expression or token.
    Other,
}

/// What a node carries besides its kind and children.
#[derive(Clone, Debug, PartialEq, Eq)]
pub enum Payload {
    /// An identifier, with its name.
    Ident(Vec<u8>),
    /// The `.` separator token.
    Dot,
    /// Any other token.
    Token,
    /// No payload of interest (values, strings, composite nodes).
    Other,
}

/// One node of the arena.
///
/// `text` is the subtree at this node as the parser prints it when the node is
/// made the root of the document, or `None` where the parser cannot print it
/// (a subtree holding a syntax error).
#[derive(Clone, Debug)]
pub struct SyntaxNode {
    pub kind: NodeKind,
    pub payload: Payload,
    pub children: Vec<usize>,
    pub start: u32,
    pub end: Option<u32>,
    pub text: Option<Vec<u8>>,
}

/// An append-only arena of syntax nodes addressed by index.
#[derive(Clone, Debug)]
pub struct SyntaxTree {
    pub nodes: Vec<SyntaxNode>,
    pub root: usize,
}

/// Why a node could not be added to a tree.
#[derive(Clone, Copy, Debug, PartialEq, Eq, Structural)]
pub enum TreeError {
    /// A child index does not name a node that is already in the arena.
    UnknownChild,
    /// An application with fewer than two children, or a binding with fewer than three.
    MissingChild,
    /// The arena already holds `usize::MAX` nodes.
    Full,
}

/// Number of children that a node of this kind must have at least.
pub open spec fn min_children(k: NodeKind) -> nat {
    match k {
        NodeKind::Apply => 2,
        NodeKind::SetEntry => 3,
        _ => 0,
    }
}

/// A node may be added at index `n`: its children come before it, and it has
/// the children its kind needs.
pub open spec fn node_fits(node: SyntaxNode, n: int) -> bool {
    &&& forall|k: int| 0 <= k < node.children@.len() ==> (#[trigger] node.children@[k]) < n
    &&& node.children@.len() >= min_children(node.kind)
}

impl SyntaxTree {
    /// Every node's children precede it in the arena (so the arena is acyclic),
    /// every node has the children its kind needs, and the root is a node.
    pub open spec fn wf(&self) -> bool {
        &&& forall|n: int| 0 <= n < self.nodes@.len() ==> node_fits(#[trigger] self.nodes@[n], n)
        &&& self.root < self.nodes@.len()
    }

    /// Children of node `n`.
    pub open spec fn children_of(&self, n: int) -> Seq<usize> {
        self.nodes@[n].children@
    }

    /// A tree holding a single node, which is its root.
    pub fn new(node: SyntaxNode) -> (r: Result<SyntaxTree, TreeError>)
        ensures
            node_fits(node, 0) <==> r is Ok,
            r matches Ok(t) ==> t.wf() && t.nodes@ == seq![node] && t.root == 0,
            !node_fits(node, 0) ==> r == Err::<SyntaxTree, TreeError>(
                if node.children@.len() > 0 { TreeError::UnknownChild } else { TreeError::MissingChild },
            ),
    {
        if node.children.len() > 0 {
            proof {
                assert(!node_fits(node, 0)) by {
                    assert(node.children@[0] >= 0);
                }
            }
            return Err(TreeError::UnknownChild);
        }
        if node.children.len() < min_children_exec(node.kind) {
            return Err(TreeError::MissingChild);
        }
        let mut nodes: Vec<SyntaxNode> = Vec::new();
        nodes.push(node);
        let t = SyntaxTree { nodes, root: 0 };
        assert(t.nodes@ =~= seq![node]);
        Ok(t)
    }

    /// Appends a node whose children are already in the arena and returns its
    /// index. The root is left as it was.
    pub fn push_node(&mut self, node: SyntaxNode) -> (r: Result<usize, TreeError>)
        requires
            old(self).wf(),
        ensures
            final(self).wf(),
            final(self).root == old(self).root,
            r is Ok <==> (old(self).nodes@.len() < usize::MAX && node_fits(node, old(self).nodes@.len() as int)),
            r matches Ok(i) ==> i == old(self).nodes@.len() && final(self).nodes@ == old(self).nodes@.push(node),
            r is Err ==> final(self).nodes@ == old(self).nodes@,
    {
        let n = self.nodes.len();
        if n == usize::MAX {
            return Err(TreeError::Full);
        }
        let mut k: usize = 0;
        while k < node.children.len()
            invariant
                0 <= k <= node.children@.len(),
                n == self.nodes@.len(),
                self.wf(),
                self.root == old(self).root,
                self.nodes@ == old(self).nodes@,
                forall|m: int| 0 <= m < k ==> (#[trigger] node.children@[m]) < n,
            decreases node.children@.len() - k,
        {
            if node.children[k] >= n {
                return Err(TreeError::UnknownChild);
            }
            k = k + 1;
        }
        if node.children.len() < min_children_exec(node.kind) {
            return Err(TreeError::MissingChild);
        }
        self.nodes.push(node);
        proof {
            assert forall|m: int| 0 <= m < self.nodes@.len() implies node_fits(#[trigger] self.nodes@[m], m) by {
                if m < n {
                    assert(self.nodes@[m] == old(self).nodes@[m]);
                }
            }
        }
        Ok(n)
    }

    /// Makes node `n` the root, the node from which paths are resolved.
    pub fn set_root(&mut self, n: usize) -> (r: bool)
        requires
            old(self).wf(),
        ensures
            final(self).wf(),
            final(self).nodes@ == old(self).nodes@,
            r == (n < old(self).nodes@.len()),
            final(self).root == (if r { n } else { old(self).root }),
    {
        if n < self.nodes.len() {
            self.root = n;
            true
        } else {
            false
        }
    }
}

fn min_children_exec(k: NodeKind) -> (r: usize)
    ensures
        r == min_children(k),
{
    match k {
        NodeKind::Apply => 2,
        NodeKind::SetEntry => 3,
        _ => 0,
    }
}

} // verus!
