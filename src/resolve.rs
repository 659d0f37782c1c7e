use vstd::prelude::*;
use crate::tree::{node_fits, NodeKind, Payload, SyntaxTree};

verus! {

/// The byte strings held by a sequence of vectors.
pub open spec fn views(v: Seq<Vec<u8>>) -> Seq<Seq<u8>> {
    v.map_values(|p: Vec<u8>| p@)
}

/// Outcome of resolving a path from some node.
pub enum Resolution {
    /// The path was consumed; the node bound to it.
    Found(nat),
    /// The component with this index was never matched.
    Missing(nat),
    /// A chain held a child that is neither an identifier nor a dot.
    Malformed,
}

/// Walks the children of chain node `n` from the `k`-th on, with the cursor
/// at `j`. Each identifier equal to the component at the cursor moves it on;
/// once the path is used up the cursor reached is returned and the rest of
/// the chain is left alone. `None` means a child was neither an identifier
/// nor a dot.
pub open spec fn chain_scan(t: SyntaxTree, n: int, k: int, parts: Seq<Seq<u8>>, i: nat, j: nat) -> Option<nat>
    decreases t.children_of(n).len() - k,
{
    let ch = t.children_of(n);
    if k < 0 || k >= ch.len() {
        Some(j)
    } else if j >= parts.len() {
        Some(j)
    } else {
        match t.nodes@[ch[k] as int].payload {
            Payload::Ident(name) => chain_scan(t, n, k + 1, parts, i, if name@ == parts[j as int] { j + 1 } else { j }),
            Payload::Dot => chain_scan(t, n, k + 1, parts, i, j),
            _ => None,
        }
    }
}

/// How far the identifier chain found at node `n` takes the cursor `i`: a
/// chain node matches its identifiers in order, any other node defers to its
/// first child that advances the cursor. `None` means a malformed chain.
pub open spec fn advance(t: SyntaxTree, n: int, parts: Seq<Seq<u8>>, i: nat) -> Option<nat>
    decreases n, 1int, 0int,
{
    match t.nodes@[n].kind {
        NodeKind::Attribute | NodeKind::IndexSet => chain_scan(t, n, 0, parts, i, i),
        _ => first_advance(t, n, 0, parts, i),
    }
}

/// The first advance past `i` among the children of `n` from the `k`-th on.
pub open spec fn first_advance(t: SyntaxTree, n: int, k: int, parts: Seq<Seq<u8>>, i: nat) -> Option<nat>
    decreases n, 0int, t.children_of(n).len() - k,
{
    let ch = t.children_of(n);
    if k < 0 || k >= ch.len() {
        Some(i)
    } else {
        let c = ch[k] as int;
        let r = if 0 <= c < n { advance(t, c, parts, i) } else { Some(i) };
        match r {
            None => None,
            Some(j) => if j > i { Some(j) } else { first_advance(t, n, k + 1, parts, i) },
        }
    }
}

/// Resolves `parts` from cursor `i` at node `n`. A binding (name at child 0,
/// value at child 2) or an application (name at child 0, value at child 1)
/// whose name advances the cursor is followed, without backtracking; any other
/// node searches its children, first success wins.
pub open spec fn find(t: SyntaxTree, n: int, parts: Seq<Seq<u8>>, i: nat) -> Resolution
    decreases n, 1int, 0int,
{
    match t.nodes@[n].kind {
        NodeKind::Apply => try_match(t, n, parts, i, 1),
        NodeKind::SetEntry => try_match(t, n, parts, i, 2),
        _ => find_first(t, n, 0, parts, i),
    }
}

/// The pairing rule of `find` at node `n`, whose value is the `v`-th child.
pub open spec fn try_match(t: SyntaxTree, n: int, parts: Seq<Seq<u8>>, i: nat, v: int) -> Resolution
    decreases n, 0int, t.children_of(n).len() + 1,
{
    let ch = t.children_of(n);
    let a = ch[0] as int;
    let adv = if 0 <= a < n { advance(t, a, parts, i) } else { Some(i) };
    match adv {
        None => Resolution::Malformed,
        Some(j) => if j > i {
            let r = ch[v] as int;
            if j == parts.len() {
                Resolution::Found(r as nat)
            } else if 0 <= r < n {
                find(t, r, parts, j)
            } else {
                Resolution::Missing(j)
            }
        } else {
            find_first(t, n, 0, parts, i)
        },
    }
}

/// The first child of `n`, from the `k`-th on, in which `parts` resolves.
pub open spec fn find_first(t: SyntaxTree, n: int, k: int, parts: Seq<Seq<u8>>, i: nat) -> Resolution
    decreases n, 0int, t.children_of(n).len() - k,
{
    let ch = t.children_of(n);
    if k < 0 || k >= ch.len() {
        Resolution::Missing(i)
    } else {
        let c = ch[k] as int;
        let r = if 0 <= c < n { find(t, c, parts, i) } else { Resolution::Missing(i) };
        match r {
            Resolution::Missing(_) => find_first(t, n, k + 1, parts, i),
            _ => r,
        }
    }
}

/// Byte strings `a` and `b` are equal.
pub fn bytes_eq(a: &[u8], b: &[u8]) -> (r: bool)
    ensures
        r == (a@ == b@),
{
    if a.len() != b.len() {
        return false;
    }
    let mut k: usize = 0;
    while k < a.len()
        invariant
            0 <= k <= a@.len(),
            a@.len() == b@.len(),
            forall|m: int| 0 <= m < k ==> a@[m] == b@[m],
        decreases a@.len() - k,
    {
        if a[k] != b[k] {
            return false;
        }
        k = k + 1;
    }
    assert(a@ =~= b@);
    true
}

/// The cursor after matching the identifier chain found at node `n` against
/// the components from `i` on: `i` itself when nothing matched, and the cursor
/// reached so far when the path runs out before the chain does. `None` when a
/// chain holds something other than identifiers and dots.
pub fn try_advance_ident(t: &SyntaxTree, n: usize, parts: &Vec<Vec<u8>>, i: usize) -> (r: Option<usize>)
    requires
        t.wf(),
        n < t.nodes@.len(),
        i <= parts@.len(),
    ensures
        r is None <==> advance(*t, n as int, views(parts@), i as nat) is None,
        r matches Some(j) ==> advance(*t, n as int, views(parts@), i as nat) == Some(j as nat) && i <= j <= parts@.len(),
    decreases n,
{
    let ghost ps = views(parts@);
    let node = &t.nodes[n];
    match node.kind {
        NodeKind::Attribute | NodeKind::IndexSet => {
            assert(t.nodes@[n as int].kind == node.kind);
            assert(advance(*t, n as int, ps, i as nat) == chain_scan(*t, n as int, 0, ps, i as nat, i as nat));
            let mut j: usize = i;
            let mut k: usize = 0;
            while k < node.children.len()
                invariant
                    t.wf(),
                    n < t.nodes@.len(),
                    node == t.nodes@[n as int],
                    0 <= k <= node.children@.len(),
                    i <= j <= parts@.len(),
                    ps == views(parts@),
                    advance(*t, n as int, ps, i as nat) == chain_scan(*t, n as int, 0, ps, i as nat, i as nat),
                    chain_scan(*t, n as int, 0, ps, i as nat, i as nat) == chain_scan(*t, n as int, k as int, ps, i as nat, j as nat),
                decreases node.children@.len() - k,
            {
                if j >= parts.len() {
                    return Some(j);
                }
                let c = node.children[k];
                assert(node.children@[k as int] < n);
                match &t.nodes[c].payload {
                    Payload::Ident(name) => {
                        assert(ps[j as int] == parts@[j as int]@);
                        if bytes_eq(name.as_slice(), parts[j].as_slice()) {
                            j = j + 1;
                        }
                    },
                    Payload::Dot => {},
                    _ => {
                        return None;
                    },
                }
                k = k + 1;
            }
            Some(j)
        },
        _ => {
            assert(t.nodes@[n as int].kind == node.kind);
            let mut k: usize = 0;
            while k < node.children.len()
                invariant
                    t.wf(),
                    n < t.nodes@.len(),
                    node == t.nodes@[n as int],
                    0 <= k <= node.children@.len(),
                    i <= parts@.len(),
                    ps == views(parts@),
                    advance(*t, n as int, ps, i as nat) == first_advance(*t, n as int, 0, ps, i as nat),
                    first_advance(*t, n as int, 0, ps, i as nat) == first_advance(*t, n as int, k as int, ps, i as nat),
                decreases node.children@.len() - k,
            {
                let c = node.children[k];
                assert(node.children@[k as int] < n);
                match try_advance_ident(t, c, parts, i) {
                    None => {
                        return None;
                    },
                    Some(j) => {
                        if j > i {
                            return Some(j);
                        }
                    },
                }
                k = k + 1;
            }
            Some(i)
        },
    }
}

/// Why a path could not be resolved.
#[derive(Clone, Copy, Debug, PartialEq, Eq, Structural)]
pub enum FindError {
    /// The component with this index was never matched.
    NotFound(usize),
    /// A chain held a child that is neither an identifier nor a dot.
    Malformed,
}

/// `r` reports the resolution `res` of a path of `len` components in a tree of `size` nodes.
pub open spec fn reports(r: Result<usize, FindError>, res: Resolution, size: nat, len: nat) -> bool {
    match r {
        Ok(x) => res == Resolution::Found(x as nat) && x < size,
        Err(FindError::NotFound(m)) => res == Resolution::Missing(m as nat) && m < len,
        Err(FindError::Malformed) => res == Resolution::Malformed,
    }
}

/// Resolves the components of `parts` from index `i` on, searching from node
/// `n`; on success, returns the node bound to the path.
pub fn find_node(t: &SyntaxTree, n: usize, parts: &Vec<Vec<u8>>, i: usize) -> (r: Result<usize, FindError>)
    requires
        t.wf(),
        n < t.nodes@.len(),
        i < parts@.len(),
    ensures
        reports(r, find(*t, n as int, views(parts@), i as nat), t.nodes@.len(), parts@.len()),
    decreases n, 1int,
{
    let ghost ps = views(parts@);
    let node = &t.nodes[n];
    assert(t.nodes@[n as int].kind == node.kind);
    let v: usize = match node.kind {
        NodeKind::Apply => 1,
        NodeKind::SetEntry => 2,
        _ => {
            return find_in_children(t, n, parts, i);
        },
    };
    assert(find(*t, n as int, ps, i as nat) == try_match(*t, n as int, ps, i as nat, v as int));
    assert(node_fits(t.nodes@[n as int], n as int));
    let a = node.children[0];
    assert(node.children@[0] < n);
    match try_advance_ident(t, a, parts, i) {
        None => Err(FindError::Malformed),
        Some(j) => {
            if j > i {
                let res = node.children[v];
                assert(node.children@[v as int] < n);
                if j == parts.len() {
                    Ok(res)
                } else {
                    find_node(t, res, parts, j)
                }
            } else {
                find_in_children(t, n, parts, i)
            }
        },
    }
}

/// Resolves `parts` from index `i` in the children of `n`, first success wins.
fn find_in_children(t: &SyntaxTree, n: usize, parts: &Vec<Vec<u8>>, i: usize) -> (r: Result<usize, FindError>)
    requires
        t.wf(),
        n < t.nodes@.len(),
        i < parts@.len(),
    ensures
        reports(r, find_first(*t, n as int, 0, views(parts@), i as nat), t.nodes@.len(), parts@.len()),
    decreases n, 0int,
{
    let ghost ps = views(parts@);
    let node = &t.nodes[n];
    let mut k: usize = 0;
    while k < node.children.len()
        invariant
            t.wf(),
            n < t.nodes@.len(),
            node == t.nodes@[n as int],
            0 <= k <= node.children@.len(),
            i < parts@.len(),
            ps == views(parts@),
            find_first(*t, n as int, 0, ps, i as nat) == find_first(*t, n as int, k as int, ps, i as nat),
        decreases node.children@.len() - k,
    {
        let c = node.children[k];
        assert(node.children@[k as int] < n);
        let r = find_node(t, c, parts, i);
        match r {
            Err(FindError::NotFound(_)) => {},
            _ => {
                return r;
            },
        }
        k = k + 1;
    }
    Err(FindError::NotFound(i))
}

} // verus!
