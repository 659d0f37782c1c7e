use vstd::prelude::*;
use crate::query::{read_outcome, read_text, target_span, written, ProcessError};
use crate::resolve::{advance, find, find_first};
use crate::tree::{NodeKind, SyntaxTree};

verus! {

/// Reading is a function of the tree and the path: two reads of the same path
/// from the same tree both succeed with the same text, or both fail with the
/// same error.
pub proof fn lemma_read_idempotent(
    t: SyntaxTree,
    path: Seq<u8>,
    r1: Result<Vec<u8>, ProcessError>,
    r2: Result<Vec<u8>, ProcessError>,
)
    requires
        read_outcome(t, path, r1),
        read_outcome(t, path, r2),
    ensures
        r1 is Ok <==> r2 is Ok,
        r1 is Ok ==> r1->Ok_0@ == r2->Ok_0@,
        r1 matches Err(ProcessError::PathNotFound(c1)) ==> r2 matches Err(ProcessError::PathNotFound(c2)) && c1@ == c2@,
        r1 matches Err(ProcessError::MalformedChain) ==> r2 == r1,
{
}

/// A successful write changes only the replaced span: the bytes before it
/// stay where they were, and the bytes after it follow the new value in their
/// original order.
pub proof fn lemma_write_preserves_surroundings(t: SyntaxTree, path: Seq<u8>, value: Seq<u8>, buf: Seq<u8>, out: Seq<u8>)
    requires
        written(t, path, value, buf) == Some(out),
    ensures
        target_span(t, path, buf.len()) is Some,
        ({
            let (s, e) = target_span(t, path, buf.len())->Some_0;
            &&& 0 <= s <= e <= buf.len()
            &&& out.len() == buf.len() - (e - s) + value.len()
            &&& forall|k: int| 0 <= k < s ==> #[trigger] out[k] == buf[k]
            &&& out.subrange(s, s + value.len()) == value
            &&& forall|k: int| e <= k < buf.len() ==> out[k - e + s + value.len()] == #[trigger] buf[k]
        }),
{
    let (s, e) = target_span(t, path, buf.len())->Some_0;
    assert(out.subrange(s, s + value.len()) =~= value);
    assert forall|k: int| e <= k < buf.len() implies out[k - e + s + value.len()] == #[trigger] buf[k] by {
        assert(buf.subrange(e, buf.len() as int)[k - e] == buf[k]);
    }
}

/// Writing back the text just read from a path leaves the buffer as it was,
/// wherever the span of the resolved node holds exactly that text.
pub proof fn lemma_round_trip(t: SyntaxTree, path: Seq<u8>, buf: Seq<u8>)
    requires
        read_text(t, path) is Some,
        target_span(t, path, buf.len()) is Some,
        buf.subrange(target_span(t, path, buf.len())->Some_0.0, target_span(t, path, buf.len())->Some_0.1)
            == read_text(t, path)->Some_0,
    ensures
        written(t, path, read_text(t, path)->Some_0, buf) == Some(buf),
{
    let (s, e) = target_span(t, path, buf.len())->Some_0;
    assert(buf.subrange(0, s) + buf.subrange(s, e) + buf.subrange(e, buf.len() as int) =~= buf);
}

/// Resolution does not backtrack: once the name of a binding or an
/// application advances the cursor without finishing the path, the outcome
/// at that node is the outcome in its value alone, even where another child
/// would have matched.
pub proof fn lemma_no_backtracking(t: SyntaxTree, n: int, parts: Seq<Seq<u8>>, i: nat, j: nat)
    requires
        t.wf(),
        0 <= n < t.nodes@.len(),
        t.nodes@[n].kind == NodeKind::SetEntry || t.nodes@[n].kind == NodeKind::Apply,
        advance(t, t.children_of(n)[0] as int, parts, i) == Some(j),
        i < j < parts.len(),
    ensures
        find(t, n, parts, i) == find(
            t,
            t.children_of(n)[if t.nodes@[n].kind == NodeKind::SetEntry { 2int } else { 1int }] as int,
            parts,
            j,
        ),
{
    assert(crate::tree::node_fits(t.nodes@[n], n));
    assert(t.children_of(n)[0] < n);
    assert(t.children_of(n)[1] < n);
    if t.nodes@[n].kind == NodeKind::SetEntry {
        assert(t.children_of(n)[2] < n);
    }
}

/// The first child in document order whose search settles wins: where every
/// earlier child of a searching node leaves the path missing, the outcome is
/// that of the `k`-th child.
pub proof fn lemma_first_match_wins(t: SyntaxTree, n: int, k: int, parts: Seq<Seq<u8>>, i: nat)
    requires
        t.wf(),
        0 <= n < t.nodes@.len(),
        0 <= k < t.children_of(n).len(),
        forall|m: int| 0 <= m < k ==> find(t, #[trigger] t.children_of(n)[m] as int, parts, i) is Missing,
        !(find(t, t.children_of(n)[k] as int, parts, i) is Missing),
    ensures
        find_first(t, n, 0, parts, i) == find(t, t.children_of(n)[k] as int, parts, i),
{
    assert(crate::tree::node_fits(t.nodes@[n], n));
    lemma_first_match_from(t, n, 0, k, parts, i);
}

proof fn lemma_first_match_from(t: SyntaxTree, n: int, m: int, k: int, parts: Seq<Seq<u8>>, i: nat)
    requires
        t.wf(),
        0 <= n < t.nodes@.len(),
        0 <= m <= k < t.children_of(n).len(),
        crate::tree::node_fits(t.nodes@[n], n),
        forall|q: int| 0 <= q < k ==> find(t, #[trigger] t.children_of(n)[q] as int, parts, i) is Missing,
        !(find(t, t.children_of(n)[k] as int, parts, i) is Missing),
    ensures
        find_first(t, n, m, parts, i) == find(t, t.children_of(n)[k] as int, parts, i),
    decreases k - m,
{
    assert(t.children_of(n)[m] < n);
    if m < k {
        assert(find(t, t.children_of(n)[m] as int, parts, i) is Missing);
        lemma_first_match_from(t, n, m + 1, k, parts, i);
    }
}

} // verus!
