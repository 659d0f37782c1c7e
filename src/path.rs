use vstd::prelude::*;
use crate::resolve::views;
use vstd::string::StringSliceAdditionalSpecFns;

verus! {

/// The components of a dotted path: the bytes between `.` separators, empty
/// ones included; a path always has at least one component.
pub open spec fn split_dots(s: Seq<u8>) -> Seq<Seq<u8>>
    decreases s.len(),
{
    if s.len() == 0 {
        seq![Seq::<u8>::empty()]
    } else {
        let rest = split_dots(s.drop_last());
        if s.last() == 46u8 {
            rest.push(Seq::<u8>::empty())
        } else {
            rest.update(rest.len() - 1, rest.last().push(s.last()))
        }
    }
}

pub proof fn lemma_split_nonempty(s: Seq<u8>)
    ensures
        split_dots(s).len() >= 1,
    decreases s.len(),
{
    if s.len() > 0 {
        lemma_split_nonempty(s.drop_last());
    }
}

/// Splits `path` on `.` into its components.
pub fn split_path(path: &str) -> (r: Vec<Vec<u8>>)
    ensures
        views(r@) == split_dots(path.spec_bytes()),
        r@.len() >= 1,
{
    let b = path.as_bytes();
    let mut parts: Vec<Vec<u8>> = Vec::new();
    let mut cur: Vec<u8> = Vec::new();
    let mut k: usize = 0;
    while k < b.len()
        invariant
            0 <= k <= b@.len(),
            views(parts@).push(cur@) == split_dots(b@.subrange(0, k as int)),
        decreases b@.len() - k,
    {
        let ghost prev = b@.subrange(0, k as int);
        let ghost next = b@.subrange(0, k + 1);
        assert(next.drop_last() =~= prev);
        assert(next.last() == b@[k as int]);
        proof {
            lemma_split_nonempty(prev);
        }
        if b[k] == 46u8 {
            parts.push(cur);
            cur = Vec::new();
            assert(views(parts@) =~= split_dots(prev));
            assert(views(parts@).push(cur@) =~= split_dots(next));
        } else {
            cur.push(b[k]);
            assert(views(parts@).push(cur@) =~= split_dots(next));
        }
        k = k + 1;
    }
    assert(b@.subrange(0, b@.len() as int) =~= b@);
    parts.push(cur);
    assert(views(parts@) =~= split_dots(path.spec_bytes()));
    assert(views(parts@).len() == parts@.len());
    parts
}

} // verus!
