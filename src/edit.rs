use vstd::prelude::*;

verus! {

/// A space or a newline.
pub open spec fn is_blank(b: u8) -> bool {
    b == 32u8 || b == 10u8
}

/// `s` without its trailing spaces and newlines.
pub open spec fn trim_trailing(s: Seq<u8>) -> Seq<u8>
    decreases s.len(),
{
    if s.len() > 0 && is_blank(s.last()) {
        trim_trailing(s.drop_last())
    } else {
        s
    }
}

/// `buf` with the bytes in `[start, end)` replaced by `value`.
pub open spec fn spliced(buf: Seq<u8>, start: int, end: int, value: Seq<u8>) -> Seq<u8> {
    buf.subrange(0, start) + value + buf.subrange(end, buf.len() as int)
}

/// Trimming removes exactly the trailing run of spaces and newlines: what is
/// left is a prefix of `s` that does not end in one, and everything cut off is one.
pub proof fn lemma_trim_bounds(s: Seq<u8>)
    ensures
        trim_trailing(s).len() <= s.len(),
        trim_trailing(s) == s.subrange(0, trim_trailing(s).len() as int),
        forall|k: int| trim_trailing(s).len() <= k < s.len() ==> is_blank(#[trigger] s[k]),
        trim_trailing(s).len() == 0 || !is_blank(trim_trailing(s).last()),
    decreases s.len(),
{
    if s.len() > 0 && is_blank(s.last()) {
        let p = s.drop_last();
        lemma_trim_bounds(p);
        assert(p.subrange(0, trim_trailing(p).len() as int) =~= s.subrange(0, trim_trailing(p).len() as int));
        assert forall|k: int| trim_trailing(s).len() <= k < s.len() implies is_blank(#[trigger] s[k]) by {
            if k < p.len() {
                assert(s[k] == p[k]);
            }
        }
    } else {
        assert(s.subrange(0, s.len() as int) =~= s);
    }
}

/// Appends `src` to `out`.
fn append_bytes(out: &mut Vec<u8>, src: &[u8])
    ensures
        final(out)@ == old(out)@ + src@,
{
    let mut k: usize = 0;
    while k < src.len()
        invariant
            0 <= k <= src@.len(),
            out@ == old(out)@ + src@.subrange(0, k as int),
        decreases src@.len() - k,
    {
        out.push(src[k]);
        k = k + 1;
        assert(out@ =~= old(out)@ + src@.subrange(0, k as int));
    }
    assert(src@.subrange(0, src@.len() as int) =~= src@);
}

/// Removes the trailing spaces and newlines of `s`.
pub fn trim_trailing_blanks(s: &mut Vec<u8>)
    ensures
        final(s)@ == trim_trailing(old(s)@),
{
    let mut k: usize = s.len();
    assert(s@.subrange(0, k as int) =~= s@);
    while k > 0 && (s[k - 1] == 32u8 || s[k - 1] == 10u8)
        invariant
            0 <= k <= s@.len(),
            s@ == old(s)@,
            trim_trailing(s@) == trim_trailing(s@.subrange(0, k as int)),
        decreases k,
    {
        let ghost p = s@.subrange(0, k as int);
        assert(p.drop_last() =~= s@.subrange(0, k - 1));
        k = k - 1;
    }
    let ghost p = s@.subrange(0, k as int);
    assert(trim_trailing(p) == p);
    s.truncate(k);
}

/// Replaces the bytes `[start, end)` of `buf` with `value`.
pub fn replace_span(buf: &mut Vec<u8>, start: usize, end: usize, value: &[u8])
    requires
        start <= end <= old(buf)@.len(),
    ensures
        final(buf)@ == spliced(old(buf)@, start as int, end as int, value@),
{
    let mut out: Vec<u8> = Vec::new();
    let mut k: usize = 0;
    while k < start
        invariant
            0 <= k <= start <= end <= buf@.len(),
            buf@ == old(buf)@,
            out@ == buf@.subrange(0, k as int),
        decreases start - k,
    {
        out.push(buf[k]);
        k = k + 1;
        assert(out@ =~= buf@.subrange(0, k as int));
    }
    append_bytes(&mut out, value);
    let ghost mid = out@;
    k = end;
    while k < buf.len()
        invariant
            start <= end <= k <= buf@.len(),
            buf@ == old(buf)@,
            out@ == mid + buf@.subrange(end as int, k as int),
        decreases buf@.len() - k,
    {
        out.push(buf[k]);
        k = k + 1;
        assert(out@ =~= mid + buf@.subrange(end as int, k as int));
    }
    *buf = out;
}

/// A replacement value read from an input stream: unless `keep_eol` is set,
/// one trailing `\n` or `\r\n` is removed.
pub fn input_value(mut input: Vec<u8>, keep_eol: bool) -> (r: Vec<u8>)
    ensures
        r@ == (if !keep_eol && input@.len() >= 1 && input@.last() == 10u8 {
            if input@.len() >= 2 && input@[input@.len() - 2] == 13u8 {
                input@.subrange(0, input@.len() - 2)
            } else {
                input@.subrange(0, input@.len() - 1)
            }
        } else {
            input@
        }),
{
    let n = input.len();
    if !keep_eol && n >= 1 && input[n - 1] == 10u8 {
        if n >= 2 && input[n - 2] == 13u8 {
            input.truncate(n - 2);
        } else {
            input.truncate(n - 1);
        }
    }
    input
}

} // verus!
