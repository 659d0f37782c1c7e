use vstd::prelude::*;
use vstd::string::StringSliceAdditionalSpecFns;
use vstd::utf8::encode_utf8;
use crate::edit::{replace_span, spliced, trim_trailing, trim_trailing_blanks};
use crate::path::{split_dots, split_path};
use crate::resolve::{find, find_node, views, FindError, Resolution};
use crate::tree::SyntaxTree;

verus! {

/// Command-line arguments of the tool.
pub struct Args {
    /// Input file to query or modify.
    pub input: String,
    /// Modify the file in place instead of printing the result.
    pub in_place: bool,
    /// Command to execute.
    pub command: Command,
}

/// What to do at a path.
pub enum Command {
    /// Get the value at the given path.
    Get { path: String },
    /// Set the value at the given path. Without a value, the caller reads it
    /// from its input stream (see `input_value`) and passes it in.
    SetValue { path: String, value: Option<String>, keep_eol: bool },
}

/// Why a query or an update failed.
#[derive(Clone, Debug, PartialEq, Eq)]
pub enum ProcessError {
    /// This component of the path was never matched.
    PathNotFound(Vec<u8>),
    /// An attribute chain held something other than identifiers and dots.
    MalformedChain,
    /// The path to be written does not exist; creating bindings is not supported.
    UnsupportedInsertion,
    /// The node to be written has no end, or its span lies outside the buffer.
    InvalidSpan,
    /// The node bound to the path holds a syntax error, so it has no text to read.
    Unprintable,
    /// A `SetValue` command reached the library without its value.
    MissingValue,
}

/// How `path` resolves from the root of `t`.
pub open spec fn resolution(t: SyntaxTree, path: Seq<u8>) -> Resolution {
    find(t, t.root as int, split_dots(path), 0)
}

/// The text that reading `path` yields, when the path resolves.
pub open spec fn read_text(t: SyntaxTree, path: Seq<u8>) -> Option<Seq<u8>> {
    match resolution(t, path) {
        Resolution::Found(x) => match t.nodes@[x as int].text {
            Some(text) => Some(trim_trailing(text@)),
            None => None,
        },
        _ => None,
    }
}

/// `e` is the error that reading `path` reports.
pub open spec fn read_error(t: SyntaxTree, path: Seq<u8>, e: ProcessError) -> bool {
    match resolution(t, path) {
        Resolution::Found(_) => e == ProcessError::Unprintable,
        Resolution::Missing(m) => e matches ProcessError::PathNotFound(c) && c@ == split_dots(path)[m as int],
        Resolution::Malformed => e == ProcessError::MalformedChain,
    }
}

/// `r` is the outcome of reading `path` from `t`.
pub open spec fn read_outcome(t: SyntaxTree, path: Seq<u8>, r: Result<Vec<u8>, ProcessError>) -> bool {
    match r {
        Ok(v) => read_text(t, path) == Some(v@),
        Err(e) => read_text(t, path) is None && read_error(t, path, e),
    }
}

/// The byte span of node `x`, when it has an end and lies within a buffer of `len` bytes.
pub open spec fn span_in(t: SyntaxTree, x: int, len: nat) -> Option<(int, int)> {
    let node = t.nodes@[x];
    match node.end {
        Some(e) => if node.start <= e && e <= len { Some((node.start as int, e as int)) } else { None },
        None => None,
    }
}

/// The span that a write at `path` replaces in a buffer of `len` bytes, when there is one.
pub open spec fn target_span(t: SyntaxTree, path: Seq<u8>, len: nat) -> Option<(int, int)> {
    match resolution(t, path) {
        Resolution::Found(x) => span_in(t, x as int, len),
        _ => None,
    }
}

/// The buffer that writing `value` at `path` makes of `buf`, when that succeeds.
pub open spec fn written(t: SyntaxTree, path: Seq<u8>, value: Seq<u8>, buf: Seq<u8>) -> Option<Seq<u8>> {
    match target_span(t, path, buf.len()) {
        Some((s, e)) => Some(spliced(buf, s, e, value)),
        None => None,
    }
}

/// The error that writing at `path` reports when it does not succeed.
pub open spec fn write_error(t: SyntaxTree, path: Seq<u8>) -> ProcessError {
    match resolution(t, path) {
        Resolution::Found(_) => ProcessError::InvalidSpan,
        Resolution::Missing(_) => ProcessError::UnsupportedInsertion,
        Resolution::Malformed => ProcessError::MalformedChain,
    }
}

/// `r` and `after` are the outcome of writing `value` at `path` into `before`.
pub open spec fn write_outcome(
    t: SyntaxTree,
    path: Seq<u8>,
    value: Seq<u8>,
    before: Seq<u8>,
    after: Seq<u8>,
    r: Result<(), ProcessError>,
) -> bool {
    match r {
        Ok(_) => written(t, path, value, before) == Some(after),
        Err(e) => written(t, path, value, before) is None && e == write_error(t, path) && after == before,
    }
}

fn copy_bytes(src: &[u8]) -> (r: Vec<u8>)
    ensures
        r@ == src@,
{
    let mut out: Vec<u8> = Vec::new();
    let mut k: usize = 0;
    while k < src.len()
        invariant
            0 <= k <= src@.len(),
            out@ == src@.subrange(0, k as int),
        decreases src@.len() - k,
    {
        out.push(src[k]);
        k = k + 1;
        assert(out@ =~= src@.subrange(0, k as int));
    }
    assert(src@.subrange(0, src@.len() as int) =~= src@);
    out
}

fn resolve_path(t: &SyntaxTree, parts: &Vec<Vec<u8>>) -> (r: Result<usize, FindError>)
    requires
        t.wf(),
        parts@.len() >= 1,
    ensures
        crate::resolve::reports(r, find(*t, t.root as int, views(parts@), 0), t.nodes@.len(), parts@.len()),
{
    find_node(t, t.root, parts, 0)
}

/// Reads the value bound to `path`: the text of the resolved node's subtree,
/// without trailing spaces and newlines.
pub fn get_value(t: &SyntaxTree, path: &str) -> (r: Result<Vec<u8>, ProcessError>)
    requires
        t.wf(),
    ensures
        read_outcome(*t, path.spec_bytes(), r),
{
    let parts = split_path(path);
    match resolve_path(t, &parts) {
        Ok(x) => match &t.nodes[x].text {
            Some(text) => {
                let mut out = copy_bytes(text.as_slice());
                trim_trailing_blanks(&mut out);
                Ok(out)
            },
            None => Err(ProcessError::Unprintable),
        },
        Err(FindError::NotFound(m)) => {
            let c = parts[m].clone();
            assert(c@ == views(parts@)[m as int]);
            Err(ProcessError::PathNotFound(c))
        },
        Err(FindError::Malformed) => Err(ProcessError::MalformedChain),
    }
}

/// Replaces the span of the node bound to `path` in `content` with `value`,
/// leaving every other byte as it was. On failure `content` is unchanged.
pub fn set_value(t: &SyntaxTree, path: &str, value: &[u8], content: &mut Vec<u8>) -> (r: Result<(), ProcessError>)
    requires
        t.wf(),
    ensures
        write_outcome(*t, path.spec_bytes(), value@, old(content)@, final(content)@, r),
{
    let parts = split_path(path);
    match resolve_path(t, &parts) {
        Ok(x) => {
            let node = &t.nodes[x];
            match node.end {
                Some(e) => {
                    if node.start <= e && (e as usize) <= content.len() {
                        replace_span(content, node.start as usize, e as usize, value);
                        Ok(())
                    } else {
                        Err(ProcessError::InvalidSpan)
                    }
                },
                None => Err(ProcessError::InvalidSpan),
            }
        },
        Err(FindError::NotFound(_)) => Err(ProcessError::UnsupportedInsertion),
        Err(FindError::Malformed) => Err(ProcessError::MalformedChain),
    }
}

/// Runs `command` on the document `content` parsed as `t`. A `Get` replaces
/// `content` with the value read; a `SetValue` splices its value into `content`.
/// On failure `content` is unchanged.
pub fn process(t: &SyntaxTree, command: Command, content: &mut Vec<u8>) -> (r: Result<(), ProcessError>)
    requires
        t.wf(),
    ensures
        match command {
            Command::Get { path } => match r {
                Ok(_) => read_text(*t, encode_utf8(path@)) == Some(final(content)@),
                Err(e) => read_text(*t, encode_utf8(path@)) is None
                    && read_error(*t, encode_utf8(path@), e) && final(content)@ == old(content)@,
            },
            Command::SetValue { path, value: Some(v), keep_eol: _ } => write_outcome(
                *t,
                encode_utf8(path@),
                encode_utf8(v@),
                old(content)@,
                final(content)@,
                r,
            ),
            Command::SetValue { value: None, .. } => r == Err::<(), ProcessError>(ProcessError::MissingValue)
                && final(content)@ == old(content)@,
        },
{
    match command {
        Command::Get { path } => {
            match get_value(t, path.as_str()) {
                Ok(v) => {
                    *content = v;
                    Ok(())
                },
                Err(e) => Err(e),
            }
        },
        Command::SetValue { path, value, keep_eol: _ } => {
            match value {
                Some(v) => set_value(t, path.as_str(), v.as_str().as_bytes(), content),
                None => Err(ProcessError::MissingValue),
            }
        },
    }
}

} // verus!
