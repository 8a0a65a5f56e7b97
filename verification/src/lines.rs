//! Splitting a text buffer into lines.
use vstd::prelude::*;
use crate::ascii::{spec_is_space, is_space};
use crate::obj_lex::{spec_find_byte, find_byte, lemma_find_byte};

verus! {

/// A line cut from the front of a buffer: the line is `begin .. end` of the
/// buffer and the buffer continues at `rest`.
#[derive(Clone, Copy, Debug, PartialEq, Eq, Structural)]
pub struct LineSpan {
    pub begin: usize,
    pub end: usize,
    pub rest: usize,
}

/// Length of the first line of `buf`, its `'\n'` included when there is one.
pub open spec fn spec_line_len(buf: Seq<u8>) -> int {
    match spec_find_byte(buf, 0, 0x0au8) {
        Some(i) => i + 1,
        None => buf.len() as int,
    }
}

/// First position in `p .. end` that does not hold whitespace (`end` if
/// none does).
pub open spec fn spec_skip_space(s: Seq<u8>, p: int, end: int) -> int
    decreases end - p,
{
    if p < end && spec_is_space(s[p]) {
        spec_skip_space(s, p + 1, end)
    } else {
        p
    }
}

/// End of `begin .. e` once trailing whitespace is cut off.
pub open spec fn spec_trim_end(s: Seq<u8>, begin: int, e: int) -> int
    decreases e - begin,
{
    if begin < e && spec_is_space(s[e - 1]) {
        spec_trim_end(s, begin, e - 1)
    } else {
        e
    }
}

/// The first line of a non-empty `buf`: all of it up to and including the
/// first `'\n'` (or the whole buffer), with surrounding whitespace cut off
/// when `skip_space` is set; an empty buffer has no line.
pub open spec fn spec_next_line(buf: Seq<u8>, skip_space: bool) -> Option<LineSpan> {
    if buf.len() == 0 {
        None
    } else {
        let len = spec_line_len(buf);
        if skip_space {
            let b = spec_skip_space(buf, 0, len);
            Some(LineSpan { begin: b as usize, end: spec_trim_end(buf, b, len) as usize, rest: len as usize })
        } else {
            Some(LineSpan { begin: 0, end: len as usize, rest: len as usize })
        }
    }
}

proof fn lemma_skip_space(s: Seq<u8>, p: int, end: int)
    requires
        p <= end,
    ensures
        p <= spec_skip_space(s, p, end) <= end,
    decreases end - p,
{
    if p < end && spec_is_space(s[p]) {
        lemma_skip_space(s, p + 1, end);
    }
}

proof fn lemma_trim_end(s: Seq<u8>, begin: int, e: int)
    requires
        begin <= e,
    ensures
        begin <= spec_trim_end(s, begin, e) <= e,
    decreases e - begin,
{
    if begin < e && spec_is_space(s[e - 1]) {
        lemma_trim_end(s, begin, e - 1);
    }
}

/// Cuts the next line off the front of `buf` (see `spec_next_line`).
pub fn next_line(buf: &[u8], skip_space: bool) -> (r: Option<LineSpan>)
    ensures
        r == spec_next_line(buf@, skip_space),
        r matches Some(l) ==> l.begin <= l.end <= l.rest <= buf.len() && 0 < l.rest,
{
    if buf.len() == 0 {
        return None;
    }
    proof {
        lemma_find_byte(buf@, 0, 0x0au8);
    }
    let length: usize = match find_byte(buf, 0, 0x0au8) {
        Some(newline) => newline + 1,
        None => buf.len(),
    };
    if !skip_space {
        return Some(LineSpan { begin: 0, end: length, rest: length });
    }
    let mut begin: usize = 0;
    while begin < length && is_space(buf[begin])
        invariant
            begin <= length,
            length <= buf.len(),
            spec_skip_space(buf@, begin as int, length as int) == spec_skip_space(buf@, 0, length as int),
        decreases length - begin,
    {
        begin = begin + 1;
    }
    let mut end: usize = length;
    while begin < end && is_space(buf[end - 1])
        invariant
            begin <= end <= length,
            length <= buf.len(),
            spec_trim_end(buf@, begin as int, end as int) == spec_trim_end(buf@, begin as int, length as int),
        decreases end - begin,
    {
        end = end - 1;
    }
    Some(LineSpan { begin, end, rest: length })
}

} // verus!
