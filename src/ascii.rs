use vstd::prelude::*;

verus! {

/// ASCII whitespace as `u8::is_ascii_whitespace` has it: space, tab, line
/// feed, form feed and carriage return.
pub open spec fn is_ascii_whitespace(x: u8) -> bool {
    x == 9 || x == 10 || x == 12 || x == 13 || x == 32
}

/// The first index at or after `i` that does not hold ASCII whitespace.
pub open spec fn trimmed_start(b: Seq<u8>, i: int) -> int
    decreases b.len() - i,
{
    if 0 <= i < b.len() && is_ascii_whitespace(b[i]) {
        trimmed_start(b, i + 1)
    } else {
        i
    }
}

/// The end of `b` once the ASCII whitespace before `e`, down to `lo`, is cut.
pub open spec fn trimmed_end(b: Seq<u8>, lo: int, e: int) -> int
    decreases e - lo,
{
    if lo < e <= b.len() && is_ascii_whitespace(b[e - 1]) {
        trimmed_end(b, lo, e - 1)
    } else {
        e
    }
}

/// `b` without its leading and trailing ASCII whitespace.
pub open spec fn trim_ascii(b: Seq<u8>) -> Seq<u8> {
    let s = trimmed_start(b, 0);
    b.subrange(s, trimmed_end(b, s, b.len() as int))
}

pub proof fn lemma_trimmed_start_bounds(b: Seq<u8>, i: int)
    requires
        0 <= i <= b.len(),
    ensures
        i <= trimmed_start(b, i) <= b.len(),
        forall|k: int| i <= k < trimmed_start(b, i) ==> is_ascii_whitespace(b[k]),
        trimmed_start(b, i) < b.len() ==> !is_ascii_whitespace(b[trimmed_start(b, i)]),
    decreases b.len() - i,
{
    if i < b.len() && is_ascii_whitespace(b[i]) {
        lemma_trimmed_start_bounds(b, i + 1);
    }
}

pub proof fn lemma_trimmed_end_bounds(b: Seq<u8>, lo: int, e: int)
    requires
        0 <= lo <= e <= b.len(),
    ensures
        lo <= trimmed_end(b, lo, e) <= e,
        forall|k: int| trimmed_end(b, lo, e) <= k < e ==> is_ascii_whitespace(b[k]),
        trimmed_end(b, lo, e) > lo ==> !is_ascii_whitespace(b[trimmed_end(b, lo, e) - 1]),
    decreases e - lo,
{
    if lo < e && is_ascii_whitespace(b[e - 1]) {
        lemma_trimmed_end_bounds(b, lo, e - 1);
    }
}

fn is_ascii_whitespace_byte(x: u8) -> (r: bool)
    ensures
        r == is_ascii_whitespace(x),
{
    x == 9 || x == 10 || x == 12 || x == 13 || x == 32
}

/// Where the trimmed part of `input` starts and ends.
pub(crate) fn trim_bounds(input: &[u8]) -> (r: (usize, usize))
    ensures
        r.0 == trimmed_start(input@, 0),
        r.1 == trimmed_end(input@, r.0 as int, input@.len() as int),
        r.0 <= r.1 <= input@.len(),
{
    let mut start: usize = 0;
    while start < input.len() && is_ascii_whitespace_byte(input[start])
        invariant
            start <= input@.len(),
            trimmed_start(input@, start as int) == trimmed_start(input@, 0),
        decreases input@.len() - start,
    {
        start += 1;
    }
    let mut end: usize = input.len();
    while end > start && is_ascii_whitespace_byte(input[end - 1])
        invariant
            start <= end <= input@.len(),
            trimmed_end(input@, start as int, end as int) == trimmed_end(
                input@,
                start as int,
                input@.len() as int,
            ),
        decreases end - start,
    {
        end -= 1;
    }
    (start, end)
}

/// `input` without its leading and trailing ASCII whitespace; empty when it
/// holds nothing else.
pub fn trim_ascii_whitespace(input: &[u8]) -> (r: &[u8])
    ensures
        r@ == trim_ascii(input@),
{
    let (start, end) = trim_bounds(input);
    vstd::slice::slice_subrange(input, start, end)
}

} // verus!
