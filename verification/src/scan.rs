//! Searching a text from left to right: for a run of one character, and for
//! the two ends of a run of whitespace.

use crate::text::{is_space, is_whitespace};
use vstd::prelude::*;

verus! {

/// `s` holds `n` copies of `c` from index `i` on.
pub open spec fn run_at(s: Seq<char>, c: char, n: int, i: int) -> bool {
    &&& 0 <= i
    &&& i + n <= s.len()
    &&& forall|k: int| i <= k < i + n ==> s[k] == c
}

/// The first index at or after `from` where a run of `n` copies of `c`
/// starts; the length of `s` where there is none.
pub open spec fn first_run(s: Seq<char>, c: char, n: int, from: int) -> int
    decreases s.len() - from,
{
    if from < 0 || n <= 0 || from + n > s.len() {
        s.len() as int
    } else if run_at(s, c, n, from) {
        from
    } else {
        first_run(s, c, n, from + 1)
    }
}

/// `first_run` names the least index of a run, and the length of the text
/// exactly where no run starts at or after `from`.
pub proof fn lemma_first_run(s: Seq<char>, c: char, n: int, from: int)
    requires
        n >= 1,
        0 <= from,
    ensures
        from <= s.len() ==> from <= first_run(s, c, n, from) <= s.len(),
        from > s.len() ==> first_run(s, c, n, from) == s.len(),
        first_run(s, c, n, from) < s.len() ==> run_at(s, c, n, first_run(s, c, n, from)),
        forall|k: int| from <= k < first_run(s, c, n, from) ==> !run_at(s, c, n, k),
    decreases s.len() - from,
{
    if from + n <= s.len() && !run_at(s, c, n, from) {
        lemma_first_run(s, c, n, from + 1);
    }
}

/// An index that starts a run and has none between `from` and itself is the
/// one that `first_run` names.
pub proof fn lemma_first_run_is(s: Seq<char>, c: char, n: int, from: int, at: int)
    requires
        n >= 1,
        0 <= from <= at <= s.len(),
        forall|k: int| from <= k < at ==> !run_at(s, c, n, k),
        at < s.len() ==> run_at(s, c, n, at),
    ensures
        first_run(s, c, n, from) == at,
    decreases at - from,
{
    if from < at {
        if from + n <= s.len() {
            lemma_first_run_is(s, c, n, from + 1, at);
        } else {
            lemma_first_run(s, c, n, from);
        }
    }
}

/// Where no run starts anywhere, none is found.
pub proof fn lemma_no_run(s: Seq<char>, c: char, n: int, from: int)
    requires
        n >= 1,
        0 <= from,
        forall|i: int| !run_at(s, c, n, i),
    ensures
        first_run(s, c, n, from) == s.len(),
{
    lemma_first_run(s, c, n, from);
}

/// A run in the first `len` characters of a text is a run in the text.
pub proof fn lemma_run_at_prefix(s: Seq<char>, len: int, c: char, n: int, i: int)
    requires
        0 <= len <= s.len(),
        run_at(s.take(len), c, n, i),
    ensures
        run_at(s, c, n, i),
{
    assert forall|k: int| i <= k < i + n implies s[k] == c by {
        assert(s.take(len)[k] == c);
    }
}

/// The runs behind a prefix are the runs of the rest, moved by the length of
/// the prefix.
pub proof fn lemma_first_run_shift(pre: Seq<char>, rest: Seq<char>, c: char, n: int, from: int)
    requires
        n >= 1,
        0 <= from,
    ensures
        first_run(pre + rest, c, n, pre.len() + from) == pre.len() + first_run(rest, c, n, from),
    decreases rest.len() - from,
{
    let all = pre + rest;
    if from + n <= rest.len() {
        assert(run_at(all, c, n, pre.len() + from) == run_at(rest, c, n, from)) by {
            if run_at(rest, c, n, from) {
                assert forall|k: int| pre.len() + from <= k < pre.len() + from + n implies all[k]
                    == c by {
                    assert(all[k] == rest[k - pre.len()]);
                }
            }
            if run_at(all, c, n, pre.len() + from) {
                assert forall|k: int| from <= k < from + n implies rest[k] == c by {
                    assert(all[k + pre.len()] == rest[k]);
                }
            }
        }
        if !run_at(rest, c, n, from) {
            lemma_first_run_shift(pre, rest, c, n, from + 1);
        }
    }
}

/// Tells whether `n` copies of `c` stand at index `i`.
pub(crate) fn is_run_at(s: &Vec<char>, c: char, n: usize, i: usize) -> (yes: bool)
    ensures
        yes == run_at(s@, c, n as int, i as int),
{
    if i > s.len() || n > s.len() - i {
        return false;
    }
    let mut k: usize = 0;
    while k < n
        invariant
            k <= n,
            i + n <= s.len(),
            forall|j: int| i <= j < i + k ==> s@[j] == c,
        decreases n - k,
    {
        if s[i + k] != c {
            return false;
        }
        k += 1;
    }
    true
}

/// Finds the first run of `n` copies of `c` at or after `from`; the length
/// of `s` where there is none.
pub(crate) fn find_run(s: &Vec<char>, c: char, n: usize, from: usize) -> (at: usize)
    requires
        n >= 1,
    ensures
        at == first_run(s@, c, n as int, from as int),
        from <= s.len() ==> from <= at <= s.len(),
        at < s.len() ==> run_at(s@, c, n as int, at as int),
{
    let mut i: usize = from;
    while i < s.len() && n <= s.len() - i
        invariant
            from <= i,
            n >= 1,
            first_run(s@, c, n as int, i as int) == first_run(s@, c, n as int, from as int),
        decreases s.len() - i,
    {
        if is_run_at(s, c, n, i) {
            return i;
        }
        i += 1;
    }
    s.len()
}

/// The end of the run of whitespace that starts at index `from`.
pub open spec fn space_run_end(s: Seq<char>, from: int) -> int
    decreases s.len() - from,
{
    if 0 <= from < s.len() && is_whitespace(s[from]) {
        space_run_end(s, from + 1)
    } else {
        from
    }
}

/// The start of the run of whitespace that ends before index `end`, not
/// looking further back than `low`.
pub open spec fn space_run_start(s: Seq<char>, low: int, end: int) -> int
    decreases end - low,
{
    if low < end && 0 < end <= s.len() && is_whitespace(s[end - 1]) {
        space_run_start(s, low, end - 1)
    } else {
        end
    }
}

/// A run of whitespace ends at or behind its start, within the text.
pub proof fn lemma_space_run_end(s: Seq<char>, from: int)
    requires
        0 <= from <= s.len(),
    ensures
        from <= space_run_end(s, from) <= s.len(),
    decreases s.len() - from,
{
    if from < s.len() && is_whitespace(s[from]) {
        lemma_space_run_end(s, from + 1);
    }
}

/// Finds the end of the run of whitespace that starts at `from`.
pub(crate) fn skip_spaces(s: &Vec<char>, from: usize) -> (end: usize)
    requires
        from <= s.len(),
    ensures
        end == space_run_end(s@, from as int),
        from <= end <= s.len(),
{
    let mut i: usize = from;
    while i < s.len() && is_space(s[i])
        invariant
            from <= i <= s.len(),
            space_run_end(s@, i as int) == space_run_end(s@, from as int),
        decreases s.len() - i,
    {
        i += 1;
    }
    i
}

/// Finds the start of the run of whitespace that ends before `end`, not
/// looking further back than `low`.
pub(crate) fn skip_spaces_back(s: &Vec<char>, low: usize, end: usize) -> (start: usize)
    requires
        low <= end <= s.len(),
    ensures
        start == space_run_start(s@, low as int, end as int),
        low <= start <= end,
{
    let mut i: usize = end;
    while low < i && is_space(s[i - 1])
        invariant
            low <= i <= end <= s.len(),
            space_run_start(s@, low as int, i as int) == space_run_start(
                s@,
                low as int,
                end as int,
            ),
        decreases i,
    {
        i -= 1;
    }
    i
}

} // verus!
