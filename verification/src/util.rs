//! Cursor arithmetic for lists that wrap around at both ends.

use vstd::prelude::*;

verus! {

/// Index that follows `i` in a list of `len` items, wrapping to the start.
pub open spec fn next_index(i: int, len: int) -> int {
    if i >= len - 1 {
        0
    } else {
        i + 1
    }
}

/// Index that precedes `i` in a list of `len` items, wrapping to the end.
pub open spec fn prev_index(i: int, len: int) -> int {
    if i <= 0 {
        len - 1
    } else {
        i - 1
    }
}

/// `next_index` applied `steps` times.
pub open spec fn next_times(i: int, len: int, steps: nat) -> int
    decreases steps,
{
    if steps == 0 {
        i
    } else {
        next_index(next_times(i, len, (steps - 1) as nat), len)
    }
}

/// `prev_index` applied `steps` times.
pub open spec fn prev_times(i: int, len: int, steps: nat) -> int
    decreases steps,
{
    if steps == 0 {
        i
    } else {
        prev_index(prev_times(i, len, (steps - 1) as nat), len)
    }
}

/// Moves a cursor one item forward, wrapping from the last item to the first.
pub fn next(i: usize, len: usize) -> (r: usize)
    requires
        len > 0,
    ensures
        r == next_index(i as int, len as int),
        r < len,
{
    if i >= len - 1 {
        0
    } else {
        i + 1
    }
}

/// Moves a cursor one item back, wrapping from the first item to the last.
pub fn prev(i: usize, len: usize) -> (r: usize)
    requires
        len > 0,
    ensures
        r == prev_index(i as int, len as int),
        i < len ==> r < len,
{
    if i == 0 {
        len - 1
    } else {
        i - 1
    }
}

proof fn lemma_next_times_closed(i: int, len: int, steps: nat)
    requires
        0 <= i < len,
        steps <= len,
    ensures
        next_times(i, len, steps) == if i + steps < len {
            i + steps
        } else {
            i + steps - len
        },
    decreases steps,
{
    if steps > 0 {
        lemma_next_times_closed(i, len, (steps - 1) as nat);
    }
}

proof fn lemma_prev_times_closed(i: int, len: int, steps: nat)
    requires
        0 <= i < len,
        steps <= len,
    ensures
        prev_times(i, len, steps) == if i - steps >= 0 {
            i - steps
        } else {
            i - steps + len
        },
    decreases steps,
{
    if steps > 0 {
        lemma_prev_times_closed(i, len, (steps - 1) as nat);
    }
}

/// Stepping forward once per item of a non-empty list brings a cursor that
/// points into the list back to where it started.
pub proof fn lemma_next_wraps(i: int, len: int)
    requires
        0 <= i < len,
    ensures
        next_times(i, len, len as nat) == i,
{
    lemma_next_times_closed(i, len, len as nat);
}

/// Stepping back once per item of a non-empty list brings a cursor that
/// points into the list back to where it started.
pub proof fn lemma_prev_wraps(i: int, len: int)
    requires
        0 <= i < len,
    ensures
        prev_times(i, len, len as nat) == i,
{
    lemma_prev_times_closed(i, len, len as nat);
}

/// A step forward followed by a step back, or the other way round, changes
/// nothing for a cursor that points into the list.
pub proof fn lemma_next_prev_inverse(i: int, len: int)
    requires
        0 <= i < len,
    ensures
        prev_index(next_index(i, len), len) == i,
        next_index(prev_index(i, len), len) == i,
{
}

} // verus!
