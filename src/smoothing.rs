//! The centred, edge-clipped windows over which the loudness curve is averaged.
use vstd::prelude::*;

verus! {

/// First index of the window around `i`: `span` places to the left, clipped at 0.
pub open spec fn window_start(i: int, span: int) -> int {
    if i >= span {
        i - span
    } else {
        0
    }
}

/// One past the last index of the window around `i`: `span` places to the
/// right, clipped at the end of a curve of length `n`.
pub open spec fn window_end(i: int, span: int, n: int) -> int {
    if i + span + 1 <= n {
        i + span + 1
    } else {
        n
    }
}

/// The half-open index range `start..end` of the values averaged for index `i`
/// of a curve of length `n`, `span` places on each side.
pub fn smoothing_window(i: usize, span: u8, n: usize) -> (r: (usize, usize))
    requires
        i < n,
    ensures
        r.0 == window_start(i as int, span as int),
        r.1 == window_end(i as int, span as int, n as int),
        r.0 <= i < r.1 <= n,
{
    let span = span as usize;
    let start = if i >= span {
        i - span
    } else {
        0
    };
    let end = if n - 1 - i > span {
        i + span + 1
    } else {
        n
    };
    (start, end)
}

/// The window of every index of a curve of length `n`, in index order.
pub fn smoothing_windows(span: u8, n: usize) -> (r: Vec<(usize, usize)>)
    ensures
        r.len() == n,
        forall|i: int|
            0 <= i < n ==> #[trigger] r[i] == (
            window_start(i, span as int) as usize,
            window_end(i, span as int, n as int) as usize,
            ),
{
    let mut r: Vec<(usize, usize)> = Vec::new();
    let mut i: usize = 0;
    while i < n
        invariant
            i <= n,
            r.len() == i,
            forall|k: int|
                0 <= k < i ==> #[trigger] r[k] == (
                window_start(k, span as int) as usize,
                window_end(k, span as int, n as int) as usize,
                ),
        decreases n - i,
    {
        r.push(smoothing_window(i, span, n));
        i = i + 1;
    }
    r
}

} // verus!
