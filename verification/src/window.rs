//! The region of the buffer that is shown around a match.

use vstd::prelude::*;

verus! {

/// The number of bytes in a full row.
pub const ROW_WIDTH: usize = 16;

/// The largest multiple of the row width that is at most `n`.
pub open spec fn align_down(n: int) -> int {
    (n / 16) * 16
}

/// The smallest multiple of the row width that is at least `n`.
pub open spec fn align_up(n: int) -> int {
    ((n + 15) / 16) * 16
}

/// Where the window starts: `radius` bytes before the match, but not before
/// the buffer's start, moved down to a row boundary.
pub open spec fn window_from(match_index: int, radius: int) -> int {
    align_down(if match_index >= radius { match_index - radius } else { 0 })
}

/// Where the window ends: `radius` bytes after the match's end, moved up to a
/// row boundary, then clipped to the buffer's length.
pub open spec fn window_to(match_index: int, match_len: int, radius: int, buffer_len: int) -> int {
    let aligned = align_up(match_index + match_len + radius);
    if aligned <= buffer_len { aligned } else { buffer_len }
}

/// The half-open range `from..to` of buffer indices shown for one match.
#[derive(Clone, Copy, Debug, PartialEq, Eq, Structural)]
pub struct ContextWindow {
    pub from: usize,
    pub to: usize,
}

/// The window contains the match, lies within the buffer and starts on a row
/// boundary, whenever the match itself lies within the buffer.
pub proof fn lemma_window_contains_match(match_index: int, match_len: int, radius: int, buffer_len: int)
    requires
        0 <= match_index,
        0 <= match_len,
        0 <= radius,
        match_index + match_len <= buffer_len,
    ensures
        window_from(match_index, radius) % 16 == 0,
        0 <= window_from(match_index, radius) <= match_index,
        match_index + match_len <= window_to(match_index, match_len, radius, buffer_len) <= buffer_len,
        window_to(match_index, match_len, radius, buffer_len) % 16 == 0
            || window_to(match_index, match_len, radius, buffer_len) == buffer_len,
{
}

/// Computes the window for a match at `match_index` of `match_len` bytes in a
/// buffer of `buffer_len` bytes, with `context_radius` bytes of context on
/// either side.
pub fn context_window(match_index: usize, match_len: usize, context_radius: u64, buffer_len: usize) -> (w: ContextWindow)
    ensures
        w.from == window_from(match_index as int, context_radius as int),
        w.to == window_to(match_index as int, match_len as int, context_radius as int, buffer_len as int),
        match_index + match_len <= buffer_len ==> {
            &&& w.from % 16 == 0
            &&& w.from <= match_index
            &&& match_index + match_len <= w.to <= buffer_len
        },
{
    let from: usize = if (match_index as u64) <= context_radius {
        0
    } else {
        (match_index - (context_radius as usize)) / ROW_WIDTH * ROW_WIDTH
    };
    let to: usize = if context_radius >= buffer_len as u64 {
        buffer_len
    } else {
        match end_aligned(match_index, match_len, context_radius as usize) {
            Some(aligned) => if aligned <= buffer_len { aligned } else { buffer_len },
            None => buffer_len,
        }
    };
    ContextWindow { from, to }
}

/// `align_up(match_index + match_len + radius)`, or `None` if that exceeds
/// what a `usize` holds.
fn end_aligned(match_index: usize, match_len: usize, radius: usize) -> (aligned: Option<usize>)
    ensures
        match aligned {
            Some(a) => a == align_up(match_index + match_len + radius),
            None => align_up(match_index + match_len + radius) > usize::MAX,
        },
{
    let end = match match_index.checked_add(match_len) {
        Some(end) => end,
        None => return None,
    };
    let raw = match end.checked_add(radius) {
        Some(raw) => raw,
        None => return None,
    };
    match raw.checked_add(ROW_WIDTH - 1) {
        Some(padded) => Some(padded / ROW_WIDTH * ROW_WIDTH),
        None => None,
    }
}

} // verus!
