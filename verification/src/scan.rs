//! The scan: every occurrence of the pattern, overlapping ones included,
//! each with the rows that show it in its context.

use crate::matcher::{find_first, matches_at};
use crate::render::{render_window, texts, window_rows, Highlight};
use crate::window::{context_window, lemma_window_contains_match, window_from, window_to};
use vstd::prelude::*;
use vstd::slice::slice_subrange;
use vstd::string::StringExecFns;

verus! {

/// One occurrence of the pattern: its absolute offset in the buffer and the
/// rendered rows of its context window.
pub struct Hit {
    pub offset: usize,
    pub rows: Vec<String>,
}

/// Why a scan was not made.
#[derive(Clone, Copy, Debug, PartialEq, Eq, Structural)]
pub enum ScanError {
    /// The pattern holds no byte.
    EmptyPattern,
}

/// The rows shown for the match at absolute offset `index`, found in the
/// working buffer that begins at `cursor`. The window is aligned within the
/// working buffer; the offsets printed are absolute.
pub open spec fn hit_rows(
    buffer: Seq<u8>,
    cursor: int,
    index: int,
    pattern_len: int,
    radius: int,
    enabled: bool,
) -> Seq<Seq<char>> {
    let local = index - cursor;
    let from = window_from(local, radius);
    let to = window_to(local, pattern_len, radius, buffer.len() - cursor);
    window_rows(
        cursor + from,
        buffer.subrange(cursor + from, cursor + to),
        Highlight { start: (local - from) as usize, end: (local - from + pattern_len) as usize, enabled },
    )
}

/// The absolute offsets of a list of hits.
pub open spec fn offsets(hits: Seq<Hit>) -> Seq<int> {
    Seq::new(hits.len(), |k: int| hits[k].offset as int)
}

/// Where the working buffer began when hit `k` was searched for: at the
/// buffer's start for the first hit, one byte past the start of the previous
/// match for the others.
pub open spec fn cursor_before(hits: Seq<Hit>, k: int) -> int {
    if k <= 0 {
        0
    } else {
        hits[k - 1].offset + 1
    }
}

/// Hit `k` of `hits` lies at or after the start of its working buffer, is
/// the start of an occurrence, and has the rows of its window.
pub open spec fn hit_holds(
    buffer: Seq<u8>,
    pattern: Seq<u8>,
    radius: int,
    enabled: bool,
    hits: Seq<Hit>,
    k: int,
) -> bool {
    &&& cursor_before(hits, k) <= hits[k].offset
    &&& matches_at(buffer, pattern, hits[k].offset as int)
    &&& texts(hits[k].rows@) == hit_rows(
        buffer,
        cursor_before(hits, k),
        hits[k].offset as int,
        pattern.len() as int,
        radius,
        enabled,
    )
}

/// `hits` is the outcome of scanning the bytes of `buffer` before `limit`:
/// its offsets ascend, each is the start of an occurrence, every occurrence
/// that starts before `limit` is among them, and each hit has the rows of its
/// window.
pub open spec fn scanned_to(
    buffer: Seq<u8>,
    pattern: Seq<u8>,
    radius: int,
    enabled: bool,
    hits: Seq<Hit>,
    limit: int,
) -> bool {
    &&& forall|k: int| 0 <= k < hits.len() ==> #[trigger] hit_holds(buffer, pattern, radius, enabled, hits, k)
    &&& forall|i: int| i < limit && #[trigger] matches_at(buffer, pattern, i) ==> offsets(hits).contains(i)
}

/// `hits` is the outcome of scanning all of `buffer`.
pub open spec fn is_scan_result(
    buffer: Seq<u8>,
    pattern: Seq<u8>,
    radius: int,
    enabled: bool,
    hits: Seq<Hit>,
) -> bool {
    scanned_to(buffer, pattern, radius, enabled, hits, buffer.len() as int + 1)
}

/// An occurrence in the working buffer that begins at `cursor` is an
/// occurrence in the whole buffer, `cursor` bytes further on, and the other
/// way round.
pub proof fn lemma_match_in_suffix(buffer: Seq<u8>, pattern: Seq<u8>, cursor: int, i: int)
    requires
        0 <= cursor <= buffer.len(),
        0 <= i,
    ensures
        matches_at(buffer.subrange(cursor, buffer.len() as int), pattern, i) == matches_at(
            buffer,
            pattern,
            cursor + i,
        ),
{
    let work = buffer.subrange(cursor, buffer.len() as int);
    if i + pattern.len() <= work.len() {
        assert(work.subrange(i, i + pattern.len()) =~= buffer.subrange(
            cursor + i,
            cursor + i + pattern.len(),
        ));
    }
}

/// A scan that has reached `cursor` and finds the next occurrence at
/// `hit.offset` has, with that hit added, reached the byte after it.
proof fn lemma_scan_step(
    buffer: Seq<u8>,
    pattern: Seq<u8>,
    radius: int,
    enabled: bool,
    before: Seq<Hit>,
    hit: Hit,
    cursor: int,
)
    requires
        scanned_to(buffer, pattern, radius, enabled, before, cursor),
        cursor == cursor_before(before, before.len() as int),
        cursor <= hit.offset,
        matches_at(buffer, pattern, hit.offset as int),
        forall|i: int| cursor <= i < hit.offset ==> !#[trigger] matches_at(buffer, pattern, i),
        texts(hit.rows@) == hit_rows(buffer, cursor, hit.offset as int, pattern.len() as int, radius, enabled),
    ensures
        scanned_to(buffer, pattern, radius, enabled, before.push(hit), hit.offset + 1),
        hit.offset + 1 == cursor_before(before.push(hit), before.len() as int + 1),
{
    let after = before.push(hit);
    assert(offsets(after) =~= offsets(before).push(hit.offset as int));
    assert forall|i: int| i < hit.offset + 1 && #[trigger] matches_at(buffer, pattern, i) implies offsets(
        after,
    ).contains(i) by {
        if i < cursor {
            assert(offsets(before).contains(i));
            let k = choose|k: int| 0 <= k < offsets(before).len() && offsets(before)[k] == i;
            assert(offsets(after)[k] == i);
        } else {
            assert(offsets(after)[before.len() as int] == i);
        }
    }
    assert forall|k: int| 0 <= k < after.len() implies #[trigger] hit_holds(
        buffer,
        pattern,
        radius,
        enabled,
        after,
        k,
    ) by {
        if k < before.len() {
            assert(hit_holds(buffer, pattern, radius, enabled, before, k));
            assert(after[k] == before[k]);
            assert(cursor_before(after, k) == cursor_before(before, k)) by {
                if k > 0 {
                    assert(after[k - 1] == before[k - 1]);
                }
            }
        } else {
            assert(after[k] == hit);
            assert(cursor_before(after, k) == cursor);
        }
    }
}

/// Searches the working buffer, which is `buffer` from `cursor` on, for the
/// next occurrence of `pattern`, and renders it with `context_radius` bytes
/// of context on either side.
pub fn next_hit(
    buffer: &[u8],
    cursor: usize,
    pattern: &[u8],
    context_radius: u64,
    highlight_enabled: bool,
) -> (next: Option<Hit>)
    requires
        cursor <= buffer.len(),
    ensures
        match next {
            Some(hit) => {
                &&& cursor <= hit.offset
                &&& matches_at(buffer@, pattern@, hit.offset as int)
                &&& forall|i: int| cursor <= i < hit.offset ==> !#[trigger] matches_at(buffer@, pattern@, i)
                &&& texts(hit.rows@) == hit_rows(
                    buffer@,
                    cursor as int,
                    hit.offset as int,
                    pattern.len() as int,
                    context_radius as int,
                    highlight_enabled,
                )
            },
            None => forall|i: int| cursor <= i ==> !#[trigger] matches_at(buffer@, pattern@, i),
        },
{
    let work = slice_subrange(buffer, cursor, buffer.len());
    assert forall|i: int| cursor <= i implies matches_at(buffer@, pattern@, i) == matches_at(
        work@,
        pattern@,
        i - cursor,
    ) by {
        lemma_match_in_suffix(buffer@, pattern@, cursor as int, i - cursor);
    }
    match find_first(work, pattern) {
        None => None,
        Some(index) => {
            let w = context_window(index, pattern.len(), context_radius, work.len());
            let region = slice_subrange(work, w.from, w.to);
            assert(region@ =~= buffer@.subrange(cursor + w.from, cursor + w.to));
            let hl = Highlight {
                start: index - w.from,
                end: index - w.from + pattern.len(),
                enabled: highlight_enabled,
            };
            let rows = render_window(cursor + w.from, region, &hl);
            Some(Hit { offset: cursor + index, rows })
        },
    }
}

/// Scans `buffer` for every occurrence of `pattern`. After a hit the search
/// goes on one byte past the start of the match, so occurrences that overlap
/// are all found. An empty pattern is rejected.
pub fn scan(buffer: &[u8], pattern: &[u8], context_radius: u64, highlight_enabled: bool) -> (result: Result<
    Vec<Hit>,
    ScanError,
>)
    ensures
        pattern.len() == 0 ==> result == Err::<Vec<Hit>, ScanError>(ScanError::EmptyPattern),
        pattern.len() > 0 ==> result is Ok,
        result is Ok ==> is_scan_result(
            buffer@,
            pattern@,
            context_radius as int,
            highlight_enabled,
            result->Ok_0@,
        ),
        result is Ok ==> result->Ok_0@.len() <= buffer.len(),
{
    if pattern.len() == 0 {
        return Err(ScanError::EmptyPattern);
    }
    let mut hits: Vec<Hit> = Vec::new();
    let mut cursor: usize = 0;
    assert(offsets(hits@) =~= Seq::<int>::empty());
    let mut scanning = true;
    while scanning
        invariant
            pattern.len() > 0,
            cursor <= buffer.len(),
            cursor == cursor_before(hits@, hits@.len() as int),
            hits@.len() <= cursor,
            scanned_to(buffer@, pattern@, context_radius as int, highlight_enabled, hits@, cursor as int),
            !scanning ==> is_scan_result(buffer@, pattern@, context_radius as int, highlight_enabled, hits@),
        decreases buffer.len() - cursor + (if scanning { 1int } else { 0int }),
    {
        let ghost before = hits@;
        match next_hit(buffer, cursor, pattern, context_radius, highlight_enabled) {
            None => {
                scanning = false;
            },
            Some(hit) => {
                let offset = hit.offset;
                hits.push(hit);
                proof {
                    lemma_scan_step(
                        buffer@,
                        pattern@,
                        context_radius as int,
                        highlight_enabled,
                        before,
                        hits@[before.len() as int],
                        cursor as int,
                    );
                    assert(hits@ =~= before.push(hits@[before.len() as int]));
                }
                cursor = offset + 1;
            },
        }
    }
    Ok(hits)
}

/// The rows of one hit, one after the other.
pub open spec fn joined(rows: Seq<Seq<char>>) -> Seq<char>
    decreases rows.len(),
{
    if rows.len() == 0 {
        Seq::empty()
    } else {
        joined(rows.drop_last()) + rows.last()
    }
}

/// What is printed for a list of hits: the rows of each, with one empty line
/// before every hit but the first.
pub open spec fn report_text(hits: Seq<Hit>) -> Seq<char>
    decreases hits.len(),
{
    if hits.len() == 0 {
        Seq::empty()
    } else {
        report_text(hits.drop_last()) + (if hits.len() > 1 {
            seq!['\n']
        } else {
            Seq::empty()
        }) + joined(texts(hits.last().rows@))
    }
}

/// Appends the rows of one hit to `out`.
fn push_rows(out: &mut String, rows: &Vec<String>)
    ensures
        final(out)@ == old(out)@ + joined(texts(rows@)),
{
    let mut r: usize = 0;
    assert(texts(rows@).take(0) =~= Seq::<Seq<char>>::empty());
    while r < rows.len()
        invariant
            r <= rows.len(),
            out@ == old(out)@ + joined(texts(rows@).take(r as int)),
        decreases rows.len() - r,
    {
        out.append(rows[r].as_str());
        proof {
            let next = texts(rows@).take(r + 1);
            assert(next.drop_last() =~= texts(rows@).take(r as int));
            assert(next.last() == rows@[r as int]@);
            assert(out@ =~= old(out)@ + joined(next));
        }
        r += 1;
    }
    assert(texts(rows@).take(rows.len() as int) =~= texts(rows@));
}

/// The text to print for `hits`.
pub fn report(hits: &Vec<Hit>) -> (text: String)
    ensures
        text@ == report_text(hits@),
{
    let mut out = String::new();
    let mut k: usize = 0;
    assert(hits@.take(0) =~= Seq::<Hit>::empty());
    while k < hits.len()
        invariant
            k <= hits.len(),
            out@ == report_text(hits@.take(k as int)),
        decreases hits.len() - k,
    {
        let ghost done = out@;
        if k > 0 {
            proof {
                reveal_strlit("\n");
            }
            out.append("\n");
            assert(out@ =~= done + seq!['\n']);
        }
        push_rows(&mut out, &hits[k].rows);
        proof {
            let next = hits@.take(k + 1);
            assert(next.drop_last() =~= hits@.take(k as int));
            assert(next.last() == hits@[k as int]);
        }
        k += 1;
    }
    assert(hits@.take(hits.len() as int) =~= hits@);
    out
}

/// Whether the scan that gave `hits` found the pattern at all.
pub fn found(hits: &Vec<Hit>) -> (any: bool)
    ensures
        any == (hits@.len() > 0),
{
    hits.len() > 0
}

/// A scan reports a hit exactly at the offsets where the pattern occurs.
pub proof fn lemma_hits_are_occurrences(
    buffer: Seq<u8>,
    pattern: Seq<u8>,
    radius: int,
    enabled: bool,
    hits: Seq<Hit>,
    i: int,
)
    requires
        is_scan_result(buffer, pattern, radius, enabled, hits),
    ensures
        offsets(hits).contains(i) <==> matches_at(buffer, pattern, i),
{
    if offsets(hits).contains(i) {
        let k = choose|k: int| 0 <= k < offsets(hits).len() && offsets(hits)[k] == i;
        assert(hit_holds(buffer, pattern, radius, enabled, hits, k));
    }
}

/// A scan reports its hits in ascending order of offset, none twice.
pub proof fn lemma_hits_ascend(
    buffer: Seq<u8>,
    pattern: Seq<u8>,
    radius: int,
    enabled: bool,
    hits: Seq<Hit>,
    j: int,
    k: int,
)
    requires
        is_scan_result(buffer, pattern, radius, enabled, hits),
        0 <= j < k < hits.len(),
    ensures
        hits[j].offset < hits[k].offset,
    decreases k - j,
{
    assert(hit_holds(buffer, pattern, radius, enabled, hits, k));
    if j < k - 1 {
        lemma_hits_ascend(buffer, pattern, radius, enabled, hits, j, k - 1);
    }
}

/// A scan finds something exactly if the pattern occurs somewhere in the
/// buffer.
pub proof fn lemma_found_iff_occurs(
    buffer: Seq<u8>,
    pattern: Seq<u8>,
    radius: int,
    enabled: bool,
    hits: Seq<Hit>,
)
    requires
        is_scan_result(buffer, pattern, radius, enabled, hits),
    ensures
        hits.len() > 0 <==> exists|i: int| matches_at(buffer, pattern, i),
{
    if hits.len() > 0 {
        assert(hit_holds(buffer, pattern, radius, enabled, hits, 0));
        assert(matches_at(buffer, pattern, hits[0].offset as int));
    }
    if exists|i: int| matches_at(buffer, pattern, i) {
        let i = choose|i: int| matches_at(buffer, pattern, i);
        assert(offsets(hits).contains(i));
    }
}

/// The window of every hit of a scan starts on a row boundary of its working
/// buffer and holds all bytes of the match.
pub proof fn lemma_hit_window_holds_match(
    buffer: Seq<u8>,
    pattern: Seq<u8>,
    radius: int,
    enabled: bool,
    hits: Seq<Hit>,
    k: int,
)
    requires
        is_scan_result(buffer, pattern, radius, enabled, hits),
        0 <= radius,
        0 <= k < hits.len(),
    ensures
        ({
            let cursor = cursor_before(hits, k);
            let local = hits[k].offset - cursor;
            let from = window_from(local, radius);
            let to = window_to(local, pattern.len() as int, radius, buffer.len() - cursor);
            &&& from % 16 == 0
            &&& 0 <= from <= local
            &&& local + pattern.len() <= to <= buffer.len() - cursor
        }),
{
    assert(hit_holds(buffer, pattern, radius, enabled, hits, k));
    let cursor = cursor_before(hits, k);
    lemma_window_contains_match(
        hits[k].offset - cursor,
        pattern.len() as int,
        radius,
        buffer.len() - cursor,
    );
}

} // verus!
