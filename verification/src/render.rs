//! Rows of a hex and ASCII dump, with the bytes of a match highlighted.

use crate::color::{highlighted, paint_yellow, styled};
use vstd::prelude::*;
use vstd::string::StringExecFns;

verus! {

/// The window-relative range of bytes that belong to the match, and whether
/// highlighting is switched on.
#[derive(Clone, Copy, Debug, PartialEq, Eq, Structural)]
pub struct Highlight {
    pub start: usize,
    pub end: usize,
    pub enabled: bool,
}

impl Highlight {
    /// The byte at window-relative index `i` is highlighted.
    pub open spec fn marks(self, i: int) -> bool {
        self.enabled && self.start <= i < self.end
    }

    pub fn is_marked(&self, i: usize) -> (marked: bool)
        ensures
            marked == self.marks(i as int),
    {
        self.enabled && self.start <= i && i < self.end
    }
}

/// The lowercase hexadecimal digit for a value below 16.
pub open spec fn hex_digit(d: int) -> char {
    if d < 10 {
        ((48 + d) as u8) as char
    } else {
        ((87 + d) as u8) as char
    }
}

/// `n` in lowercase hexadecimal, padded with zeros on the left to at least
/// `width` digits.
pub open spec fn hex_number(n: nat, width: nat) -> Seq<char>
    decreases n, width,
{
    if n < 16 && width <= 1 {
        seq![hex_digit(n as int)]
    } else {
        hex_number(n / 16, if width > 0 { (width - 1) as nat } else { 0 }) + seq![hex_digit((n % 16) as int)]
    }
}

/// A byte is shown as itself in the ASCII column: it is ASCII and no control
/// character.
pub open spec fn is_printable(b: u8) -> bool {
    0x20 <= b < 0x7f
}

/// The character that stands for a byte in the ASCII column.
pub open spec fn ascii_char(b: u8) -> char {
    if is_printable(b) {
        b as char
    } else {
        '.'
    }
}

/// One byte in the hex column: two digits, highlighted if `marked`.
pub open spec fn hex_cell(b: u8, marked: bool) -> Seq<char> {
    styled(seq![hex_digit(b as int / 16), hex_digit(b as int % 16)], marked)
}

/// One byte in the ASCII column: one character, highlighted if `marked`.
pub open spec fn ascii_cell(b: u8, marked: bool) -> Seq<char> {
    styled(seq![ascii_char(b)], marked)
}

/// What stands in the hex column before the byte at position `k` of a row:
/// nothing before the first, two spaces between the groups of eight, one
/// space elsewhere.
pub open spec fn separator(k: int) -> Seq<char> {
    if k == 0 {
        Seq::empty()
    } else if k % 8 == 0 {
        seq![' ', ' ']
    } else {
        seq![' ']
    }
}

/// The hex column for the `n` bytes of `window` from index `start` on.
pub open spec fn hex_column(window: Seq<u8>, start: int, n: int, hl: Highlight) -> Seq<char>
    decreases n,
{
    if n <= 0 {
        Seq::empty()
    } else {
        hex_column(window, start, n - 1, hl) + separator(n - 1) + hex_cell(
            window[start + n - 1],
            hl.marks(start + n - 1),
        )
    }
}

/// The ASCII column for the `n` bytes of `window` from index `start` on.
pub open spec fn ascii_column(window: Seq<u8>, start: int, n: int, hl: Highlight) -> Seq<char>
    decreases n,
{
    if n <= 0 {
        Seq::empty()
    } else {
        ascii_column(window, start, n - 1, hl) + ascii_cell(window[start + n - 1], hl.marks(start + n - 1))
    }
}

/// The number of rows that a window of `window_len` bytes takes.
pub open spec fn row_count(window_len: int) -> int {
    (window_len + 15) / 16
}

/// The number of bytes in row `row` of a window of `window_len` bytes.
pub open spec fn row_len(window_len: int, row: int) -> int {
    if window_len - 16 * row >= 16 {
        16
    } else {
        window_len - 16 * row
    }
}

/// The text of row `row` of `window`, whose first byte stands at absolute
/// offset `base`: the row's offset in at least eight hex digits, two spaces,
/// the hex column, two spaces, the ASCII column between bars, a line break.
pub open spec fn row_text(base: int, window: Seq<u8>, row: int, hl: Highlight) -> Seq<char> {
    hex_number((base + 16 * row) as nat, 8) + seq![' ', ' '] + hex_column(
        window,
        16 * row,
        row_len(window.len() as int, row),
        hl,
    ) + seq![' ', ' ', '|'] + ascii_column(window, 16 * row, row_len(window.len() as int, row), hl)
        + seq!['|', '\n']
}

/// The texts of all rows of `window`.
pub open spec fn window_rows(base: int, window: Seq<u8>, hl: Highlight) -> Seq<Seq<char>> {
    Seq::new(row_count(window.len() as int) as nat, |row: int| row_text(base, window, row, hl))
}

/// The views of a list of strings.
pub open spec fn texts(rows: Seq<String>) -> Seq<Seq<char>> {
    Seq::new(rows.len(), |i: int| rows[i]@)
}

/// Calls `char::to_string`. Trusted: the string holds that one character.
#[verifier::external_body]
fn char_text(c: char) -> (text: String)
    ensures
        text@ == seq![c],
{
    c.to_string()
}

/// The lowercase hexadecimal digit for `d`.
fn hex_digit_char(d: u8) -> (c: char)
    requires
        d < 16,
    ensures
        c == hex_digit(d as int),
{
    if d < 10 {
        (48u8 + d) as char
    } else {
        (87u8 + d) as char
    }
}

/// Appends the hexadecimal digit for `d` to `out`.
fn push_hex_digit(out: &mut String, d: u8)
    requires
        d < 16,
    ensures
        final(out)@ == old(out)@ + seq![hex_digit(d as int)],
{
    let digit = char_text(hex_digit_char(d));
    out.append(digit.as_str());
}

/// Appends `n` in hexadecimal, in at least `width` digits, to `out`.
fn push_hex_number(out: &mut String, n: usize, width: usize)
    ensures
        final(out)@ == old(out)@ + hex_number(n as nat, width as nat),
    decreases n, width,
{
    if n < 16 && width <= 1 {
        push_hex_digit(out, n as u8);
    } else {
        push_hex_number(out, n / 16, if width > 0 { width - 1 } else { 0 });
        push_hex_digit(out, (n % 16) as u8);
        assert(out@ =~= old(out)@ + hex_number(n as nat, width as nat));
    }
}

/// The printable form of a byte: itself where it is ASCII and no control
/// character, a dot elsewhere.
pub fn printable(b: u8) -> (c: char)
    ensures
        c == ascii_char(b),
{
    if 0x20 <= b && b < 0x7f {
        b as char
    } else {
        '.'
    }
}

/// The two digits of `b`, highlighted if `marked`.
fn hex_cell_text(b: u8, marked: bool) -> (cell: String)
    ensures
        cell@ == hex_cell(b, marked),
{
    let mut digits = String::new();
    push_hex_digit(&mut digits, b / 16);
    push_hex_digit(&mut digits, b % 16);
    assert(digits@ =~= seq![hex_digit(b as int / 16), hex_digit(b as int % 16)]);
    if marked {
        paint_yellow(digits.as_str())
    } else {
        digits
    }
}

/// The printable form of `b`, highlighted if `marked`.
fn ascii_cell_text(b: u8, marked: bool) -> (cell: String)
    ensures
        cell@ == ascii_cell(b, marked),
{
    let plain = char_text(printable(b));
    if marked {
        paint_yellow(plain.as_str())
    } else {
        plain
    }
}

/// Renders row `row` of `window`, whose first byte stands at absolute offset
/// `base_offset`.
pub fn render_row(base_offset: usize, window: &[u8], row: usize, hl: &Highlight) -> (line: String)
    requires
        row < row_count(window.len() as int),
        base_offset + window.len() <= usize::MAX,
    ensures
        line@ == row_text(base_offset as int, window@, row as int, *hl),
{
    let start: usize = row * 16;
    let n: usize = if window.len() - start >= 16 { 16 } else { window.len() - start };
    let mut out = String::new();
    push_hex_number(&mut out, base_offset + start, 8);
    proof {
        reveal_strlit("  ");
        reveal_strlit("  |");
        reveal_strlit("|\n");
    }
    out.append("  ");
    let ghost head = out@;
    assert(head =~= hex_number((base_offset + 16 * row) as nat, 8) + seq![' ', ' ']);
    let mut j: usize = 0;
    while j < n
        invariant
            j <= n,
            start + n <= window.len(),
            out@ == head + hex_column(window@, start as int, j as int, *hl),
        decreases n - j,
    {
        if j > 0 {
            if j % 8 == 0 {
                out.append("  ");
            } else {
                out.append(" ");
            }
        }
        let cell = hex_cell_text(window[start + j], hl.is_marked(start + j));
        out.append(cell.as_str());
        assert(out@ =~= head + hex_column(window@, start as int, j + 1, *hl)) by {
            reveal_strlit("  ");
            reveal_strlit(" ");
            assert("  "@ =~= seq![' ', ' ']);
            assert(" "@ =~= seq![' ']);
        }
        j += 1;
    }
    out.append("  |");
    let ghost middle = out@;
    assert(middle =~= head + hex_column(window@, start as int, n as int, *hl) + seq![' ', ' ', '|']);
    let mut j: usize = 0;
    while j < n
        invariant
            j <= n,
            start + n <= window.len(),
            out@ == middle + ascii_column(window@, start as int, j as int, *hl),
        decreases n - j,
    {
        let cell = ascii_cell_text(window[start + j], hl.is_marked(start + j));
        out.append(cell.as_str());
        assert(out@ =~= middle + ascii_column(window@, start as int, j + 1, *hl));
        j += 1;
    }
    out.append("|\n");
    assert(out@ =~= row_text(base_offset as int, window@, row as int, *hl)) by {
        assert("|\n"@ =~= seq!['|', '\n']);
    }
    out
}

/// Renders `window`, whose first byte stands at absolute offset
/// `base_offset`, as one line for each run of at most sixteen bytes.
pub fn render_window(base_offset: usize, window: &[u8], hl: &Highlight) -> (rows: Vec<String>)
    requires
        base_offset + window.len() <= usize::MAX,
    ensures
        texts(rows@) == window_rows(base_offset as int, window@, *hl),
        rows@.len() == row_count(window.len() as int),
{
    let count: usize = window.len() / 16 + (if window.len() % 16 == 0 { 0 } else { 1 });
    let mut rows: Vec<String> = Vec::new();
    let mut row: usize = 0;
    while row < count
        invariant
            row <= count,
            count == row_count(window.len() as int),
            base_offset + window.len() <= usize::MAX,
            rows@.len() == row,
            forall|k: int| 0 <= k < row ==> (#[trigger] rows@[k])@ == row_text(base_offset as int, window@, k, *hl),
        decreases count - row,
    {
        let line = render_row(base_offset, window, row, hl);
        rows.push(line);
        row += 1;
    }
    assert(texts(rows@) =~= window_rows(base_offset as int, window@, *hl));
    rows
}

/// Every row of a window but the last holds sixteen bytes; the last holds
/// what is left over, or sixteen if nothing is.
pub proof fn lemma_row_lens(window_len: int, row: int)
    requires
        0 <= row < row_count(window_len),
    ensures
        1 <= row_len(window_len, row) <= 16,
        row < row_count(window_len) - 1 ==> row_len(window_len, row) == 16,
        row == row_count(window_len) - 1 ==> row_len(window_len, row) == (if window_len % 16 == 0 {
            16
        } else {
            window_len % 16
        }),
{
}

/// The rows of a window hold each of its bytes once: their lengths add up to
/// the window's length.
pub proof fn lemma_rows_cover_window(window_len: int)
    requires
        0 <= window_len,
    ensures
        row_count(window_len) == 0 <==> window_len == 0,
        window_len > 0 ==> 16 * (row_count(window_len) - 1) + row_len(window_len, row_count(window_len) - 1)
            == window_len,
{
}

/// With highlighting on, the cells of a byte whose index lies in the range
/// are the plain cells between the two markers, and so differ from them; the
/// cells of every other byte are plain. With highlighting off every cell is
/// plain.
pub proof fn lemma_highlight_cells(b: u8, i: int, hl: Highlight)
    ensures
        hl.enabled && hl.start <= i < hl.end ==> {
            &&& hex_cell(b, hl.marks(i)) == highlighted(hex_cell(b, false))
            &&& ascii_cell(b, hl.marks(i)) == highlighted(ascii_cell(b, false))
            &&& hex_cell(b, hl.marks(i)) != hex_cell(b, false)
            &&& ascii_cell(b, hl.marks(i)) != ascii_cell(b, false)
        },
        !(hl.enabled && hl.start <= i < hl.end) ==> {
            &&& hex_cell(b, hl.marks(i)) == hex_cell(b, false)
            &&& ascii_cell(b, hl.marks(i)) == ascii_cell(b, false)
        },
        hex_cell(b, false) == seq![hex_digit(b as int / 16), hex_digit(b as int % 16)],
        ascii_cell(b, false) == seq![ascii_char(b)],
{
    assert(highlighted(hex_cell(b, false)).len() == hex_cell(b, false).len() + 9);
    assert(highlighted(ascii_cell(b, false)).len() == ascii_cell(b, false).len() + 9);
}

/// With highlighting off, or with an empty range, the columns hold no
/// marker: they are what any other range gives with highlighting off.
pub proof fn lemma_plain_columns(window: Seq<u8>, start: int, n: int, hl: Highlight, other: Highlight)
    requires
        !hl.enabled || hl.start >= hl.end,
        !other.enabled,
    ensures
        hex_column(window, start, n, hl) == hex_column(window, start, n, other),
        ascii_column(window, start, n, hl) == ascii_column(window, start, n, other),
    decreases n,
{
    if n > 0 {
        lemma_plain_columns(window, start, n - 1, hl, other);
    }
}

/// With highlighting off, a row's text does not depend on the range.
pub proof fn lemma_plain_row(base: int, window: Seq<u8>, row: int, hl: Highlight, other: Highlight)
    requires
        !hl.enabled || hl.start >= hl.end,
        !other.enabled,
    ensures
        row_text(base, window, row, hl) == row_text(base, window, row, other),
{
    lemma_plain_columns(window, 16 * row, row_len(window.len() as int, row), hl, other);
}

} // verus!
