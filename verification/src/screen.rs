//! The cell grid: draw-call compositing and frame diffing.
//!
//! A screen owns two buffers of identical dimensions. Each frame the queued
//! draw calls are folded into the current buffer, the differ lists every
//! cell that changed against the old buffer, and the current contents are
//! then copied into the old buffer.

use vstd::prelude::*;

use crate::color::{blend_over, spec_blend_over, Color};
use crate::draw::DrawCall;
use crate::rich_text::Attributes;

verus! {

use vstd::arithmetic::div_mod::{lemma_div_pos_is_pos, lemma_fundamental_div_mod, lemma_mod_bound, lemma_multiply_divide_lt};
use vstd::arithmetic::mul::{lemma_mul_inequality, lemma_mul_upper_bound};

/// One cell of the display: a character with its colours and attributes.
/// Equality is exact on all four fields; the differ relies on that.
#[derive(Clone, Copy, PartialEq, Eq, Structural, Debug)]
pub struct TerminalCell {
    pub ch: char,
    pub fg: Color,
    pub bg: Color,
    pub attributes: Attributes,
}

/// A row-major grid of cells. The owner keeps `cells.len() == cols * rows`.
pub struct ScreenBuffer(pub Vec<TerminalCell>);

/// A glyph paints no ink when its character is a space or its foreground is
/// fully transparent.
pub open spec fn glyph_invisible(ch: char, fg: Color) -> bool {
    ch == ' ' || fg.a == 0
}

/// How one incoming glyph composes over an existing cell.
///
/// Background: a fully transparent incoming background keeps the old one, a
/// fully opaque one replaces it, anything between blends over it.
/// An invisible incoming glyph keeps the old character and attributes, and
/// keeps the old ink too unless the background was blended, in which case
/// the ink is tinted by the same overlay. A visible opaque glyph replaces
/// character, ink and attributes outright. A visible translucent glyph
/// replaces character and attributes and blends its ink over a backdrop:
/// the old ink if the old glyph shows, else the old background.
pub open spec fn spec_compose_cell(
    old_cell: TerminalCell,
    ch: char,
    fg: Color,
    bg: Color,
    attributes: Attributes,
) -> TerminalCell {
    let bg_blended = 0 < bg.a < 255;
    let new_bg = if bg.a == 0 {
        old_cell.bg
    } else if bg.a == 255 {
        bg
    } else {
        spec_blend_over(old_cell.bg, bg)
    };
    if glyph_invisible(ch, fg) {
        let new_fg = if bg_blended {
            spec_blend_over(old_cell.fg, bg)
        } else {
            old_cell.fg
        };
        TerminalCell { ch: old_cell.ch, fg: new_fg, bg: new_bg, attributes: old_cell.attributes }
    } else if fg.a == 255 {
        TerminalCell { ch, fg, bg: new_bg, attributes }
    } else {
        let backdrop = if glyph_invisible(old_cell.ch, old_cell.fg) {
            old_cell.bg
        } else {
            old_cell.fg
        };
        TerminalCell { ch, fg: spec_blend_over(backdrop, fg), bg: new_bg, attributes }
    }
}

/// Compose one glyph of a draw call over an existing cell.
pub fn compose_cell(
    old_cell: &TerminalCell,
    ch: char,
    fg: Color,
    bg: Color,
    attributes: Attributes,
) -> (out: TerminalCell)
    ensures
        out == spec_compose_cell(*old_cell, ch, fg, bg, attributes),
{
    let bg_blended: bool = 0 < bg.a && bg.a < 255;
    let new_bg: Color = if bg.a == 0 {
        old_cell.bg
    } else if bg.a == 255 {
        bg
    } else {
        blend_over(old_cell.bg, bg)
    };
    if ch == ' ' || fg.a == 0 {
        let new_fg: Color = if bg_blended {
            blend_over(old_cell.fg, bg)
        } else {
            old_cell.fg
        };
        TerminalCell {
            ch: old_cell.ch,
            fg: new_fg,
            bg: new_bg,
            attributes: old_cell.attributes,
        }
    } else if fg.a == 255 {
        TerminalCell { ch, fg, bg: new_bg, attributes }
    } else {
        let backdrop: Color = if old_cell.ch == ' ' || old_cell.fg.a == 0 {
            old_cell.bg
        } else {
            old_cell.fg
        };
        TerminalCell { ch, fg: blend_over(backdrop, fg), bg: new_bg, attributes }
    }
}

/// Law: a fully opaque draw glyph that is not a space overwrites any prior
/// cell content with exactly the incoming character, colours and attributes.
pub proof fn lemma_compose_opaque_overwrite(
    old_cell: TerminalCell,
    ch: char,
    fg: Color,
    bg: Color,
    attributes: Attributes,
)
    requires
        ch != ' ',
        fg.a == 255,
        bg.a == 255,
    ensures
        spec_compose_cell(old_cell, ch, fg, bg, attributes) == (TerminalCell {
            ch,
            fg,
            bg,
            attributes,
        }),
{
}

/// Law: a draw glyph whose foreground and background are both fully
/// transparent leaves any cell exactly unchanged.
pub proof fn lemma_compose_transparent_noop(
    old_cell: TerminalCell,
    ch: char,
    fg: Color,
    bg: Color,
    attributes: Attributes,
)
    requires
        fg.a == 0,
        bg.a == 0,
    ensures
        spec_compose_cell(old_cell, ch, fg, bg, attributes) == old_cell,
{
}

/// Law: a whole draw call whose foreground and background are both fully
/// transparent leaves the entire grid exactly unchanged, wherever it lands.
pub proof fn lemma_apply_transparent_call_noop(
    cells: Seq<TerminalCell>,
    dc: DrawCall,
    cols: int,
    rows: int,
)
    requires
        dc.rich_text.fg.a == 0,
        dc.rich_text.bg.a == 0,
    ensures
        spec_apply_call(cells, dc, cols, rows) == cells,
{
    if !(dc.y < 0 || dc.y >= rows || dc.x >= cols) {
        let start = dc.y * cols + call_start_col(dc);
        assert forall|i: int| 0 <= i < cells.len() implies spec_apply_call(cells, dc, cols, rows)[i]
            == cells[i] by {
            lemma_compose_transparent_noop(
                cells[i],
                dc.rich_text.text@[call_skip(dc) + (i - start)],
                dc.rich_text.fg,
                dc.rich_text.bg,
                dc.rich_text.attributes,
            );
        }
        assert(spec_apply_call(cells, dc, cols, rows) =~= cells);
    }
}

/// The number of leading characters of a call's text that lie left of
/// column zero and are skipped.
pub open spec fn call_skip(dc: DrawCall) -> int {
    if dc.x < 0 {
        -(dc.x as int)
    } else {
        0
    }
}

/// The column at which a call's first visible character lands.
pub open spec fn call_start_col(dc: DrawCall) -> int {
    if dc.x < 0 {
        0
    } else {
        dc.x as int
    }
}

/// How many characters of a call survive clipping on a grid `cols` wide.
pub open spec fn call_visible_len(dc: DrawCall, cols: int) -> int {
    let avail_text = dc.rich_text.text@.len() - call_skip(dc);
    let avail_cols = cols - call_start_col(dc);
    let n = if avail_text <= avail_cols {
        avail_text
    } else {
        avail_cols
    };
    if n < 0 {
        0
    } else {
        n
    }
}

/// The grid after composing characters `skip .. skip + n` of `text` onto
/// the `n` cells starting at linear index `start`.
pub open spec fn spec_paint_run(
    cells: Seq<TerminalCell>,
    start: int,
    text: Seq<char>,
    skip: int,
    n: int,
    fg: Color,
    bg: Color,
    attributes: Attributes,
) -> Seq<TerminalCell> {
    Seq::new(
        cells.len(),
        |i: int|
            if start <= i < start + n {
                spec_compose_cell(cells[i], text[skip + (i - start)], fg, bg, attributes)
            } else {
                cells[i]
            },
    )
}

/// The grid after composing one draw call, with clipping. A call whose row
/// lies off the grid, or whose first column lies at or beyond the right
/// edge, paints nothing.
pub open spec fn spec_apply_call(
    cells: Seq<TerminalCell>,
    dc: DrawCall,
    cols: int,
    rows: int,
) -> Seq<TerminalCell> {
    if dc.y < 0 || dc.y >= rows || dc.x >= cols {
        cells
    } else {
        spec_paint_run(
            cells,
            dc.y * cols + call_start_col(dc),
            dc.rich_text.text@,
            call_skip(dc),
            call_visible_len(dc, cols),
            dc.rich_text.fg,
            dc.rich_text.bg,
            dc.rich_text.attributes,
        )
    }
}

/// The grid after composing a whole queue of draw calls, in order: later
/// calls layer over earlier ones.
pub open spec fn spec_compose(
    cells: Seq<TerminalCell>,
    calls: Seq<DrawCall>,
    cols: int,
    rows: int,
) -> Seq<TerminalCell>
    decreases calls.len(),
{
    if calls.len() == 0 {
        cells
    } else {
        spec_apply_call(spec_compose(cells, calls.drop_last(), cols, rows), calls.last(), cols, rows)
    }
}

/// Composing never changes the grid's size.
pub proof fn lemma_compose_preserves_len(
    cells: Seq<TerminalCell>,
    calls: Seq<DrawCall>,
    cols: int,
    rows: int,
)
    ensures
        spec_compose(cells, calls, cols, rows).len() == cells.len(),
    decreases calls.len(),
{
    if calls.len() > 0 {
        lemma_compose_preserves_len(cells, calls.drop_last(), cols, rows);
    }
}

/// Compose one draw call into the buffer, honouring clipping.
pub fn apply_draw_call(buffer: &mut ScreenBuffer, dc: &DrawCall, cols: u16, rows: u16)
    requires
        old(buffer).0@.len() == cols as int * rows as int,
    ensures
        final(buffer).0@ == spec_apply_call(old(buffer).0@, *dc, cols as int, rows as int),
{
    if dc.y < 0 || (dc.y as i32) >= (rows as i32) || (dc.x as i32) >= (cols as i32) {
        return ;
    }
    let ghost orig = buffer.0@;
    let text_len: usize = dc.rich_text.text.as_str().unicode_len();
    let skip: usize = if dc.x < 0 {
        (-(dc.x as i32)) as usize
    } else {
        0
    };
    let start_col: usize = if dc.x < 0 {
        0
    } else {
        dc.x as usize
    };
    let avail_cols: usize = (cols as usize) - start_col;
    let n: usize = if text_len > skip {
        let avail_text: usize = text_len - skip;
        if avail_text < avail_cols {
            avail_text
        } else {
            avail_cols
        }
    } else {
        0
    };
    proof {
        assert(skip as int == call_skip(*dc));
        assert(start_col as int == call_start_col(*dc));
        assert(n as int == call_visible_len(*dc, cols as int));
        lemma_mul_upper_bound(dc.y as int, 65534, cols as int, 65535);
        lemma_mul_upper_bound(cols as int, 65535, rows as int, 65535);
    }
    let row_start: usize = (dc.y as usize) * (cols as usize);
    let fg: Color = dc.rich_text.fg;
    let bg: Color = dc.rich_text.bg;
    let attributes: Attributes = dc.rich_text.attributes;
    let mut j: usize = 0;
    while j < n
        invariant
            j <= n,
            0 <= dc.y as int && (dc.y as int) < rows as int,
            buffer.0@.len() == cols as int * rows as int,
            cols as int * rows as int <= 0x1_0000_0000,
            text_len == dc.rich_text.text@.len(),
            skip + n <= text_len || n == 0,
            skip + n <= usize::MAX,
            start_col + n <= cols as int,
            row_start == dc.y as int * cols as int,
            fg == dc.rich_text.fg,
            bg == dc.rich_text.bg,
            attributes == dc.rich_text.attributes,
            buffer.0@ == spec_paint_run(
                orig,
                row_start + start_col,
                dc.rich_text.text@,
                skip as int,
                j as int,
                fg,
                bg,
                attributes,
            ),
        decreases n - j,
    {
        let ch: char = dc.rich_text.text.as_str().get_char(skip + j);
        proof {
            assert((dc.y as int + 1) * (cols as int) == dc.y as int * cols as int + cols as int)
                by (nonlinear_arith);
            lemma_mul_inequality(dc.y as int + 1, rows as int, cols as int);
        }
        let idx: usize = row_start + start_col + j;
        let old_cell: TerminalCell = buffer.0[idx];
        let new_cell: TerminalCell = compose_cell(&old_cell, ch, fg, bg, attributes);
        buffer.0[idx] = new_cell;
        j = j + 1;
        proof {
            assert(buffer.0@ =~= spec_paint_run(
                orig,
                row_start + start_col,
                dc.rich_text.text@,
                skip as int,
                j as int,
                fg,
                bg,
                attributes,
            ));
        }
    }
    proof {
        assert(buffer.0@ =~= spec_apply_call(orig, *dc, cols as int, rows as int));
    }
}

/// Fold every queued draw call into the buffer, in queue order.
pub fn compose_buffer(buffer: &mut ScreenBuffer, draw_calls: &Vec<DrawCall>, cols: u16, rows: u16)
    requires
        old(buffer).0@.len() == cols as int * rows as int,
    ensures
        final(buffer).0@ == spec_compose(old(buffer).0@, draw_calls@, cols as int, rows as int),
        final(buffer).0@.len() == old(buffer).0@.len(),
{
    let ghost orig = buffer.0@;
    let mut ci: usize = 0;
    while ci < draw_calls.len()
        invariant
            ci <= draw_calls@.len(),
            orig.len() == cols as int * rows as int,
            buffer.0@ == spec_compose(orig, draw_calls@.take(ci as int), cols as int, rows as int),
        decreases draw_calls@.len() - ci,
    {
        proof {
            lemma_compose_preserves_len(orig, draw_calls@.take(ci as int), cols as int, rows as int);
        }
        apply_draw_call(buffer, &draw_calls[ci], cols, rows);
        ci = ci + 1;
        proof {
            assert(draw_calls@.take(ci as int).drop_last() =~= draw_calls@.take(ci as int - 1));
            assert(draw_calls@.take(ci as int).last() == draw_calls@[ci as int - 1]);
        }
    }
    proof {
        assert(draw_calls@.take(draw_calls@.len() as int) =~= draw_calls@);
        lemma_compose_preserves_len(orig, draw_calls@, cols as int, rows as int);
    }
}

/// The diff entry for the cell at linear index `i` of a grid `cols` wide:
/// its column, its row, and its new contents.
pub open spec fn diff_entry(cur: Seq<TerminalCell>, cols: int, i: int) -> (u16, u16, TerminalCell) {
    (((i % cols) as u16), ((i / cols) as u16), cur[i])
}

/// The changed cells among the first `n`, in row-major order.
pub open spec fn spec_diff_upto(
    old_cells: Seq<TerminalCell>,
    cur: Seq<TerminalCell>,
    cols: int,
    n: int,
) -> Seq<(u16, u16, TerminalCell)>
    decreases n,
{
    if n <= 0 {
        Seq::empty()
    } else if old_cells[n - 1] == cur[n - 1] {
        spec_diff_upto(old_cells, cur, cols, n - 1)
    } else {
        spec_diff_upto(old_cells, cur, cols, n - 1).push(diff_entry(cur, cols, n - 1))
    }
}

/// Every cell whose contents changed between the two grids, in row-major
/// order, with its position and new contents.
pub open spec fn spec_diff(
    old_cells: Seq<TerminalCell>,
    cur: Seq<TerminalCell>,
    cols: int,
) -> Seq<(u16, u16, TerminalCell)> {
    spec_diff_upto(old_cells, cur, cols, cur.len() as int)
}

/// Compare the two grids cell by cell and refill `buffer_diffs` with every
/// difference, in row-major order. Equality is exact on all four fields of
/// a cell.
pub fn diff_buffers(
    buffer_diffs: &mut Vec<(u16, u16, TerminalCell)>,
    current_buffer: &ScreenBuffer,
    old_buffer: &ScreenBuffer,
    cols: u16,
)
    requires
        cols > 0,
        old_buffer.0@.len() == current_buffer.0@.len(),
        current_buffer.0@.len() <= cols as int * 0x10000,
    ensures
        final(buffer_diffs)@ == spec_diff(old_buffer.0@, current_buffer.0@, cols as int),
{
    buffer_diffs.clear();
    let len: usize = current_buffer.0.len();
    let mut i: usize = 0;
    while i < len
        invariant
            i <= len,
            cols > 0,
            len == current_buffer.0@.len(),
            old_buffer.0@.len() == len,
            len <= cols as int * 0x10000,
            buffer_diffs@ == spec_diff_upto(old_buffer.0@, current_buffer.0@, cols as int, i as int),
        decreases len - i,
    {
        let old_cell: TerminalCell = old_buffer.0[i];
        let new_cell: TerminalCell = current_buffer.0[i];
        if old_cell != new_cell {
            proof {
                lemma_mod_bound(i as int, cols as int);
                lemma_multiply_divide_lt(i as int, cols as int, 0x10000);
            }
            let x: u16 = (i % (cols as usize)) as u16;
            let y: u16 = (i / (cols as usize)) as u16;
            buffer_diffs.push((x, y, new_cell));
        }
        i = i + 1;
    }
}

/// Law: diffing a grid against an identical copy of itself yields nothing.
pub proof fn lemma_diff_identical(cells: Seq<TerminalCell>, cols: int)
    ensures
        spec_diff(cells, cells, cols) == Seq::<(u16, u16, TerminalCell)>::empty(),
{
    lemma_diff_identical_upto(cells, cols, cells.len() as int);
}

proof fn lemma_diff_identical_upto(cells: Seq<TerminalCell>, cols: int, n: int)
    ensures
        spec_diff_upto(cells, cells, cols, n) == Seq::<(u16, u16, TerminalCell)>::empty(),
    decreases n,
{
    if n > 0 {
        lemma_diff_identical_upto(cells, cols, n - 1);
    }
}

/// Law (completeness): every cell whose contents changed appears in the
/// diff, with its position and its new contents.
pub proof fn lemma_diff_complete(
    old_cells: Seq<TerminalCell>,
    cur: Seq<TerminalCell>,
    cols: int,
    i: int,
)
    requires
        0 <= i < cur.len(),
        old_cells[i] != cur[i],
    ensures
        spec_diff(old_cells, cur, cols).contains(diff_entry(cur, cols, i)),
{
    lemma_diff_complete_upto(old_cells, cur, cols, i, cur.len() as int);
}

proof fn lemma_diff_complete_upto(
    old_cells: Seq<TerminalCell>,
    cur: Seq<TerminalCell>,
    cols: int,
    i: int,
    n: int,
)
    requires
        0 <= i < n,
        old_cells[i] != cur[i],
    ensures
        spec_diff_upto(old_cells, cur, cols, n).contains(diff_entry(cur, cols, i)),
    decreases n,
{
    if i == n - 1 {
        let prefix = spec_diff_upto(old_cells, cur, cols, n - 1);
        assert(prefix.push(diff_entry(cur, cols, i))[prefix.len() as int] == diff_entry(
            cur,
            cols,
            i,
        ));
    } else {
        lemma_diff_complete_upto(old_cells, cur, cols, i, n - 1);
        let prefix = spec_diff_upto(old_cells, cur, cols, n - 1);
        let j = choose|j: int| 0 <= j < prefix.len() && prefix[j] == diff_entry(cur, cols, i);
        if old_cells[n - 1] != cur[n - 1] {
            assert(prefix.push(diff_entry(cur, cols, n - 1))[j] == diff_entry(cur, cols, i));
        }
    }
}

/// Law (soundness): everything the diff lists is a cell that really
/// changed, reported with its new contents; no unchanged cell appears.
pub proof fn lemma_diff_sound(
    old_cells: Seq<TerminalCell>,
    cur: Seq<TerminalCell>,
    cols: int,
    j: int,
)
    requires
        0 <= j < spec_diff(old_cells, cur, cols).len(),
    ensures
        exists|i: int|
            0 <= i < cur.len() && old_cells[i] != cur[i] && spec_diff(old_cells, cur, cols)[j]
                == diff_entry(cur, cols, i),
{
    lemma_diff_sound_upto(old_cells, cur, cols, j, cur.len() as int);
}

proof fn lemma_diff_sound_upto(
    old_cells: Seq<TerminalCell>,
    cur: Seq<TerminalCell>,
    cols: int,
    j: int,
    n: int,
)
    requires
        0 <= j < spec_diff_upto(old_cells, cur, cols, n).len(),
    ensures
        exists|i: int|
            0 <= i < n && old_cells[i] != cur[i] && spec_diff_upto(old_cells, cur, cols, n)[j]
                == diff_entry(cur, cols, i),
    decreases n,
{
    if n <= 0 {
        // no entries below zero cells
    } else if old_cells[n - 1] == cur[n - 1] {
        lemma_diff_sound_upto(old_cells, cur, cols, j, n - 1);
    } else {
        let prefix = spec_diff_upto(old_cells, cur, cols, n - 1);
        if j < prefix.len() {
            lemma_diff_sound_upto(old_cells, cur, cols, j, n - 1);
        } else {
            assert(spec_diff_upto(old_cells, cur, cols, n)[j] == diff_entry(cur, cols, n - 1));
        }
    }
}

/// The linear cell index a diff entry points at.
pub open spec fn entry_linear_index(e: (u16, u16, TerminalCell), cols: int) -> int {
    e.1 as int * cols + e.0 as int
}

/// Law (uniqueness): the diff's entries point at strictly increasing cell
/// indexes, row-major, so no cell is reported twice.
pub proof fn lemma_diff_ordered(
    old_cells: Seq<TerminalCell>,
    cur: Seq<TerminalCell>,
    cols: int,
    j: int,
    k: int,
)
    requires
        0 < cols <= 0xFFFF,
        cur.len() <= cols * 0x10000,
        0 <= j < k < spec_diff(old_cells, cur, cols).len(),
    ensures
        entry_linear_index(spec_diff(old_cells, cur, cols)[j], cols) < entry_linear_index(
            spec_diff(old_cells, cur, cols)[k],
            cols,
        ),
{
    lemma_diff_ordered_upto(old_cells, cur, cols, j, k, cur.len() as int);
}

proof fn lemma_diff_entry_index(cur: Seq<TerminalCell>, cols: int, i: int)
    requires
        0 < cols <= 0xFFFF,
        0 <= i < cols * 0x10000,
    ensures
        entry_linear_index(diff_entry(cur, cols, i), cols) == i,
{
    lemma_mod_bound(i, cols);
    lemma_multiply_divide_lt(i, cols, 0x10000);
    lemma_div_pos_is_pos(i, cols);
    lemma_fundamental_div_mod(i, cols);
    assert((i / cols) * cols == cols * (i / cols)) by (nonlinear_arith);
}

proof fn lemma_diff_ordered_upto(
    old_cells: Seq<TerminalCell>,
    cur: Seq<TerminalCell>,
    cols: int,
    j: int,
    k: int,
    n: int,
)
    requires
        0 < cols <= 0xFFFF,
        n <= cols * 0x10000,
        0 <= j < k < spec_diff_upto(old_cells, cur, cols, n).len(),
    ensures
        entry_linear_index(spec_diff_upto(old_cells, cur, cols, n)[j], cols) < entry_linear_index(
            spec_diff_upto(old_cells, cur, cols, n)[k],
            cols,
        ),
        entry_linear_index(spec_diff_upto(old_cells, cur, cols, n)[k], cols) < n,
    decreases n,
{
    let d = spec_diff_upto(old_cells, cur, cols, n);
    let prefix = spec_diff_upto(old_cells, cur, cols, n - 1);
    if old_cells[n - 1] == cur[n - 1] {
        lemma_diff_ordered_upto(old_cells, cur, cols, j, k, n - 1);
    } else {
        lemma_diff_entry_index(cur, cols, n - 1);
        if k < prefix.len() {
            lemma_diff_ordered_upto(old_cells, cur, cols, j, k, n - 1);
        } else {
            assert(d[k] == diff_entry(cur, cols, n - 1));
            if prefix.len() >= 2 && j < prefix.len() - 1 {
                lemma_diff_ordered_upto(old_cells, cur, cols, j, prefix.len() - 1, n - 1);
            } else if j < prefix.len() {
                lemma_diff_ordered_last(old_cells, cur, cols, j, n - 1);
            }
        }
    }
}

/// Every entry of the diff over the first `n` cells points below index `n`.
proof fn lemma_diff_ordered_last(
    old_cells: Seq<TerminalCell>,
    cur: Seq<TerminalCell>,
    cols: int,
    j: int,
    n: int,
)
    requires
        0 < cols <= 0xFFFF,
        n <= cols * 0x10000,
        0 <= j < spec_diff_upto(old_cells, cur, cols, n).len(),
    ensures
        entry_linear_index(spec_diff_upto(old_cells, cur, cols, n)[j], cols) < n,
    decreases n,
{
    let prefix = spec_diff_upto(old_cells, cur, cols, n - 1);
    if n <= 0 {
    } else if old_cells[n - 1] == cur[n - 1] {
        lemma_diff_ordered_last(old_cells, cur, cols, j, n - 1);
    } else {
        if j < prefix.len() {
            lemma_diff_ordered_last(old_cells, cur, cols, j, n - 1);
        } else {
            lemma_diff_entry_index(cur, cols, n - 1);
        }
    }
}

/// Law: when every cell changed, the diff lists every cell.
pub proof fn lemma_diff_all_changed(
    old_cells: Seq<TerminalCell>,
    cur: Seq<TerminalCell>,
    cols: int,
)
    requires
        old_cells.len() == cur.len(),
        forall|i: int| 0 <= i < cur.len() ==> old_cells[i] != cur[i],
    ensures
        spec_diff(old_cells, cur, cols).len() == cur.len(),
{
    lemma_diff_all_changed_upto(old_cells, cur, cols, cur.len() as int);
}

/// The cell a fresh current buffer is filled with: a space in white ink
/// over an opaque black background.
pub open spec fn default_cell() -> TerminalCell {
    TerminalCell {
        ch: ' ',
        fg: Color { r: 255u8, g: 255u8, b: 255u8, a: 255u8 },
        bg: Color { r: 0u8, g: 0u8, b: 0u8, a: 255u8 },
        attributes: Attributes::spec_empty(),
    }
}

/// The cell a fresh old buffer is filled with. Its colours are the reverse
/// of `default_cell` on purpose: every cell of a fresh screen differs from
/// its old counterpart, so the first diff after creation or resize reports
/// the whole screen and forces a full redraw.
pub open spec fn forced_redraw_cell() -> TerminalCell {
    TerminalCell {
        ch: ' ',
        fg: Color { r: 0u8, g: 0u8, b: 0u8, a: 255u8 },
        bg: Color { r: 255u8, g: 255u8, b: 255u8, a: 255u8 },
        attributes: Attributes::spec_empty(),
    }
}

/// `count` copies of one cell.
fn filled_cells(count: usize, cell: TerminalCell) -> (v: Vec<TerminalCell>)
    ensures
        v@.len() == count,
        forall|i: int| 0 <= i < count ==> v@[i] == cell,
{
    let mut v: Vec<TerminalCell> = Vec::new();
    let mut k: usize = 0;
    while k < count
        invariant
            k <= count,
            v@.len() == k,
            forall|i: int| 0 <= i < k ==> v@[i] == cell,
        decreases count - k,
    {
        v.push(cell);
        k = k + 1;
    }
    v
}

/// The two cell grids of the display plus the reusable diff list: `cols`
/// by `rows` cells, the frame being composed and the frame already shown.
pub struct Screen {
    pub cols: u16,
    pub rows: u16,
    pub current_buffer: ScreenBuffer,
    pub old_buffer: ScreenBuffer,
    pub buffer_diffs: Vec<(u16, u16, TerminalCell)>,
}

impl Screen {
    /// Both buffers hold exactly `cols * rows` cells.
    pub open spec fn wf(&self) -> bool {
        &&& self.current_buffer.0@.len() == self.cols as int * self.rows as int
        &&& self.old_buffer.0@.len() == self.cols as int * self.rows as int
    }

    /// A fresh screen: a blank current buffer and an old buffer that
    /// disagrees with it everywhere, so the next diff redraws everything.
    /// Creating a new screen is also how a resize is handled.
    pub fn new(cols: u16, rows: u16) -> (s: Screen)
        ensures
            s.wf(),
            s.cols == cols,
            s.rows == rows,
            forall|i: int|
                0 <= i < s.current_buffer.0@.len() ==> s.current_buffer.0@[i] == default_cell(),
            forall|i: int|
                0 <= i < s.old_buffer.0@.len() ==> s.old_buffer.0@[i] == forced_redraw_cell(),
            s.buffer_diffs@ == Seq::<(u16, u16, TerminalCell)>::empty(),
    {
        proof {
            lemma_mul_upper_bound(cols as int, 0xFFFF, rows as int, 0xFFFF);
        }
        let count: usize = (cols as usize) * (rows as usize);
        let current = filled_cells(
            count,
            TerminalCell {
                ch: ' ',
                fg: Color::white(),
                bg: Color::black(),
                attributes: Attributes::empty(),
            },
        );
        let old_cells = filled_cells(
            count,
            TerminalCell {
                ch: ' ',
                fg: Color::black(),
                bg: Color::white(),
                attributes: Attributes::empty(),
            },
        );
        Screen {
            cols,
            rows,
            current_buffer: ScreenBuffer(current),
            old_buffer: ScreenBuffer(old_cells),
            buffer_diffs: Vec::new(),
        }
    }

    /// Overwrite the old buffer with the current one, cell for cell: the
    /// last step of a frame, after the diff has been taken. A copy, not a
    /// swap, so the current buffer keeps last frame's content as the
    /// backdrop for the next composite pass.
    pub fn copy_current_to_old(&mut self)
        ensures
            final(self).old_buffer.0@ == old(self).current_buffer.0@,
            final(self).current_buffer.0@ == old(self).current_buffer.0@,
            final(self).cols == old(self).cols,
            final(self).rows == old(self).rows,
            final(self).buffer_diffs@ == old(self).buffer_diffs@,
    {
        let copied: Vec<TerminalCell> = clone_cells(&self.current_buffer);
        self.old_buffer = ScreenBuffer(copied);
    }

    /// Exchange the two buffers in place, for a frame loop that rebuilds
    /// every cell each frame and has no need of a copy.
    pub fn swap_buffers(&mut self)
        ensures
            final(self).current_buffer.0@ == old(self).old_buffer.0@,
            final(self).old_buffer.0@ == old(self).current_buffer.0@,
            final(self).cols == old(self).cols,
            final(self).rows == old(self).rows,
            final(self).buffer_diffs@ == old(self).buffer_diffs@,
    {
        core::mem::swap(&mut self.current_buffer, &mut self.old_buffer);
    }
}

/// A copy of a buffer's cells.
fn clone_cells(buffer: &ScreenBuffer) -> (v: Vec<TerminalCell>)
    ensures
        v@ == buffer.0@,
{
    let mut v: Vec<TerminalCell> = Vec::new();
    let len: usize = buffer.0.len();
    let mut k: usize = 0;
    while k < len
        invariant
            k <= len,
            len == buffer.0@.len(),
            v@ == buffer.0@.take(k as int),
        decreases len - k,
    {
        v.push(buffer.0[k]);
        k = k + 1;
        proof {
            assert(v@ =~= buffer.0@.take(k as int));
        }
    }
    proof {
        assert(buffer.0@.take(len as int) =~= buffer.0@);
    }
    v
}

/// The cell a background fill paints everywhere: a space in opaque black
/// ink over the given colour.
pub open spec fn background_cell(bg: Color) -> TerminalCell {
    TerminalCell {
        ch: ' ',
        fg: Color { r: 0u8, g: 0u8, b: 0u8, a: 255u8 },
        bg,
        attributes: Attributes::spec_empty(),
    }
}

/// Reset every cell of a buffer to a uniform background: the explicit
/// clean-slate operation a producer calls before compositing a frame that
/// should not carry last frame's content over.
pub fn fill_screen_background(buffer: &mut ScreenBuffer, bg: Color)
    ensures
        final(buffer).0@.len() == old(buffer).0@.len(),
        forall|i: int| 0 <= i < final(buffer).0@.len() ==> final(buffer).0@[i] == background_cell(bg),
{
    let len: usize = buffer.0.len();
    let mut k: usize = 0;
    while k < len
        invariant
            k <= len,
            buffer.0@.len() == len,
            forall|i: int| 0 <= i < k ==> buffer.0@[i] == background_cell(bg),
        decreases len - k,
    {
        buffer.0[k] = TerminalCell {
            ch: ' ',
            fg: Color::black(),
            bg,
            attributes: Attributes::empty(),
        };
        k = k + 1;
    }
}

proof fn lemma_diff_all_changed_upto(
    old_cells: Seq<TerminalCell>,
    cur: Seq<TerminalCell>,
    cols: int,
    n: int,
)
    requires
        old_cells.len() == cur.len(),
        n <= cur.len(),
        forall|i: int| 0 <= i < cur.len() ==> old_cells[i] != cur[i],
    ensures
        spec_diff_upto(old_cells, cur, cols, n).len() == if n >= 0 {
            n
        } else {
            0
        },
    decreases n,
{
    if n > 0 {
        lemma_diff_all_changed_upto(old_cells, cur, cols, n - 1);
    }
}

} // verus!

