//! Columns of cells stacked in eighths: the drawing that bar charts and
//! sparklines share.
use vstd::prelude::*;
use vstd::arithmetic::div_mod::lemma_fundamental_div_mod_converse;
use crate::buffer::{Buffer, Cell};
use crate::layout::Rect;
use crate::style::Style;
use crate::symbols::bar::BarSet;

verus! {

/// Eighths of a column of height `scaled` (in eighths) that lie at or above
/// row `k`, counting rows from the bottom.
pub open spec fn remaining(scaled: int, k: int) -> int {
    if scaled - 8 * k > 0 {
        scaled - 8 * k
    } else {
        0
    }
}

/// Eighths of row `k` (from the bottom) that a column of height `scaled`
/// fills: zero to eight.
pub open spec fn row_level(scaled: int, k: int) -> int {
    if remaining(scaled, k) > 8 {
        8
    } else {
        remaining(scaled, k)
    }
}

/// Eighths filled over the bottom `rows` rows of a column of height `scaled`.
pub open spec fn filled_eighths(scaled: int, rows: nat) -> int
    decreases rows,
{
    if rows == 0 {
        0
    } else {
        filled_eighths(scaled, (rows - 1) as nat) + row_level(scaled, rows - 1)
    }
}

/// Stacking loses and invents nothing: the rows of a column fill exactly its
/// height in eighths, or all of them when the height is more than they hold.
pub proof fn stacking_conserves(scaled: int, rows: nat)
    requires
        scaled >= 0,
    ensures
        filled_eighths(scaled, rows) == if scaled < 8 * rows {
            scaled
        } else {
            8 * rows as int
        },
    decreases rows,
{
    if rows > 0 {
        stacking_conserves(scaled, (rows - 1) as nat);
    }
}

/// A value times a row count times eight fits well within `u128`.
pub proof fn lemma_scale_fits(v: u64, rows: u16)
    ensures
        v * rows * 8 <= 0xffff_ffff_ffff_ffff * 0xffff * 8,
{
    let a = v as int;
    let b = rows as int;
    assert(a * b * 8 <= 0xffff_ffff_ffff_ffff * 0xffff * 8) by (nonlinear_arith)
        requires
            0 <= a <= 0xffff_ffff_ffff_ffff,
            0 <= b <= 0xffff,
    ;
}

/// Whether cell `(cx, cy)` belongs to one of `n` bars of `bar_width`
/// columns, one every `stride` columns from the left of `area`, over its
/// `rows` top rows.
pub open spec fn is_bar_cell(area: Rect, stride: int, bar_width: int, n: int, rows: int, cx: int, cy: int) -> bool {
    &&& stride > 0
    &&& area.x <= cx
    &&& (cx - area.x) / stride < n
    &&& (cx - area.x) % stride < bar_width
    &&& area.y <= cy < area.y + rows
}

/// Bar cells lie inside the area when the bars and their rows fit in it.
pub proof fn bar_cells_within(area: Rect, stride: int, bar_width: int, n: int, rows: int, cx: int, cy: int)
    requires
        n * stride <= area.width,
        rows <= area.height,
        is_bar_cell(area, stride, bar_width, n, rows, cx, cy),
    ensures
        area.has_cell(cx, cy),
{
    let q = (cx - area.x) / stride;
    let r = (cx - area.x) % stride;
    vstd::arithmetic::div_mod::lemma_fundamental_div_mod(cx - area.x, stride);
    assert(stride * q + r < n * stride) by (nonlinear_arith)
        requires
            0 <= q < n,
            0 <= r < stride,
    ;
}

/// The bar that column `cx` belongs to.
pub open spec fn bar_of(area: Rect, stride: int, cx: int) -> int {
    (cx - area.x) / stride
}

/// What a cell becomes at row `row` (from the top) of a bar of height
/// `scaled` eighths drawn over `rows` rows.
pub open spec fn bar_cell(before: Cell, set: BarSet, style: Style, scaled: int, rows: int, row: int) -> Cell {
    Cell { symbol: set.symbol_spec(row_level(scaled, rows - 1 - row)), style: before.style.patch_spec(style) }
}

/// Draws one bar per entry of `heights` (in eighths), each `bar_width`
/// columns wide and `stride` columns after the previous one, over the top
/// `rows` rows of `area`, bottom row first: each row takes the glyph for
/// what is left of the bar's height, and eight eighths are taken off
/// before the row above.
pub fn paint_bars(
    buf: &mut Buffer,
    area: Rect,
    heights: &mut Vec<u128>,
    bar_width: u16,
    stride: u16,
    rows: u16,
    set: BarSet,
    style: Style,
)
    requires
        old(buf).wf(),
        old(buf).area.holds(area),
        stride > 0 || old(heights)@.len() == 0,
        old(heights)@.len() * stride <= area.width,
        bar_width <= stride || old(heights)@.len() == 0,
        rows <= area.height,
    ensures
        final(buf).wf(),
        final(buf).area == old(buf).area,
        final(heights)@.len() == old(heights)@.len(),
        forall|cx: int, cy: int|
            old(buf).area.has_cell(cx, cy) ==> #[trigger] final(buf).cell(cx, cy) == if is_bar_cell(area, stride as int, bar_width as int, old(heights)@.len() as int, rows as int, cx, cy) {
                bar_cell(old(buf).cell(cx, cy), set, style, old(heights)@[bar_of(area, stride as int, cx)] as int, rows as int, cy - area.y)
            } else {
                old(buf).cell(cx, cy)
            },
{
    let ghost before = *buf;
    let ghost h0 = heights@;
    let n = heights.len();
    let mut k: u16 = 0;
    while k < rows
        invariant
            before.wf(),
            before.area.holds(area),
            stride > 0 || n == 0,
            n == h0.len(),
            n * stride <= area.width,
            bar_width <= stride || n == 0,
            rows <= area.height,
            k <= rows,
            buf.wf(),
            buf.area == before.area,
            heights@.len() == n,
            forall|i: int| 0 <= i < n ==> heights@[i] == remaining(h0[i] as int, k as int),
            forall|cx: int, cy: int|
                before.area.has_cell(cx, cy) ==> #[trigger] buf.cell(cx, cy) == if is_bar_cell(area, stride as int, bar_width as int, n as int, rows as int, cx, cy) && cy >= area.y + rows - k {
                    bar_cell(before.cell(cx, cy), set, style, h0[bar_of(area, stride as int, cx)] as int, rows as int, cy - area.y)
                } else {
                    before.cell(cx, cy)
                },
        decreases rows - k,
    {
        let j: u16 = rows - 1 - k;
        let y: u16 = area.y + j;
        let mut i: usize = 0;
        while i < n
            invariant
                before.wf(),
                before.area.holds(area),
                stride > 0 || n == 0,
                n == h0.len(),
                n * stride <= area.width,
                bar_width <= stride || n == 0,
                rows <= area.height,
                k < rows,
                j == rows - 1 - k,
                y == area.y + j,
                i <= n,
                buf.wf(),
                buf.area == before.area,
                heights@.len() == n,
                forall|ii: int| 0 <= ii < i ==> heights@[ii] == remaining(h0[ii] as int, k + 1),
                forall|ii: int| i <= ii < n ==> heights@[ii] == remaining(h0[ii] as int, k as int),
                forall|cx: int, cy: int|
                    before.area.has_cell(cx, cy) ==> #[trigger] buf.cell(cx, cy) == if is_bar_cell(area, stride as int, bar_width as int, n as int, rows as int, cx, cy)
                        && (cy > y || (cy == y && bar_of(area, stride as int, cx) < i)) {
                        bar_cell(before.cell(cx, cy), set, style, h0[bar_of(area, stride as int, cx)] as int, rows as int, cy - area.y)
                    } else {
                        before.cell(cx, cy)
                    },
            decreases n - i,
        {
            let d = heights[i];
            let symbol = set.symbol(if d >= 8 { 8 } else { d as u64 });
            proof {
                let s = stride as int;
                let ii = i as int;
                assert(ii * s + s <= n * s) by (nonlinear_arith)
                    requires
                        0 <= ii < n,
                        s >= 0,
                ;
                assert(ii <= ii * s) by (nonlinear_arith)
                    requires
                        0 <= ii,
                        s >= 1,
                ;
            }
            let base: u16 = area.x + (i as u16) * stride;
            let mut xo: u16 = 0;
            while xo < bar_width
                invariant
                    before.wf(),
                    before.area.holds(area),
                    stride > 0,
                    n == h0.len(),
                    n * stride <= area.width,
                    bar_width <= stride,
                    rows <= area.height,
                    k < rows,
                    j == rows - 1 - k,
                    y == area.y + j,
                    i < n,
                    i * stride + stride <= area.width,
                    base == area.x + i * stride,
                    heights@.len() == n,
                    d == heights@[i as int],
                    d == remaining(h0[i as int] as int, k as int),
                    symbol == set.symbol_spec(row_level(h0[i as int] as int, k as int)),
                    xo <= bar_width,
                    buf.wf(),
                    buf.area == before.area,
                    forall|cx: int, cy: int|
                        before.area.has_cell(cx, cy) ==> #[trigger] buf.cell(cx, cy) == if is_bar_cell(area, stride as int, bar_width as int, n as int, rows as int, cx, cy)
                            && (cy > y || (cy == y && (bar_of(area, stride as int, cx) < i
                                || (bar_of(area, stride as int, cx) == i && (cx - area.x) % (stride as int) < xo)))) {
                            bar_cell(before.cell(cx, cy), set, style, h0[bar_of(area, stride as int, cx)] as int, rows as int, cy - area.y)
                        } else {
                            before.cell(cx, cy)
                        },
                decreases bar_width - xo,
            {
                let x: u16 = base + xo;
                proof {
                    lemma_fundamental_div_mod_converse(x - area.x, stride as int, i as int, xo as int);
                }
                buf.set_cell(x, y, symbol, style);
                proof {
                    assert forall|cx: int, cy: int| before.area.has_cell(cx, cy) implies #[trigger] buf.cell(cx, cy) == if is_bar_cell(area, stride as int, bar_width as int, n as int, rows as int, cx, cy)
                        && (cy > y || (cy == y && (bar_of(area, stride as int, cx) < i
                            || (bar_of(area, stride as int, cx) == i && (cx - area.x) % (stride as int) < xo + 1)))) {
                        bar_cell(before.cell(cx, cy), set, style, h0[bar_of(area, stride as int, cx)] as int, rows as int, cy - area.y)
                    } else {
                        before.cell(cx, cy)
                    } by {
                        if cy == y && cx >= area.x && bar_of(area, stride as int, cx) == i && (cx - area.x) % (stride as int) == xo {
                            vstd::arithmetic::div_mod::lemma_fundamental_div_mod(cx - area.x, stride as int);
                            assert(cx - area.x == (stride as int) * (i as int) + xo);
                            assert((stride as int) * (i as int) == (i as int) * (stride as int)) by (nonlinear_arith);
                            assert(cx == x);
                        }
                    }
                }
                xo = xo + 1;
            }
            let nd = if d > 8 { d - 8 } else { 0 };
            heights.set(i, nd);
            proof {
                assert forall|cx: int, cy: int| before.area.has_cell(cx, cy) implies #[trigger] buf.cell(cx, cy) == if is_bar_cell(area, stride as int, bar_width as int, n as int, rows as int, cx, cy)
                    && (cy > y || (cy == y && bar_of(area, stride as int, cx) < i + 1)) {
                    bar_cell(before.cell(cx, cy), set, style, h0[bar_of(area, stride as int, cx)] as int, rows as int, cy - area.y)
                } else {
                    before.cell(cx, cy)
                } by {}
            }
            i = i + 1;
        }
        k = k + 1;
    }
}

} // verus!
