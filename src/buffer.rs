//! The grid of cells that widgets draw onto.
use vstd::prelude::*;
use crate::layout::Rect;
use crate::style::Style;
use crate::text_width::{char_columns, char_width};

verus! {

/// One cell of the grid: a glyph and its style.
#[derive(Debug, Clone, Copy, PartialEq, Eq)]
pub struct Cell {
    pub symbol: char,
    pub style: Style,
}

impl Cell {
    pub open spec fn blank() -> Cell {
        Cell { symbol: ' ', style: Style { fg: None, bg: None, modifier: 0 } }
    }

    pub fn reset() -> (r: Cell)
        ensures
            r == Cell::blank(),
    {
        Cell { symbol: ' ', style: Style { fg: None, bg: None, modifier: 0 } }
    }
}

/// A rectangle of cells, stored row by row.
#[derive(Debug, Clone)]
pub struct Buffer {
    pub area: Rect,
    pub content: Vec<Cell>,
}

pub open spec fn cell_index(area: Rect, x: int, y: int) -> int {
    (y - area.y) * area.width + (x - area.x)
}

proof fn lemma_cell_index(area: Rect, x: int, y: int)
    requires
        area.has_cell(x, y),
    ensures
        0 <= cell_index(area, x, y) < area.width * area.height,
{
    let w = area.width as int;
    let h = area.height as int;
    let r = y - area.y;
    let c = x - area.x;
    assert(0 <= r * w + c < w * h) by (nonlinear_arith)
        requires
            0 <= r < h,
            0 <= c < w,
    ;
}

proof fn lemma_cell_index_distinct(area: Rect, x1: int, y1: int, x2: int, y2: int)
    requires
        area.has_cell(x1, y1),
        area.has_cell(x2, y2),
        x1 != x2 || y1 != y2,
    ensures
        cell_index(area, x1, y1) != cell_index(area, x2, y2),
{
    let w = area.width as int;
    let r1 = y1 - area.y;
    let c1 = x1 - area.x;
    let r2 = y2 - area.y;
    let c2 = x2 - area.x;
    if r1 == r2 {
    } else if r1 < r2 {
        assert(r1 * w + c1 < r2 * w + c2) by (nonlinear_arith)
            requires
                r1 < r2,
                0 <= c1 < w,
                0 <= c2,
        ;
    } else {
        assert(r2 * w + c2 < r1 * w + c1) by (nonlinear_arith)
            requires
                r2 < r1,
                0 <= c2 < w,
                0 <= c1,
        ;
    }
}

impl Buffer {
    pub open spec fn wf(&self) -> bool {
        &&& self.area.fits()
        &&& self.content@.len() == self.area.width * self.area.height
    }

    /// The cell at column `x`, row `y`.
    pub open spec fn cell(&self, x: int, y: int) -> Cell {
        self.content@[cell_index(self.area, x, y)]
    }

    /// `self` covers the same area as `before` and agrees with it on every
    /// cell outside `region`.
    pub open spec fn unchanged_outside(&self, before: &Buffer, region: Rect) -> bool {
        &&& self.area == before.area
        &&& forall|cx: int, cy: int|
            self.area.has_cell(cx, cy) && !region.has_cell(cx, cy) ==> #[trigger] self.cell(cx, cy)
                == before.cell(cx, cy)
    }

    /// A buffer of blank cells covering `area`.
    pub fn empty(area: Rect) -> (r: Buffer)
        requires
            area.fits(),
        ensures
            r.wf(),
            r.area == area,
            forall|cx: int, cy: int| area.has_cell(cx, cy) ==> #[trigger] r.cell(cx, cy) == Cell::blank(),
    {
        let n = area.area() as usize;
        let mut content: Vec<Cell> = Vec::new();
        let mut i: usize = 0;
        while i < n
            invariant
                i <= n,
                n == area.width * area.height,
                content@.len() == i,
                forall|k: int| 0 <= k < i ==> content@[k] == Cell::blank(),
            decreases n - i,
        {
            content.push(Cell::reset());
            i = i + 1;
        }
        let r = Buffer { area, content };
        assert forall|cx: int, cy: int| area.has_cell(cx, cy) implies #[trigger] r.cell(cx, cy) == Cell::blank() by {
            lemma_cell_index(area, cx, cy);
        }
        r
    }

    /// Position in `content` of the cell at column `x`, row `y`.
    pub fn index_of(&self, x: u16, y: u16) -> (r: usize)
        requires
            self.wf(),
            self.area.has_cell(x as int, y as int),
        ensures
            r == cell_index(self.area, x as int, y as int),
            r < self.content@.len(),
    {
        let n = self.content.len();
        proof {
            lemma_cell_index(self.area, x as int, y as int);
            let w = self.area.width as int;
            let rr = y - self.area.y;
            let c = x - self.area.x;
            assert(0 <= rr * w <= rr * w + c) by (nonlinear_arith)
                requires
                    0 <= rr,
                    0 <= w,
                    0 <= c,
            ;
            assert(rr * w + c < n);
        }
        let row = (y - self.area.y) as usize;
        let col = (x - self.area.x) as usize;
        row * (self.area.width as usize) + col
    }

    pub fn get(&self, x: u16, y: u16) -> (r: &Cell)
        requires
            self.wf(),
            self.area.has_cell(x as int, y as int),
        ensures
            *r == self.cell(x as int, y as int),
    {
        let i = self.index_of(x, y);
        &self.content[i]
    }

    /// Writes `cell` at column `x`, row `y`.
    pub fn put(&mut self, x: u16, y: u16, cell: Cell)
        requires
            old(self).wf(),
            old(self).area.has_cell(x as int, y as int),
        ensures
            final(self).wf(),
            final(self).area == old(self).area,
            final(self).cell(x as int, y as int) == cell,
            forall|cx: int, cy: int|
                old(self).area.has_cell(cx, cy) && (cx != x || cy != y) ==> #[trigger] final(self).cell(cx, cy) == old(self).cell(cx, cy),
    {
        let i = self.index_of(x, y);
        self.content.set(i, cell);
        proof {
            assert forall|cx: int, cy: int|
                old(self).area.has_cell(cx, cy) && (cx != x || cy != y) implies #[trigger] self.cell(cx, cy)
                == old(self).cell(cx, cy) by {
                lemma_cell_index(self.area, cx, cy);
                lemma_cell_index_distinct(self.area, cx, cy, x as int, y as int);
            }
        }
    }

    /// Sets the glyph at column `x`, row `y`, and lays `style` over its style.
    pub fn set_cell(&mut self, x: u16, y: u16, symbol: char, style: Style)
        requires
            old(self).wf(),
            old(self).area.has_cell(x as int, y as int),
        ensures
            final(self).wf(),
            final(self).area == old(self).area,
            final(self).cell(x as int, y as int) == (Cell {
                symbol,
                style: old(self).cell(x as int, y as int).style.patch_spec(style),
            }),
            forall|cx: int, cy: int|
                old(self).area.has_cell(cx, cy) && (cx != x || cy != y) ==> #[trigger] final(self).cell(cx, cy) == old(self).cell(cx, cy),
    {
        let old_style = self.get(x, y).style;
        self.put(x, y, Cell { symbol, style: old_style.patch(style) });
    }

    /// `after` is `self` with `style` laid over every cell of `region`.
    pub open spec fn styled_over(&self, region: Rect, style: Style, after: Buffer) -> bool {
        &&& after.wf()
        &&& after.area == self.area
        &&& forall|cx: int, cy: int|
            self.area.has_cell(cx, cy) ==> #[trigger] after.cell(cx, cy) == if region.has_cell(cx, cy) {
                styled(self.cell(cx, cy), style)
            } else {
                self.cell(cx, cy)
            }
    }

    /// Lays `style` over the style of every cell of `area`; glyphs are kept.
    pub fn set_style(&mut self, area: Rect, style: Style)
        requires
            old(self).wf(),
            old(self).area.holds(area),
        ensures
            final(self).wf(),
            final(self).area == old(self).area,
            forall|cx: int, cy: int|
                old(self).area.has_cell(cx, cy) ==> #[trigger] final(self).cell(cx, cy) == if area.has_cell(cx, cy) {
                    styled(old(self).cell(cx, cy), style)
                } else {
                    old(self).cell(cx, cy)
                },
    {
        let ghost before = *self;
        let bottom = area.y + area.height;
        let right = area.x + area.width;
        let mut yy: u16 = area.y;
        while yy < bottom
            invariant
                before.wf(),
                before.area.holds(area),
                bottom == area.y + area.height,
                right == area.x + area.width,
                area.y <= yy <= bottom,
                self.wf(),
                self.area == before.area,
                forall|cx: int, cy: int|
                    before.area.has_cell(cx, cy) ==> #[trigger] self.cell(cx, cy) == if area.has_cell(cx, cy) && cy < yy {
                        styled(before.cell(cx, cy), style)
                    } else {
                        before.cell(cx, cy)
                    },
            decreases bottom - yy,
        {
            let mut xx: u16 = area.x;
            while xx < right
                invariant
                    before.wf(),
                    before.area.holds(area),
                    bottom == area.y + area.height,
                    right == area.x + area.width,
                    area.y <= yy < bottom,
                    area.x <= xx <= right,
                    self.wf(),
                    self.area == before.area,
                    forall|cx: int, cy: int|
                        before.area.has_cell(cx, cy) ==> #[trigger] self.cell(cx, cy) == if area.has_cell(cx, cy) && (cy < yy || (cy == yy && cx < xx)) {
                            styled(before.cell(cx, cy), style)
                        } else {
                            before.cell(cx, cy)
                        },
                decreases right - xx,
            {
                let sym = self.get(xx, yy).symbol;
                self.set_cell(xx, yy, sym, style);
                xx = xx + 1;
            }
            yy = yy + 1;
        }
    }

    /// Writes the characters of `s` from column `x` of row `y` on, each in
    /// as many cells as its display width, and stops before the first one
    /// that would pass `width` columns or the buffer's right edge.
    /// Characters of no width are skipped; the cells a wide character
    /// covers beyond its first are blanked. Returns the column after the
    /// last character written, and `y`.
    pub fn set_stringn(&mut self, x: u16, y: u16, s: &str, width: usize, style: Style) -> (r: (u16, u16))
        requires
            old(self).wf(),
            old(self).area.has_cell(x as int, y as int),
        ensures
            final(self).wf(),
            x <= r.0 <= span_end(old(self).area, x, width),
            r.1 == y,
            final(self).unchanged_outside(old(self), Rect { x, y, width: (r.0 - x) as u16, height: 1 }),
            r.0 == text_end(s@, x as int, span_end(old(self).area, x, width) as int),
            forall|cx: int|
                x <= cx < r.0 ==> #[trigger] final(self).cell(cx, y as int) == text_cell(
                    text_at(s@, x as int, span_end(old(self).area, x, width) as int, cx),
                    old(self).cell(cx, y as int),
                    style,
                ),
            is_printable_ascii(s@) ==> r.0 == x + if s@.len() < span_end(old(self).area, x, width) - x {
                s@.len() as int
            } else {
                span_end(old(self).area, x, width) - x
            },
            is_printable_ascii(s@) ==> forall|k: int|
                0 <= k < r.0 - x ==> #[trigger] final(self).cell(x + k, y as int) == styled(
                    Cell { symbol: s@[k], style: old(self).cell(x + k, y as int).style },
                    style,
                ),
    {
        let ghost before = *self;
        let right = self.area.x + self.area.width;
        let max_offset: u16 = if width < (right - x) as usize { x + width as u16 } else { right };
        let mut cur: u16 = x;
        assert(s@.skip(0) =~= s@);
        for c in it: s.chars()
            invariant_except_break
                is_printable_ascii(s@) ==> cur == x + it.index(),
                text_end(s@, x as int, max_offset as int) == text_end(s@.skip(it.index() as int), cur as int, max_offset as int),
                forall|cx: int|
                    cur <= cx ==> #[trigger] text_at(s@, x as int, max_offset as int, cx) == text_at(s@.skip(it.index() as int), cur as int, max_offset as int, cx),
            invariant
                it.seq() == s@,
                0 <= it.index() <= s@.len(),
                forall|cx: int|
                    x <= cx < cur ==> #[trigger] self.cell(cx, y as int) == text_cell(
                        text_at(s@, x as int, max_offset as int, cx),
                        before.cell(cx, y as int),
                        style,
                    ),
                is_printable_ascii(s@) ==> cur <= x + it.index(),
                is_printable_ascii(s@) ==> forall|k: int|
                    0 <= k < cur - x ==> #[trigger] self.cell(x + k, y as int) == styled(
                        Cell { symbol: s@[k], style: before.cell(x + k, y as int).style },
                        style,
                    ),
                before.wf(),
                before.area.has_cell(x as int, y as int),
                right == before.area.x + before.area.width,
                max_offset == span_end(before.area, x, width),
                x <= cur <= max_offset,
                self.wf(),
                self.unchanged_outside(&before, Rect { x, y, width: (cur - x) as u16, height: 1 }),
            ensures
                cur == text_end(s@, x as int, max_offset as int),
                is_printable_ascii(s@) ==> cur == x + if s@.len() < max_offset - x {
                    s@.len() as int
                } else {
                    max_offset - x
                },
        {
            let ghost idx = it.index() as int;
            proof {
                if is_printable_ascii(s@) {
                    assert(c == s@[cur - x]);
                }
                assert(idx < s@.len());
                assert(c == s@[idx]);
                assert(s@.skip(idx)[0] == c);
                assert(s@.skip(idx).drop_first() =~= s@.skip(idx + 1));
            }
            match char_width(c) {
                Some(w) => {
                    if w == 0 {
                    } else if w > (max_offset - cur) as usize {
                        break;
                    } else {
                        let ghost prev = *self;
                        self.set_cell(cur, y, c, style);
                        proof {
                            if is_printable_ascii(s@) {
                                assert forall|k: int| 0 <= k < cur + 1 - x implies #[trigger] self.cell(x + k, y as int) == styled(
                                    Cell { symbol: s@[k], style: before.cell(x + k, y as int).style },
                                    style,
                                ) by {
                                    assert(prev.cell(x + k, y as int) == self.cell(x + k, y as int) || k == cur - x);
                                }
                            }
                            assert(columns_of(c) == w);
                            assert(text_at(s@, x as int, max_offset as int, cur as int) == Some(c));
                            assert(prev.cell(cur as int, y as int) == before.cell(cur as int, y as int));
                            assert forall|cx: int| x <= cx <= cur implies #[trigger] self.cell(cx, y as int) == text_cell(
                                text_at(s@, x as int, max_offset as int, cx),
                                before.cell(cx, y as int),
                                style,
                            ) by {
                                if cx < cur {
                                    assert(prev.cell(cx, y as int) == self.cell(cx, y as int));
                                }
                            }
                        }
                        let end = cur + w as u16;
                        let mut k: u16 = cur + 1;
                        while k < end
                            invariant
                                before.wf(),
                                before.area.has_cell(x as int, y as int),
                                right == before.area.x + before.area.width,
                                max_offset == span_end(before.area, x, width),
                                x <= cur < end <= max_offset,
                                cur < k <= end,
                                self.wf(),
                                self.unchanged_outside(&before, Rect { x, y, width: (k - x) as u16, height: 1 }),
                                end == cur + w,
                                forall|cx: int| x <= cx <= cur ==> #[trigger] self.cell(cx, y as int) == text_cell(
                                    text_at(s@, x as int, max_offset as int, cx),
                                    before.cell(cx, y as int),
                                    style,
                                ),
                                forall|cx: int| cur < cx < k ==> #[trigger] self.cell(cx, y as int) == Cell::blank(),
                                is_printable_ascii(s@) ==> end == cur + 1,
                                is_printable_ascii(s@) ==> forall|kk: int|
                                    0 <= kk < cur + 1 - x ==> #[trigger] self.cell(x + kk, y as int) == styled(
                                        Cell { symbol: s@[kk], style: before.cell(x + kk, y as int).style },
                                        style,
                                    ),
                            decreases end - k,
                        {
                            self.put(k, y, Cell::reset());
                            k = k + 1;
                        }
                        proof {
                            assert forall|cx: int| x <= cx < end implies #[trigger] self.cell(cx, y as int) == text_cell(
                                text_at(s@, x as int, max_offset as int, cx),
                                before.cell(cx, y as int),
                                style,
                            ) by {
                                if cx > cur {
                                    assert(text_at(s@, x as int, max_offset as int, cx) == text_at(s@.skip(idx), cur as int, max_offset as int, cx));
                                    assert(self.cell(cx, y as int) == Cell::blank());
                                }
                            }
                            assert forall|cx: int| end <= cx implies #[trigger] text_at(s@, x as int, max_offset as int, cx) == text_at(
                                s@.skip(idx + 1),
                                end as int,
                                max_offset as int,
                                cx,
                            ) by {
                                assert(text_at(s@, x as int, max_offset as int, cx) == text_at(s@.skip(idx), cur as int, max_offset as int, cx));
                            }
                        }
                        cur = end;
                    }
                },
                None => {},
            }
        }
        (cur, y)
    }
}

/// Columns that character `c` takes: none for a control character.
pub open spec fn columns_of(c: char) -> int {
    match char_columns(c) {
        Some(w) => w as int,
        None => 0,
    }
}

/// The column after the last character of `s` written from column `x`,
/// where writing stops before the first character that would pass column
/// `e`; characters of no width are skipped.
pub open spec fn text_end(s: Seq<char>, x: int, e: int) -> int
    decreases s.len(),
{
    if s.len() == 0 {
        x
    } else if columns_of(s[0]) == 0 {
        text_end(s.drop_first(), x, e)
    } else if columns_of(s[0]) > e - x {
        x
    } else {
        text_end(s.drop_first(), x + columns_of(s[0]), e)
    }
}

/// The character of `s`, written from column `x` up to column `e`, that
/// starts at column `cx`, if one does; the other columns a wide character
/// covers are blanked.
pub open spec fn text_at(s: Seq<char>, x: int, e: int, cx: int) -> Option<char>
    decreases s.len(),
{
    if s.len() == 0 {
        None
    } else if columns_of(s[0]) == 0 {
        text_at(s.drop_first(), x, e, cx)
    } else if columns_of(s[0]) > e - x {
        None
    } else if cx == x {
        Some(s[0])
    } else if cx < x + columns_of(s[0]) {
        None
    } else {
        text_at(s.drop_first(), x + columns_of(s[0]), e, cx)
    }
}

/// Text written into no columns ends where it starts.
pub proof fn lemma_text_end_empty(s: Seq<char>, x: int, e: int)
    requires
        e <= x,
    ensures
        text_end(s, x, e) == x,
    decreases s.len(),
{
    if s.len() > 0 && columns_of(s[0]) == 0 {
        lemma_text_end_empty(s.drop_first(), x, e);
    }
}

/// What a cell that held `before` shows once text is written over it
/// with `style`: the character that starts there, or a blank.
pub open spec fn text_cell(at: Option<char>, before: Cell, style: Style) -> Cell {
    match at {
        Some(c) => styled(Cell { symbol: c, style: before.style }, style),
        None => Cell::blank(),
    }
}

/// Every character of `s` is printable ASCII, one column wide.
pub open spec fn is_printable_ascii(s: Seq<char>) -> bool {
    forall|k: int| 0 <= k < s.len() ==> 0x20 <= (#[trigger] s[k]) as u32 && (s[k] as u32) < 0x7f
}

/// A cell with `style` laid over its own.
pub open spec fn styled(c: Cell, style: Style) -> Cell {
    Cell { symbol: c.symbol, style: c.style.patch_spec(style) }
}

/// The column before which a string written from column `x` with at most
/// `width` columns stops: the smaller of `x + width` and the right edge.
pub open spec fn span_end(area: Rect, x: u16, width: usize) -> u16 {
    if x + width < area.x + area.width {
        (x + width) as u16
    } else {
        (area.x + area.width) as u16
    }
}

} // verus!
