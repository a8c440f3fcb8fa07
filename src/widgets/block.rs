use vstd::prelude::*;
use crate::buffer::{span_end, styled, lemma_text_end_empty, text_at, text_cell, text_end, Buffer, Cell};
use crate::layout::{Rect, sat_add, sat_sub};
use crate::style::{lemma_patch_twice, Style};
use crate::symbols::line::{self, LineSet};
use crate::widgets::borders::Borders;

verus! {

broadcast use lemma_patch_twice;

/// The kind of line a block's border is drawn with.
#[derive(Debug, Clone, Copy, PartialEq, Eq, Structural)]
pub enum BorderType {
    Plain,
    Rounded,
    Double,
    Thick,
}

impl BorderType {
    pub open spec fn line_symbols_spec(border_type: BorderType) -> LineSet {
        match border_type {
            BorderType::Plain => line::normal_spec(),
            BorderType::Rounded => line::rounded_spec(),
            BorderType::Double => line::double_spec(),
            BorderType::Thick => line::thick_spec(),
        }
    }

    /// The glyph table for a kind of border.
    pub fn line_symbols(border_type: BorderType) -> (r: LineSet)
        ensures
            r == BorderType::line_symbols_spec(border_type),
    {
        match border_type {
            BorderType::Plain => line::normal(),
            BorderType::Rounded => line::rounded(),
            BorderType::Double => line::double(),
            BorderType::Thick => line::thick(),
        }
    }
}

impl Default for BorderType {
    fn default() -> (r: BorderType)
        ensures
            r == BorderType::Plain,
    {
        BorderType::Plain
    }
}

/// Which member of a line set a border cell shows.
#[derive(Debug, Clone, Copy, PartialEq, Eq, Structural)]
pub enum BorderPart {
    Vertical,
    Horizontal,
    TopLeft,
    TopRight,
    BottomLeft,
    BottomRight,
}

pub open spec fn part_glyph(set: LineSet, part: BorderPart) -> char {
    match part {
        BorderPart::Vertical => set.vertical,
        BorderPart::Horizontal => set.horizontal,
        BorderPart::TopLeft => set.top_left,
        BorderPart::TopRight => set.top_right,
        BorderPart::BottomLeft => set.bottom_left,
        BorderPart::BottomRight => set.bottom_right,
    }
}

/// The border part drawn at cell `(cx, cy)` of `area` with the edges `b`,
/// if any. A corner shows a corner glyph only when both of its edges are
/// set; where edges meet otherwise, the bottom edge wins over the right,
/// the right over the top, and the top over the left.
pub open spec fn border_part(b: Borders, area: Rect, cx: int, cy: int) -> Option<BorderPart> {
    let left = area.x as int;
    let top = area.y as int;
    let last_col = area.x + area.width - 1;
    let last_row = area.y + area.height - 1;
    if b.left && b.top && cx == left && cy == top {
        Some(BorderPart::TopLeft)
    } else if b.left && b.bottom && cx == left && cy == last_row {
        Some(BorderPart::BottomLeft)
    } else if b.right && b.top && cx == last_col && cy == top {
        Some(BorderPart::TopRight)
    } else if b.right && b.bottom && cx == last_col && cy == last_row {
        Some(BorderPart::BottomRight)
    } else if b.bottom && cy == last_row {
        Some(BorderPart::Horizontal)
    } else if b.right && cx == last_col {
        Some(BorderPart::Vertical)
    } else if b.top && cy == top {
        Some(BorderPart::Horizontal)
    } else if b.left && cx == left {
        Some(BorderPart::Vertical)
    } else {
        None
    }
}

/// The content area that a block with edges `b`, titled or not, leaves
/// inside `area`.
pub open spec fn inner_spec(b: Borders, titled: bool, area: Rect) -> Rect {
    let a1 = if b.left {
        Rect {
            x: if sat_add(area.x, 1) < area.right_spec() { sat_add(area.x, 1) } else { area.right_spec() },
            width: sat_sub(area.width, 1),
            ..area
        }
    } else {
        area
    };
    let a2 = if b.top || titled {
        Rect {
            y: if sat_add(a1.y, 1) < a1.bottom_spec() { sat_add(a1.y, 1) } else { a1.bottom_spec() },
            height: sat_sub(a1.height, 1),
            ..a1
        }
    } else {
        a1
    };
    let a3 = if b.right { Rect { width: sat_sub(a2.width, 1), ..a2 } } else { a2 };
    if b.bottom { Rect { height: sat_sub(a3.height, 1), ..a3 } } else { a3 }
}

/// The cells of the top row that the title of `block` may be written over.
pub open spec fn title_span(block: Block, area: Rect) -> Rect {
    let lx: u16 = if block.borders.left { 1 } else { 0 };
    let rx: u16 = if block.borders.right { 1 } else { 0 };
    if block.title is Some {
        Rect { x: sat_add(area.x, lx), y: area.y, width: sat_sub(sat_sub(area.width, lx), rx), height: 1 }
    } else {
        Rect { x: area.x, y: area.y, width: 0, height: 0 }
    }
}

/// Sets the glyph of the cells of column `x` from row `top` up to, not
/// including, row `bottom`.
fn paint_column(buf: &mut Buffer, x: u16, top: u16, bottom: u16, symbol: char, style: Style)
    requires
        old(buf).wf(),
        old(buf).area.x <= x < old(buf).area.x + old(buf).area.width,
        old(buf).area.y <= top <= bottom <= old(buf).area.y + old(buf).area.height,
    ensures
        final(buf).wf(),
        final(buf).area == old(buf).area,
        forall|cx: int, cy: int|
            old(buf).area.has_cell(cx, cy) ==> #[trigger] final(buf).cell(cx, cy) == if cx == x && top <= cy < bottom {
                Cell { symbol, style: old(buf).cell(cx, cy).style.patch_spec(style) }
            } else {
                old(buf).cell(cx, cy)
            },
        forall|cx: int, cy: int|
            old(buf).area.has_cell(cx, cy) && !(cx == x && top <= cy < bottom) ==> #[trigger] final(buf).cell(cx, cy) == old(buf).cell(cx, cy),
{
    let ghost before = *buf;
    let mut yy: u16 = top;
    while yy < bottom
        invariant
            before.wf(),
            before.area.x <= x < before.area.x + before.area.width,
            before.area.y <= top <= yy <= bottom <= before.area.y + before.area.height,
            buf.wf(),
            buf.area == before.area,
            forall|cx: int, cy: int|
                before.area.has_cell(cx, cy) ==> #[trigger] buf.cell(cx, cy) == if cx == x && top <= cy < yy {
                    Cell { symbol, style: before.cell(cx, cy).style.patch_spec(style) }
                } else {
                    before.cell(cx, cy)
                },
            forall|cx: int, cy: int|
                before.area.has_cell(cx, cy) && !(cx == x && top <= cy < yy) ==> #[trigger] buf.cell(cx, cy) == before.cell(cx, cy),
        decreases bottom - yy,
    {
        buf.set_cell(x, yy, symbol, style);
        yy = yy + 1;
    }
}

/// Sets the glyph of the cells of row `y` from column `left` up to, not
/// including, column `right`.
fn paint_row(buf: &mut Buffer, y: u16, left: u16, right: u16, symbol: char, style: Style)
    requires
        old(buf).wf(),
        old(buf).area.y <= y < old(buf).area.y + old(buf).area.height,
        old(buf).area.x <= left <= right <= old(buf).area.x + old(buf).area.width,
    ensures
        final(buf).wf(),
        final(buf).area == old(buf).area,
        forall|cx: int, cy: int|
            old(buf).area.has_cell(cx, cy) ==> #[trigger] final(buf).cell(cx, cy) == if cy == y && left <= cx < right {
                Cell { symbol, style: old(buf).cell(cx, cy).style.patch_spec(style) }
            } else {
                old(buf).cell(cx, cy)
            },
        forall|cx: int, cy: int|
            old(buf).area.has_cell(cx, cy) && !(cy == y && left <= cx < right) ==> #[trigger] final(buf).cell(cx, cy) == old(buf).cell(cx, cy),
{
    let ghost before = *buf;
    let mut xx: u16 = left;
    while xx < right
        invariant
            before.wf(),
            before.area.y <= y < before.area.y + before.area.height,
            before.area.x <= left <= xx <= right <= before.area.x + before.area.width,
            buf.wf(),
            buf.area == before.area,
            forall|cx: int, cy: int|
                before.area.has_cell(cx, cy) ==> #[trigger] buf.cell(cx, cy) == if cy == y && left <= cx < xx {
                    Cell { symbol, style: before.cell(cx, cy).style.patch_spec(style) }
                } else {
                    before.cell(cx, cy)
                },
            forall|cx: int, cy: int|
                before.area.has_cell(cx, cy) && !(cy == y && left <= cx < xx) ==> #[trigger] buf.cell(cx, cy) == before.cell(cx, cy),
        decreases right - xx,
    {
        buf.set_cell(xx, y, symbol, style);
        xx = xx + 1;
    }
}

/// A box around other content: optional border lines on each edge and an
/// optional title on the top row.
#[derive(Debug, Clone, Copy, PartialEq)]
pub struct Block<'a> {
    /// Title written on the top row, after the left border if there is one.
    pub title: Option<&'a str>,
    /// Style of the title text.
    pub title_style: Style,
    /// Edges that carry a border line.
    pub borders: Borders,
    /// Style of the border lines.
    pub border_style: Style,
    /// Kind of line the border is drawn with.
    pub border_type: BorderType,
    /// Style laid over the whole block.
    pub style: Style,
}

impl<'a> Default for Block<'a> {
    fn default() -> (r: Block<'a>)
        ensures
            r.title is None,
            r.title_style == Style::default_spec(),
            r.borders == Borders::none_spec(),
            r.border_style == Style::default_spec(),
            r.border_type == BorderType::Plain,
            r.style == Style::default_spec(),
    {
        Block {
            title: None,
            title_style: Style::default(),
            borders: Borders::none(),
            border_style: Style::default(),
            border_type: BorderType::Plain,
            style: Style::default(),
        }
    }
}

impl<'a> Block<'a> {
    pub open spec fn inner_rect(&self, area: Rect) -> Rect {
        inner_spec(self.borders, self.title is Some, area)
    }

    pub fn title(self, title: &'a str) -> (r: Block<'a>)
        ensures
            r == (Block { title: Some(title), ..self }),
    {
        Block { title: Some(title), ..self }
    }

    pub fn retitle(&mut self, title: &'a str)
        ensures
            *final(self) == (Block { title: Some(title), ..*old(self) }),
    {
        self.title = Some(title);
    }

    pub fn untitle(&mut self)
        ensures
            *final(self) == (Block { title: None, ..*old(self) }),
    {
        self.title = None;
    }

    /// Styles the title, if there is one; without a title, nothing changes.
    pub fn title_style(self, style: Style) -> (r: Block<'a>)
        ensures
            r == if self.title is Some {
                Block { title_style: style, ..self }
            } else {
                self
            },
    {
        if self.title.is_some() {
            Block { title_style: style, ..self }
        } else {
            self
        }
    }

    pub fn border_style(self, style: Style) -> (r: Block<'a>)
        ensures
            r == (Block { border_style: style, ..self }),
    {
        Block { border_style: style, ..self }
    }

    pub fn style(self, style: Style) -> (r: Block<'a>)
        ensures
            r == (Block { style, ..self }),
    {
        Block { style, ..self }
    }

    pub fn borders(self, flag: Borders) -> (r: Block<'a>)
        ensures
            r == (Block { borders: flag, ..self }),
    {
        Block { borders: flag, ..self }
    }

    pub fn set_borders(&mut self, flag: Borders)
        ensures
            *final(self) == (Block { borders: flag, ..*old(self) }),
    {
        self.borders = flag;
    }

    pub fn border_type(self, border_type: BorderType) -> (r: Block<'a>)
        ensures
            r == (Block { border_type, ..self }),
    {
        Block { border_type, ..self }
    }

    /// What a cell of `area` shows once the block's style and border are
    /// drawn over `c`: its border glyph in the border style laid over the
    /// block's style, or, off the border, `c` under the block's style.
    pub open spec fn framed_cell(&self, area: Rect, c: Cell, cx: int, cy: int) -> Cell {
        match border_part(self.borders, area, cx, cy) {
            Some(p) => Cell {
                symbol: part_glyph(BorderType::line_symbols_spec(self.border_type), p),
                style: c.style.patch_spec(self.style).patch_spec(self.border_style),
            },
            None => styled(c, self.style),
        }
    }

    /// The column after the end of the title as written on the top row of
    /// `area`, cut to the title span.
    pub open spec fn title_end(&self, area: Rect) -> int {
        let span = title_span(*self, area);
        text_end(self.title->0@, span.x as int, span.x + span.width)
    }

    /// Whether the title is written over cell `(cx, cy)`.
    pub open spec fn under_title(&self, area: Rect, cx: int, cy: int) -> bool {
        &&& self.title is Some
        &&& cy == area.y
        &&& title_span(*self, area).x <= cx < self.title_end(area)
    }

    /// What drawing the block over `area` makes of `before`: every cell of
    /// `area` not under the title is framed; the title is laid out from the
    /// left of its span, cut to it, in the title style; nothing outside
    /// `area` changes.
    pub open spec fn rendered(&self, area: Rect, before: Buffer, after: Buffer) -> bool {
        let span = title_span(*self, area);
        &&& after.wf()
        &&& after.unchanged_outside(&before, area)
        &&& forall|cx: int, cy: int|
            area.has_cell(cx, cy) && !self.under_title(area, cx, cy) ==> #[trigger] after.cell(cx, cy) == self.framed_cell(
                area,
                before.cell(cx, cy),
                cx,
                cy,
            )
        &&& forall|cx: int, cy: int|
            area.has_cell(cx, cy) && self.under_title(area, cx, cy) ==> #[trigger] after.cell(cx, cy) == text_cell(
                text_at(self.title->0@, span.x as int, span.x + span.width, cx),
                self.framed_cell(area, before.cell(cx, cy), cx, cy),
                self.title_style,
            )
    }

    /// Paints the border lines of `area`: each set edge, then each corner
    /// whose two edges are set.
    fn paint_borders(&self, area: Rect, buf: &mut Buffer)
        requires
            old(buf).wf(),
            old(buf).area.holds(area),
            area.width > 0,
            area.height > 0,
        ensures
            final(buf).wf(),
            final(buf).area == old(buf).area,
            forall|cx: int, cy: int|
                old(buf).area.has_cell(cx, cy) ==> #[trigger] final(buf).cell(cx, cy) == if area.has_cell(cx, cy) && border_part(self.borders, area, cx, cy) is Some {
                    Cell {
                        symbol: part_glyph(BorderType::line_symbols_spec(self.border_type), border_part(self.borders, area, cx, cy)->0),
                        style: old(buf).cell(cx, cy).style.patch_spec(self.border_style),
                    }
                } else {
                    old(buf).cell(cx, cy)
                },
    {
        let ghost b1 = *buf;
        let symbols = BorderType::line_symbols(self.border_type);
        let left = area.left();
        let top = area.top();
        let right = area.right();
        let bottom = area.bottom();

        if self.borders.intersects(Borders::left()) {
            paint_column(buf, left, top, bottom, symbols.vertical, self.border_style);
        }
        if self.borders.intersects(Borders::top()) {
            paint_row(buf, top, left, right, symbols.horizontal, self.border_style);
        }
        if self.borders.intersects(Borders::right()) {
            paint_column(buf, right - 1, top, bottom, symbols.vertical, self.border_style);
        }
        if self.borders.intersects(Borders::bottom()) {
            paint_row(buf, bottom - 1, left, right, symbols.horizontal, self.border_style);
        }

        if self.borders.contains(Borders::right().union(Borders::bottom())) {
            buf.set_cell(right - 1, bottom - 1, symbols.bottom_right, self.border_style);
        }
        if self.borders.contains(Borders::right().union(Borders::top())) {
            buf.set_cell(right - 1, top, symbols.top_right, self.border_style);
        }
        if self.borders.contains(Borders::left().union(Borders::bottom())) {
            buf.set_cell(left, bottom - 1, symbols.bottom_left, self.border_style);
        }
        if self.borders.contains(Borders::left().union(Borders::top())) {
            buf.set_cell(left, top, symbols.top_left, self.border_style);
        }
    }

    /// Draws the block over `area`: its style over every cell, then each
    /// edge that is set, then the corners whose two edges are set, then the
    /// title. An area without cells is left alone.
    pub fn render(&self, area: Rect, buf: &mut Buffer)
        requires
            old(buf).wf(),
            old(buf).area.holds(area),
        ensures
            self.rendered(area, *old(buf), *final(buf)),
    {
        if area.area() == 0 {
            assert(area.width == 0 || area.height == 0) by (nonlinear_arith)
                requires
                    area.width * area.height == 0,
            ;
            return;
        }
        assert(area.width > 0 && area.height > 0) by (nonlinear_arith)
            requires
                area.width * area.height != 0,
        ;
        let ghost b0 = *buf;
        buf.set_style(area, self.style);
        self.paint_borders(area, buf);
        let ghost b2 = *buf;
        assert forall|cx: int, cy: int| area.has_cell(cx, cy) implies #[trigger] b2.cell(cx, cy) == self.framed_cell(area, b0.cell(cx, cy), cx, cy) by {}

        match self.title {
            Some(title) => {
                let lx: u16 = if self.borders.intersects(Borders::left()) { 1 } else { 0 };
                let rx: u16 = if self.borders.intersects(Borders::right()) { 1 } else { 0 };
                let width = area.width.saturating_sub(lx).saturating_sub(rx);
                if width > 0 {
                    let r = buf.set_stringn(area.left() + lx, area.top(), title, width as usize, self.title_style);
                    proof {
                        let span = title_span(*self, area);
                        assert(span.x == area.x + lx && span.width == width);
                        assert(span_end(b2.area, span.x, width as usize) == span.x + span.width);
                        assert forall|cx: int, cy: int| area.has_cell(cx, cy) implies #[trigger] buf.cell(cx, cy) == if self.under_title(area, cx, cy) {
                            text_cell(
                                text_at(title@, span.x as int, span.x + span.width, cx),
                                self.framed_cell(area, b0.cell(cx, cy), cx, cy),
                                self.title_style,
                            )
                        } else {
                            self.framed_cell(area, b0.cell(cx, cy), cx, cy)
                        } by {
                            assert(b2.cell(cx, cy) == self.framed_cell(area, b0.cell(cx, cy), cx, cy));
                        }
                    }
                } else {
                    proof {
                        let span = title_span(*self, area);
                        assert forall|cx: int, cy: int| area.has_cell(cx, cy) implies !self.under_title(area, cx, cy) by {
                            lemma_text_end_empty(title@, span.x as int, span.x + span.width);
                        }
                    }
                }
            },
            None => {},
        }
    }

    /// The area left for content inside `area` once the borders and the
    /// title row are taken off.
    pub fn inner(&self, area: Rect) -> (r: Rect)
        ensures
            r == self.inner_rect(area),
    {
        let mut inner = area;
        if self.borders.intersects(Borders::left()) {
            inner.x = inner.x.saturating_add(1).min(inner.right());
            inner.width = inner.width.saturating_sub(1);
        }
        if self.borders.intersects(Borders::top()) || self.title.is_some() {
            inner.y = inner.y.saturating_add(1).min(inner.bottom());
            inner.height = inner.height.saturating_sub(1);
        }
        if self.borders.intersects(Borders::right()) {
            inner.width = inner.width.saturating_sub(1);
        }
        if self.borders.intersects(Borders::bottom()) {
            inner.height = inner.height.saturating_sub(1);
        }
        inner
    }
}

/// Whatever the edges and the title, the inner area lies within `area`:
/// it starts no further left or up, and ends no further right or down.
pub proof fn inner_stays_within(b: Borders, titled: bool, area: Rect)
    ensures
        area.x <= inner_spec(b, titled, area).x,
        area.y <= inner_spec(b, titled, area).y,
        inner_spec(b, titled, area).width <= area.width,
        inner_spec(b, titled, area).height <= area.height,
        area.fits() ==> inner_spec(b, titled, area).x + inner_spec(b, titled, area).width <= area.x + area.width,
        area.fits() ==> inner_spec(b, titled, area).y + inner_spec(b, titled, area).height <= area.y + area.height,
        inner_spec(b, titled, area).right_spec() <= area.right_spec(),
        inner_spec(b, titled, area).bottom_spec() <= area.bottom_spec(),
{
}

/// A corner glyph is drawn only where both edges that meet there are set.
pub proof fn corner_needs_both_edges(b: Borders, area: Rect, cx: int, cy: int)
    ensures
        border_part(b, area, cx, cy) == Some(BorderPart::TopLeft) ==> b.top && b.left,
        border_part(b, area, cx, cy) == Some(BorderPart::TopRight) ==> b.top && b.right,
        border_part(b, area, cx, cy) == Some(BorderPart::BottomLeft) ==> b.bottom && b.left,
        border_part(b, area, cx, cy) == Some(BorderPart::BottomRight) ==> b.bottom && b.right,
{
}

} // verus!
