use vstd::prelude::*;
use vstd::arithmetic::div_mod::lemma_fundamental_div_mod_converse;
use crate::buffer::{is_printable_ascii, span_end, styled, text_at, text_cell, text_end, Buffer, Cell};
use crate::layout::Rect;
use crate::style::Style;
use crate::symbols::bar::{self, BarSet};
use crate::text_width::{str_columns, str_width};
use crate::widgets::bars::{lemma_scale_fits, bar_cell, bar_cells_within, bar_of, is_bar_cell, paint_bars, row_level};
use crate::widgets::block::{inner_stays_within, Block};
use crate::widgets::sparkline::{max_value, spark_height};

verus! {

/// The decimal digit `d`.
pub open spec fn digit(d: nat) -> char {
    if d == 0 {
        '0'
    } else if d == 1 {
        '1'
    } else if d == 2 {
        '2'
    } else if d == 3 {
        '3'
    } else if d == 4 {
        '4'
    } else if d == 5 {
        '5'
    } else if d == 6 {
        '6'
    } else if d == 7 {
        '7'
    } else if d == 8 {
        '8'
    } else {
        '9'
    }
}

/// The decimal digits are printable characters, and there is at least one.
pub proof fn lemma_decimal_printable(n: nat)
    ensures
        is_printable_ascii(decimal(n)),
        decimal(n).len() >= 1,
    decreases n,
{
    if n >= 10 {
        lemma_decimal_printable(n / 10);
        let d = decimal(n / 10);
        assert forall|k: int| 0 <= k < decimal(n).len() implies 0x20 <= (#[trigger] decimal(n)[k]) as u32 && (decimal(n)[k] as u32) < 0x7f by {
            if k < d.len() {
                assert(decimal(n)[k] == d[k]);
            }
        }
    }
}

/// `n` written in decimal, without sign or leading zeros.
pub open spec fn decimal(n: nat) -> Seq<char>
    decreases n,
{
    if n < 10 {
        seq![digit(n)]
    } else {
        decimal(n / 10).push(digit(n % 10))
    }
}

/// Relies on the `Display` impl of `u64`, through `format!`: the decimal
/// digits of `v`, with no sign, padding or separators.
#[verifier::external_body]
fn decimal_string(v: u64) -> (r: String)
    ensures
        r@ == decimal(v as nat),
{
    format!("{}", v)
}

/// How many bars of `bar_width` columns, `bar_gap` apart, fit in `width`
/// columns, at most `len`; none when both are zero.
pub open spec fn bar_count(width: int, bar_width: int, bar_gap: int, len: int) -> int {
    if bar_width + bar_gap == 0 {
        0
    } else if width / (bar_width + bar_gap) < len {
        width / (bar_width + bar_gap)
    } else {
        len
    }
}

/// Column `k` of bar `i`, for bars `stride` columns apart from the left of
/// `area`.
pub open spec fn bar_column(area: Rect, stride: int, i: int, k: int) -> int {
    area.x + i * stride + k
}

/// How many characters of a label of `len` printable characters fit under
/// a bar `bar_width` columns wide.
pub open spec fn label_fit(len: int, bar_width: int) -> int {
    if len < bar_width {
        len
    } else {
        bar_width
    }
}

/// The height in eighths of a bar of value `v` in a chart `height` rows
/// high, whose top row but one stands for `max` (read as one when zero).
pub open spec fn bar_height(v: u64, height: int, max: u64) -> int {
    v * (height - 1) * 8 / (if max == 0 { 1 } else { max as int })
}

/// The largest value of `data`, or zero when it is empty.
fn max_data_value(data: &[(&str, u64)]) -> (r: u64)
    ensures
        r == max_value(data@.map_values(|d: (&str, u64)| d.1)),
{
    let ghost vals = data@.map_values(|d: (&str, u64)| d.1);
    let mut m: u64 = 0;
    let mut i: usize = 0;
    while i < data.len()
        invariant
            i <= data@.len(),
            vals == data@.map_values(|d: (&str, u64)| d.1),
            m == max_value(vals.subrange(0, i as int)),
        decreases data@.len() - i,
    {
        assert(vals.subrange(0, i + 1).drop_last() == vals.subrange(0, i as int));
        let (_, v) = data[i];
        if m < v {
            m = v;
        }
        i = i + 1;
    }
    assert(vals.subrange(0, data@.len() as int) == vals);
    m
}

/// The height in eighths of each of the first `n` bars of `data` over
/// `rows + 1` rows.
fn bar_heights(data: &[(&str, u64)], n: usize, rows: u16, max: u64) -> (r: Vec<u128>)
    requires
        n <= data@.len(),
    ensures
        r@.len() == n,
        forall|k: int| 0 <= k < n ==> r@[k] == bar_height(data@[k].1, rows + 1, max),
{
    let divisor: u64 = if max > 1 { max } else { 1 };
    let mut heights: Vec<u128> = Vec::new();
    let mut i: usize = 0;
    while i < n
        invariant
            n <= data@.len(),
            i <= n,
            divisor == if max == 0 { 1 } else { max },
            heights@.len() == i,
            forall|k: int| 0 <= k < i ==> heights@[k] == bar_height(data@[k].1, rows + 1, max),
        decreases n - i,
    {
        let (_, v) = data[i];
        proof {
            lemma_scale_fits(v, rows);
        }
        heights.push((v as u128) * (rows as u128) * 8 / (divisor as u128));
        i = i + 1;
    }
    heights
}

/// A zero top value draws nothing: a sparkline whose top stands for zero,
/// and a bar or a sparkline point of value zero, are empty in every row.
pub proof fn zero_draws_empty(set: BarSet, v: u64, max: u64, rows: int, k: int)
    requires
        0 <= k,
    ensures
        set.symbol_spec(row_level(spark_height(v, rows, 0), k)) == set.empty,
        set.symbol_spec(row_level(spark_height(0, rows, max), k)) == set.empty,
        set.symbol_spec(row_level(bar_height(0, rows, max), k)) == set.empty,
{
    assert(0 * rows * 8 == 0);
    assert(0 * (rows - 1) * 8 == 0);
}

/// Bars side by side, each with a text label beneath and its value over
/// its foot, drawn in eighths of a cell.
#[derive(Debug, Clone)]
pub struct BarChart<'a> {
    /// Block to wrap the chart in.
    pub block: Option<Block<'a>>,
    /// Columns of each bar.
    pub bar_width: u16,
    /// Columns between two bars.
    pub bar_gap: u16,
    /// The glyphs the bars are drawn with.
    pub bar_set: BarSet,
    /// Style of the bars.
    pub bar_style: Style,
    /// Style of the values written over the foot of each bar.
    pub value_style: Style,
    /// Style of the labels under each bar.
    pub label_style: Style,
    /// Style laid over the whole chart.
    pub style: Style,
    /// The (label, value) pairs, one bar each, from the left. Set with
    /// `set_data`, which keeps `values` in step.
    pub data: &'a [(&'a str, u64)],
    /// The value a bar reaching the top stands for; the largest value when
    /// unset.
    pub max: Option<u64>,
    /// The decimal text of each value of `data`.
    pub values: Vec<String>,
}

impl<'a> Default for BarChart<'a> {
    fn default() -> (r: BarChart<'a>)
        ensures
            r.wf(),
            r.block is None,
            r.max is None,
            r.data@.len() == 0,
            r.bar_width == 1,
            r.bar_gap == 1,
            r.bar_set == bar::nine_levels_spec(),
            r.bar_style == Style::default_spec(),
            r.value_style == Style::default_spec(),
            r.label_style == Style::default_spec(),
            r.style == Style::default_spec(),
    {
        BarChart {
            block: None,
            max: None,
            data: &[],
            values: Vec::new(),
            bar_style: Style::default(),
            bar_width: 1,
            bar_gap: 1,
            bar_set: bar::nine_levels(),
            value_style: Style::default(),
            label_style: Style::default(),
            style: Style::default(),
        }
    }
}

impl<'a> BarChart<'a> {
    /// `values` holds the decimal text of each value of `data`.
    pub open spec fn wf(&self) -> bool {
        &&& self.values@.len() == self.data@.len()
        &&& forall|i: int| 0 <= i < self.data@.len() ==> #[trigger] self.values@[i]@ == decimal(self.data@[i].1 as nat)
    }

    /// The value a bar reaching the top stands for: the one set, else the
    /// largest value, else zero.
    pub open spec fn resolved_max(&self) -> u64 {
        match self.max {
            Some(v) => v,
            None => max_value(self.data@.map_values(|d: (&str, u64)| d.1)),
        }
    }

    /// The area the bars and labels are drawn in, inside `area`.
    pub open spec fn chart_area(&self, area: Rect) -> Rect {
        match self.block {
            Some(b) => b.inner_rect(area),
            None => area,
        }
    }

    /// Whether bar `i` gets its value written over its foot: the value is
    /// not zero and its text is narrower than the bar.
    pub open spec fn value_shown(&self, i: int) -> bool {
        self.data@[i].1 != 0 && str_columns(self.values@[i]@) < self.bar_width
    }

    pub fn data(self, data: &'a [(&'a str, u64)]) -> (r: BarChart<'a>)
        ensures
            r.wf(),
            r == (BarChart { data, values: r.values, ..self }),
    {
        let mut c = self;
        c.set_data(data);
        c
    }

    /// Replaces the data, and the text of each value with it.
    pub fn set_data(&mut self, data: &'a [(&'a str, u64)])
        ensures
            final(self).wf(),
            *final(self) == (BarChart { data, values: final(self).values, ..*old(self) }),
    {
        self.data = data;
        let mut values: Vec<String> = Vec::new();
        let mut i: usize = 0;
        while i < data.len()
            invariant
                i <= data@.len(),
                values@.len() == i,
                forall|k: int| 0 <= k < i ==> #[trigger] values@[k]@ == decimal(data@[k].1 as nat),
            decreases data@.len() - i,
        {
            let (_, v) = data[i];
            values.push(decimal_string(v));
            i = i + 1;
        }
        self.values = values;
    }

    /// The three stages of drawing over `area`: `style` laid over it
    /// (`b0` to `b1`), the block drawn over it if there is one (`b1` to
    /// `b2`), and the bars, values and labels drawn inside the block's
    /// inner area (`b2` to `b3`).
    pub open spec fn render_stages(&self, area: Rect, b0: Buffer, b1: Buffer, b2: Buffer, b3: Buffer) -> bool {
        &&& b0.styled_over(area, self.style, b1)
        &&& match self.block {
            Some(b) => b.rendered(area, b1, b2),
            None => b2 == b1,
        }
        &&& self.chart_drawn(self.chart_area(area), b2, b3)
    }

    /// Lays `style` over `area`, draws the block, if any, which is used up,
    /// then, where the area inside it has two rows or more, as many bars as
    /// fit from its left: each bar is `value * (rows - 1) * 8 / max` eighths
    /// high over all rows but the last, its value is written centred over
    /// its foot when the value is not zero and its text is narrower than
    /// the bar, and its label, cut to the bar's width, goes on the last row.
    pub fn render(&mut self, area: Rect, buf: &mut Buffer)
        requires
            old(self).wf(),
            old(buf).wf(),
            old(buf).area.holds(area),
        ensures
            *final(self) == (BarChart { block: None, ..*old(self) }),
            final(buf).unchanged_outside(old(buf), area),
            exists|b1: Buffer, b2: Buffer| #[trigger] old(self).render_stages(area, *old(buf), b1, b2, *final(buf)),
    {
        let ghost b0 = *buf;
        let ghost old_self = *self;
        buf.set_style(area, self.style);
        let ghost b1 = *buf;
        let chart_area = match self.block {
            Some(b) => {
                let inner_area = b.inner(area);
                b.render(area, buf);
                proof {
                    inner_stays_within(b.borders, b.title is Some, area);
                }
                inner_area
            },
            None => area,
        };
        let ghost b2 = *buf;
        self.draw_chart(chart_area, buf);
        self.block = None;
        proof {
            assert(b0.styled_over(area, old_self.style, b1));
            assert(match old_self.block {
                Some(b) => b.rendered(area, b1, b2),
                None => b2 == b1,
            });
            assert(old_self.chart_area(area) == chart_area);
            assert(old_self.chart_drawn(chart_area, b2, *buf));
            assert(old_self.render_stages(area, b0, b1, b2, *buf));
            assert forall|cx: int, cy: int| b0.area.has_cell(cx, cy) && !area.has_cell(cx, cy) implies #[trigger] buf.cell(cx, cy)
                == b0.cell(cx, cy) by {
                assert(b2.cell(cx, cy) == b0.cell(cx, cy));
            }
        }
    }

    /// What drawing the bars, values and labels inside `chart` makes of
    /// `before`. With fewer than two rows nothing changes. Otherwise only
    /// the cells of the bars that fit change: over all rows but the last,
    /// each takes its bar glyph in the bar style, except where the value
    /// text lies over a bar's foot; the last row holds the labels.
    pub open spec fn chart_drawn(&self, chart: Rect, before: Buffer, after: Buffer) -> bool {
        let h = chart.height as int;
        let stride = self.bar_width + self.bar_gap;
        let bw = self.bar_width as int;
        let n = bar_count(chart.width as int, bw, self.bar_gap as int, self.data@.len() as int);
        &&& after.wf()
        &&& after.unchanged_outside(&before, chart)
        &&& forall|cx: int, cy: int|
            before.area.has_cell(cx, cy) && !(h >= 2 && is_bar_cell(chart, stride, bw, n, h, cx, cy)) ==> #[trigger] after.cell(cx, cy)
                == before.cell(cx, cy)
        &&& h >= 2 ==> forall|cx: int, cy: int|
            is_bar_cell(chart, stride, bw, n, h - 1, cx, cy) && !(cy == chart.y + h - 2 && self.in_value_text(chart, stride, bar_of(chart, stride, cx), cx))
                ==> #[trigger] after.cell(cx, cy) == bar_cell(
                before.cell(cx, cy),
                self.bar_set,
                self.bar_style,
                bar_height(self.data@[bar_of(chart, stride, cx)].1, h, self.resolved_max()),
                h - 1,
                cy - chart.y,
            )
        &&& h >= 2 ==> forall|i: int, k: int|
            0 <= i < n && self.value_shown(i) && 0 <= k < self.value_fit(i) ==> #[trigger] after.cell(self.value_column(chart, stride, i) + k, chart.y + h - 2)
                == styled(
                Cell {
                    symbol: self.values@[i]@[k],
                    style: before.cell(self.value_column(chart, stride, i) + k, chart.y + h - 2).style.patch_spec(self.bar_style),
                },
                self.value_style,
            )
        &&& h >= 2 ==> forall|i: int, k: int|
            0 <= i < n && 0 <= k < bw ==> #[trigger] after.cell(bar_column(chart, stride, i, k), chart.y + h - 1) == self.label_cell(
                chart,
                stride,
                i,
                k,
                before.cell(bar_column(chart, stride, i, k), chart.y + h - 1),
            )
    }

    /// Draws the bars, values and labels inside `chart_area`.
    fn draw_chart(&self, chart_area: Rect, buf: &mut Buffer)
        requires
            self.wf(),
            old(buf).wf(),
            old(buf).area.holds(chart_area),
        ensures
            self.chart_drawn(chart_area, *old(buf), *final(buf)),
    {
        let ghost b2 = *buf;
        if chart_area.height < 2 {
            return;
        }
        let max: u64 = match self.max {
            Some(v) => v,
            None => max_data_value(self.data),
        };
        let stride: u32 = self.bar_width as u32 + self.bar_gap as u32;
        let n: usize = if stride == 0 {
            0
        } else if ((chart_area.width as u32 / stride) as usize) < self.data.len() {
            (chart_area.width as u32 / stride) as usize
        } else {
            self.data.len()
        };
        let stride16: u16 = if stride <= 0xffff { stride as u16 } else { 0 };
        proof {
            if stride > 0 {
                let w = chart_area.width as int;
                let s = stride as int;
                vstd::arithmetic::div_mod::lemma_fundamental_div_mod(w, s);
                assert((w / s) * s <= w) by (nonlinear_arith)
                    requires
                        w == s * (w / s) + w % s,
                        0 <= w % s,
                ;
                assert(n * s <= (w / s) * s) by (nonlinear_arith)
                    requires
                        0 <= n <= w / s,
                        s > 0,
                ;
                if stride > 0xffff {
                    vstd::arithmetic::div_mod::lemma_basic_div(w, s);
                    assert(w / s == 0);
                }
            }
        }
        let rows: u16 = chart_area.height - 1;
        let ghost n_spec = bar_count(chart_area.width as int, self.bar_width as int, self.bar_gap as int, self.data@.len() as int);
        assert(n == n_spec);
        assert(max == self.resolved_max());
        let mut heights = bar_heights(self.data, n, rows, max);
        paint_bars(buf, chart_area, &mut heights, self.bar_width, stride16, rows, self.bar_set, self.bar_style);
        let ghost b3 = *buf;
        proof {
            assert forall|cx: int, cy: int| #[trigger] b3.cell(cx, cy) != b2.cell(cx, cy) && b2.area.has_cell(cx, cy)
                implies chart_area.has_cell(cx, cy) by {
                if is_bar_cell(chart_area, stride16 as int, self.bar_width as int, n as int, rows as int, cx, cy) {
                    bar_cells_within(chart_area, stride16 as int, self.bar_width as int, n as int, rows as int, cx, cy);
                }
            }
        }
        self.write_labels(buf, chart_area, n, stride16);
        let ghost b4 = *buf;
        proof {
            let stride_spec = self.bar_width + self.bar_gap;
            let h = chart_area.height as int;
            let bw = self.bar_width as int;
            let s = stride16 as int;
            assert(n > 0 ==> s == stride_spec);
            assert forall|cx: int, cy: int|
                b2.area.has_cell(cx, cy) && !(h >= 2 && is_bar_cell(chart_area, stride_spec, bw, n as int, h, cx, cy)) implies #[trigger] b4.cell(cx, cy)
                    == b2.cell(cx, cy) by {
                assert(!is_bar_cell(chart_area, s, bw, n as int, h, cx, cy));
                assert(!is_bar_cell(chart_area, s, bw, n as int, rows as int, cx, cy));
                assert(b4.cell(cx, cy) == b3.cell(cx, cy));
            }
            assert forall|cx: int, cy: int|
                is_bar_cell(chart_area, stride_spec, bw, n as int, h - 1, cx, cy) && !(cy == chart_area.y + h - 2 && self.in_value_text(chart_area, stride_spec, bar_of(chart_area, stride_spec, cx), cx))
                    implies #[trigger] b4.cell(cx, cy) == bar_cell(b2.cell(cx, cy), self.bar_set, self.bar_style,
                    bar_height(self.data@[bar_of(chart_area, stride_spec, cx)].1, h, self.resolved_max()), h - 1, cy - chart_area.y) by {
                bar_cells_within(chart_area, stride_spec, bw, n as int, h - 1, cx, cy);
                assert(is_bar_cell(chart_area, s, bw, n as int, rows as int, cx, cy));
                assert(b4.cell(cx, cy) == b3.cell(cx, cy));
            }
            assert forall|i: int, k: int|
                0 <= i < n && self.value_shown(i) && 0 <= k < self.value_fit(i) implies #[trigger] b4.cell(self.value_column(chart_area, stride_spec, i) + k, chart_area.y + h - 2)
                    == styled(
                    Cell {
                        symbol: self.values@[i]@[k],
                        style: b2.cell(self.value_column(chart_area, stride_spec, i) + k, chart_area.y + h - 2).style.patch_spec(self.bar_style),
                    },
                    self.value_style,
                ) by {
                let c = self.value_column(chart_area, stride_spec, i) + k;
                let off = c - bar_column(chart_area, s, i, 0);
                assert(0 <= off < bw);
                assert(s * i == i * s) by (nonlinear_arith);
                lemma_fundamental_div_mod_converse(c - chart_area.x, s, i, off);
                assert(is_bar_cell(chart_area, s, bw, n as int, rows as int, c, chart_area.y + h - 2));
                bar_cells_within(chart_area, s, bw, n as int, rows as int, c, chart_area.y + h - 2);
            }
            assert forall|i: int, k: int|
                0 <= i < n && 0 <= k < bw implies #[trigger] b4.cell(bar_column(chart_area, stride_spec, i, k), chart_area.y + h - 1) == self.label_cell(
                    chart_area,
                    stride_spec,
                    i,
                    k,
                    b2.cell(bar_column(chart_area, stride_spec, i, k), chart_area.y + h - 1),
                ) by {
                let c = bar_column(chart_area, s, i, k);
                assert(i * s + s <= n * s) by (nonlinear_arith)
                    requires
                        0 <= i < n,
                        s >= 0,
                ;
                assert(b2.area.has_cell(c, chart_area.y + h - 1));
                assert(!is_bar_cell(chart_area, s, bw, n as int, rows as int, c, chart_area.y + h - 1));
                assert(b3.cell(c, chart_area.y + h - 1) == b2.cell(c, chart_area.y + h - 1));
            }
            assert forall|cx: int, cy: int| b2.area.has_cell(cx, cy) && !chart_area.has_cell(cx, cy) implies #[trigger] b4.cell(cx, cy)
                == b2.cell(cx, cy) by {
                if is_bar_cell(chart_area, s, bw, n as int, h, cx, cy) {
                    bar_cells_within(chart_area, s, bw, n as int, h, cx, cy);
                }
                assert(b3.cell(cx, cy) == b2.cell(cx, cy));
            }
        }
    }

    /// What the label pass leaves at column `k` of bar `i` on the last
    /// row, over a cell that held `before`: the label laid out over the
    /// bar's width, then spaces, all in the label style.
    pub open spec fn label_cell(&self, chart: Rect, stride: int, i: int, k: int, before: Cell) -> Cell {
        let x0 = bar_column(chart, stride, i, 0);
        let label = self.data@[i].0@;
        if x0 + k < text_end(label, x0, x0 + self.bar_width) {
            text_cell(text_at(label, x0, x0 + self.bar_width, x0 + k), before, self.label_style)
        } else {
            styled(Cell { symbol: ' ', style: before.style }, self.label_style)
        }
    }

    /// Column at which the value text of bar `i` starts: centred in the bar.
    pub open spec fn value_column(&self, chart: Rect, stride: int, i: int) -> int {
        bar_column(chart, stride, i, 0) + (self.bar_width - str_columns(self.values@[i]@)) / 2
    }

    /// How many characters of the value text of bar `i` are written.
    pub open spec fn value_fit(&self, i: int) -> int {
        label_fit(self.values@[i]@.len() as int, str_columns(self.values@[i]@) as int)
    }

    /// Whether cell `cx` of the value row shows part of the value text of
    /// its bar `i`.
    pub open spec fn in_value_text(&self, chart: Rect, stride: int, i: int, cx: int) -> bool {
        self.value_shown(i) && self.value_column(chart, stride, i) <= cx < self.value_column(chart, stride, i) + self.value_fit(i)
    }

    /// What the label pass leaves in a cell of the last two rows of
    /// `chart`, given what it held before: value text over the foot of a
    /// bar whose value is shown, and on the last row each label of
    /// printable characters padded with spaces to the bar's width.
    pub open spec fn labels_drawn(&self, chart: Rect, stride: int, n: int, before: Buffer, after: Buffer) -> bool {
        let value_row = chart.y + chart.height - 2;
        let label_row = chart.y + chart.height - 1;
        &&& after.wf()
        &&& after.unchanged_outside(&before, chart)
        &&& forall|cx: int, cy: int|
            before.area.has_cell(cx, cy) && !(is_bar_cell(chart, stride, self.bar_width as int, n, chart.height as int, cx, cy) && (cy
                == label_row || (cy == value_row && self.in_value_text(chart, stride, bar_of(chart, stride, cx), cx))))
                ==> #[trigger] after.cell(cx, cy) == before.cell(cx, cy)
        &&& forall|i: int, k: int|
            0 <= i < n && self.value_shown(i) && 0 <= k < self.value_fit(i) ==> #[trigger] after.cell(self.value_column(chart, stride, i) + k, value_row)
                == styled(
                Cell { symbol: self.values@[i]@[k], style: before.cell(self.value_column(chart, stride, i) + k, value_row).style },
                self.value_style,
            )
        &&& forall|i: int, k: int|
            0 <= i < n && 0 <= k < self.bar_width ==> #[trigger] after.cell(bar_column(chart, stride, i, k), label_row) == self.label_cell(
                chart,
                stride,
                i,
                k,
                before.cell(bar_column(chart, stride, i, k), label_row),
            )
    }

    /// Writes over the two last rows of `chart_area` the value of each of
    /// the first `n` bars, where it is shown, and the label of each, padded
    /// with spaces to the bar's width.
    fn write_labels(&self, buf: &mut Buffer, chart_area: Rect, n: usize, stride16: u16)
        requires
            self.wf(),
            old(buf).wf(),
            old(buf).area.holds(chart_area),
            n <= self.data@.len(),
            stride16 > 0 || n == 0,
            stride16 == self.bar_width + self.bar_gap || n == 0,
            n * stride16 <= chart_area.width,
            chart_area.height >= 2,
        ensures
            self.labels_drawn(chart_area, stride16 as int, n as int, *old(buf), *final(buf)),
    {
        let ghost before = *buf;
        let ghost s = stride16 as int;
        let value_row: u16 = chart_area.y + chart_area.height - 2;
        let label_row: u16 = chart_area.y + chart_area.height - 1;
        let mut i: usize = 0;
        while i < n
            invariant
                self.wf(),
                before.wf(),
                before.area.holds(chart_area),
                buf.area == before.area,
                s == stride16 as int,
                n <= self.data@.len(),
                i <= n,
                stride16 > 0 || n == 0,
                stride16 == self.bar_width + self.bar_gap || n == 0,
                n * stride16 <= chart_area.width,
                chart_area.height >= 2,
                value_row == chart_area.y + chart_area.height - 2,
                label_row == chart_area.y + chart_area.height - 1,
                self.labels_drawn(chart_area, s, i as int, before, *buf),
            decreases n - i,
        {
            proof {
                let ii = i as int;
                assert(ii * s + s <= n * s) by (nonlinear_arith)
                    requires
                        0 <= ii < n,
                        s >= 0,
                ;
                assert(ii <= ii * s) by (nonlinear_arith)
                    requires
                        0 <= ii,
                        s >= 1,
                ;
            }
            let x: u16 = chart_area.x + (i as u16) * stride16;
            let (label, value) = self.data[i];
            let ghost start = *buf;
            let ghost mut vlo: int = 0;
            let ghost mut vhi: int = 0;
            if value != 0 {
                let value_label = &self.values[i];
                let width = str_width(value_label.as_str());
                if width < self.bar_width as usize {
                    let vx: u16 = x + (self.bar_width - width as u16) / 2;
                    proof {
                        lemma_decimal_printable(value as nat);
                    }
                    let vr = buf.set_stringn(vx, value_row, value_label.as_str(), width, self.value_style);
                    proof {
                        vlo = vx as int;
                        vhi = vr.0 as int;
                        assert(vx as int == self.value_column(chart_area, s, i as int));
                        assert(vhi - vlo == self.value_fit(i as int));
                        assert(self.value_shown(i as int));
                    }
                }
            }
            let ghost mid = *buf;
            assert(span_end(mid.area, x, self.bar_width as usize) == x + self.bar_width);
            let r = buf.set_stringn(x, label_row, label, self.bar_width as usize, self.label_style);
            let end: u16 = x + self.bar_width;
            let mut p: u16 = r.0;
            while p < end
                invariant
                    buf.wf(),
                    buf.area == before.area,
                    before.area.holds(chart_area),
                    label_row == chart_area.y + chart_area.height - 1,
                    chart_area.height >= 2,
                    chart_area.x <= x <= r.0 <= p <= end,
                    end <= chart_area.x + chart_area.width,
                    buf.unchanged_outside(&mid, Rect { x, y: label_row, width: (p - x) as u16, height: 1 }),
                    forall|q: int| r.0 <= q < p ==> #[trigger] buf.cell(q, label_row as int) == styled(
                        Cell { symbol: ' ', style: mid.cell(q, label_row as int).style },
                        self.label_style,
                    ),
                    r.0 == text_end(label@, x as int, x + self.bar_width),
                    forall|q: int| x <= q < r.0 ==> #[trigger] buf.cell(q, label_row as int) == text_cell(
                        text_at(label@, x as int, x + self.bar_width, q),
                        mid.cell(q, label_row as int),
                        self.label_style,
                    ),
                decreases end - p,
            {
                buf.set_cell(p, label_row, ' ', self.label_style);
                p = p + 1;
            }
            proof {
                let ii = i as int;
                let bw = self.bar_width as int;
                let h = chart_area.height as int;
                assert forall|cx: int, cy: int|
                    before.area.has_cell(cx, cy) && !(cy == value_row && vlo <= cx < vhi) && !(cy == label_row && x <= cx < end)
                        implies #[trigger] buf.cell(cx, cy) == start.cell(cx, cy) by {
                    assert(mid.cell(cx, cy) == start.cell(cx, cy));
                }
                assert(vlo < vhi ==> x <= vlo && vhi <= end);
                assert forall|cx: int| x <= cx < end implies 0 <= cx - x < bw && #[trigger] bar_of(chart_area, s, cx) == ii
                    && (cx - chart_area.x) % s == cx - x by {
                    assert(s * ii == ii * s) by (nonlinear_arith);
                    lemma_fundamental_div_mod_converse(cx - chart_area.x, s, ii, cx - x);
                }
                assert forall|j: int, k: int| 0 <= j < ii && 0 <= k < bw implies bar_column(chart_area, s, j, k) < x by {
                    assert(j * s + s <= ii * s) by (nonlinear_arith)
                        requires
                            0 <= j < ii,
                            s >= 0,
                    ;
                }
                assert forall|cx: int, cy: int|
                    before.area.has_cell(cx, cy) && !(is_bar_cell(chart_area, s, bw, ii + 1, h, cx, cy) && (cy == label_row || (cy == value_row
                        && self.in_value_text(chart_area, s, bar_of(chart_area, s, cx), cx)))) implies #[trigger] buf.cell(cx, cy) == before.cell(cx, cy) by {
                    if (cy == value_row && vlo <= cx < vhi) || (cy == label_row && x <= cx < end) {
                        assert(bar_of(chart_area, s, cx) == ii);
                        assert(is_bar_cell(chart_area, s, bw, ii + 1, h, cx, cy));
                    } else {
                        assert(buf.cell(cx, cy) == start.cell(cx, cy));
                    }
                }
                assert forall|j: int, k: int|
                    0 <= j < ii + 1 && self.value_shown(j) && 0 <= k < self.value_fit(j) implies #[trigger] buf.cell(self.value_column(chart_area, s, j) + k, value_row as int)
                        == styled(
                        Cell { symbol: self.values@[j]@[k], style: before.cell(self.value_column(chart_area, s, j) + k, value_row as int).style },
                        self.value_style,
                    ) by {
                    let c = self.value_column(chart_area, s, j) + k;
                    if j < ii {
                        let off = c - bar_column(chart_area, s, j, 0);
                        assert(0 <= off < bw);
                        assert(bar_column(chart_area, s, j, off) < x);
                        assert(c < x);
                        assert(buf.cell(c, value_row as int) == start.cell(c, value_row as int));
                    } else {
                        assert(start.cell(c, value_row as int) == before.cell(c, value_row as int));
                        assert(mid.cell(c, value_row as int) == buf.cell(c, value_row as int));
                    }
                }
                assert forall|j: int, k: int|
                    0 <= j < ii + 1 && 0 <= k < bw implies #[trigger] buf.cell(bar_column(chart_area, s, j, k), label_row as int) == self.label_cell(
                        chart_area,
                        s,
                        j,
                        k,
                        before.cell(bar_column(chart_area, s, j, k), label_row as int),
                    ) by {
                    let c = bar_column(chart_area, s, j, k);
                    if j < ii {
                        assert(c < x);
                        assert(buf.cell(c, label_row as int) == start.cell(c, label_row as int));
                    } else {
                        assert(c == x + k);
                        assert(bar_column(chart_area, s, j, 0) == x);
                        assert(bar_of(chart_area, s, c) == ii);
                        assert(before.area.has_cell(c, label_row as int));
                        assert(start.cell(c, label_row as int) == before.cell(c, label_row as int));
                        assert(mid.cell(c, label_row as int) == start.cell(c, label_row as int));
                    }
                }
            }
            i = i + 1;
        }
    }

    pub fn block(self, block: Block<'a>) -> (r: BarChart<'a>)
        ensures
            r == (BarChart { block: Some(block), ..self }),
    {
        BarChart { block: Some(block), ..self }
    }

    pub fn max(self, max: u64) -> (r: BarChart<'a>)
        ensures
            r == (BarChart { max: Some(max), ..self }),
    {
        BarChart { max: Some(max), ..self }
    }

    pub fn bar_style(self, style: Style) -> (r: BarChart<'a>)
        ensures
            r == (BarChart { bar_style: style, ..self }),
    {
        BarChart { bar_style: style, ..self }
    }

    pub fn bar_width(self, width: u16) -> (r: BarChart<'a>)
        ensures
            r == (BarChart { bar_width: width, ..self }),
    {
        BarChart { bar_width: width, ..self }
    }

    pub fn bar_gap(self, gap: u16) -> (r: BarChart<'a>)
        ensures
            r == (BarChart { bar_gap: gap, ..self }),
    {
        BarChart { bar_gap: gap, ..self }
    }

    pub fn bar_set(self, bar_set: BarSet) -> (r: BarChart<'a>)
        ensures
            r == (BarChart { bar_set, ..self }),
    {
        BarChart { bar_set, ..self }
    }

    pub fn value_style(self, style: Style) -> (r: BarChart<'a>)
        ensures
            r == (BarChart { value_style: style, ..self }),
    {
        BarChart { value_style: style, ..self }
    }

    pub fn label_style(self, style: Style) -> (r: BarChart<'a>)
        ensures
            r == (BarChart { label_style: style, ..self }),
    {
        BarChart { label_style: style, ..self }
    }

    pub fn style(self, style: Style) -> (r: BarChart<'a>)
        ensures
            r == (BarChart { style, ..self }),
    {
        BarChart { style, ..self }
    }
}

} // verus!
