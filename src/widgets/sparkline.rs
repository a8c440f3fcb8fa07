use vstd::prelude::*;
use crate::buffer::Buffer;
use crate::layout::Rect;
use crate::style::Style;
use crate::symbols::bar::{self, BarSet};
use crate::widgets::bars::{lemma_scale_fits, bar_cell, bar_cells_within, bar_of, is_bar_cell, paint_bars};
use crate::widgets::block::{inner_stays_within, Block};

verus! {

/// The largest of `s`, or zero when `s` is empty.
pub open spec fn max_value(s: Seq<u64>) -> u64
    decreases s.len(),
{
    if s.len() == 0 {
        0
    } else if max_value(s.drop_last()) < s.last() {
        s.last()
    } else {
        max_value(s.drop_last())
    }
}

/// The largest of `data` (zero when empty), found by a scan.
pub fn max_of(data: &[u64]) -> (r: u64)
    ensures
        r == max_value(data@),
{
    let mut m: u64 = 0;
    let mut i: usize = 0;
    while i < data.len()
        invariant
            i <= data@.len(),
            m == max_value(data@.subrange(0, i as int)),
        decreases data@.len() - i,
    {
        assert(data@.subrange(0, i + 1).drop_last() == data@.subrange(0, i as int));
        if m < data[i] {
            m = data[i];
        }
        i = i + 1;
    }
    assert(data@.subrange(0, data@.len() as int) == data@);
    m
}

/// The height in eighths of a point of value `v` in a sparkline `rows`
/// rows high whose top stands for `max`; nothing at all when `max` is zero.
pub open spec fn spark_height(v: u64, rows: int, max: u64) -> int {
    if max != 0 {
        v * rows * 8 / max as int
    } else {
        0
    }
}

/// A line of columns, one per data point, each as tall as its value
/// against the largest one, drawn in eighths of a cell.
#[derive(Debug, Clone, Copy)]
pub struct Sparkline<'a> {
    /// A block to wrap the sparkline in.
    pub block: Option<Block<'a>>,
    /// Style of the columns.
    pub style: Style,
    /// The values, one column each, from the left.
    pub data: &'a [u64],
    /// The value a full-height column stands for; the largest value when
    /// unset.
    pub max: Option<u64>,
    /// The glyphs the columns are drawn with.
    pub bar_set: BarSet,
}

impl<'a> Default for Sparkline<'a> {
    fn default() -> (r: Sparkline<'a>)
        ensures
            r.block is None,
            r.style == Style::default_spec(),
            r.data@.len() == 0,
            r.max is None,
            r.bar_set == bar::nine_levels_spec(),
    {
        Sparkline { block: None, style: Style::default(), data: &[], max: None, bar_set: bar::nine_levels() }
    }
}

impl<'a> Sparkline<'a> {
    /// The value a full-height column stands for: the one set, else the
    /// largest value, else one.
    pub open spec fn resolved_max(&self) -> u64 {
        match self.max {
            Some(v) => v,
            None => if self.data@.len() == 0 { 1 } else { max_value(self.data@) },
        }
    }

    /// The area the columns are drawn in, inside `area`.
    pub open spec fn spark_area(&self, area: Rect) -> Rect {
        match self.block {
            Some(b) => b.inner_rect(area),
            None => area,
        }
    }

    pub fn block(self, block: Block<'a>) -> (r: Sparkline<'a>)
        ensures
            r == (Sparkline { block: Some(block), ..self }),
    {
        Sparkline { block: Some(block), ..self }
    }

    pub fn style(self, style: Style) -> (r: Sparkline<'a>)
        ensures
            r == (Sparkline { style, ..self }),
    {
        Sparkline { style, ..self }
    }

    pub fn data(self, data: &'a [u64]) -> (r: Sparkline<'a>)
        ensures
            r == (Sparkline { data, ..self }),
    {
        Sparkline { data, ..self }
    }

    pub fn max(self, max: u64) -> (r: Sparkline<'a>)
        ensures
            r == (Sparkline { max: Some(max), ..self }),
    {
        Sparkline { max: Some(max), ..self }
    }

    pub fn bar_set(self, bar_set: BarSet) -> (r: Sparkline<'a>)
        ensures
            r == (Sparkline { bar_set, ..self }),
    {
        Sparkline { bar_set, ..self }
    }

    /// What drawing the columns inside `spark` makes of `before`: one
    /// column per data point from the left, as many as fit, each cell of
    /// them taking its glyph in the sparkline's style; nothing else changes.
    pub open spec fn spark_drawn(&self, spark: Rect, before: Buffer, after: Buffer) -> bool {
        let h = spark.height as int;
        let n = if spark.width < self.data@.len() { spark.width as int } else { self.data@.len() as int };
        &&& after.wf()
        &&& after.unchanged_outside(&before, spark)
        &&& forall|cx: int, cy: int|
            before.area.has_cell(cx, cy) ==> #[trigger] after.cell(cx, cy) == if is_bar_cell(spark, 1, 1, n, h, cx, cy) {
                bar_cell(before.cell(cx, cy), self.bar_set, self.style, spark_height(self.data@[bar_of(spark, 1, cx)], h, self.resolved_max()), h, cy - spark.y)
            } else {
                before.cell(cx, cy)
            }
    }

    /// The two stages of drawing over `area`: the block drawn over it if
    /// there is one (`b0` to `b1`), then the columns inside its inner area
    /// (`b1` to `b2`).
    pub open spec fn render_stages(&self, area: Rect, b0: Buffer, b1: Buffer, b2: Buffer) -> bool {
        &&& match self.block {
            Some(b) => b.rendered(area, b0, b1),
            None => b1 == b0,
        }
        &&& self.spark_drawn(self.spark_area(area), b1, b2)
    }

    /// Draws the block, if any, which is used up, then one column per data
    /// point from the left of the area inside it, as many as fit. Each
    /// column's height in eighths is `value * rows * 8 / max` over all the
    /// rows of that area.
    pub fn render(&mut self, area: Rect, buf: &mut Buffer)
        requires
            old(buf).wf(),
            old(buf).area.holds(area),
        ensures
            *final(self) == (Sparkline { block: None, ..*old(self) }),
            final(buf).unchanged_outside(old(buf), area),
            exists|b1: Buffer| #[trigger] old(self).render_stages(area, *old(buf), b1, *final(buf)),
    {
        let ghost b0 = *buf;
        let spark_area = match self.block {
            Some(b) => {
                let inner_area = b.inner(area);
                b.render(area, buf);
                proof {
                    inner_stays_within(b.borders, b.title is Some, area);
                }
                inner_area
            },
            None => area,
        };
        let ghost b1 = *buf;
        self.draw_spark(spark_area, buf);
        proof {
            assert(self.render_stages(area, b0, b1, *buf));
            assert forall|cx: int, cy: int| b0.area.has_cell(cx, cy) && !area.has_cell(cx, cy) implies #[trigger] buf.cell(cx, cy)
                == b0.cell(cx, cy) by {
                assert(b1.cell(cx, cy) == b0.cell(cx, cy));
            }
        }
        self.block = None;
    }

    /// Draws the columns inside `spark_area`.
    fn draw_spark(&self, spark_area: Rect, buf: &mut Buffer)
        requires
            old(buf).wf(),
            old(buf).area.holds(spark_area),
        ensures
            self.spark_drawn(spark_area, *old(buf), *final(buf)),
    {
        let ghost b1 = *buf;
        if spark_area.height < 1 {
            return;
        }
        let max: u64 = match self.max {
            Some(v) => v,
            None => if self.data.len() == 0 { 1 } else { max_of(self.data) },
        };
        let n: usize = if (spark_area.width as usize) < self.data.len() { spark_area.width as usize } else { self.data.len() };
        let mut heights: Vec<u128> = Vec::new();
        let mut i: usize = 0;
        while i < n
            invariant
                n <= self.data@.len(),
                i <= n,
                heights@.len() == i,
                forall|k: int| 0 <= k < i ==> heights@[k] == spark_height(self.data@[k], spark_area.height as int, max),
            decreases n - i,
        {
            let v = self.data[i];
            let h: u128 = if max != 0 {
                proof {
                    lemma_scale_fits(v, spark_area.height);
                }
                (v as u128) * (spark_area.height as u128) * 8 / (max as u128)
            } else {
                0
            };
            heights.push(h);
            i = i + 1;
        }
        paint_bars(buf, spark_area, &mut heights, 1, 1, spark_area.height, self.bar_set, self.style);
        proof {
            assert forall|cx: int, cy: int| b1.area.has_cell(cx, cy) && !spark_area.has_cell(cx, cy) implies #[trigger] buf.cell(cx, cy)
                == b1.cell(cx, cy) by {
                if is_bar_cell(spark_area, 1, 1, n as int, spark_area.height as int, cx, cy) {
                    bar_cells_within(spark_area, 1, 1, n as int, spark_area.height as int, cx, cy);
                }
            }
        }
    }
}

} // verus!
