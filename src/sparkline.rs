//! A sparkline: one bar per data point, drawn with eighth-block glyphs over
//! one or more rows.
use vstd::prelude::*;

use crate::buffer::{column_of, index_in, row_of, styled, with_symbol, Buffer, CellView};
use crate::layout::Rect;
use crate::style::Style;

verus! {

/// The glyphs of a bar, from empty to full in eighths.
#[derive(Debug, Clone, Copy, PartialEq, Eq, Hash)]
pub struct BarSet {
    pub full: &'static str,
    pub seven_eighths: &'static str,
    pub three_quarters: &'static str,
    pub five_eighths: &'static str,
    pub half: &'static str,
    pub three_eighths: &'static str,
    pub one_quarter: &'static str,
    pub one_eighth: &'static str,
    pub empty: &'static str,
}

impl BarSet {
    /// The glyph for a cell filled `level` eighths; 8 and above is full.
    pub open spec fn symbol_for(self, level: int) -> Seq<char> {
        if level <= 0 {
            self.empty@
        } else if level == 1 {
            self.one_eighth@
        } else if level == 2 {
            self.one_quarter@
        } else if level == 3 {
            self.three_eighths@
        } else if level == 4 {
            self.half@
        } else if level == 5 {
            self.five_eighths@
        } else if level == 6 {
            self.three_quarters@
        } else if level == 7 {
            self.seven_eighths@
        } else {
            self.full@
        }
    }

    /// Block glyphs in nine levels, from a space to a full block.
    pub fn nine_levels() -> BarSet {
        BarSet {
            full: "\u{2588}",
            seven_eighths: "\u{2587}",
            three_quarters: "\u{2586}",
            five_eighths: "\u{2585}",
            half: "\u{2584}",
            three_eighths: "\u{2583}",
            one_quarter: "\u{2582}",
            one_eighth: "\u{2581}",
            empty: " ",
        }
    }

    /// The glyph for a cell filled `level` eighths.
    pub fn symbol(&self, level: u64) -> (r: &'static str)
        ensures
            r@ == self.symbol_for(level as int),
    {
        match level {
            0 => self.empty,
            1 => self.one_eighth,
            2 => self.one_quarter,
            3 => self.three_eighths,
            4 => self.half,
            5 => self.five_eighths,
            6 => self.three_quarters,
            7 => self.seven_eighths,
            _ => self.full,
        }
    }
}

/// Which way the bars run.
#[derive(Debug, Clone, Copy, PartialEq, Eq, Hash, Structural)]
pub enum RenderDirection {
    /// The first data point at the left edge.
    LeftToRight,
    /// The first data point at the right edge.
    RightToLeft,
}

/// A sparkline's settings, as a value.
pub ghost struct SparklineView {
    pub style: Style,
    pub data: Seq<u64>,
    pub max: Option<u64>,
    pub bar_set: BarSet,
    pub direction: RenderDirection,
}

/// A sparkline over a series of values. Bars are scaled so that `max` (by
/// default the largest value) fills the area's height.
#[derive(Debug, Clone)]
pub struct Sparkline {
    style: Style,
    data: Vec<u64>,
    max: Option<u64>,
    bar_set: BarSet,
    direction: RenderDirection,
}

impl View for Sparkline {
    type V = SparklineView;

    closed spec fn view(&self) -> SparklineView {
        SparklineView {
            style: self.style,
            data: self.data@,
            max: self.max,
            bar_set: self.bar_set,
            direction: self.direction,
        }
    }
}

/// The largest value of `d`, or 0 when it is empty.
pub open spec fn seq_max(d: Seq<u64>) -> u64
    decreases d.len(),
{
    if d.len() == 0 {
        0
    } else if d.last() > seq_max(d.drop_last()) {
        d.last()
    } else {
        seq_max(d.drop_last())
    }
}

/// The value that fills the height: `max` if set, else the largest value,
/// else 1 when there is no data.
pub open spec fn effective_max(s: SparklineView) -> u64 {
    match s.max {
        Some(m) => m,
        None => if s.data.len() == 0 {
            1
        } else {
            seq_max(s.data)
        },
    }
}

/// The height of bar `k` in eighths of a row, over `height` rows.
pub open spec fn bar_eighths(s: SparklineView, height: int, k: int) -> int {
    if effective_max(s) == 0 {
        0
    } else {
        (s.data[k] * height * 8) / (effective_max(s) as int)
    }
}

/// Eighths of bar `k` that fall in row `j` (0 at the top) of `height` rows.
pub open spec fn cell_level(s: SparklineView, height: int, k: int, j: int) -> int {
    let rest = bar_eighths(s, height, k) - 8 * (height - 1 - j);
    if rest <= 0 {
        0
    } else if rest >= 8 {
        8
    } else {
        rest
    }
}

/// The number of bars drawn in `area`.
pub open spec fn bar_count(s: SparklineView, area: Rect) -> int {
    vstd::math::min(area.width as int, s.data.len() as int)
}

/// The bar drawn in column `x` of `area`, or -1 for none.
pub open spec fn bar_at(s: SparklineView, area: Rect, x: int) -> int {
    let k = match s.direction {
        RenderDirection::LeftToRight => x - area.x,
        RenderDirection::RightToLeft => area.x + area.width - 1 - x,
    };
    if 0 <= k < bar_count(s, area) {
        k
    } else {
        -1
    }
}

/// The column of bar `k` in `area`.
pub open spec fn bar_column(s: SparklineView, area: Rect, k: int) -> int {
    match s.direction {
        RenderDirection::LeftToRight => area.x + k,
        RenderDirection::RightToLeft => area.x + area.width - 1 - k,
    }
}

/// Whether the cell at column `x`, row `y` belongs to a bar drawn in `area`.
pub open spec fn in_bars(s: SparklineView, area: Rect, x: int, y: int) -> bool {
    area.height >= 1 && area.y <= y < area.y + area.height && bar_at(s, area, x) >= 0
}

/// The cell at column `x`, row `y` of a bar, drawn over `c`.
pub open spec fn bar_cell(s: SparklineView, area: Rect, c: CellView, x: int, y: int) -> CellView {
    styled(
        with_symbol(
            c,
            s.bar_set.symbol_for(cell_level(s, area.height as int, bar_at(s, area, x), y - area.y)),
        ),
        s.style,
    )
}

/// The cells of a buffer over `buf_area` holding `cells` once the sparkline
/// is rendered in `area`.
pub open spec fn rendered_cells(s: SparklineView, area: Rect, buf_area: Rect, cells: Seq<CellView>) -> Seq<
    CellView,
> {
    Seq::new(
        cells.len(),
        |p: int|
            if in_bars(s, area, column_of(buf_area, p), row_of(buf_area, p)) {
                bar_cell(s, area, cells[p], column_of(buf_area, p), row_of(buf_area, p))
            } else {
                cells[p]
            },
    )
}

impl Default for Sparkline {
    fn default() -> (r: Sparkline)
        ensures
            r@.data.len() == 0,
            r@.max is None,
            r@.direction == RenderDirection::LeftToRight,
            r@.style.fg is None && r@.style.bg is None && r@.style.underline_color is None,
            r@.style.add_modifier.bits == 0 && r@.style.sub_modifier.bits == 0,
    {
        Sparkline {
            style: Style::new(),
            data: Vec::new(),
            max: None,
            bar_set: BarSet::nine_levels(),
            direction: RenderDirection::LeftToRight,
        }
    }
}

impl Sparkline {
    pub fn style(self, style: Style) -> (r: Sparkline)
        ensures
            r@ == (SparklineView { style, ..self@ }),
    {
        Sparkline { style, ..self }
    }

    /// The values to draw, one bar each.
    pub fn data(self, data: &[u64]) -> (r: Sparkline)
        ensures
            r@ == (SparklineView { data: data@, ..self@ }),
    {
        let mut v: Vec<u64> = Vec::new();
        let n = data.len();
        let mut i: usize = 0;
        while i < n
            invariant
                i <= n,
                n == data@.len(),
                v@ == data@.subrange(0, i as int),
            decreases n - i,
        {
            v.push(data[i]);
            i = i + 1;
            assert(v@ =~= data@.subrange(0, i as int));
        }
        assert(v@ =~= data@);
        Sparkline { data: v, ..self }
    }

    /// The value that fills the whole height.
    pub fn max(self, max: u64) -> (r: Sparkline)
        ensures
            r@ == (SparklineView { max: Some(max), ..self@ }),
    {
        Sparkline { max: Some(max), ..self }
    }

    pub fn bar_set(self, bar_set: BarSet) -> (r: Sparkline)
        ensures
            r@ == (SparklineView { bar_set, ..self@ }),
    {
        Sparkline { bar_set, ..self }
    }

    pub fn direction(self, direction: RenderDirection) -> (r: Sparkline)
        ensures
            r@ == (SparklineView { direction, ..self@ }),
    {
        Sparkline { direction, ..self }
    }

    /// The largest value, or 0 without data.
    fn data_max(&self) -> (r: u64)
        ensures
            r == seq_max(self.data@),
    {
        let n = self.data.len();
        let mut m: u64 = 0;
        let mut i: usize = 0;
        while i < n
            invariant
                i <= n,
                n == self.data@.len(),
                m == seq_max(self.data@.subrange(0, i as int)),
            decreases n - i,
        {
            let ghost prefix = self.data@.subrange(0, i as int + 1);
            assert(prefix.drop_last() =~= self.data@.subrange(0, i as int));
            if self.data[i] > m {
                m = self.data[i];
            }
            i = i + 1;
        }
        assert(self.data@.subrange(0, n as int) =~= self.data@);
        m
    }

    /// Draws the bars into `area` of `buf`: bar `k` shows value `k` in
    /// the column `k` from the left (or the right), from the bottom row up.
    pub fn render(self, area: Rect, buf: &mut Buffer)
        requires
            old(buf).wf(),
            old(buf).area.x <= area.x,
            area.x + area.width <= old(buf).area.x + old(buf).area.width,
            old(buf).area.y <= area.y,
            area.y + area.height <= old(buf).area.y + old(buf).area.height,
        ensures
            final(buf).wf(),
            final(buf).area == old(buf).area,
            final(buf).cells() == rendered_cells(self@, area, old(buf).area, old(buf).cells()),
    {
        let ghost s = self@;
        let ghost old_cells = buf.cells();
        assert(old_cells.len() == buf.area.area_spec());
        let ghost target = rendered_cells(s, area, buf.area, old_cells);
        if area.height < 1 {
            assert(buf.cells() =~= target);
            return;
        }
        let max = match self.max {
            Some(v) => v,
            None => if self.data.len() == 0 {
                1
            } else {
                self.data_max()
            },
        };
        let n = if (area.width as usize) < self.data.len() {
            area.width as usize
        } else {
            self.data.len()
        };
        let h = area.height;
        let mut eighths: Vec<u128> = Vec::new();
        let mut i: usize = 0;
        while i < n
            invariant
                i <= n,
                n == bar_count(s, area),
                n <= self.data@.len(),
                s == self@,
                max == effective_max(s),
                h == area.height,
                eighths@.len() == i,
                forall|k: int| 0 <= k < i ==> #[trigger] eighths@[k] == bar_eighths(s, h as int, k),
            decreases n - i,
        {
            let e: u128 = if max == 0 {
                0
            } else {
                proof {
                    assert((self.data[i as int] as int) * (h as int) * 8 <= 0xffff_ffff_ffff_ffff
                        * 0xffff * 8) by (nonlinear_arith)
                        requires
                            self.data[i as int] <= 0xffff_ffff_ffff_ffff,
                            h <= 0xffff,
                    ;
                }
                (self.data[i] as u128) * (h as u128) * 8 / (max as u128)
            };
            eighths.push(e);
            i = i + 1;
        }
        let mut j: u16 = 0;
        while j < h
            invariant
                j <= h,
                h == area.height,
                h >= 1,
                n == bar_count(s, area),
                eighths@.len() == n,
                forall|k: int| 0 <= k < n ==> #[trigger] eighths@[k] == bar_eighths(s, h as int, k),
                s == self@,
                buf.wf(),
                buf.area == old(buf).area,
                buf.area.x <= area.x,
                area.x + area.width <= buf.area.x + buf.area.width,
                buf.area.y <= area.y,
                area.y + area.height <= buf.area.y + buf.area.height,
                old_cells == old(buf).cells(),
                old_cells.len() == buf.area.area_spec(),
                target == rendered_cells(s, area, buf.area, old_cells),
                forall|p: int|
                    0 <= p < old_cells.len() ==> #[trigger] buf.cells()[p] == if in_bars(
                        s,
                        area,
                        column_of(buf.area, p),
                        row_of(buf.area, p),
                    ) && row_of(buf.area, p) < area.y + j {
                        target[p]
                    } else {
                        old_cells[p]
                    },
            decreases h - j,
        {
            let mut k: usize = 0;
            while k < n
                invariant
                    k <= n,
                    j < h,
                    h == area.height,
                    h >= 1,
                    n == bar_count(s, area),
                    eighths@.len() == n,
                    forall|k: int| 0 <= k < n ==> #[trigger] eighths@[k] == bar_eighths(s, h as int, k),
                    s == self@,
                    buf.wf(),
                    buf.area == old(buf).area,
                    buf.area.x <= area.x,
                    area.x + area.width <= buf.area.x + buf.area.width,
                    buf.area.y <= area.y,
                    area.y + area.height <= buf.area.y + buf.area.height,
                    old_cells == old(buf).cells(),
                    old_cells.len() == buf.area.area_spec(),
                    target == rendered_cells(s, area, buf.area, old_cells),
                    forall|p: int|
                        0 <= p < old_cells.len() ==> #[trigger] buf.cells()[p] == if in_bars(
                            s,
                            area,
                            column_of(buf.area, p),
                            row_of(buf.area, p),
                        ) && (row_of(buf.area, p) < area.y + j || (row_of(buf.area, p) == area.y
                            + j && bar_at(s, area, column_of(buf.area, p)) < k)) {
                            target[p]
                        } else {
                            old_cells[p]
                        },
                decreases n - k,
            {
                let below: u128 = 8 * ((h - 1 - j) as u128);
                let rest: u128 = if eighths[k] > below {
                    eighths[k] - below
                } else {
                    0
                };
                let level: u64 = if rest >= 8 {
                    8
                } else {
                    rest as u64
                };
                let x: u16 = match self.direction {
                    RenderDirection::LeftToRight => area.x + k as u16,
                    RenderDirection::RightToLeft => area.x + area.width - 1 - k as u16,
                };
                let y: u16 = area.y + j;
                assert(bar_at(s, area, x as int) == k);
                let ghost before = buf.cells();
                let ghost at = index_in(buf.area, x as int, y as int);
                proof {
                    crate::buffer::lemma_index_in_bounds(buf.area, x as int, y as int);
                    assert(before[at] == old_cells[at]);
                    assert(target[at] == bar_cell(s, area, old_cells[at], x as int, y as int));
                    assert(level == cell_level(s, h as int, k as int, j as int));
                }
                let symbol = self.bar_set.symbol(level);
                let cell = buf.get_mut(x, y);
                cell.set_symbol(symbol);
                cell.set_style(self.style);
                assert(buf.cells() =~= before.update(at, target[at]));
                assert forall|p: int| 0 <= p < old_cells.len() implies #[trigger] buf.cells()[p]
                    == if in_bars(s, area, column_of(buf.area, p), row_of(buf.area, p)) && (row_of(
                    buf.area,
                    p,
                ) < area.y + j || (row_of(buf.area, p) == area.y + j && bar_at(
                    s,
                    area,
                    column_of(buf.area, p),
                ) < k + 1)) {
                    target[p]
                } else {
                    old_cells[p]
                } by {
                    crate::buffer::lemma_position_in_bounds(buf.area, p);
                }
                k = k + 1;
            }
            j = j + 1;
        }
        assert forall|p: int| 0 <= p < old_cells.len() implies #[trigger] buf.cells()[p]
            == target[p] by {
            crate::buffer::lemma_position_in_bounds(buf.area, p);
        }
        assert(buf.cells() =~= target);
    }
}

} // verus!
