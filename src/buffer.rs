//! The cell grid: `Cell`, one character cell's renderable state, and
//! `Buffer`, a rectangle of cells stored row by row.
use vstd::prelude::*;

use crate::layout::{Position, Rect};
use crate::strings::string_of_char;
use crate::style::{Color, Modifier, Style};

verus! {

/// What a cell holds, as a value.
pub ghost struct CellView {
    pub symbol: Seq<char>,
    pub fg: Color,
    pub bg: Color,
    pub underline_color: Color,
    pub modifier: Modifier,
    pub skip: bool,
}

/// One character cell. `symbol` is the glyph drawn in it (a grapheme
/// cluster, possibly several bytes). A cell with `skip` set is a continuation
/// column of the wide glyph to its left: it is never drawn on its own, and its
/// symbol is empty.
#[derive(Debug)]
pub struct Cell {
    pub symbol: String,
    pub fg: Color,
    pub bg: Color,
    pub underline_color: Color,
    pub modifier: Modifier,
    pub skip: bool,
}

impl View for Cell {
    type V = CellView;

    open spec fn view(&self) -> CellView {
        CellView {
            symbol: self.symbol@,
            fg: self.fg,
            bg: self.bg,
            underline_color: self.underline_color,
            modifier: self.modifier,
            skip: self.skip,
        }
    }
}

/// A blank cell: one space, the terminal's own colors, no modifiers.
pub open spec fn default_cell() -> CellView {
    CellView {
        symbol: seq![' '],
        fg: Color::Reset,
        bg: Color::Reset,
        underline_color: Color::Reset,
        modifier: Modifier { bits: 0 },
        skip: false,
    }
}

/// `c` with `style` laid over it.
pub open spec fn styled(c: CellView, style: Style) -> CellView {
    CellView {
        fg: match style.fg {
            Some(f) => f,
            None => c.fg,
        },
        bg: match style.bg {
            Some(b) => b,
            None => c.bg,
        },
        underline_color: match style.underline_color {
            Some(u) => u,
            None => c.underline_color,
        },
        modifier: Modifier {
            bits: (c.modifier.bits | style.add_modifier.bits) & !style.sub_modifier.bits,
        },
        ..c
    }
}

/// `c` as the first column of a glyph whose symbol is `symbol`.
pub open spec fn with_symbol(c: CellView, symbol: Seq<char>) -> CellView {
    CellView { symbol, skip: false, ..c }
}

/// `c` as a continuation column of a wide glyph.
pub open spec fn as_continuation(c: CellView) -> CellView {
    CellView { symbol: Seq::empty(), skip: true, ..c }
}

impl Default for Cell {
    fn default() -> (r: Cell)
        ensures
            r@ == default_cell(),
    {
        Cell {
            symbol: string_of_char(' '),
            fg: Color::Reset,
            bg: Color::Reset,
            underline_color: Color::Reset,
            modifier: Modifier::empty(),
            skip: false,
        }
    }
}

impl Clone for Cell {
    fn clone(&self) -> (r: Cell)
        ensures
            r@ == self@,
    {
        Cell {
            symbol: self.symbol.clone(),
            fg: self.fg,
            bg: self.bg,
            underline_color: self.underline_color,
            modifier: self.modifier,
            skip: self.skip,
        }
    }
}

impl PartialEq for Cell {
    fn eq(&self, other: &Cell) -> (r: bool)
        ensures
            r == (self@ == other@),
    {
        self.symbol == other.symbol && self.fg == other.fg && self.bg == other.bg
            && self.underline_color == other.underline_color && self.modifier == other.modifier
            && self.skip == other.skip
    }
}

impl vstd::std_specs::cmp::PartialEqSpecImpl for Cell {
    open spec fn obeys_eq_spec() -> bool {
        true
    }

    open spec fn eq_spec(&self, other: &Cell) -> bool {
        self@ == other@
    }
}

impl Eq for Cell {

}

impl Cell {
    /// A default cell that shows `symbol`.
    pub fn new(symbol: &str) -> (r: Cell)
        ensures
            r@ == with_symbol(default_cell(), symbol@),
    {
        let mut c = Cell::default();
        c.set_symbol(symbol);
        c
    }

    pub fn symbol(&self) -> (r: &str)
        ensures
            r@ == self.symbol@,
    {
        self.symbol.as_str()
    }

    /// Shows `symbol` in this cell, which is then the first column of a glyph.
    pub fn set_symbol(&mut self, symbol: &str)
        ensures
            final(self)@ == with_symbol(old(self)@, symbol@),
    {
        self.symbol = symbol.to_owned();
        self.skip = false;
    }

    /// Shows the character `c` in this cell, which is then the first column of a glyph.
    pub fn set_char(&mut self, c: char)
        ensures
            final(self)@ == with_symbol(old(self)@, seq![c]),
    {
        self.symbol = string_of_char(c);
        self.skip = false;
    }

    pub fn set_fg(&mut self, color: Color)
        ensures
            final(self)@ == (CellView { fg: color, ..old(self)@ }),
    {
        self.fg = color;
    }

    pub fn set_bg(&mut self, color: Color)
        ensures
            final(self)@ == (CellView { bg: color, ..old(self)@ }),
    {
        self.bg = color;
    }

    /// Lays `style` over the cell.
    pub fn set_style(&mut self, style: Style)
        ensures
            final(self)@ == styled(old(self)@, style),
    {
        if let Some(c) = style.fg {
            self.fg = c;
        }
        if let Some(c) = style.bg {
            self.bg = c;
        }
        if let Some(c) = style.underline_color {
            self.underline_color = c;
        }
        self.modifier = self.modifier.union(style.add_modifier).difference(style.sub_modifier);
    }

    /// Marks the cell as a continuation column of the wide glyph to its left.
    pub fn set_continuation(&mut self)
        ensures
            final(self)@ == as_continuation(old(self)@),
    {
        self.symbol = String::new();
        self.skip = true;
    }

    /// Makes the cell blank again.
    pub fn reset(&mut self)
        ensures
            final(self)@ == default_cell(),
    {
        *self = Cell::default();
    }
}

/// A rectangle of cells, stored row by row from the top-left corner.
#[derive(Debug)]
pub struct Buffer {
    pub area: Rect,
    pub content: Vec<Cell>,
}

/// Index, in a row-major grid over `area`, of the cell at column `x`, row `y`.
pub open spec fn index_in(area: Rect, x: int, y: int) -> int {
    (y - area.y) * area.width + (x - area.x)
}

/// Column of the cell at index `i` of a row-major grid over `area`.
pub open spec fn column_of(area: Rect, i: int) -> int {
    area.x + i % (area.width as int)
}

/// Row of the cell at index `i` of a row-major grid over `area`.
pub open spec fn row_of(area: Rect, i: int) -> int {
    area.y + i / (area.width as int)
}

pub proof fn lemma_index_in_bounds(area: Rect, x: int, y: int)
    requires
        area.contains_spec(x, y),
    ensures
        0 <= index_in(area, x, y) < area.area_spec(),
        column_of(area, index_in(area, x, y)) == x,
        row_of(area, index_in(area, x, y)) == y,
{
    let w = area.width as int;
    let h = area.height as int;
    let dy = y - area.y;
    let dx = x - area.x;
    assert(dy * w + dx < w * h) by (nonlinear_arith)
        requires
            0 <= dy < h,
            0 <= dx < w,
    ;
    assert(0 <= dy * w) by (nonlinear_arith)
        requires
            0 <= dy,
            0 <= w,
    ;
    vstd::arithmetic::div_mod::lemma_fundamental_div_mod_converse(dy * w + dx, w, dy, dx);
}

pub proof fn lemma_position_in_bounds(area: Rect, i: int)
    requires
        0 <= i < area.area_spec(),
    ensures
        area.width > 0,
        area.contains_spec(column_of(area, i), row_of(area, i)),
        index_in(area, column_of(area, i), row_of(area, i)) == i,
{
    let w = area.width as int;
    let h = area.height as int;
    assert(w > 0) by (nonlinear_arith)
        requires
            0 <= i < w * h,
            0 <= h,
    ;
    vstd::arithmetic::div_mod::lemma_fundamental_div_mod(i, w);
    vstd::arithmetic::div_mod::lemma_multiply_divide_lt(i, w, h);
    assert(0 <= i / w) by (nonlinear_arith)
        requires
            0 <= i,
            0 < w,
    ;
    assert(0 <= i % w < w) by (nonlinear_arith)
        requires
            0 < w,
    ;
    assert(w * (i / w) == (i / w) * w) by (nonlinear_arith);
}

impl Buffer {
    /// The buffer's invariant: its rectangle stays inside the coordinate range
    /// and it holds exactly one cell per position.
    pub open spec fn wf(&self) -> bool {
        &&& self.area.fits()
        &&& self.content@.len() == self.area.area_spec()
    }

    /// The cells, row by row.
    pub open spec fn cells(&self) -> Seq<CellView> {
        self.content@.map_values(|c: Cell| c@)
    }

    /// The cell at column `x`, row `y`.
    pub open spec fn cell_at(&self, x: int, y: int) -> CellView {
        self.cells()[index_in(self.area, x, y)]
    }

    /// Every cell is blank.
    pub open spec fn is_blank(&self) -> bool {
        forall|i: int| 0 <= i < self.cells().len() ==> #[trigger] self.cells()[i] == default_cell()
    }

    /// A buffer over `area` whose cells are all `cell`.
    pub fn filled(area: Rect, cell: &Cell) -> (r: Buffer)
        requires
            area.fits(),
        ensures
            r.wf(),
            r.area == area,
            r.cells() == Seq::new(area.area_spec(), |_i: int| cell@),
    {
        let n = area.area();
        let mut content: Vec<Cell> = Vec::new();
        let mut i: usize = 0;
        while i < n
            invariant
                i <= n,
                n == area.area_spec(),
                content@.len() == i,
                forall|j: int| 0 <= j < i ==> #[trigger] content@[j]@ == cell@,
            decreases n - i,
        {
            content.push(cell.clone());
            i = i + 1;
        }
        let r = Buffer { area, content };
        assert(r.cells() =~= Seq::new(area.area_spec(), |_i: int| cell@));
        r
    }

    /// A buffer over `area` whose cells are all blank.
    pub fn empty(area: Rect) -> (r: Buffer)
        requires
            area.fits(),
        ensures
            r.wf(),
            r.area == area,
            r.cells() == Seq::new(area.area_spec(), |_i: int| default_cell()),
            r.is_blank(),
    {
        let blank = Cell::default();
        Buffer::filled(area, &blank)
    }

    /// Index into `content` of the cell at `(x, y)`.
    pub fn index_of(&self, x: u16, y: u16) -> (r: usize)
        requires
            self.wf(),
            self.area.contains_spec(x as int, y as int),
        ensures
            r == index_in(self.area, x as int, y as int),
            r < self.content@.len(),
    {
        proof {
            lemma_index_in_bounds(self.area, x as int, y as int);
        }
        let dy = (y - self.area.y) as usize;
        let w = self.area.width as usize;
        proof {
            assert(dy * w <= w * (self.area.height as int)) by (nonlinear_arith)
                requires
                    dy < self.area.height,
            ;
            assert(w * (self.area.height as int) <= 0xffff * 0xffff) by (nonlinear_arith)
                requires
                    w <= 0xffff,
                    self.area.height <= 0xffff,
            ;
        }
        dy * w + ((x - self.area.x) as usize)
    }

    /// Position of the cell at index `i` of `content`.
    pub fn pos_of(&self, i: usize) -> (r: (u16, u16))
        requires
            self.wf(),
            i < self.content@.len(),
        ensures
            r.0 == column_of(self.area, i as int),
            r.1 == row_of(self.area, i as int),
    {
        proof {
            lemma_position_in_bounds(self.area, i as int);
        }
        let w = self.area.width as usize;
        ((self.area.x as usize + i % w) as u16, (self.area.y as usize + i / w) as u16)
    }

    /// The cell at `(x, y)`, which must lie in the buffer's area.
    pub fn get(&self, x: u16, y: u16) -> (r: &Cell)
        requires
            self.wf(),
            self.area.contains_spec(x as int, y as int),
        ensures
            r@ == self.cell_at(x as int, y as int),
    {
        let i = self.index_of(x, y);
        &self.content[i]
    }

    /// A mutable handle on the cell at `(x, y)`, which must lie in the buffer's area.
    pub fn get_mut(&mut self, x: u16, y: u16) -> (r: &mut Cell)
        requires
            old(self).wf(),
            old(self).area.contains_spec(x as int, y as int),
        ensures
            *r == old(self).content@[index_in(old(self).area, x as int, y as int)],
            final(self).area == old(self).area,
            final(self).content@ == old(self).content@.update(
                index_in(old(self).area, x as int, y as int),
                *final(r),
            ),
    {
        let i = self.index_of(x, y);
        &mut self.content[i]
    }

    /// Makes every cell blank; the area stays.
    pub fn reset(&mut self)
        requires
            old(self).wf(),
        ensures
            final(self).wf(),
            final(self).area == old(self).area,
            final(self).is_blank(),
    {
        let n = self.content.len();
        let mut i: usize = 0;
        while i < n
            invariant
                i <= n,
                n == self.content@.len(),
                self.wf(),
                self.area == old(self).area,
                forall|j: int| 0 <= j < i ==> #[trigger] self.content@[j]@ == default_cell(),
            decreases n - i,
        {
            self.content.set(i, Cell::default());
            i = i + 1;
        }
    }
}

/// The cells over `area` after resizing a grid over `old_area` holding `old`:
/// a position in both areas keeps its cell, every other position is blank.
pub open spec fn resized_cells(old_area: Rect, old: Seq<CellView>, area: Rect) -> Seq<CellView> {
    Seq::new(
        area.area_spec(),
        |i: int|
            if old_area.contains_spec(column_of(area, i), row_of(area, i)) {
                old[index_in(old_area, column_of(area, i), row_of(area, i))]
            } else {
                default_cell()
            },
    )
}

/// The cells after writing the glyph `symbol`, `width` columns wide, with
/// `style` at index `at`: the first column shows the symbol, the others
/// become continuation columns.
pub open spec fn glyph_written(
    cells: Seq<CellView>,
    at: int,
    symbol: Seq<char>,
    width: int,
    style: Style,
) -> Seq<CellView> {
    Seq::new(
        cells.len(),
        |i: int|
            if i == at {
                styled(with_symbol(cells[i], symbol), style)
            } else if at < i < at + width {
                styled(as_continuation(cells[i]), style)
            } else {
                cells[i]
            },
    )
}

/// The cells after writing the first `n` characters of `s`, one column each,
/// with `style` from index `at` on.
pub open spec fn chars_written(cells: Seq<CellView>, at: int, s: Seq<char>, n: int, style: Style) -> Seq<
    CellView,
> {
    Seq::new(
        cells.len(),
        |i: int|
            if at <= i < at + n {
                styled(with_symbol(cells[i], seq![s[i - at]]), style)
            } else {
                cells[i]
            },
    )
}

impl Buffer {
    /// Gives the buffer a new area. A position in both the old and the new
    /// area keeps its cell; every other cell of the new area is blank.
    pub fn resize(&mut self, area: Rect)
        requires
            old(self).wf(),
            area.fits(),
        ensures
            final(self).wf(),
            final(self).area == area,
            final(self).cells() == resized_cells(old(self).area, old(self).cells(), area),
    {
        let n = area.area();
        let mut content: Vec<Cell> = Vec::new();
        let ghost target = resized_cells(self.area, self.cells(), area);
        let mut i: usize = 0;
        while i < n
            invariant
                i <= n,
                n == area.area_spec(),
                area.fits(),
                self.wf(),
                self.area == old(self).area,
                self.cells() == old(self).cells(),
                target == resized_cells(self.area, self.cells(), area),
                content@.len() == i,
                forall|j: int| 0 <= j < i ==> #[trigger] content@[j]@ == target[j],
            decreases n - i,
        {
            proof {
                lemma_position_in_bounds(area, i as int);
            }
            let w = area.width as usize;
            let x = (area.x as usize + i % w) as u16;
            let y = (area.y as usize + i / w) as u16;
            if self.area.contains(Position { x, y }) {
                let k = self.index_of(x, y);
                content.push(self.content[k].clone());
            } else {
                content.push(Cell::default());
            }
            i = i + 1;
        }
        self.area = area;
        self.content = content;
        assert(self.cells() =~= target);
    }

    /// Writes the glyph `symbol`, `width` columns wide, at `(x, y)` with
    /// `style`: the columns after the first become continuation columns. A
    /// glyph that would cross the right edge is not written; the result says
    /// whether it was.
    pub fn set_glyph(&mut self, x: u16, y: u16, symbol: &str, width: u16, style: Style) -> (r: bool)
        requires
            old(self).wf(),
            old(self).area.contains_spec(x as int, y as int),
            width >= 1,
        ensures
            final(self).wf(),
            final(self).area == old(self).area,
            r == (x + width <= old(self).area.x + old(self).area.width),
            r ==> final(self).cells() == glyph_written(
                old(self).cells(),
                index_in(old(self).area, x as int, y as int),
                symbol@,
                width as int,
                style,
            ),
            !r ==> final(self).cells() == old(self).cells(),
            r && width >= 2 ==> !final(self).cell_at(x as int, y as int).skip
                && final(self).cell_at(x + 1, y as int).skip,
    {
        if (x as u32) + (width as u32) > (self.area.x as u32) + (self.area.width as u32) {
            return false;
        }
        let ghost old_cells = self.cells();
        let at = self.index_of(x, y);
        proof {
            lemma_index_in_bounds(self.area, x as int, y as int);
            lemma_index_in_bounds(self.area, x + width - 1, y as int);
        }
        let mut first = self.content[at].clone();
        first.set_symbol(symbol);
        first.set_style(style);
        let ghost cv = first@;
        self.content.set(at, first);
        assert(self.cells() =~= old_cells.update(at as int, cv));
        let total = self.content.len();
        let mut k: usize = 1;
        while k < width as usize
            invariant
                1 <= k <= width,
                at + width <= total,
                total == self.content@.len(),
                self.wf(),
                self.area == old(self).area,
                self.cells().len() == old_cells.len(),
                forall|i: int|
                    0 <= i < old_cells.len() ==> #[trigger] self.cells()[i] == if i == at {
                        styled(with_symbol(old_cells[i], symbol@), style)
                    } else if at < i < at + k {
                        styled(as_continuation(old_cells[i]), style)
                    } else {
                        old_cells[i]
                    },
            decreases width - k,
        {
            let mut c = self.content[at + k].clone();
            c.set_continuation();
            c.set_style(style);
            let ghost before = self.cells();
            let ghost cv = c@;
            self.content.set(at + k, c);
            assert(self.cells() =~= before.update(at + k, cv));
            k = k + 1;
        }
        assert(self.cells() =~= glyph_written(old_cells, at as int, symbol@, width as int, style));
        proof {
            if width >= 2 {
                lemma_index_in_bounds(self.area, x + 1, y as int);
            }
        }
        true
    }

    /// Writes the characters of `s` at `(x, y)` with `style`, one column
    /// each, and stops at the right edge. Returns the column after the last
    /// character written.
    pub fn set_string(&mut self, x: u16, y: u16, s: &str, style: Style) -> (r: u16)
        requires
            old(self).wf(),
            old(self).area.contains_spec(x as int, y as int),
        ensures
            final(self).wf(),
            final(self).area == old(self).area,
            r == x + vstd::math::min(s@.len() as int, old(self).area.x + old(self).area.width - x),
            final(self).cells() == chars_written(
                old(self).cells(),
                index_in(old(self).area, x as int, y as int),
                s@,
                r - x,
                style,
            ),
    {
        let ghost old_cells = self.cells();
        let at = self.index_of(x, y);
        let len = s.unicode_len();
        let room = (self.area.x as usize + self.area.width as usize) - x as usize;
        let n = if len < room {
            len
        } else {
            room
        };
        proof {
            lemma_index_in_bounds(self.area, x as int, y as int);
            if n > 0 {
                lemma_index_in_bounds(self.area, x + n - 1, y as int);
            }
        }
        let total = self.content.len();
        let mut k: usize = 0;
        while k < n
            invariant
                k <= n,
                n <= s@.len(),
                at + n <= total,
                total == self.content@.len(),
                self.wf(),
                self.area == old(self).area,
                self.cells().len() == old_cells.len(),
                forall|i: int|
                    0 <= i < old_cells.len() ==> #[trigger] self.cells()[i] == if at <= i < at
                        + k {
                        styled(with_symbol(old_cells[i], seq![s@[i - at]]), style)
                    } else {
                        old_cells[i]
                    },
            decreases n - k,
        {
            assert(self.cells()[at + k] == old_cells[at + k]);
            let mut c = self.content[at + k].clone();
            c.set_char(s.get_char(k));
            c.set_style(style);
            let ghost before = self.cells();
            let ghost cv = c@;
            self.content.set(at + k, c);
            assert(self.cells() =~= before.update(at + k, cv));
            k = k + 1;
        }
        assert(self.cells() =~= chars_written(old_cells, at as int, s@, n as int, style));
        x + n as u16
    }
}

/// The cells of a buffer `width` columns wide whose rows show `lines`, one
/// column per character, blank where a line ends.
pub open spec fn lines_cells(lines: Seq<Seq<char>>, width: int) -> Seq<CellView> {
    Seq::new(
        (width * lines.len()) as nat,
        |i: int|
            if i % width < lines[i / width].len() {
                with_symbol(default_cell(), seq![lines[i / width][i % width]])
            } else {
                default_cell()
            },
    )
}

impl PartialEq for Buffer {
    fn eq(&self, other: &Buffer) -> (r: bool)
        ensures
            r == (self.area == other.area && self.cells() == other.cells()),
    {
        if self.area != other.area || self.content.len() != other.content.len() {
            assert(self.area != other.area || self.cells().len() != other.cells().len());
            return false;
        }
        let n = self.content.len();
        let mut i: usize = 0;
        while i < n
            invariant
                i <= n,
                n == self.content@.len(),
                n == other.content@.len(),
                forall|j: int| 0 <= j < i ==> self.cells()[j] == other.cells()[j],
            decreases n - i,
        {
            if !self.content[i].eq(&other.content[i]) {
                assert(self.cells()[i as int] != other.cells()[i as int]);
                return false;
            }
            i = i + 1;
        }
        assert(self.cells() =~= other.cells());
        true
    }
}

impl vstd::std_specs::cmp::PartialEqSpecImpl for Buffer {
    open spec fn obeys_eq_spec() -> bool {
        true
    }

    open spec fn eq_spec(&self, other: &Buffer) -> bool {
        self.area == other.area && self.cells() == other.cells()
    }
}

impl Eq for Buffer {

}

impl Buffer {
    /// A buffer at the origin with one row per line, as wide as the longest
    /// line; each character takes one column.
    pub fn with_lines(lines: Vec<&str>) -> (r: Buffer)
        requires
            lines@.len() <= u16::MAX,
            forall|k: int| 0 <= k < lines@.len() ==> (#[trigger] lines@[k])@.len() <= u16::MAX,
        ensures
            r.wf(),
            r.area.x == 0 && r.area.y == 0,
            r.area.height == lines@.len(),
            forall|k: int| 0 <= k < lines@.len() ==> (#[trigger] lines@[k])@.len() <= r.area.width,
            lines@.len() == 0 || exists|k: int|
                0 <= k < lines@.len() && (#[trigger] lines@[k])@.len() == r.area.width,
            r.cells() == lines_cells(
                lines@.map_values(|l: &str| l@),
                r.area.width as int,
            ),
    {
        let h = lines.len();
        let mut w: usize = 0;
        let mut k: usize = 0;
        while k < h
            invariant
                k <= h,
                h == lines@.len(),
                h <= u16::MAX,
                forall|j: int| 0 <= j < lines@.len() ==> (#[trigger] lines@[j])@.len() <= u16::MAX,
                w <= u16::MAX,
                forall|j: int| 0 <= j < k ==> (#[trigger] lines@[j])@.len() <= w,
                k == 0 ==> w == 0,
                k > 0 ==> exists|j: int| 0 <= j < k && (#[trigger] lines@[j])@.len() == w,
            decreases h - k,
        {
            let len = lines[k].unicode_len();
            if len > w {
                w = len;
            }
            k = k + 1;
        }
        let area = Rect::new(0, 0, w as u16, h as u16);
        let mut buf = Buffer::empty(area);
        let ghost views = lines@.map_values(|l: &str| l@);
        let ghost target = lines_cells(views, w as int);
        let mut y: usize = 0;
        while y < h
            invariant
                y <= h,
                h == lines@.len(),
                h == area.height,
                w == area.width,
                area.x == 0 && area.y == 0,
                area.fits(),
                buf.wf(),
                buf.area == area,
                views == lines@.map_values(|l: &str| l@),
                target == lines_cells(views, w as int),
                forall|j: int| 0 <= j < lines@.len() ==> (#[trigger] lines@[j])@.len() <= w,
                forall|i: int|
                    0 <= i < buf.cells().len() ==> #[trigger] buf.cells()[i] == if i / (w as int)
                        < y {
                        target[i]
                    } else {
                        default_cell()
                    },
            decreases h - y,
        {
            if w > 0 {
                let ghost before = buf.cells();
                let plain = Style::new();
                buf.set_string(0, y as u16, lines[y], plain);
                assert forall|i: int| 0 <= i < buf.cells().len() implies #[trigger] buf.cells()[i]
                    == if i / (w as int) < y + 1 {
                    target[i]
                } else {
                    default_cell()
                } by {
                    let wi = w as int;
                    let at = y * wi;
                    let len = views[y as int].len();
                    assert(index_in(area, 0, y as int) == at);
                    vstd::arithmetic::div_mod::lemma_fundamental_div_mod(i, wi);
                    assert(0 <= i % wi < wi) by (nonlinear_arith)
                        requires
                            wi > 0,
                    ;
                    let q = i / wi;
                    assert(wi * q == q * wi) by (nonlinear_arith);
                    if q < y {
                        assert(q * wi + wi <= y * wi) by (nonlinear_arith)
                            requires
                                q < y,
                                wi > 0,
                        ;
                        assert(i < at);
                    } else if q > y {
                        assert(y * wi + wi <= q * wi) by (nonlinear_arith)
                            requires
                                q > y,
                                wi > 0,
                        ;
                        assert(i >= at + wi);
                    } else {
                        assert(i - at == i % wi);
                        if i - at < len {
                            let c = with_symbol(default_cell(), seq![views[y as int][i - at]]);
                            let m = c.modifier.bits;
                            assert((m | 0u16) & !0u16 == m) by (bit_vector);
                            assert(styled(c, plain) == c);
                        }
                    }
                }
            }
            y = y + 1;
        }
        assert forall|i: int| 0 <= i < buf.cells().len() implies #[trigger] buf.cells()[i]
            == target[i] by {
            lemma_position_in_bounds(area, i);
        }
        assert(buf.cells() =~= target);
        buf
    }
}

/// A change to send to the terminal: draw `cell` at column `x`, row `y`.
pub type Update = (u16, u16, Cell);

/// An update as a value.
pub open spec fn update_view(u: Update) -> (u16, u16, CellView) {
    (u.0, u.1, u.2@)
}

pub open spec fn updates_view(us: Seq<Update>) -> Seq<(u16, u16, CellView)> {
    us.map_values(|u: Update| update_view(u))
}

/// Whether `cur[i]` is a continuation column whose glyph is redrawn: the
/// owning glyph (the nearest cell to the left, in the same row, that is not a
/// continuation) differs from `prev` there. Such a column is covered by the
/// glyph's own update and gets none of its own.
pub open spec fn covered(area: Rect, prev: Seq<CellView>, cur: Seq<CellView>, i: int) -> bool
    decreases i,
{
    if i <= 0 || i % (area.width as int) == 0 || !cur[i].skip {
        false
    } else if cur[i - 1].skip {
        covered(area, prev, cur, i - 1)
    } else {
        cur[i - 1] != prev[i - 1]
    }
}

/// Whether the diff sends the cell at index `i`: it changed and is not a
/// continuation column covered by its redrawn glyph.
pub open spec fn emitted(area: Rect, prev: Seq<CellView>, cur: Seq<CellView>, i: int) -> bool {
    cur[i] != prev[i] && !covered(area, prev, cur, i)
}

/// The update that draws the cell at index `i` of `cur`.
pub open spec fn update_for(area: Rect, cur: Seq<CellView>, i: int) -> (u16, u16, CellView) {
    (column_of(area, i) as u16, row_of(area, i) as u16, cur[i])
}

/// The updates for the first `n` cells, in row-major order.
pub open spec fn diff_upto(area: Rect, prev: Seq<CellView>, cur: Seq<CellView>, n: int) -> Seq<
    (u16, u16, CellView),
>
    decreases n,
{
    if n <= 0 {
        Seq::empty()
    } else if emitted(area, prev, cur, n - 1) {
        diff_upto(area, prev, cur, n - 1).push(update_for(area, cur, n - 1))
    } else {
        diff_upto(area, prev, cur, n - 1)
    }
}

/// The updates that turn the screen showing `prev` into one showing `cur`.
/// A cell equal to its previous value is never re-sent: repainting a run of
/// unchanged cells to save a cursor move is left to the backend.
pub open spec fn diff_spec(area: Rect, prev: Seq<CellView>, cur: Seq<CellView>) -> Seq<
    (u16, u16, CellView),
> {
    diff_upto(area, prev, cur, cur.len() as int)
}

impl Buffer {
    /// The cells of `other` that must be drawn over a screen showing `self`,
    /// in row-major order, each with its position.
    pub fn diff(&self, other: &Buffer) -> (r: Vec<Update>)
        requires
            self.wf(),
            other.wf(),
            self.area == other.area,
        ensures
            updates_view(r@) == diff_spec(self.area, self.cells(), other.cells()),
    {
        let ghost prev = self.cells();
        let ghost cur = other.cells();
        let area = self.area;
        let n = other.content.len();
        let w = area.width as usize;
        let mut updates: Vec<Update> = Vec::new();
        // whether the glyph that owns the next continuation column was redrawn
        let mut owner_redrawn = false;
        let mut i: usize = 0;
        while i < n
            invariant
                i <= n,
                n == cur.len(),
                n == prev.len(),
                n == area.area_spec(),
                w == area.width,
                area.fits(),
                prev == self.cells(),
                cur == other.cells(),
                updates_view(updates@) == diff_upto(area, prev, cur, i as int),
                owner_redrawn == (i > 0 && if cur[i - 1].skip {
                    covered(area, prev, cur, i - 1)
                } else {
                    cur[i - 1] != prev[i - 1]
                }),
            decreases n - i,
        {
            proof {
                lemma_position_in_bounds(area, i as int);
            }
            let current = &other.content[i];
            let changed = !current.eq(&self.content[i]);
            let column = i % w;
            let is_covered = current.skip && column != 0 && owner_redrawn;
            assert(is_covered == covered(area, prev, cur, i as int));
            if changed && !is_covered {
                let x = (area.x as usize + column) as u16;
                let y = (area.y as usize + i / w) as u16;
                updates.push((x, y, current.clone()));
                proof {
                    assert(updates_view(updates@) =~= diff_upto(area, prev, cur, i as int).push(
                        update_for(area, cur, i as int),
                    ));
                }
            }
            owner_redrawn = if current.skip {
                is_covered
            } else {
                changed
            };
            i = i + 1;
        }
        updates
    }
}


/// The indices of the first `n` cells that the diff sends, in order.
spec fn sent_indices(area: Rect, prev: Seq<CellView>, cur: Seq<CellView>, n: int) -> Seq<int>
    decreases n,
{
    if n <= 0 {
        Seq::empty()
    } else if emitted(area, prev, cur, n - 1) {
        sent_indices(area, prev, cur, n - 1).push(n - 1)
    } else {
        sent_indices(area, prev, cur, n - 1)
    }
}

proof fn lemma_diff_upto_indices(area: Rect, prev: Seq<CellView>, cur: Seq<CellView>, n: int)
    requires
        0 <= n,
    ensures
        diff_upto(area, prev, cur, n).len() == sent_indices(area, prev, cur, n).len(),
        forall|k: int|
            0 <= k < diff_upto(area, prev, cur, n).len() ==> {
                let i = #[trigger] sent_indices(area, prev, cur, n)[k];
                &&& 0 <= i < n
                &&& emitted(area, prev, cur, i)
                &&& diff_upto(area, prev, cur, n)[k] == update_for(area, cur, i)
            },
        forall|k1: int, k2: int|
            0 <= k1 < k2 < sent_indices(area, prev, cur, n).len() ==> sent_indices(
                area,
                prev,
                cur,
                n,
            )[k1] < sent_indices(area, prev, cur, n)[k2],
    decreases n,
{
    if n > 0 {
        lemma_diff_upto_indices(area, prev, cur, n - 1);
    }
}

/// Applies `updates` in order to the grid `base` over `area`: each one
/// replaces the cell at its position.
pub open spec fn apply_updates(area: Rect, base: Seq<CellView>, updates: Seq<(u16, u16, CellView)>) -> Seq<
    CellView,
>
    decreases updates.len(),
{
    if updates.len() == 0 {
        base
    } else {
        let u = updates.last();
        apply_updates(area, base, updates.drop_last()).update(
            index_in(area, u.0 as int, u.1 as int),
            u.2,
        )
    }
}

proof fn lemma_apply_diff_upto(area: Rect, prev: Seq<CellView>, cur: Seq<CellView>, n: int)
    requires
        area.fits(),
        prev.len() == area.area_spec(),
        cur.len() == area.area_spec(),
        0 <= n <= cur.len(),
    ensures
        apply_updates(area, prev, diff_upto(area, prev, cur, n)).len() == prev.len(),
        forall|i: int|
            0 <= i < prev.len() ==> #[trigger] apply_updates(
                area,
                prev,
                diff_upto(area, prev, cur, n),
            )[i] == if i < n && emitted(area, prev, cur, i) {
                cur[i]
            } else {
                prev[i]
            },
    decreases n,
{
    if n > 0 {
        lemma_apply_diff_upto(area, prev, cur, n - 1);
        if emitted(area, prev, cur, n - 1) {
            lemma_position_in_bounds(area, n - 1);
            let d = diff_upto(area, prev, cur, n);
            assert(d.drop_last() =~= diff_upto(area, prev, cur, n - 1));
        }
    }
}

/// Diffing a buffer against itself sends nothing.
pub proof fn lemma_diff_with_itself_is_empty(b: Buffer)
    requires
        b.wf(),
    ensures
        diff_spec(b.area, b.cells(), b.cells()).len() == 0,
{
    lemma_diff_upto_indices(b.area, b.cells(), b.cells(), b.cells().len() as int);
    let d = diff_spec(b.area, b.cells(), b.cells());
    if d.len() > 0 {
        let i = sent_indices(b.area, b.cells(), b.cells(), b.cells().len() as int)[0];
        assert(emitted(b.area, b.cells(), b.cells(), i));
    }
}

/// Every update of `a.diff(b)` lies in the area, carries the cell of `b` at
/// its position, and that cell differs from the cell of `a` there.
pub proof fn lemma_diff_sends_only_changes(a: Buffer, b: Buffer)
    requires
        a.wf(),
        b.wf(),
        a.area == b.area,
    ensures
        forall|k: int|
            0 <= k < diff_spec(a.area, a.cells(), b.cells()).len() ==> {
                let u = #[trigger] diff_spec(a.area, a.cells(), b.cells())[k];
                &&& a.area.contains_spec(u.0 as int, u.1 as int)
                &&& u.2 == b.cell_at(u.0 as int, u.1 as int)
                &&& u.2 != a.cell_at(u.0 as int, u.1 as int)
            },
{
    let n = b.cells().len() as int;
    lemma_diff_upto_indices(a.area, a.cells(), b.cells(), n);
    assert forall|k: int| 0 <= k < diff_spec(a.area, a.cells(), b.cells()).len() implies {
        let u = #[trigger] diff_spec(a.area, a.cells(), b.cells())[k];
        &&& a.area.contains_spec(u.0 as int, u.1 as int)
        &&& u.2 == b.cell_at(u.0 as int, u.1 as int)
        &&& u.2 != a.cell_at(u.0 as int, u.1 as int)
    } by {
        let i = sent_indices(a.area, a.cells(), b.cells(), n)[k];
        lemma_position_in_bounds(a.area, i);
    }
}

/// Applying the updates of `a.diff(b)` to the cells of `a` gives the cells of
/// `b`, but for continuation columns of a wide glyph that the diff redraws:
/// those are covered on screen by the glyph's own update.
pub proof fn lemma_diff_applied_gives_target(a: Buffer, b: Buffer)
    requires
        a.wf(),
        b.wf(),
        a.area == b.area,
    ensures
        apply_updates(a.area, a.cells(), diff_spec(a.area, a.cells(), b.cells())).len()
            == b.cells().len(),
        forall|i: int|
            0 <= i < b.cells().len() ==> #[trigger] apply_updates(
                a.area,
                a.cells(),
                diff_spec(a.area, a.cells(), b.cells()),
            )[i] == b.cells()[i] || covered(a.area, a.cells(), b.cells(), i),
{
    lemma_apply_diff_upto(a.area, a.cells(), b.cells(), b.cells().len() as int);
}

/// Where every continuation column of `b` already holds the cell of `a`,
/// applying the updates of `a.diff(b)` to the cells of `a` gives exactly the
/// cells of `b`.
pub proof fn lemma_diff_applied_equals_target(a: Buffer, b: Buffer)
    requires
        a.wf(),
        b.wf(),
        a.area == b.area,
        forall|i: int|
            0 <= i < b.cells().len() && (#[trigger] b.cells()[i]).skip ==> b.cells()[i]
                == a.cells()[i],
    ensures
        apply_updates(a.area, a.cells(), diff_spec(a.area, a.cells(), b.cells())) == b.cells(),
{
    let r = apply_updates(a.area, a.cells(), diff_spec(a.area, a.cells(), b.cells()));
    lemma_apply_diff_upto(a.area, a.cells(), b.cells(), b.cells().len() as int);
    assert(r =~= b.cells());
}

/// The continuation column at `(x + 1, y)` of the glyph at `(x, y)` gets no
/// update of its own: not when the glyph is redrawn (its update covers the
/// column), and not when the column is unchanged.
pub proof fn lemma_continuation_not_sent(a: Buffer, b: Buffer, x: u16, y: u16)
    requires
        a.wf(),
        b.wf(),
        a.area == b.area,
        a.area.contains_spec(x as int, y as int),
        a.area.contains_spec(x + 1, y as int),
        !b.cell_at(x as int, y as int).skip,
        b.cell_at(x + 1, y as int).skip,
        b.cell_at(x as int, y as int) != a.cell_at(x as int, y as int) || b.cell_at(x + 1, y as int)
            == a.cell_at(x + 1, y as int),
    ensures
        forall|k: int|
            0 <= k < diff_spec(a.area, a.cells(), b.cells()).len() ==> {
                let u = #[trigger] diff_spec(a.area, a.cells(), b.cells())[k];
                !(u.0 == x + 1 && u.1 == y)
            },
{
    let area = a.area;
    let n = b.cells().len() as int;
    let i = index_in(area, x + 1, y as int);
    lemma_index_in_bounds(area, x as int, y as int);
    lemma_index_in_bounds(area, x + 1, y as int);
    assert(i - 1 == index_in(area, x as int, y as int));
    assert(i % (area.width as int) != 0);
    assert(!emitted(area, a.cells(), b.cells(), i));
    lemma_diff_upto_indices(area, a.cells(), b.cells(), n);
    assert forall|k: int| 0 <= k < diff_spec(area, a.cells(), b.cells()).len() implies {
        let u = #[trigger] diff_spec(area, a.cells(), b.cells())[k];
        !(u.0 == x + 1 && u.1 == y)
    } by {
        let j = sent_indices(area, a.cells(), b.cells(), n)[k];
        lemma_position_in_bounds(area, j);
    }
}

} // verus!
