//! A backend that keeps the screen in memory, for tests and for rendering
//! without a terminal.
use vstd::prelude::*;

use crate::backend::{Backend, BackendCall, BackendError, ClearType};
use crate::buffer::updates_view;
use crate::buffer::{Buffer, Cell, Update};
use crate::layout::{Position, Rect, Size};

verus! {

/// An in-memory screen with a cursor. It also records how many updates each
/// draw call carried.
pub struct TestBackend {
    buffer: Buffer,
    cursor_visible: bool,
    cursor: Position,
    draw_calls: Vec<usize>,
    calls: Ghost<Seq<(BackendCall, bool)>>,
}

impl TestBackend {
    spec fn inv(&self) -> bool {
        &&& self.buffer.wf()
        &&& self.buffer.area.x == 0
        &&& self.buffer.area.y == 0
    }

    /// Whether the screen is a well-formed grid at the origin; every
    /// operation keeps it so.
    fn screen_ok(&self) -> (r: bool)
        ensures
            r == self.inv(),
    {
        self.buffer.area.x == 0 && self.buffer.area.y == 0 && self.buffer.content.len()
            == self.buffer.area.area()
    }

    /// The screen's cells, row by row.
    pub closed spec fn screen(&self) -> Buffer {
        self.buffer
    }

    /// Whether the cursor is shown.
    pub closed spec fn cursor_shown(&self) -> bool {
        self.cursor_visible
    }

    /// The cursor's position.
    pub closed spec fn cursor_at(&self) -> Position {
        self.cursor
    }

    /// The number of updates of each draw call so far.
    pub closed spec fn draws(&self) -> Seq<usize> {
        self.draw_calls@
    }

    /// A blank screen of `width` columns and `height` rows, the cursor
    /// visible at the top-left corner.
    pub fn new(width: u16, height: u16) -> (r: TestBackend)
        ensures
            r.screen().area == (Rect { x: 0, y: 0, width, height }),
            r.screen().wf(),
            r.screen().is_blank(),
            r.cursor_shown(),
            r.cursor_at() == (Position { x: 0, y: 0 }),
            r.draws().len() == 0,
            r.log().len() == 0,
    {
        TestBackend {
            buffer: Buffer::empty(Rect::new(0, 0, width, height)),
            cursor_visible: true,
            cursor: Position::new(0, 0),
            draw_calls: Vec::new(),
            calls: Ghost(Seq::empty()),
        }
    }

    /// What the screen shows.
    pub fn buffer(&self) -> (r: &Buffer)
        ensures
            *r == self.screen(),
    {
        &self.buffer
    }

    /// Whether the cursor is shown.
    pub fn cursor_visible(&self) -> (r: bool)
        ensures
            r == self.cursor_shown(),
    {
        self.cursor_visible
    }

    /// The cursor's position.
    pub fn cursor_position(&self) -> (r: Position)
        ensures
            r == self.cursor_at(),
    {
        self.cursor
    }

    /// The number of updates of each draw call so far, oldest first.
    pub fn draw_calls(&self) -> (r: &Vec<usize>)
        ensures
            r@ == self.draws(),
    {
        &self.draw_calls
    }

    /// Gives the screen a new size; cells in both sizes stay.
    pub fn resize(&mut self, width: u16, height: u16)
        ensures
            final(self).screen().wf(),
            final(self).screen().area == (Rect { x: 0, y: 0, width, height }),
            final(self).cursor_shown() == old(self).cursor_shown(),
            final(self).cursor_at() == old(self).cursor_at(),
            final(self).draws() == old(self).draws(),
            final(self).log() == old(self).log(),
    {
        let area = Rect::new(0, 0, width, height);
        if self.screen_ok() {
            self.buffer.resize(area);
        } else {
            self.buffer = Buffer::empty(area);
        }
    }

    /// Blanks the cells with index in `from ..< to`.
    fn blank(&mut self, from: usize, to: usize)
        requires
            old(self).inv(),
        ensures
            final(self).inv(),
            final(self).calls == old(self).calls,
    {
        let n = self.buffer.content.len();
        let end = if to < n {
            to
        } else {
            n
        };
        let mut i = from;
        while i < end
            invariant
                end <= self.buffer.content@.len(),
                self.calls == old(self).calls,
                self.buffer.wf(),
                self.buffer.area.x == 0,
                self.buffer.area.y == 0,
            decreases end - i,
        {
            self.buffer.content.set(i, Cell::default());
            i = i + 1;
        }
    }

    /// Index of the cursor's cell, or the screen's size when the cursor
    /// is past it.
    fn cursor_index(&self) -> (r: usize)
        requires
            self.inv(),
        ensures
            r <= self.screen().content@.len(),
    {
        if self.buffer.area.contains(self.cursor) {
            self.buffer.index_of(self.cursor.x, self.cursor.y)
        } else {
            self.buffer.content.len()
        }
    }

    /// Index of the first cell of the cursor's row, clamped to the screen.
    fn cursor_row_start(&self) -> (r: usize)
        requires
            self.inv(),
        ensures
            r <= self.screen().content@.len(),
            r < self.screen().content@.len() ==> r + self.screen().area.width <= self.screen().content@.len(),
    {
        if self.cursor.y < self.buffer.area.height && self.buffer.area.width > 0 {
            proof {
                crate::buffer::lemma_index_in_bounds(self.buffer.area, 0, self.cursor.y as int);
                crate::buffer::lemma_index_in_bounds(
                    self.buffer.area,
                    self.buffer.area.width - 1,
                    self.cursor.y as int,
                );
            }
            self.buffer.index_of(0, self.cursor.y)
        } else {
            self.buffer.content.len()
        }
    }
}

impl TestBackend {
    fn screen_draw(&mut self, content: &Vec<Update>) -> (r: Result<(), BackendError>)
        ensures
            final(self).calls == old(self).calls,
    {
        if !self.screen_ok() {
            return Err(BackendError::new("the screen is not a grid at the origin"));
        }
        let n = content.len();
        let mut k: usize = 0;
        while k < n
            invariant
                self.calls == old(self).calls,
                n == content@.len(),
                self.buffer.wf(),
                self.buffer.area.x == 0,
                self.buffer.area.y == 0,
            decreases n - k,
        {
            let (x, y, cell) = &content[k];
            if self.buffer.area.contains(Position { x: *x, y: *y }) {
                let i = self.buffer.index_of(*x, *y);
                self.buffer.content.set(i, cell.clone());
            }
            k = k + 1;
        }
        self.draw_calls.push(n);
        Ok(())
    }

    fn screen_hide_cursor(&mut self) -> (r: Result<(), BackendError>)
        ensures
            final(self).calls == old(self).calls,
    {
        self.cursor_visible = false;
        Ok(())
    }

    fn screen_show_cursor(&mut self) -> (r: Result<(), BackendError>)
        ensures
            final(self).calls == old(self).calls,
    {
        self.cursor_visible = true;
        Ok(())
    }

    fn screen_get_cursor_position(&mut self) -> (r: Result<Position, BackendError>)
        ensures
            final(self).calls == old(self).calls,
    {
        Ok(self.cursor)
    }

    fn screen_set_cursor_position(&mut self, position: Position) -> (r: Result<(), BackendError>)
        ensures
            final(self).calls == old(self).calls,
    {
        self.cursor = position;
        Ok(())
    }

    fn screen_clear_region(&mut self, clear_type: ClearType) -> (r: Result<(), BackendError>)
        ensures
            final(self).calls == old(self).calls,
    {
        if !self.screen_ok() {
            return Err(BackendError::new("the screen is not a grid at the origin"));
        }
        let n = self.buffer.content.len();
        let width = self.buffer.area.width as usize;
        match clear_type {
            ClearType::All => self.blank(0, n),
            ClearType::AfterCursor => {
                let from = self.cursor_index();
                self.blank(from, n);
            },
            ClearType::BeforeCursor => {
                let to = self.cursor_index();
                self.blank(0, to);
            },
            ClearType::CurrentLine => {
                let start = self.cursor_row_start();
                if start < n {
                    self.blank(start, start + width);
                }
            },
            ClearType::UntilNewLine => {
                let from = self.cursor_index();
                let start = self.cursor_row_start();
                if start < n {
                    self.blank(from, start + width);
                }
            },
        }
        Ok(())
    }

    fn screen_append_lines(&mut self, n: u16) -> (r: Result<(), BackendError>)
        ensures
            final(self).calls == old(self).calls,
    {
        if !self.screen_ok() {
            return Err(BackendError::new("the screen is not a grid at the origin"));
        }
        let height = self.buffer.area.height;
        let max_y = height.saturating_sub(1);
        let lines_after_cursor = max_y.saturating_sub(self.cursor.y);
        if n > lines_after_cursor {
            let scroll_by = (n - lines_after_cursor) as usize;
            let width = self.buffer.area.width as usize;
            let len = self.buffer.content.len();
            let shift = if scroll_by < height as usize {
                proof {
                    assert(width * scroll_by <= width * (height as int)) by (nonlinear_arith)
                        requires
                            scroll_by < height,
                    ;
                }
                width * scroll_by
            } else {
                len
            };
            let mut content: Vec<Cell> = Vec::new();
            let mut i: usize = 0;
            while i < len
                invariant
                    len == self.buffer.content@.len(),
                    shift <= len,
                    content@.len() == i,
                    i <= len,
                decreases len - i,
            {
                if i < len - shift {
                    content.push(self.buffer.content[i + shift].clone());
                } else {
                    content.push(Cell::default());
                }
                i = i + 1;
            }
            self.buffer.content = content;
        }
        let moved = self.cursor.y.saturating_add(n);
        self.cursor.y = if moved < max_y {
            moved
        } else {
            max_y
        };
        Ok(())
    }


    fn screen_flush(&mut self) -> (r: Result<(), BackendError>)
        ensures
            final(self).calls == old(self).calls,
    {
        Ok(())
    }
}

impl Backend for TestBackend {
    closed spec fn log(&self) -> Seq<(BackendCall, bool)> {
        self.calls@
    }

    fn draw(&mut self, content: &Vec<Update>) -> (r: Result<(), BackendError>) {
        let r = self.screen_draw(content);
        self.calls = Ghost(self.calls@.push((BackendCall::Draw(updates_view(content@)), r is Ok)));
        r
    }

    fn hide_cursor(&mut self) -> (r: Result<(), BackendError>) {
        let r = self.screen_hide_cursor();
        self.calls = Ghost(self.calls@.push((BackendCall::HideCursor, r is Ok)));
        r
    }

    fn show_cursor(&mut self) -> (r: Result<(), BackendError>) {
        let r = self.screen_show_cursor();
        self.calls = Ghost(self.calls@.push((BackendCall::ShowCursor, r is Ok)));
        r
    }

    fn get_cursor_position(&mut self) -> (r: Result<Position, BackendError>) {
        let r = self.screen_get_cursor_position();
        self.calls = Ghost(self.calls@.push((BackendCall::GetCursorPosition, r is Ok)));
        r
    }

    fn set_cursor_position(&mut self, position: Position) -> (r: Result<(), BackendError>) {
        let r = self.screen_set_cursor_position(position);
        self.calls = Ghost(self.calls@.push((BackendCall::SetCursorPosition(position), r is Ok)));
        r
    }

    fn clear_region(&mut self, clear_type: ClearType) -> (r: Result<(), BackendError>) {
        let r = self.screen_clear_region(clear_type);
        self.calls = Ghost(self.calls@.push((BackendCall::ClearRegion(clear_type), r is Ok)));
        r
    }

    fn append_lines(&mut self, n: u16) -> (r: Result<(), BackendError>) {
        let r = self.screen_append_lines(n);
        self.calls = Ghost(self.calls@.push((BackendCall::AppendLines(n), r is Ok)));
        r
    }

    fn size(&mut self) -> (r: Result<Size, BackendError>) {
        let r = Ok(self.buffer.area.as_size());
        self.calls = Ghost(self.calls@.push((BackendCall::Size, true)));
        r
    }

    fn flush(&mut self) -> (r: Result<(), BackendError>) {
        let r = self.screen_flush();
        self.calls = Ghost(self.calls@.push((BackendCall::Flush, r is Ok)));
        r
    }
}

} // verus!
