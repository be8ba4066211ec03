//! The double-buffered terminal: it owns the backend and two buffers, keeps
//! the viewport's geometry, and turns each frame into the least drawing.
use vstd::prelude::*;

use crate::backend::{
    last_call_failed, lemma_ran_chain, lemma_ran_failed_last, lemma_ran_nothing, lemma_ran_step, lemma_ran_then, ran, Backend, BackendCall, BackendError,
    ClearType,
};
use crate::buffer::{diff_spec, Buffer, CellView, Update};
use crate::layout::{Position, Rect, Size};

verus! {

/// Where a terminal draws.
#[derive(Debug, Clone, Copy, PartialEq, Eq, Hash, Structural)]
pub enum Viewport {
    /// The whole screen; the area follows the screen's size.
    Fullscreen,
    /// A band of the given height at the cursor's row; its width follows
    /// the screen's.
    Inline(u16),
    /// A fixed rectangle that never changes by itself.
    Fixed(Rect),
}

/// How to build a terminal.
#[derive(Debug, Clone, Copy, PartialEq, Eq, Hash, Structural)]
pub struct Options {
    pub viewport: Viewport,
}

/// What a render step works on: the viewport's area, the buffer to fill, and
/// where it wants the cursor once the frame is drawn (hidden if nowhere).
pub struct Frame<'a> {
    pub viewport_area: Rect,
    pub buffer: &'a mut Buffer,
    pub cursor_position: Option<Position>,
    pub count: usize,
}

impl<'a> Frame<'a> {
    /// The area to render in.
    pub fn area(&self) -> (r: Rect)
        ensures
            r == self.viewport_area,
    {
        self.viewport_area
    }

    /// Asks for the cursor to be shown at `position` after the frame.
    pub fn set_cursor_position(&mut self, position: Position)
        ensures
            final(self).cursor_position == Some(position),
            final(self).viewport_area == old(self).viewport_area,
            final(self).count == old(self).count,
            *final(self).buffer == *old(self).buffer,
    {
        self.cursor_position = Some(position);
    }

    /// The number of frames drawn before this one.
    pub fn count(&self) -> (r: usize)
        ensures
            r == self.count,
    {
        self.count
    }
}

/// A drawn frame: the buffer that was sent, the screen's area, and the frame's
/// number.
pub struct CompletedFrame<'a> {
    pub buffer: &'a Buffer,
    pub area: Rect,
    pub count: usize,
}

/// `a - b`, or 0 where `b` is larger.
pub open spec fn sat_sub(a: int, b: int) -> int {
    if a >= b {
        a - b
    } else {
        0
    }
}

/// Lines to append below the cursor so that an inline viewport of `height`
/// rows fits, when the cursor sits `offset` rows into it.
pub open spec fn inline_lines_after_cursor(height: u16, offset: u16) -> int {
    sat_sub(sat_sub(height as int, offset as int), 1)
}

/// Row of an inline viewport of `height` rows on a screen of `size`, with
/// the cursor at row `cursor_row`, `offset` rows into the viewport.
pub open spec fn inline_row(height: u16, size: Size, offset: u16, cursor_row: u16) -> int {
    let lines_after = inline_lines_after_cursor(height, offset);
    let available = sat_sub(sat_sub(size.height as int, cursor_row as int), 1);
    let missing = sat_sub(lines_after, available);
    sat_sub(sat_sub(cursor_row as int, missing), offset as int)
}

/// The area of that inline viewport: full width, as tall as asked but no
/// taller than the screen (nor than what fits below `u16::MAX`).
pub open spec fn inline_area(height: u16, size: Size, offset: u16, cursor_row: u16) -> Rect {
    let row = inline_row(height, size, offset, cursor_row);
    let h = vstd::math::min(size.height as int, height as int);
    Rect {
        x: 0,
        y: row as u16,
        width: size.width,
        height: vstd::math::min(h, u16::MAX - row) as u16,
    }
}

/// The placement of an inline viewport once the cursor's row is known: its
/// area, and how many lines to append at the cursor to make room for it.
pub fn inline_placement(height: u16, size: Size, offset: u16, cursor_row: u16) -> (r: (Rect, u16))
    ensures
        r.0 == inline_area(height, size, offset, cursor_row),
        r.1 == inline_lines_after_cursor(height, offset),
        r.0.fits(),
{
    let lines_after_cursor = height.saturating_sub(offset).saturating_sub(1);
    let available_lines = size.height.saturating_sub(cursor_row).saturating_sub(1);
    let missing_lines = lines_after_cursor.saturating_sub(available_lines);
    let mut row = cursor_row;
    if missing_lines > 0 {
        row = row.saturating_sub(missing_lines);
    }
    row = row.saturating_sub(offset);
    let max_height = if size.height < height {
        size.height
    } else {
        height
    };
    let room = u16::MAX - row;
    let h = if max_height < room {
        max_height
    } else {
        room
    };
    (Rect { x: 0, y: row, width: size.width, height: h }, lines_after_cursor)
}

/// An inline viewport placed with the cursor on the screen never reaches
/// past the screen's bottom.
pub proof fn lemma_inline_area_within_screen(height: u16, size: Size, offset: u16, cursor_row: u16)
    requires
        cursor_row < size.height,
    ensures
        inline_area(height, size, offset, cursor_row).y + inline_area(
            height,
            size,
            offset,
            cursor_row,
        ).height <= size.height,
        inline_area(height, size, offset, cursor_row).height == vstd::math::min(
            size.height as int,
            height as int,
        ),
{
}

/// The calls that place an inline viewport: read the cursor, then append
/// the lines it needs below it.
pub open spec fn inline_plan(height: u16, offset: u16) -> Seq<BackendCall> {
    seq![
        BackendCall::GetCursorPosition,
        BackendCall::AppendLines(inline_lines_after_cursor(height, offset) as u16),
    ]
}

/// Places an inline viewport of `height` rows on a screen of `size`, the
/// cursor being `offset` rows into it: reads the cursor's row, appends the
/// lines needed below it, and returns the viewport's area with the cursor
/// position read. The first failing call ends it with that call's error.
pub fn compute_inline_size<B: Backend>(
    backend: &mut B,
    height: u16,
    size: Size,
    offset_in_previous_viewport: u16,
) -> (r: Result<(Rect, Position), BackendError>)
    ensures
        ran(old(backend).log(), final(backend).log(), inline_plan(height, offset_in_previous_viewport), r is Ok),
        r is Ok ==> {
            let (area, pos) = r->Ok_0;
            &&& area == inline_area(height, size, offset_in_previous_viewport, pos.y)
            &&& area.fits()
            &&& pos.y < size.height ==> area.y + area.height <= size.height
        },
{
    let ghost l0 = backend.log();
    let ghost plan = inline_plan(height, offset_in_previous_viewport);
    proof {
        lemma_ran_nothing(l0);
        assert(plan =~= Seq::<BackendCall>::empty().push(BackendCall::GetCursorPosition) + seq![plan[1]]);
    }
    let pos = match backend.get_cursor_position() {
        Ok(p) => p,
        Err(e) => {
            proof {
                lemma_ran_step(l0, l0, backend.log(), Seq::empty(), BackendCall::GetCursorPosition, false);
            }
            return Err(e);
        },
    };
    let ghost l1 = backend.log();
    proof {
        lemma_ran_step(l0, l0, l1, Seq::empty(), BackendCall::GetCursorPosition, true);
        if pos.y < size.height {
            lemma_inline_area_within_screen(height, size, offset_in_previous_viewport, pos.y);
        }
    }
    let (area, lines_after_cursor) = inline_placement(
        height,
        size,
        offset_in_previous_viewport,
        pos.y,
    );
    let appended = backend.append_lines(lines_after_cursor);
    proof {
        lemma_ran_step(
            l0,
            l1,
            backend.log(),
            seq![BackendCall::GetCursorPosition],
            BackendCall::AppendLines(lines_after_cursor),
            appended is Ok,
        );
        assert(seq![BackendCall::GetCursorPosition].push(BackendCall::AppendLines(lines_after_cursor)) =~= plan);
    }
    match appended {
        Ok(()) => Ok((area, pos)),
        Err(e) => Err(e),
    }
}

/// A terminal's state, as a value: everything but the backend.
pub ghost struct TerminalView {
    pub buffers: (Buffer, Buffer),
    pub current: usize,
    pub hidden_cursor: bool,
    pub viewport: Viewport,
    pub viewport_area: Rect,
    pub last_known_area: Rect,
    pub last_known_cursor_pos: Position,
    pub frame_count: usize,
}

impl TerminalView {
    pub open spec fn buffer(self, k: int) -> Buffer {
        if k == 0 {
            self.buffers.0
        } else {
            self.buffers.1
        }
    }

    /// The buffer being rendered into.
    pub open spec fn current_buffer(self) -> Buffer {
        self.buffer(self.current as int)
    }

    /// The buffer last drawn to the screen.
    pub open spec fn previous_buffer(self) -> Buffer {
        self.buffer(1 - self.current)
    }

    /// The terminal's invariant: both buffers are well formed over the
    /// viewport's area, and a fixed viewport keeps its rectangle.
    pub open spec fn wf(self) -> bool {
        &&& self.current < 2
        &&& self.buffers.0.wf()
        &&& self.buffers.1.wf()
        &&& self.buffers.0.area == self.viewport_area
        &&& self.buffers.1.area == self.viewport_area
        &&& self.viewport_area.fits()
        &&& match self.viewport {
            Viewport::Fixed(a) => self.viewport_area == a,
            _ => true,
        }
    }

    /// The state with `b` as the buffer being rendered into.
    pub open spec fn with_current_buffer(self, b: Buffer) -> TerminalView {
        TerminalView {
            buffers: if self.current == 0 {
                (b, self.buffers.1)
            } else {
                (self.buffers.0, b)
            },
            ..self
        }
    }

    /// The state with `b` as the buffer last drawn.
    pub open spec fn with_previous_buffer(self, b: Buffer) -> TerminalView {
        TerminalView {
            buffers: if self.current == 0 {
                (self.buffers.0, b)
            } else {
                (b, self.buffers.1)
            },
            ..self
        }
    }
}

/// Where the cursor is after drawing the difference between the two buffers:
/// on the last cell drawn, or where it was if nothing was drawn.
pub open spec fn cursor_after_flush(t: TerminalView) -> Position {
    let d = diff_spec(t.viewport_area, t.previous_buffer().cells(), t.current_buffer().cells());
    if d.len() > 0 {
        Position { x: d.last().0, y: d.last().1 }
    } else {
        t.last_known_cursor_pos
    }
}

/// The calls that clear the rows `top ..< bottom` one by one: move to the
/// row's start, then clear from there on.
pub open spec fn rows_clear_plan(top: int, bottom: int) -> Seq<BackendCall> {
    Seq::new(
        (2 * (bottom - top)) as nat,
        |i: int|
            if i % 2 == 0 {
                BackendCall::SetCursorPosition(Position { x: 0, y: (top + i / 2) as u16 })
            } else {
                BackendCall::ClearRegion(ClearType::AfterCursor)
            },
    )
}

/// The calls that clear the screen under a viewport at `area`: the whole
/// screen when full-screen; from the viewport's corner on when inline; row
/// by row over a fixed rectangle.
pub open spec fn clear_plan(viewport: Viewport, area: Rect) -> Seq<BackendCall> {
    match viewport {
        Viewport::Fullscreen => seq![BackendCall::ClearRegion(ClearType::All)],
        Viewport::Inline(_) => seq![
            BackendCall::SetCursorPosition(Position { x: area.x, y: area.y }),
            BackendCall::ClearRegion(ClearType::AfterCursor),
        ],
        Viewport::Fixed(a) => rows_clear_plan(a.y as int, a.y + a.height),
    }
}

/// How far into an inline viewport the cursor was last known to be.
pub open spec fn inline_offset(t: TerminalView) -> u16 {
    sat_sub(t.last_known_cursor_pos.y as int, t.viewport_area.y as int) as u16
}

/// The viewport's area after resizing to a screen of area `area`, the
/// cursor being read at row `row` for an inline viewport.
pub open spec fn resize_area(t: TerminalView, area: Rect, row: u16) -> Rect {
    match t.viewport {
        Viewport::Fullscreen => area,
        Viewport::Inline(h) => inline_area(
            h,
            Size { width: area.width, height: area.height },
            inline_offset(t),
            row,
        ),
        Viewport::Fixed(a) => a,
    }
}

/// The calls of a resize: placing an inline viewport anew, then clearing
/// the screen under the new viewport.
pub open spec fn resize_plan(t: TerminalView, area: Rect, row: u16) -> Seq<BackendCall> {
    (match t.viewport {
        Viewport::Inline(h) => inline_plan(h, inline_offset(t)),
        _ => Seq::empty(),
    }) + clear_plan(t.viewport, resize_area(t, area, row))
}

/// `t2` with log `log2` is what resizing `t` with log `log` to a screen of
/// area `area` gives, having succeeded when `ok`: the calls of the resize
/// were made, stopping at the first failure; on success the viewport has
/// its new area, the screen's area is `area` and both buffers are blank;
/// on failure the screen's area is still the old one.
pub open spec fn resized(
    t: TerminalView,
    log: Seq<(BackendCall, bool)>,
    t2: TerminalView,
    log2: Seq<(BackendCall, bool)>,
    area: Rect,
    ok: bool,
) -> bool {
    &&& t2.wf()
    &&& t2.viewport == t.viewport
    &&& t2.current == t.current
    &&& t2.hidden_cursor == t.hidden_cursor
    &&& t2.frame_count == t.frame_count
    &&& !ok ==> t2.last_known_area == t.last_known_area
    &&& exists|row: u16|
        #![trigger resize_area(t, area, row)]
        ran(log, log2, resize_plan(t, area, row), ok) && (ok ==> {
            &&& t2.viewport_area == resize_area(t, area, row)
            &&& t2.last_known_area == area
            &&& t2.current_buffer().is_blank()
            &&& t2.previous_buffer().is_blank()
        })
}

/// The screen's area for a reported size.
pub open spec fn reported_area(size: Size) -> Rect {
    Rect { x: 0, y: 0, width: size.width, height: size.height }
}

/// What following a reported screen size gives: nothing changes for a
/// fixed viewport or an unchanged area; otherwise a resize to that area.
pub open spec fn followed_size(
    t: TerminalView,
    log: Seq<(BackendCall, bool)>,
    t2: TerminalView,
    log2: Seq<(BackendCall, bool)>,
    size: Size,
    ok: bool,
) -> bool {
    if t.viewport is Fixed || reported_area(size) == t.last_known_area {
        t2 == t && log2 == log && ok
    } else {
        resized(t, log, t2, log2, reported_area(size), ok)
    }
}

/// What autoresizing `t` with log `log` gives, having succeeded when `ok`:
/// nothing for a fixed viewport; otherwise the size is read, and nothing
/// more happens when that failed, else what following the size read gives.
pub open spec fn autoresized(
    t: TerminalView,
    log: Seq<(BackendCall, bool)>,
    t2: TerminalView,
    log2: Seq<(BackendCall, bool)>,
    ok: bool,
) -> bool {
    if t.viewport is Fixed {
        t2 == t && log2 == log && ok
    } else {
        (!ok && t2 == t && log2 == log.push((BackendCall::Size, false))) || exists|size: Size|
            #![trigger reported_area(size)]
            followed_size(t, log.push((BackendCall::Size, true)), t2, log2, size, ok)
    }
}
/// The calls that place or hide the cursor after a frame.
pub open spec fn cursor_plan(cursor: Option<Position>) -> Seq<BackendCall> {
    match cursor {
        Some(p) => seq![BackendCall::ShowCursor, BackendCall::SetCursorPosition(p)],
        None => seq![BackendCall::HideCursor],
    }
}

/// The calls that draw the frame rendered in `t`'s current buffer: the
/// difference from the previous buffer, the cursor's calls, then a flush.
pub open spec fn frame_plan(t: TerminalView, cursor: Option<Position>) -> Seq<BackendCall> {
    seq![
        BackendCall::Draw(
            diff_spec(t.viewport_area, t.previous_buffer().cells(), t.current_buffer().cells()),
        ),
    ] + cursor_plan(cursor) + seq![BackendCall::Flush]
}

/// The state after the frame rendered in `mid` was drawn with the cursor
/// request `cursor`: the buffers swapped, the new current one blank, the
/// cursor placed or hidden, and the frame counted.
pub open spec fn frame_drawn(mid: TerminalView, cursor: Option<Position>, t: TerminalView) -> bool {
    &&& t.wf()
    &&& t.viewport == mid.viewport
    &&& t.viewport_area == mid.viewport_area
    &&& t.last_known_area == mid.last_known_area
    &&& t.current == 1 - mid.current
    &&& t.previous_buffer() == mid.current_buffer()
    &&& t.current_buffer().is_blank()
    &&& t.current_buffer().area == mid.viewport_area
    &&& t.hidden_cursor == (cursor is None)
    &&& t.last_known_cursor_pos == match cursor {
        Some(p) => p,
        None => cursor_after_flush(mid),
    }
    &&& t.frame_count == next_count(mid.frame_count)
}

/// `t` with log `l` is what drawing one frame from `t0` with log `l0` gave,
/// having succeeded when `ok`. On success: autoresizing gave a state `a`;
/// the render step left in it a buffer over the viewport (`mid`) and a
/// cursor request; the frame's calls were made; and the frame was drawn.
/// On failure: autoresizing failed; or, where `render_can_fail`, the render
/// step failed and no call followed it; or the frame's calls stopped at a
/// failing one.
pub open spec fn frame_ran(
    t0: TerminalView,
    l0: Seq<(BackendCall, bool)>,
    t: TerminalView,
    l: Seq<(BackendCall, bool)>,
    ok: bool,
    render_can_fail: bool,
) -> bool {
    if ok {
        exists|a: TerminalView, ml: Seq<(BackendCall, bool)>, mid: TerminalView, cursor: Option<Position>|
            #![trigger autoresized(t0, l0, a, ml, true), frame_plan(mid, cursor)]
            {
                &&& autoresized(t0, l0, a, ml, true)
                &&& mid == a.with_current_buffer(mid.current_buffer())
                &&& covers(mid.current_buffer(), a.viewport_area)
                &&& ran(ml, l, frame_plan(mid, cursor), true)
                &&& frame_drawn(mid, cursor, t)
            }
    } else {
        ||| autoresized(t0, l0, t, l, false)
        ||| exists|a: TerminalView, ml: Seq<(BackendCall, bool)>|
            #![trigger autoresized(t0, l0, a, ml, true)]
            {
                &&& autoresized(t0, l0, a, ml, true)
                &&& t.frame_count == t0.frame_count
                &&& {
                    ||| (render_can_fail && l == ml && t == a.with_current_buffer(t.current_buffer()))
                    ||| exists|mid: TerminalView, cursor: Option<Position>|
                        #![trigger frame_plan(mid, cursor)]
                        mid == a.with_current_buffer(mid.current_buffer()) && ran(
                            ml,
                            l,
                            frame_plan(mid, cursor),
                            false,
                        )
                }
            }
    }
}

/// A frame whose rendered buffer equals the one drawn before hands the
/// backend an empty list of updates.
pub proof fn lemma_identical_frame_draws_nothing(t: TerminalView, cursor: Option<Position>)
    requires
        t.wf(),
        t.current_buffer() == t.previous_buffer(),
    ensures
        frame_plan(t, cursor)[0] == BackendCall::Draw(Seq::empty()),
{
    crate::buffer::lemma_diff_with_itself_is_empty(t.current_buffer());
    assert(diff_spec(t.viewport_area, t.previous_buffer().cells(), t.current_buffer().cells())
        =~= Seq::empty());
}

/// Whether `b` is a well-formed buffer over `area`.
pub open spec fn covers(b: Buffer, area: Rect) -> bool {
    b.area == area && b.content@.len() == area.area_spec()
}

/// The frame counter after one more frame: it wraps at `usize::MAX`.
pub open spec fn next_count(n: usize) -> usize {
    if n < usize::MAX {
        (n + 1) as usize
    } else {
        0
    }
}

/// Owns a backend and two buffers. Each frame is rendered into the current
/// buffer, compared with the previous one, and only the difference is drawn;
/// then the two swap.
pub struct Terminal<B: Backend> {
    backend: B,
    buffers: (Buffer, Buffer),
    current: usize,
    hidden_cursor: bool,
    viewport: Viewport,
    viewport_area: Rect,
    last_known_area: Rect,
    last_known_cursor_pos: Position,
    frame_count: usize,
}

impl<B: Backend> View for Terminal<B> {
    type V = TerminalView;

    closed spec fn view(&self) -> TerminalView {
        TerminalView {
            buffers: self.buffers,
            current: self.current,
            hidden_cursor: self.hidden_cursor,
            viewport: self.viewport,
            viewport_area: self.viewport_area,
            last_known_area: self.last_known_area,
            last_known_cursor_pos: self.last_known_cursor_pos,
            frame_count: self.frame_count,
        }
    }
}

impl<B: Backend> Terminal<B> {
    /// The backend, as a value.
    pub closed spec fn backend_view(&self) -> B {
        self.backend
    }

    /// A terminal over the whole screen.
    pub fn new(backend: B) -> (r: Result<Terminal<B>, BackendError>)
        ensures
            r is Ok ==> {
                let t = r->Ok_0@;
                &&& t.wf()
                &&& t.viewport == Viewport::Fullscreen
                &&& t.viewport_area == t.last_known_area
                &&& t.viewport_area.x == 0 && t.viewport_area.y == 0
                &&& t.current == 0
                &&& t.buffers.0.is_blank() && t.buffers.1.is_blank()
                &&& !t.hidden_cursor
                &&& t.frame_count == 0
                &&& t.last_known_cursor_pos == Position { x: 0, y: 0 }
                &&& r->Ok_0.backend_view().log() == backend.log().push((BackendCall::Size, true))
            },
    {
        Self::with_options(backend, Options { viewport: Viewport::Fullscreen })
    }

    /// A terminal with the given viewport. A full-screen or inline viewport
    /// reads the screen's size; an inline one also reads the cursor and
    /// appends the lines it needs below it.
    pub fn with_options(backend: B, options: Options) -> (r: Result<Terminal<B>, BackendError>)
        requires
            options.viewport is Fixed ==> options.viewport->Fixed_0.fits(),
        ensures
            options.viewport is Fixed ==> r is Ok,
            r is Ok ==> match options.viewport {
                Viewport::Fullscreen => r->Ok_0.backend_view().log() == backend.log().push(
                    (BackendCall::Size, true),
                ),
                Viewport::Inline(h) => ran(
                    backend.log().push((BackendCall::Size, true)),
                    r->Ok_0.backend_view().log(),
                    inline_plan(h, 0),
                    true,
                ),
                Viewport::Fixed(_) => r->Ok_0.backend_view().log() == backend.log(),
            },
            r is Ok ==> {
                let t = r->Ok_0@;
                &&& t.wf()
                &&& t.viewport == options.viewport
                &&& t.current == 0
                &&& t.buffers.0.is_blank() && t.buffers.1.is_blank()
                &&& !t.hidden_cursor
                &&& t.frame_count == 0
                &&& match options.viewport {
                    Viewport::Fullscreen => {
                        &&& t.viewport_area == t.last_known_area
                        &&& t.last_known_area.x == 0 && t.last_known_area.y == 0
                        &&& t.last_known_cursor_pos == Position { x: 0, y: 0 }
                    },
                    Viewport::Inline(h) => {
                        &&& t.last_known_area.x == 0 && t.last_known_area.y == 0
                        &&& t.viewport_area == inline_area(
                            h,
                            Size {
                                width: t.last_known_area.width,
                                height: t.last_known_area.height,
                            },
                            0,
                            t.last_known_cursor_pos.y,
                        )
                    },
                    Viewport::Fixed(a) => {
                        &&& t.viewport_area == a
                        &&& t.last_known_area == a
                        &&& t.last_known_cursor_pos == Position { x: a.x, y: a.y }
                    },
                }
            },
    {
        let mut backend = backend;
        let area = match options.viewport {
            Viewport::Fixed(a) => a,
            _ => {
                let size = backend.size()?;
                Rect::from_position_size(Position::new(0, 0), size)
            },
        };
        let (viewport_area, cursor_pos) = match options.viewport {
            Viewport::Fullscreen => (area, Position::new(0, 0)),
            Viewport::Inline(height) => {
                compute_inline_size(&mut backend, height, area.as_size(), 0)?
            },
            Viewport::Fixed(a) => (a, a.as_position()),
        };
        Ok(Terminal {
            backend,
            buffers: (Buffer::empty(viewport_area), Buffer::empty(viewport_area)),
            current: 0,
            hidden_cursor: false,
            viewport: options.viewport,
            viewport_area,
            last_known_area: area,
            last_known_cursor_pos: cursor_pos,
            frame_count: 0,
        })
    }

    /// The buffer being rendered into.
    pub fn current_buffer_mut(&mut self) -> (r: &mut Buffer)
        ensures
            *r == old(self)@.current_buffer(),
            final(self)@ == old(self)@.with_current_buffer(*final(r)),
            final(self).backend_view() == old(self).backend_view(),
    {
        if self.current == 0 {
            &mut self.buffers.0
        } else {
            &mut self.buffers.1
        }
    }

    pub fn backend(&self) -> (r: &B)
        ensures
            *r == self.backend_view(),
    {
        &self.backend
    }

    pub fn backend_mut(&mut self) -> (r: &mut B)
        ensures
            *r == old(self).backend_view(),
            final(self)@ == old(self)@,
            final(self).backend_view() == *final(r),
    {
        &mut self.backend
    }
}

impl<B: Backend> Terminal<B> {
    /// A frame over the current buffer, for rendering into.
    pub fn get_frame(&mut self) -> (r: Frame<'_>)
        ensures
            r.viewport_area == old(self)@.viewport_area,
            r.cursor_position is None,
            r.count == old(self)@.frame_count,
            *r.buffer == old(self)@.current_buffer(),
            final(self)@ == old(self)@.with_current_buffer(*final(r.buffer)),
            final(self).backend_view() == old(self).backend_view(),
    {
        let count = self.frame_count;
        let viewport_area = self.viewport_area;
        let buffer = if self.current == 0 {
            &mut self.buffers.0
        } else {
            &mut self.buffers.1
        };
        Frame { viewport_area, buffer, cursor_position: None, count }
    }

    /// Draws the difference between the previous and the current buffer.
    /// The cursor is then known to be on the last cell drawn.
    pub fn flush(&mut self) -> (r: Result<(), BackendError>)
        requires
            old(self)@.wf(),
        ensures
            final(self)@ == (TerminalView {
                last_known_cursor_pos: cursor_after_flush(old(self)@),
                ..old(self)@
            }),
            final(self).backend_view().log() == old(self).backend_view().log().push(
                (
                    BackendCall::Draw(
                        diff_spec(
                            old(self)@.viewport_area,
                            old(self)@.previous_buffer().cells(),
                            old(self)@.current_buffer().cells(),
                        ),
                    ),
                    r is Ok,
                ),
            ),
    {
        let updates = if self.current == 0 {
            self.buffers.1.diff(&self.buffers.0)
        } else {
            self.buffers.0.diff(&self.buffers.1)
        };
        let n = updates.len();
        if n > 0 {
            let last = &updates[n - 1];
            assert(crate::buffer::updates_view(updates@)[n - 1] == crate::buffer::update_view(
                updates@[n - 1],
            ));
            self.last_known_cursor_pos = Position { x: last.0, y: last.1 };
        }
        self.backend.draw(&updates)
    }

    fn set_viewport_area(&mut self, area: Rect)
        requires
            old(self)@.wf(),
            area.fits(),
            old(self)@.viewport is Fixed ==> area == old(self)@.viewport->Fixed_0,
        ensures
            final(self)@.wf(),
            final(self)@.viewport_area == area,
            final(self)@.buffers.0.area == area,
            final(self)@.buffers.1.area == area,
            final(self)@.current == old(self)@.current,
            final(self)@.hidden_cursor == old(self)@.hidden_cursor,
            final(self)@.viewport == old(self)@.viewport,
            final(self)@.last_known_area == old(self)@.last_known_area,
            final(self)@.last_known_cursor_pos == old(self)@.last_known_cursor_pos,
            final(self)@.frame_count == old(self)@.frame_count,
            final(self).backend_view() == old(self).backend_view(),
    {
        self.buffers.0.resize(area);
        self.buffers.1.resize(area);
        self.viewport_area = area;
    }

    /// Clears the screen's part that the viewport covers and blanks the
    /// previous buffer, so that the next frame redraws every cell. The first
    /// failing call ends it with that call's error, and nothing is blanked.
    pub fn clear(&mut self) -> (r: Result<(), BackendError>)
        requires
            old(self)@.wf(),
        ensures
            final(self)@.wf(),
            ran(
                old(self).backend_view().log(),
                final(self).backend_view().log(),
                clear_plan(old(self)@.viewport, old(self)@.viewport_area),
                r is Ok,
            ),
            r is Ok ==> final(self)@ == old(self)@.with_previous_buffer(
                final(self)@.previous_buffer(),
            ),
            r is Ok ==> final(self)@.previous_buffer().is_blank(),
            r is Err ==> final(self)@ == old(self)@,
    {
        let ghost l0 = self.backend.log();
        let ghost plan = clear_plan(self@.viewport, self@.viewport_area);
        proof {
            lemma_ran_nothing(l0);
        }
        match self.viewport {
            Viewport::Fullscreen => {
                let c = self.backend.clear_region(ClearType::All);
                proof {
                    lemma_ran_step(l0, l0, self.backend.log(), Seq::empty(), BackendCall::ClearRegion(ClearType::All), c is Ok);
                    assert(Seq::<BackendCall>::empty().push(BackendCall::ClearRegion(ClearType::All)) =~= plan);
                }
                c?;
            },
            Viewport::Inline(_) => {
                let corner = self.viewport_area.as_position();
                let m = self.backend.set_cursor_position(corner);
                let ghost l1 = self.backend.log();
                proof {
                    lemma_ran_step(l0, l0, l1, Seq::empty(), BackendCall::SetCursorPosition(corner), m is Ok);
                    assert(plan =~= Seq::<BackendCall>::empty().push(BackendCall::SetCursorPosition(corner)) + seq![BackendCall::ClearRegion(ClearType::AfterCursor)]);
                }
                m?;
                let c = self.backend.clear_region(ClearType::AfterCursor);
                proof {
                    lemma_ran_step(l0, l1, self.backend.log(), seq![BackendCall::SetCursorPosition(corner)], BackendCall::ClearRegion(ClearType::AfterCursor), c is Ok);
                    assert(seq![BackendCall::SetCursorPosition(corner)].push(BackendCall::ClearRegion(ClearType::AfterCursor)) =~= plan);
                }
                c?;
            },
            Viewport::Fixed(area) => {
                let bottom = area.bottom();
                let top = area.top();
                let mut y = top;
                proof {
                    assert(rows_clear_plan(top as int, top as int) =~= Seq::empty());
                }
                while y < bottom
                    invariant
                        self@ == old(self)@,
                        old(self)@.wf(),
                        top <= y <= bottom,
                        top == area.y,
                        bottom == area.y + area.height,
                        plan == rows_clear_plan(top as int, bottom as int),
                        plan == clear_plan(old(self)@.viewport, old(self)@.viewport_area),
                        l0 == old(self).backend_view().log(),
                        ran(l0, self.backend.log(), rows_clear_plan(top as int, y as int), true),
                    decreases bottom - y,
                {
                    let ghost done = rows_clear_plan(top as int, y as int);
                    let ghost la = self.backend.log();
                    let start = Position { x: 0, y };
                    let m = self.backend.set_cursor_position(start);
                    let ghost lb = self.backend.log();
                    proof {
                        lemma_ran_step(l0, la, lb, done, BackendCall::SetCursorPosition(start), m is Ok);
                        let rest = seq![BackendCall::ClearRegion(ClearType::AfterCursor)] + rows_clear_plan(y + 1, bottom as int);
                        assert(plan =~= done.push(BackendCall::SetCursorPosition(start)) + rest);
                        if m is Err {
                            assert(ran(l0, lb, done.push(BackendCall::SetCursorPosition(start)) + rest, false));
                        }
                    }
                    m?;
                    let c = self.backend.clear_region(ClearType::AfterCursor);
                    proof {
                        let d1 = done.push(BackendCall::SetCursorPosition(start));
                        lemma_ran_step(l0, lb, self.backend.log(), d1, BackendCall::ClearRegion(ClearType::AfterCursor), c is Ok);
                        let rest = rows_clear_plan(y + 1, bottom as int);
                        assert(plan =~= d1.push(BackendCall::ClearRegion(ClearType::AfterCursor)) + rest);
                        if c is Err {
                            assert(ran(l0, self.backend.log(), d1.push(BackendCall::ClearRegion(ClearType::AfterCursor)) + rest, false));
                        }
                        assert(d1.push(BackendCall::ClearRegion(ClearType::AfterCursor)) =~= rows_clear_plan(top as int, y + 1));
                    }
                    c?;
                    y = y + 1;
                }
                proof {
                    assert(rows_clear_plan(top as int, y as int) =~= plan);
                }
            },
        }
        if self.current == 0 {
            self.buffers.1.reset();
        } else {
            self.buffers.0.reset();
        }
        Ok(())
    }

    /// Blanks the previous buffer and makes it the current one.
    pub fn swap_buffers(&mut self)
        requires
            old(self)@.wf(),
        ensures
            final(self)@.wf(),
            final(self)@.current == 1 - old(self)@.current,
            final(self)@.previous_buffer() == old(self)@.current_buffer(),
            final(self)@.current_buffer().is_blank(),
            final(self)@.current_buffer().area == old(self)@.viewport_area,
            final(self)@ == (TerminalView {
                buffers: final(self)@.buffers,
                current: final(self)@.current,
                ..old(self)@
            }),
            final(self).backend_view() == old(self).backend_view(),
    {
        if self.current == 0 {
            self.buffers.1.reset();
            self.current = 1;
        } else {
            self.buffers.0.reset();
            self.current = 0;
        }
    }

    /// Updates the viewport for a screen whose area is now `area`, resizes
    /// both buffers to it and clears them, so that the next frame redraws
    /// everything. A full-screen viewport takes `area`; an inline one is
    /// placed again from the cursor's offset in it; a fixed one stays.
    pub fn resize(&mut self, area: Rect) -> (r: Result<(), BackendError>)
        requires
            old(self)@.wf(),
            area.fits(),
        ensures
            resized(
                old(self)@,
                old(self).backend_view().log(),
                final(self)@,
                final(self).backend_view().log(),
                area,
                r is Ok,
            ),
            r is Err ==> last_call_failed(old(self).backend_view().log(), final(self).backend_view().log()),
    {
        let ghost t0 = self@;
        let ghost l0 = self.backend.log();
        let ghost mut row: u16 = 0;
        proof {
            lemma_ran_nothing(l0);
        }
        let next_area = match self.viewport {
            Viewport::Fullscreen => area,
            Viewport::Inline(height) => {
                let offset_in_previous_viewport = self.last_known_cursor_pos.y.saturating_sub(
                    self.viewport_area.top(),
                );
                match compute_inline_size(
                    &mut self.backend,
                    height,
                    area.as_size(),
                    offset_in_previous_viewport,
                ) {
                    Ok((placed, pos)) => {
                        proof {
                            row = pos.y;
                        }
                        placed
                    },
                    Err(e) => {
                        proof {
                            crate::backend::lemma_ran_failed_prefix(
                                l0,
                                self.backend.log(),
                                inline_plan(height, offset_in_previous_viewport),
                                clear_plan(t0.viewport, resize_area(t0, area, 0)),
                            );
                            assert(ran(l0, self.backend.log(), resize_plan(t0, area, 0), false));
                            lemma_ran_failed_last(l0, self.backend.log(), resize_plan(t0, area, 0));
                        }
                        return Err(e);
                    },
                }
            },
            Viewport::Fixed(a) => a,
        };
        let ghost prefix = match t0.viewport {
            Viewport::Inline(h) => inline_plan(h, inline_offset(t0)),
            _ => Seq::empty(),
        };
        let ghost l1 = self.backend.log();
        assert(next_area == resize_area(t0, area, row));
        assert(ran(l0, l1, prefix, true));
        self.set_viewport_area(next_area);
        let cleared = self.clear();
        proof {
            lemma_ran_then(
                l0,
                l1,
                self.backend.log(),
                prefix,
                clear_plan(t0.viewport, next_area),
                cleared is Ok,
            );
            assert(ran(l0, self.backend.log(), resize_plan(t0, area, row), cleared is Ok));
            if cleared is Err {
                lemma_ran_failed_last(l0, self.backend.log(), resize_plan(t0, area, row));
            }
        }
        cleared?;
        if self.current == 0 {
            self.buffers.0.reset();
        } else {
            self.buffers.1.reset();
        }
        self.last_known_area = area;
        Ok(())
    }

    /// Follows a screen size the backend reported: a fixed viewport, or an
    /// unchanged area, leaves everything as it was; any other size resizes
    /// to the area of that size at the origin.
    pub fn resize_to_reported(&mut self, size: Size) -> (r: Result<(), BackendError>)
        requires
            old(self)@.wf(),
        ensures
            followed_size(
                old(self)@,
                old(self).backend_view().log(),
                final(self)@,
                final(self).backend_view().log(),
                size,
                r is Ok,
            ),
            final(self)@.wf(),
            r is Err ==> last_call_failed(old(self).backend_view().log(), final(self).backend_view().log()),
    {
        match self.viewport {
            Viewport::Fixed(_) => {},
            _ => {
                let area = Rect::from_position_size(Position::new(0, 0), size);
                if area != self.last_known_area {
                    self.resize(area)?;
                }
            },
        }
        Ok(())
    }

    /// Reads the screen's size and resizes when it changed. A fixed viewport
    /// is never resized, and its size is not read.
    pub fn autoresize(&mut self) -> (r: Result<(), BackendError>)
        requires
            old(self)@.wf(),
        ensures
            final(self)@.wf(),
            autoresized(
                old(self)@,
                old(self).backend_view().log(),
                final(self)@,
                final(self).backend_view().log(),
                r is Ok,
            ),
            r is Err ==> last_call_failed(old(self).backend_view().log(), final(self).backend_view().log()),
    {
        match self.viewport {
            Viewport::Fixed(_) => {
                assert(followed_size(
                    self@,
                    self.backend.log(),
                    self@,
                    self.backend.log(),
                    Size { width: 0, height: 0 },
                    true,
                ) && reported_area(Size { width: 0, height: 0 }).x == 0);
                Ok(())
            },
            _ => {
                let size = match self.size() {
                    Ok(size) => size,
                    Err(e) => {
                        return Err(e);
                    },
                };
                let ghost t0 = self@;
                let ghost l0 = self.backend.log();
                let r = self.resize_to_reported(size);
                assert(followed_size(t0, l0, self@, self.backend.log(), size, r is Ok)
                    && reported_area(size).x == 0);
                r
            },
        }
    }

    /// Hides the cursor.
    pub fn hide_cursor(&mut self) -> (r: Result<(), BackendError>)
        ensures
            final(self).backend_view().log() == old(self).backend_view().log().push(
                (BackendCall::HideCursor, r is Ok),
            ),
            r is Ok ==> final(self)@ == (TerminalView { hidden_cursor: true, ..old(self)@ }),
            r is Err ==> final(self)@ == old(self)@,
    {
        self.backend.hide_cursor()?;
        self.hidden_cursor = true;
        Ok(())
    }

    /// Shows the cursor.
    pub fn show_cursor(&mut self) -> (r: Result<(), BackendError>)
        ensures
            final(self).backend_view().log() == old(self).backend_view().log().push(
                (BackendCall::ShowCursor, r is Ok),
            ),
            r is Ok ==> final(self)@ == (TerminalView { hidden_cursor: false, ..old(self)@ }),
            r is Err ==> final(self)@ == old(self)@,
    {
        self.backend.show_cursor()?;
        self.hidden_cursor = false;
        Ok(())
    }

    /// The cursor's position, as the backend reports it.
    pub fn get_cursor_position(&mut self) -> (r: Result<Position, BackendError>)
        ensures
            final(self).backend_view().log() == old(self).backend_view().log().push(
                (BackendCall::GetCursorPosition, r is Ok),
            ),
            final(self)@ == old(self)@,
    {
        self.backend.get_cursor_position()
    }

    /// The cursor's position as `(x, y)`.
    pub fn get_cursor(&mut self) -> (r: Result<(u16, u16), BackendError>)
        ensures
            final(self).backend_view().log() == old(self).backend_view().log().push(
                (BackendCall::GetCursorPosition, r is Ok),
            ),
            final(self)@ == old(self)@,
    {
        let p = self.get_cursor_position()?;
        Ok((p.x, p.y))
    }

    /// Moves the cursor to `position`.
    pub fn set_cursor_position(&mut self, position: Position) -> (r: Result<(), BackendError>)
        ensures
            final(self).backend_view().log() == old(self).backend_view().log().push(
                (BackendCall::SetCursorPosition(position), r is Ok),
            ),
            r is Ok ==> final(self)@ == (TerminalView {
                last_known_cursor_pos: position,
                ..old(self)@
            }),
            r is Err ==> final(self)@ == old(self)@,
    {
        self.backend.set_cursor_position(position)?;
        self.last_known_cursor_pos = position;
        Ok(())
    }

    /// Moves the cursor to `(x, y)`.
    pub fn set_cursor(&mut self, x: u16, y: u16) -> (r: Result<(), BackendError>)
        ensures
            final(self).backend_view().log() == old(self).backend_view().log().push(
                (BackendCall::SetCursorPosition(Position { x, y }), r is Ok),
            ),
            r is Ok ==> final(self)@ == (TerminalView {
                last_known_cursor_pos: Position { x, y },
                ..old(self)@
            }),
            r is Err ==> final(self)@ == old(self)@,
    {
        self.set_cursor_position(Position { x, y })
    }

    /// The screen's size, as the backend reports it.
    pub fn size(&mut self) -> (r: Result<Size, BackendError>)
        ensures
            final(self)@ == old(self)@,
            final(self).backend_view().log() == old(self).backend_view().log().push(
                (BackendCall::Size, r is Ok),
            ),
    {
        self.backend.size()
    }
}

impl<B: Backend> Terminal<B> {
    /// Takes the current buffer out for a render step, leaving an empty
    /// placeholder in its place.
    fn take_current(&mut self) -> (r: Buffer)
        requires
            old(self)@.wf(),
        ensures
            r == old(self)@.current_buffer(),
            final(self)@.current == old(self)@.current,
            final(self)@ == old(self)@.with_current_buffer(final(self)@.current_buffer()),
            final(self).backend_view() == old(self).backend_view(),
    {
        let mut buf = Buffer { area: self.viewport_area, content: Vec::new() };
        if self.current == 0 {
            std::mem::swap(&mut self.buffers.0, &mut buf);
        } else {
            std::mem::swap(&mut self.buffers.1, &mut buf);
        }
        buf
    }

    /// Puts a rendered buffer back as the current one.
    fn put_current(&mut self, buf: Buffer)
        ensures
            final(self)@ == old(self)@.with_current_buffer(buf),
            final(self).backend_view() == old(self).backend_view(),
    {
        if self.current == 0 {
            self.buffers.0 = buf;
        } else {
            self.buffers.1 = buf;
        }
    }

    /// Puts the rendered buffer back as the current one. A render step that
    /// replaced it by a buffer of another shape gets a blank one over the
    /// viewport instead.
    fn restore_rendered(&mut self, buf: Buffer, old_view: Ghost<TerminalView>)
        requires
            old_view@.wf(),
            old(self)@ == old_view@.with_current_buffer(old(self)@.current_buffer()),
            old(self)@.current == old_view@.current,
        ensures
            final(self)@.wf(),
            final(self)@ == old_view@.with_current_buffer(final(self)@.current_buffer()),
            covers(buf, old_view@.viewport_area) ==> final(self)@.current_buffer() == buf,
            !covers(buf, old_view@.viewport_area) ==> final(self)@.current_buffer().is_blank(),
            final(self).backend_view() == old(self).backend_view(),
    {
        let area = self.viewport_area;
        if buf.area == area && buf.content.len() == area.area() {
            self.put_current(buf);
        } else {
            self.put_current(Buffer::empty(area));
        }
    }

    /// Draws the rendered current buffer: sends the difference, places or
    /// hides the cursor, swaps the buffers, flushes the backend and counts
    /// the frame. The first failing call ends it with that call's error.
    fn finish_frame(&mut self, cursor_position: Option<Position>) -> (r: Result<CompletedFrame<'_>, BackendError>)
        requires
            old(self)@.wf(),
        ensures
            final(self)@.wf(),
            final(self)@.viewport == old(self)@.viewport,
            ran(
                old(self).backend_view().log(),
                final(self).backend_view().log(),
                frame_plan(old(self)@, cursor_position),
                r is Ok,
            ),
            r is Ok ==> frame_drawn(old(self)@, cursor_position, final(self)@),
            r is Ok ==> *r->Ok_0.buffer == final(self)@.previous_buffer(),
            r is Ok ==> r->Ok_0.area == final(self)@.last_known_area,
            r is Ok ==> r->Ok_0.count == old(self)@.frame_count,
            r is Err ==> final(self)@.frame_count == old(self)@.frame_count,
            r is Err ==> last_call_failed(old(self).backend_view().log(), final(self).backend_view().log()),
    {
        let ghost l0 = self.backend.log();
        let ghost t0 = self@;
        let ghost plan = frame_plan(t0, cursor_position);
        let ghost draw_call = plan[0];
        proof {
            lemma_ran_nothing(l0);
            assert(plan =~= Seq::<BackendCall>::empty().push(draw_call) + (cursor_plan(cursor_position) + seq![BackendCall::Flush]));
        }
        let drawn = self.flush();
        let ghost l1 = self.backend.log();
        proof {
            lemma_ran_step(l0, l0, l1, Seq::empty(), draw_call, drawn is Ok);
            if drawn is Err {
                assert(ran(l0, l1, Seq::<BackendCall>::empty().push(draw_call) + (cursor_plan(cursor_position) + seq![BackendCall::Flush]), false));
            }
        }
        drawn?;
        let ghost d1 = seq![draw_call];
        assert(Seq::<BackendCall>::empty().push(draw_call) =~= d1);
        match cursor_position {
            None => {
                let h = self.hide_cursor();
                proof {
                    lemma_ran_step(l0, l1, self.backend.log(), d1, BackendCall::HideCursor, h is Ok);
                    assert(plan =~= d1.push(BackendCall::HideCursor) + seq![BackendCall::Flush]);
                    if h is Err {
                        assert(ran(l0, self.backend.log(), d1.push(BackendCall::HideCursor) + seq![BackendCall::Flush], false));
                    }
                }
                h?;
            },
            Some(position) => {
                let v = self.show_cursor();
                let ghost l2 = self.backend.log();
                proof {
                    lemma_ran_step(l0, l1, l2, d1, BackendCall::ShowCursor, v is Ok);
                    let rest = seq![BackendCall::SetCursorPosition(position), BackendCall::Flush];
                    assert(plan =~= d1.push(BackendCall::ShowCursor) + rest);
                    if v is Err {
                        assert(ran(l0, l2, d1.push(BackendCall::ShowCursor) + rest, false));
                    }
                }
                v?;
                let m = self.set_cursor_position(position);
                proof {
                    let d2 = d1.push(BackendCall::ShowCursor);
                    lemma_ran_step(l0, l2, self.backend.log(), d2, BackendCall::SetCursorPosition(position), m is Ok);
                    assert(plan =~= d2.push(BackendCall::SetCursorPosition(position)) + seq![BackendCall::Flush]);
                    if m is Err {
                        assert(ran(l0, self.backend.log(), d2.push(BackendCall::SetCursorPosition(position)) + seq![BackendCall::Flush], false));
                    }
                }
                m?;
            },
        }
        let ghost l3 = self.backend.log();
        let ghost done = d1 + cursor_plan(cursor_position);
        proof {
            assert(plan =~= done.push(BackendCall::Flush));
            match cursor_position {
                None => assert(d1.push(BackendCall::HideCursor) =~= done),
                Some(p) => assert(d1.push(BackendCall::ShowCursor).push(BackendCall::SetCursorPosition(p)) =~= done),
            }
        }
        self.swap_buffers();
        let f = self.backend.flush();
        proof {
            lemma_ran_step(l0, l3, self.backend.log(), done, BackendCall::Flush, f is Ok);
        }
        f?;
        let count = self.frame_count;
        self.frame_count = if count < usize::MAX {
            count + 1
        } else {
            0
        };
        let buffer = if self.current == 0 {
            &self.buffers.1
        } else {
            &self.buffers.0
        };
        Ok(CompletedFrame { buffer, area: self.last_known_area, count })
    }

    /// Draws one frame: resizes to the screen if needed, lets
    /// `render_callback` fill the current buffer, then draws the difference
    /// from the previous frame. A render step that fails aborts the frame
    /// before any further call; its error is returned.
    pub fn try_draw<F>(&mut self, render_callback: F) -> (r: Result<CompletedFrame<'_>, BackendError>)
        where
            F: FnOnce(&mut Frame<'_>) -> Result<(), BackendError>,
        requires
            old(self)@.wf(),
            forall|f: &mut Frame<'_>| render_callback.requires((f,)),
        ensures
            final(self)@.wf(),
            final(self)@.viewport == old(self)@.viewport,
            frame_ran(
                old(self)@,
                old(self).backend_view().log(),
                final(self)@,
                final(self).backend_view().log(),
                r is Ok,
                true,
            ),
            r is Ok ==> *r->Ok_0.buffer == final(self)@.previous_buffer(),
            r is Ok ==> r->Ok_0.area == final(self)@.last_known_area,
            r is Ok ==> r->Ok_0.count == old(self)@.frame_count,
            r is Err ==> final(self)@.frame_count == old(self)@.frame_count,
    {
        let ghost t0 = self@;
        let ghost l0 = self.backend.log();
        let resized = self.autoresize();
        if let Err(e) = resized {
            return Err(e);
        }
        let ghost a = self@;
        let ghost ml = self.backend.log();
        let mut buf = self.take_current();
        let mut frame = Frame {
            viewport_area: self.viewport_area,
            buffer: &mut buf,
            cursor_position: None,
            count: self.frame_count,
        };
        let rendered = render_callback(&mut frame);
        let cursor_position = frame.cursor_position;
        self.restore_rendered(buf, Ghost(a));
        if let Err(e) = rendered {
            proof {
                assert(autoresized(t0, l0, a, ml, true) && self@.frame_count == t0.frame_count && (
                true && self.backend.log() == ml && self@ == a.with_current_buffer(
                    self@.current_buffer(),
                )));
            }
            return Err(e);
        }
        let ghost mid = self@;
        proof {
            assert(covers(mid.current_buffer(), a.viewport_area));
            assert(autoresized(t0, l0, a, ml, true));
            assert(mid == a.with_current_buffer(mid.current_buffer()));
            let _ = frame_plan(mid, cursor_position);
        }
        self.finish_frame(cursor_position)
    }

    /// Draws one frame with a render step that cannot fail; see `try_draw`.
    /// Every error comes from the backend.
    pub fn draw<F>(&mut self, render_callback: F) -> (r: Result<CompletedFrame<'_>, BackendError>)
        where
            F: FnOnce(&mut Frame<'_>),
        requires
            old(self)@.wf(),
            forall|f: &mut Frame<'_>| render_callback.requires((f,)),
        ensures
            final(self)@.wf(),
            final(self)@.viewport == old(self)@.viewport,
            frame_ran(
                old(self)@,
                old(self).backend_view().log(),
                final(self)@,
                final(self).backend_view().log(),
                r is Ok,
                false,
            ),
            r is Ok ==> *r->Ok_0.buffer == final(self)@.previous_buffer(),
            r is Ok ==> r->Ok_0.area == final(self)@.last_known_area,
            r is Ok ==> r->Ok_0.count == old(self)@.frame_count,
            r is Err ==> final(self)@.frame_count == old(self)@.frame_count,
            r is Err ==> last_call_failed(old(self).backend_view().log(), final(self).backend_view().log()),
    {
        let ghost t0 = self@;
        let ghost l0 = self.backend.log();
        let resized = self.autoresize();
        if let Err(e) = resized {
            return Err(e);
        }
        let ghost a = self@;
        let ghost ml = self.backend.log();
        let mut buf = self.take_current();
        let mut frame = Frame {
            viewport_area: self.viewport_area,
            buffer: &mut buf,
            cursor_position: None,
            count: self.frame_count,
        };
        render_callback(&mut frame);
        let cursor_position = frame.cursor_position;
        self.restore_rendered(buf, Ghost(a));
        let ghost mid = self@;
        proof {
            assert(covers(mid.current_buffer(), a.viewport_area));
            assert(autoresized(t0, l0, a, ml, true));
            assert(mid == a.with_current_buffer(mid.current_buffer()));
            let _ = frame_plan(mid, cursor_position);
        }
        self.finish_frame(cursor_position)
    }
}

/// The updates that draw rows `first_row ..< first_row + lines` of `b` (a
/// buffer at the origin) on the screen from row `y_offset` down, row by row.
pub open spec fn line_updates(b: Buffer, first_row: int, y_offset: int, lines: int) -> Seq<
    (u16, u16, CellView),
> {
    let w = b.area.width as int;
    Seq::new(
        (lines * w) as nat,
        |i: int| ((i % w) as u16, (y_offset + i / w) as u16, b.cell_at(i % w, first_row + i / w)),
    )
}

/// The updates that draw rows `first_row ..< first_row + lines` of
/// `buffer` on the screen from row `y_offset` down.
pub fn lines_to_updates(buffer: &Buffer, first_row: u16, y_offset: u16, lines: u16) -> (r: Vec<Update>)
    requires
        buffer.wf(),
        buffer.area.x == 0 && buffer.area.y == 0,
        first_row + lines <= buffer.area.height,
        y_offset + lines <= u16::MAX,
    ensures
        crate::buffer::updates_view(r@) == line_updates(
            *buffer,
            first_row as int,
            y_offset as int,
            lines as int,
        ),
{
    let w = buffer.area.width as usize;
    let ghost target = line_updates(*buffer, first_row as int, y_offset as int, lines as int);
    proof {
        assert((lines as int) * (w as int) <= 0xffff * 0xffff) by (nonlinear_arith)
            requires
                lines <= 0xffff,
                w <= 0xffff,
        ;
    }
    let n = (lines as usize) * w;
    let mut out: Vec<Update> = Vec::new();
    let mut i: usize = 0;
    while i < n
        invariant
            i <= n,
            n == (lines as int) * (w as int),
            w == buffer.area.width,
            buffer.wf(),
            buffer.area.x == 0 && buffer.area.y == 0,
            first_row + lines <= buffer.area.height,
            y_offset + lines <= u16::MAX,
            target == line_updates(*buffer, first_row as int, y_offset as int, lines as int),
            out@.len() == i,
            forall|k: int| 0 <= k < i ==> crate::buffer::update_view(#[trigger] out@[k]) == target[k],
        decreases n - i,
    {
        proof {
            assert(w > 0 && (i as int) < (w as int) * (lines as int)) by (nonlinear_arith)
                requires
                    (i as int) < (lines as int) * (w as int),
                    w >= 0,
                    lines >= 0,
            ;
            vstd::arithmetic::div_mod::lemma_multiply_divide_lt(i as int, w as int, lines as int);
            assert(0 <= (i as int) % (w as int) < w) by (nonlinear_arith)
                requires
                    w > 0,
            ;
            assert(0 <= (i as int) / (w as int)) by (nonlinear_arith)
                requires
                    w > 0,
                    i >= 0,
            ;
        }
        let x = (i % w) as u16;
        let row = (i / w) as u16;
        let cell = buffer.get(x, first_row + row).clone();
        out.push((x, y_offset + row, cell));
        i = i + 1;
    }
    assert(crate::buffer::updates_view(out@) =~= target);
    out
}

/// The calls that scroll the screen of `screen_height` rows up by `n`
/// rows: none for no rows.
pub open spec fn scroll_calls(n: int, screen_height: int) -> Seq<BackendCall> {
    if n <= 0 {
        Seq::empty()
    } else {
        seq![
            BackendCall::SetCursorPosition(Position { x: 0, y: sat_sub(screen_height, 1) as u16 }),
            BackendCall::AppendLines(n as u16),
        ]
    }
}

/// The calls that draw `lines` rows of `b` from its row `first` on, at
/// screen row `y` down: none for no rows.
pub open spec fn row_calls(b: Buffer, first: int, y: int, lines: int) -> Seq<BackendCall> {
    if lines <= 0 {
        Seq::empty()
    } else {
        seq![BackendCall::Draw(line_updates(b, first, y, lines)), BackendCall::Flush]
    }
}

/// The calls that push the rows `first ..` (`rest` of them) of `b` above
/// an inline viewport of `vh` rows, at column `x`, on a screen of `sh` rows
/// whose rows above `drawn` are taken. While the rows left and the viewport
/// do not fit, as many rows as the screen holds are drawn after scrolling
/// up just enough; then the screen is scrolled so that what is left and the
/// viewport end at its bottom, the rest drawn, and the screen cleared from
/// the viewport's new corner on.
pub open spec fn insert_plan(
    b: Buffer,
    first: int,
    drawn: int,
    rest: int,
    vh: int,
    sh: int,
    x: u16,
) -> Seq<BackendCall>
    decreases rest,
{
    if rest > 0 && sh > 0 && rest + vh > sh {
        let to_draw = vstd::math::min(rest, sh);
        let s = scroll_amount(drawn, to_draw, sh);
        scroll_calls(s, sh) + row_calls(b, first, drawn - s, to_draw) + insert_plan(
            b,
            first + to_draw,
            drawn + to_draw - s,
            rest - to_draw,
            vh,
            sh,
            x,
        )
    } else {
        let s = scroll_amount(drawn, rest + vh, sh);
        scroll_calls(s, sh) + row_calls(b, first, drawn - s, rest) + seq![
            BackendCall::SetCursorPosition(Position { x, y: (drawn + rest - s) as u16 }),
            BackendCall::ClearRegion(ClearType::AfterCursor),
        ]
    }
}

/// The calls that insert the rows of `b` (`height` of them) above the
/// inline viewport of `t`.
pub open spec fn insert_goal(t: TerminalView, b: Buffer, height: u16) -> Seq<BackendCall> {
    insert_plan(
        b,
        0,
        t.viewport_area.y as int,
        height as int,
        vstd::math::min(t.viewport_area.height as int, t.last_known_area.height as int),
        t.last_known_area.height as int,
        t.viewport_area.x,
    )
}

/// How far to scroll the screen up before drawing `to_draw` more rows
/// below the `drawn` rows already on a screen of `screen_height` rows: no
/// more than was drawn, enough to make room, and no further than needed.
pub open spec fn scroll_amount(drawn: int, to_draw: int, screen_height: int) -> int {
    if drawn + to_draw - screen_height > 0 {
        drawn + to_draw - screen_height
    } else {
        0
    }
}

/// The scroll amount never scrolls down, never scrolls off more than was
/// drawn, leaves room for `to_draw` rows, and, while the pending content and
/// the viewport do not fit, leaves no gap taller than the viewport below.
pub proof fn lemma_scroll_amount_bounds(
    drawn: int,
    to_draw: int,
    screen_height: int,
    viewport_height: int,
)
    requires
        0 <= drawn,
        0 <= to_draw <= screen_height,
        0 <= viewport_height <= screen_height,
        drawn + to_draw + viewport_height >= screen_height,
    ensures
        scroll_amount(drawn, to_draw, screen_height) >= 0,
        scroll_amount(drawn, to_draw, screen_height) <= drawn,
        drawn - scroll_amount(drawn, to_draw, screen_height) + to_draw <= screen_height,
        drawn - scroll_amount(drawn, to_draw, screen_height) + to_draw >= screen_height
            - viewport_height,
{
}

impl<B: Backend> Terminal<B> {
    /// Draws rows `first_row ..< first_row + lines` of `buffer` on the
    /// screen, from row `y_offset` down, then flushes. Nothing is sent for
    /// no rows.
    fn draw_lines(&mut self, buffer: &Buffer, first_row: u16, y_offset: u16, lines: u16) -> (r: Result<(), BackendError>)
        requires
            buffer.wf(),
            buffer.area.x == 0 && buffer.area.y == 0,
            first_row + lines <= buffer.area.height,
            y_offset + lines <= u16::MAX,
        ensures
            final(self)@ == old(self)@,
            lines == 0 ==> r is Ok && final(self).backend_view().log() == old(self).backend_view().log(),
            lines > 0 ==> ran(
                old(self).backend_view().log(),
                final(self).backend_view().log(),
                seq![
                    BackendCall::Draw(
                        line_updates(*buffer, first_row as int, y_offset as int, lines as int),
                    ),
                    BackendCall::Flush,
                ],
                r is Ok,
            ),
    {
        if lines == 0 {
            return Ok(());
        }
        let updates = lines_to_updates(buffer, first_row, y_offset, lines);
        let ghost call = BackendCall::Draw(
            line_updates(*buffer, first_row as int, y_offset as int, lines as int),
        );
        let ghost l0 = self.backend.log();
        proof {
            lemma_ran_nothing(l0);
        }
        let d = self.backend.draw(&updates);
        let ghost l1 = self.backend.log();
        proof {
            lemma_ran_step(l0, l0, l1, Seq::empty(), call, d is Ok);
            assert(seq![call, BackendCall::Flush] =~= Seq::empty().push(call) + seq![BackendCall::Flush]);
            if d is Err {
                assert(ran(l0, l1, Seq::empty().push(call) + seq![BackendCall::Flush], false));
            }
        }
        d?;
        let f = self.backend.flush();
        proof {
            lemma_ran_step(l0, l1, self.backend.log(), seq![call], BackendCall::Flush, f is Ok);
            assert(Seq::empty().push(call) =~= seq![call]);
            assert(seq![call].push(BackendCall::Flush) =~= seq![call, BackendCall::Flush]);
        }
        f
    }

    /// Scrolls the whole screen up by `lines` rows: moves to the start of the
    /// bottom row and appends that many lines there. Nothing is sent for no
    /// rows.
    fn scroll_up(&mut self, lines: u16) -> (r: Result<(), BackendError>)
        ensures
            final(self)@ == (TerminalView {
                last_known_cursor_pos: final(self)@.last_known_cursor_pos,
                ..old(self)@
            }),
            lines == 0 ==> r is Ok && final(self)@ == old(self)@ && final(self).backend_view().log() == old(self).backend_view().log(),
            lines > 0 ==> ran(
                old(self).backend_view().log(),
                final(self).backend_view().log(),
                seq![
                    BackendCall::SetCursorPosition(
                        Position {
                            x: 0,
                            y: sat_sub(old(self)@.last_known_area.height as int, 1) as u16,
                        },
                    ),
                    BackendCall::AppendLines(lines),
                ],
                r is Ok,
            ),
            r is Ok && lines > 0 ==> final(self)@.last_known_cursor_pos == (Position {
                x: 0,
                y: sat_sub(old(self)@.last_known_area.height as int, 1) as u16,
            }),
    {
        if lines > 0 {
            let bottom = Position::new(0, self.last_known_area.height.saturating_sub(1));
            let ghost l0 = self.backend.log();
            proof {
                lemma_ran_nothing(l0);
            }
            let m = self.set_cursor_position(bottom);
            let ghost l1 = self.backend.log();
            let ghost c1 = BackendCall::SetCursorPosition(bottom);
            let ghost c2 = BackendCall::AppendLines(lines);
            proof {
                lemma_ran_step(l0, l0, l1, Seq::empty(), c1, m is Ok);
                assert(seq![c1, c2] =~= Seq::empty().push(c1) + seq![c2]);
                if m is Err {
                    assert(ran(l0, l1, Seq::empty().push(c1) + seq![c2], false));
                }
            }
            m?;
            let a = self.backend.append_lines(lines);
            proof {
                lemma_ran_step(l0, l1, self.backend.log(), seq![c1], c2, a is Ok);
                assert(Seq::empty().push(c1) =~= seq![c1]);
                assert(seq![c1].push(c2) =~= seq![c1, c2]);
            }
            a?;
        }
        Ok(())
    }

    /// Inserts `height` rows above an inline viewport: `draw_fn` fills a
    /// buffer of the viewport's width and that height, which is pushed onto
    /// the screen above the viewport, scrolling the screen up as needed; the
    /// viewport then sits below it. Without an inline viewport, or on a
    /// screen without rows, nothing happens. A `draw_fn` that replaced the
    /// buffer by one of another shape inserts blank rows.
    #[verifier::rlimit(100)]
    #[verifier::spinoff_prover]
    pub fn insert_before<F>(&mut self, height: u16, draw_fn: F) -> (r: Result<(), BackendError>)
        where
            F: FnOnce(&mut Buffer),
        requires
            old(self)@.wf(),
            forall|b: &mut Buffer| draw_fn.requires((b,)),
        ensures
            final(self)@.wf(),
            final(self)@.viewport == old(self)@.viewport,
            final(self)@.current == old(self)@.current,
            final(self)@.hidden_cursor == old(self)@.hidden_cursor,
            final(self)@.frame_count == old(self)@.frame_count,
            final(self)@.last_known_area == old(self)@.last_known_area,
            !(old(self)@.viewport is Inline) || old(self)@.last_known_area.height == 0 ==> {
                &&& r is Ok
                &&& final(self)@ == old(self)@
                &&& final(self).backend_view().log() == old(self).backend_view().log()
            },
            old(self)@.viewport is Inline && old(self)@.last_known_area.height > 0 ==> exists|b: Buffer|
                #![trigger insert_goal(old(self)@, b, height)]
                b.wf() && b.area == (Rect {
                    x: 0,
                    y: 0,
                    width: old(self)@.viewport_area.width,
                    height,
                }) && ran(
                    old(self).backend_view().log(),
                    final(self).backend_view().log(),
                    insert_goal(old(self)@, b, height),
                    r is Ok,
                ),
            r is Ok && old(self)@.viewport is Inline && old(self)@.last_known_area.height > 0 ==> {
                let a = old(self)@.viewport_area;
                let sh = old(self)@.last_known_area.height as int;
                let t = final(self)@.viewport_area;
                &&& t.x == a.x && t.width == a.width && t.height == a.height
                &&& t.y == vstd::math::min(a.y + height, sh - vstd::math::min(a.height as int, sh))
                &&& final(self)@.previous_buffer().is_blank()
            },
    {
        match self.viewport {
            Viewport::Inline(_) => {},
            _ => {
                return Ok(());
            },
        }
        if self.last_known_area.height == 0 {
            return Ok(());
        }
        let area = Rect { x: 0, y: 0, width: self.viewport_area.width, height };
        let mut drawn_into = Buffer::empty(area);
        draw_fn(&mut drawn_into);
        let buffer = if drawn_into.area == area && drawn_into.content.len() == area.area() {
            drawn_into
        } else {
            Buffer::empty(area)
        };
        let screen_height: i32 = self.last_known_area.height as i32;
        let viewport_height: i32 = if (self.viewport_area.height as i32) < screen_height {
            self.viewport_area.height as i32
        } else {
            screen_height
        };
        let mut drawn_height: i32 = self.viewport_area.top() as i32;
        let mut buffer_height: i32 = height as i32;
        let ghost start = self@;
        let ghost l0 = self.backend.log();
        let ghost x = self.viewport_area.x;
        let ghost full = insert_plan(
            buffer,
            0,
            drawn_height as int,
            height as int,
            viewport_height as int,
            screen_height as int,
            x,
        );
        let ghost mut done: Seq<BackendCall> = Seq::empty();
        let ghost goal = insert_goal(old(self)@, buffer, height);
        assert(goal == full);
        proof {
            lemma_ran_nothing(l0);
            assert(full =~= done + full);
        }
        while buffer_height + viewport_height > screen_height
            invariant
                start == old(self)@,
                start.viewport is Inline,
                area.x == 0 && area.y == 0 && area.height == height,
                area.width == start.viewport_area.width,
                x == start.viewport_area.x,
                self@.wf(),
                self@.viewport == start.viewport,
                self@.viewport_area == start.viewport_area,
                self@.buffers == start.buffers,
                self@.current == start.current,
                self@.hidden_cursor == start.hidden_cursor,
                self@.frame_count == start.frame_count,
                self@.last_known_area == start.last_known_area,
                screen_height == start.last_known_area.height,
                viewport_height == vstd::math::min(start.viewport_area.height as int, screen_height as int),
                1 <= screen_height <= u16::MAX,
                0 <= viewport_height <= screen_height,
                0 <= drawn_height <= u16::MAX,
                0 <= buffer_height <= height,
                buffer.wf(),
                buffer.area == area,
                l0 == old(self).backend_view().log(),
                full == insert_plan(buffer, 0, start.viewport_area.y as int, height as int, viewport_height as int, screen_height as int, x),
                full == done + insert_plan(buffer, height - buffer_height, drawn_height as int, buffer_height as int, viewport_height as int, screen_height as int, x),
                ran(l0, self.backend.log(), done, true),
                goal == full,
                goal == insert_goal(old(self)@, buffer, height),
                vstd::math::min(drawn_height + buffer_height, screen_height - viewport_height)
                    == vstd::math::min(start.viewport_area.y + height, screen_height - viewport_height),
            decreases buffer_height,
        {
            let to_draw = if buffer_height < screen_height {
                buffer_height
            } else {
                screen_height
            };
            let scroll = if drawn_height + to_draw - screen_height > 0 {
                drawn_height + to_draw - screen_height
            } else {
                0
            };
            proof {
                lemma_scroll_amount_bounds(
                    drawn_height as int,
                    to_draw as int,
                    screen_height as int,
                    viewport_height as int,
                );
            }
            let first = height as i32 - buffer_height;
            let ghost sc = scroll_calls(scroll as int, screen_height as int);
            let ghost rc = row_calls(buffer, first as int, (drawn_height - scroll) as int, to_draw as int);
            let ghost next = insert_plan(buffer, first + to_draw, drawn_height + to_draw - scroll, buffer_height - to_draw, viewport_height as int, screen_height as int, x);
            let ghost la = self.backend.log();
            proof {
                assert(insert_plan(buffer, first as int, drawn_height as int, buffer_height as int, viewport_height as int, screen_height as int, x) == sc + rc + next);
                assert(full =~= done + sc + (rc + next));
            }
            let s1 = self.scroll_up(scroll as u16);
            let ghost lb = self.backend.log();
            proof {
                if scroll == 0 {
                    lemma_ran_nothing(la);
                }
                lemma_ran_chain(l0, la, lb, done, sc, rc + next, s1 is Ok);
            }
            if let Err(e) = s1 {
                assert(ran(l0, self.backend.log(), goal, false));
                return Err(e);
            }
            let d1 = self.draw_lines(&buffer, first as u16, (drawn_height - scroll) as u16, to_draw as u16);
            proof {
                if to_draw == 0 {
                    lemma_ran_nothing(lb);
                }
                lemma_ran_chain(l0, lb, self.backend.log(), done + sc, rc, next, d1 is Ok);
                assert(full =~= (done + sc + rc) + next);
                done = done + sc + rc;
            }
            if let Err(e) = d1 {
                assert(ran(l0, self.backend.log(), goal, false));
                return Err(e);
            }
            drawn_height = drawn_height + to_draw - scroll;
            buffer_height = buffer_height - to_draw;
        }
        let scroll = if drawn_height + buffer_height + viewport_height - screen_height > 0 {
            drawn_height + buffer_height + viewport_height - screen_height
        } else {
            0
        };
        let first = height as i32 - buffer_height;
        let new_y = drawn_height + buffer_height - scroll;
        let ghost sc = scroll_calls(scroll as int, screen_height as int);
        let ghost rc = row_calls(buffer, first as int, (drawn_height - scroll) as int, buffer_height as int);
        let ghost cc = seq![
            BackendCall::SetCursorPosition(Position { x, y: new_y as u16 }),
            BackendCall::ClearRegion(ClearType::AfterCursor),
        ];
        let ghost la = self.backend.log();
        proof {
            assert(scroll == scroll_amount(drawn_height as int, buffer_height + viewport_height, screen_height as int));
            assert(insert_plan(buffer, first as int, drawn_height as int, buffer_height as int, viewport_height as int, screen_height as int, x) == sc + rc + cc);
            assert(full =~= done + sc + (rc + cc));
        }
        let s1 = self.scroll_up(scroll as u16);
        let ghost lb = self.backend.log();
        proof {
            if scroll == 0 {
                lemma_ran_nothing(la);
            }
            lemma_ran_chain(l0, la, lb, done, sc, rc + cc, s1 is Ok);
        }
        if let Err(e) = s1 {
            assert(ran(l0, self.backend.log(), goal, false));
            return Err(e);
        }
        let d1 = self.draw_lines(&buffer, first as u16, (drawn_height - scroll) as u16, buffer_height as u16);
        let ghost lc = self.backend.log();
        proof {
            if buffer_height == 0 {
                lemma_ran_nothing(lb);
            }
            lemma_ran_chain(l0, lb, lc, done + sc, rc, cc, d1 is Ok);
            assert(full =~= (done + sc + rc) + cc);
        }
        if let Err(e) = d1 {
            assert(ran(l0, self.backend.log(), goal, false));
            return Err(e);
        }
        let next = Rect { y: new_y as u16, ..self.viewport_area };
        self.set_viewport_area(next);
        let c = self.clear();
        proof {
            assert(clear_plan(self@.viewport, next) == cc);
            lemma_ran_chain(l0, lc, self.backend.log(), done + sc + rc, cc, Seq::empty(), c is Ok);
        }
        c?;
        Ok(())
    }
}

impl<B: Backend> Terminal<B> {
    /// The cleanup owed when the terminal is given up: shows the cursor
    /// again if the terminal hid it. The caller reports a failure; it is no
    /// reason to stop tearing down.
    pub fn restore_cursor(&mut self) -> (r: Result<(), BackendError>)
        ensures
            !old(self)@.hidden_cursor ==> final(self)@ == old(self)@ && r is Ok
                && final(self).backend_view().log() == old(self).backend_view().log(),
            old(self)@.hidden_cursor ==> final(self).backend_view().log() == old(self).backend_view().log().push((BackendCall::ShowCursor, r is Ok)),
            r is Ok ==> final(self)@ == (TerminalView { hidden_cursor: false, ..old(self)@ }),
            r is Err ==> final(self)@ == old(self)@,
    {
        if self.hidden_cursor {
            self.show_cursor()
        } else {
            Ok(())
        }
    }
}

} // verus!
