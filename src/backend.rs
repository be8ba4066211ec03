//! The capability a terminal draws through. One implementation stands for
//! each terminal-control library; `TestBackend` keeps the screen in memory.
use vstd::prelude::*;

use crate::buffer::{updates_view, CellView, Update};
use crate::layout::{Position, Size};

verus! {

/// Which part of the screen `Backend::clear_region` clears.
#[derive(Debug, Clone, Copy, PartialEq, Eq, Hash, Structural)]
pub enum ClearType {
    /// The whole screen.
    All,
    /// From the cursor to the end of the screen.
    AfterCursor,
    /// From the start of the screen to the cursor.
    BeforeCursor,
    /// The cursor's row.
    CurrentLine,
    /// From the cursor to the end of its row.
    UntilNewLine,
}

/// A failure of the terminal transport.
#[derive(Debug, PartialEq, Eq)]
pub struct BackendError {
    pub message: String,
}

impl BackendError {
    pub fn new(message: &str) -> (r: BackendError)
        ensures
            r.message@ == message@,
    {
        BackendError { message: message.to_owned() }
    }
}

/// A call made on a backend, as a value.
pub ghost enum BackendCall {
    Draw(Seq<(u16, u16, CellView)>),
    HideCursor,
    ShowCursor,
    GetCursorPosition,
    Size,
    SetCursorPosition(Position),
    ClearRegion(ClearType),
    AppendLines(u16),
    Flush,
}

/// `plan` with every call marked as succeeded.
pub open spec fn succeeded(plan: Seq<BackendCall>) -> Seq<(BackendCall, bool)> {
    plan.map_values(|c: BackendCall| (c, true))
}

/// The log `after` extends `before` by the calls of `plan` in order,
/// stopping at the first that failed: all of them, each succeeding, when
/// `ok`; else the calls before some `plan[k]`, each succeeding, then
/// `plan[k]`, which failed.
pub open spec fn ran(
    before: Seq<(BackendCall, bool)>,
    after: Seq<(BackendCall, bool)>,
    plan: Seq<BackendCall>,
    ok: bool,
) -> bool {
    if ok {
        after == before + succeeded(plan)
    } else {
        exists|k: int|
            0 <= k < plan.len() && after == before + #[trigger] succeeded(plan.take(k)).push(
                (plan[k], false),
            )
    }
}

/// One call: the log gains it, marked by whether it succeeded.
pub proof fn lemma_ran_one(
    before: Seq<(BackendCall, bool)>,
    after: Seq<(BackendCall, bool)>,
    c: BackendCall,
    ok: bool,
)
    requires
        after == before.push((c, ok)),
    ensures
        ran(before, after, seq![c], ok),
{
    if ok {
        assert(succeeded(seq![c]) =~= seq![(c, true)]);
        assert(after =~= before + succeeded(seq![c]));
    } else {
        assert(succeeded(seq![c].take(0)) =~= Seq::empty());
        assert(after =~= before + succeeded(seq![c].take(0)).push((seq![c][0], false)));
        assert(0 <= 0 < seq![c].len() && after == before + succeeded(seq![c].take(0)).push(
            (seq![c][0], false),
        ));
    }
}

/// Running `p1` in full, then `p2`, runs `p1 + p2`.
pub proof fn lemma_ran_then(
    a: Seq<(BackendCall, bool)>,
    b: Seq<(BackendCall, bool)>,
    c: Seq<(BackendCall, bool)>,
    p1: Seq<BackendCall>,
    p2: Seq<BackendCall>,
    ok: bool,
)
    requires
        ran(a, b, p1, true),
        ran(b, c, p2, ok),
    ensures
        ran(a, c, p1 + p2, ok),
{
    assert(succeeded(p1 + p2) =~= succeeded(p1) + succeeded(p2));
    if ok {
        assert(c =~= a + succeeded(p1 + p2));
    } else {
        let k = choose|k: int|
            0 <= k < p2.len() && c == b + #[trigger] succeeded(p2.take(k)).push((p2[k], false));
        let j = p1.len() + k;
        assert((p1 + p2).take(j) =~= p1 + p2.take(k));
        assert(succeeded((p1 + p2).take(j)) =~= succeeded(p1) + succeeded(p2.take(k)));
        assert(c =~= a + succeeded((p1 + p2).take(j)).push(((p1 + p2)[j], false)));
    }
}

/// A run of `p1` that failed is a failed run of `p1 + p2`.
pub proof fn lemma_ran_failed_prefix(
    a: Seq<(BackendCall, bool)>,
    b: Seq<(BackendCall, bool)>,
    p1: Seq<BackendCall>,
    p2: Seq<BackendCall>,
)
    requires
        ran(a, b, p1, false),
    ensures
        ran(a, b, p1 + p2, false),
{
    let k = choose|k: int|
        0 <= k < p1.len() && b == a + #[trigger] succeeded(p1.take(k)).push((p1[k], false));
    assert((p1 + p2).take(k) =~= p1.take(k));
    assert(b == a + succeeded((p1 + p2).take(k)).push(((p1 + p2)[k], false)));
}

/// One more call after a successful run of `done`: a run of `done` with
/// that call, and, where the call failed, a failed run of any plan that
/// goes on from there.
pub proof fn lemma_ran_step(
    a: Seq<(BackendCall, bool)>,
    b: Seq<(BackendCall, bool)>,
    c: Seq<(BackendCall, bool)>,
    done: Seq<BackendCall>,
    call: BackendCall,
    ok: bool,
)
    requires
        ran(a, b, done, true),
        c == b.push((call, ok)),
    ensures
        ran(a, c, done.push(call), ok),
        forall|rest: Seq<BackendCall>| !ok ==> #[trigger] ran(a, c, done.push(call) + rest, false),
{
    lemma_ran_one(b, c, call, ok);
    lemma_ran_then(a, b, c, done, seq![call], ok);
    assert(done + seq![call] =~= done.push(call));
    assert forall|rest: Seq<BackendCall>| !ok implies #[trigger] ran(
        a,
        c,
        done.push(call) + rest,
        false,
    ) by {
        lemma_ran_failed_prefix(a, c, done.push(call), rest);
    }
}

/// A successful run of `done` followed by a run of `step`: a run of
/// `done + step`, and where `step` failed, a failed run of any plan that
/// goes on after it.
pub proof fn lemma_ran_chain(
    a: Seq<(BackendCall, bool)>,
    b: Seq<(BackendCall, bool)>,
    c: Seq<(BackendCall, bool)>,
    done: Seq<BackendCall>,
    step: Seq<BackendCall>,
    rest: Seq<BackendCall>,
    ok: bool,
)
    requires
        ran(a, b, done, true),
        ran(b, c, step, ok),
    ensures
        ran(a, c, done + step, ok),
        !ok ==> ran(a, c, done + step + rest, false),
{
    lemma_ran_then(a, b, c, done, step, ok);
    if !ok {
        lemma_ran_failed_prefix(a, c, done + step, rest);
    }
}

/// The log `after` extends `before`, and its last call failed.
pub open spec fn last_call_failed(before: Seq<(BackendCall, bool)>, after: Seq<(BackendCall, bool)>) -> bool {
    after.len() > before.len() && !after.last().1
}

/// A failed run ends with a failed call.
pub proof fn lemma_ran_failed_last(
    a: Seq<(BackendCall, bool)>,
    b: Seq<(BackendCall, bool)>,
    plan: Seq<BackendCall>,
)
    requires
        ran(a, b, plan, false),
    ensures
        last_call_failed(a, b),
{
    let k = choose|k: int|
        0 <= k < plan.len() && b == a + #[trigger] succeeded(plan.take(k)).push((plan[k], false));
}

/// Running nothing leaves the log as it was.
pub proof fn lemma_ran_nothing(a: Seq<(BackendCall, bool)>)
    ensures
        ran(a, a, Seq::empty(), true),
{
    assert(a + succeeded(Seq::empty()) =~= a);
}

/// What a terminal needs from the library that drives the real screen. Any
/// operation may fail with a transport error; callers pass it on at once.
///
/// Each backend keeps, as a value, the log of the calls made on it and
/// whether each succeeded; every operation that acts on the terminal adds
/// its own call to that log.
pub trait Backend {
    /// The calls made so far, oldest first, each with whether it succeeded.
    /// A backend whose contracts are checked keeps its own log; the default
    /// keeps none.
    open spec fn log(&self) -> Seq<(BackendCall, bool)> {
        Seq::empty()
    }

    /// Draws each update's cell at its position. Updates come in row-major
    /// order, so a cell right after the previous one needs no cursor move.
    fn draw(&mut self, content: &Vec<Update>) -> (r: Result<(), BackendError>)
        ensures
            final(self).log() == old(self).log().push(
                (BackendCall::Draw(updates_view(content@)), r is Ok),
            ),
    ;

    fn hide_cursor(&mut self) -> (r: Result<(), BackendError>)
        ensures
            final(self).log() == old(self).log().push((BackendCall::HideCursor, r is Ok)),
    ;

    fn show_cursor(&mut self) -> (r: Result<(), BackendError>)
        ensures
            final(self).log() == old(self).log().push((BackendCall::ShowCursor, r is Ok)),
    ;

    fn get_cursor_position(&mut self) -> (r: Result<Position, BackendError>)
        ensures
            final(self).log() == old(self).log().push((BackendCall::GetCursorPosition, r is Ok)),
    ;

    fn set_cursor_position(&mut self, position: Position) -> (r: Result<(), BackendError>)
        ensures
            final(self).log() == old(self).log().push(
                (BackendCall::SetCursorPosition(position), r is Ok),
            ),
    ;

    fn clear_region(&mut self, clear_type: ClearType) -> (r: Result<(), BackendError>)
        ensures
            final(self).log() == old(self).log().push(
                (BackendCall::ClearRegion(clear_type), r is Ok),
            ),
    ;

    /// Inserts `n` line breaks at the cursor, scrolling the screen up when
    /// they run past its bottom.
    fn append_lines(&mut self, n: u16) -> (r: Result<(), BackendError>)
        ensures
            final(self).log() == old(self).log().push((BackendCall::AppendLines(n), r is Ok)),
    ;

    /// The size of the screen.
    fn size(&mut self) -> (r: Result<Size, BackendError>)
        ensures
            final(self).log() == old(self).log().push((BackendCall::Size, r is Ok)),
    ;

    /// Sends what was queued to the terminal.
    fn flush(&mut self) -> (r: Result<(), BackendError>)
        ensures
            final(self).log() == old(self).log().push((BackendCall::Flush, r is Ok)),
    ;
}

} // verus!
