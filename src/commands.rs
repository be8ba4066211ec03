//! The commands a backend sends to draw a list of updates: cursor moves
//! only where the next cell is not right after the previous one, and color
//! and modifier switches only where they change. A backend for a given
//! terminal-control library turns each command into that library's own.
use vstd::prelude::*;

use crate::buffer::{CellView, Update};
use crate::layout::Position;
use crate::style::{
    Color, Modifier, BOLD_BIT, CROSSED_OUT_BIT, DIM_BIT, ITALIC_BIT, RAPID_BLINK_BIT,
    REVERSED_BIT, SLOW_BLINK_BIT, UNDERLINED_BIT,
};

verus! {

/// A switch of one text attribute.
#[derive(Debug, Clone, Copy, PartialEq, Eq, Hash, Structural)]
pub enum Attribute {
    Reset,
    Bold,
    Dim,
    Italic,
    Underlined,
    SlowBlink,
    RapidBlink,
    Reverse,
    CrossedOut,
    NormalIntensity,
    NoItalic,
    NoUnderline,
    NoBlink,
    NoReverse,
    NotCrossedOut,
}

/// One command to the terminal.
#[derive(Debug, Clone, PartialEq, Eq)]
pub enum Command {
    MoveTo(u16, u16),
    SetAttribute(Attribute),
    SetForegroundColor(Color),
    SetBackgroundColor(Color),
    SetUnderlineColor(Color),
    Print(String),
}

/// A command, as a value.
pub ghost enum CommandView {
    MoveTo(u16, u16),
    SetAttribute(Attribute),
    SetForegroundColor(Color),
    SetBackgroundColor(Color),
    SetUnderlineColor(Color),
    Print(Seq<char>),
}

impl View for Command {
    type V = CommandView;

    open spec fn view(&self) -> CommandView {
        match self {
            Command::MoveTo(x, y) => CommandView::MoveTo(*x, *y),
            Command::SetAttribute(a) => CommandView::SetAttribute(*a),
            Command::SetForegroundColor(c) => CommandView::SetForegroundColor(*c),
            Command::SetBackgroundColor(c) => CommandView::SetBackgroundColor(*c),
            Command::SetUnderlineColor(c) => CommandView::SetUnderlineColor(*c),
            Command::Print(s) => CommandView::Print(s@),
        }
    }
}

pub open spec fn commands_view(cs: Seq<Command>) -> Seq<CommandView> {
    cs.map_values(|c: Command| c@)
}

/// Whether the modifier bit `flag` is set in `bits`.
pub open spec fn has(bits: u16, flag: u16) -> bool {
    bits & flag != 0
}

/// `seq![a]` when `cond` holds, else nothing.
pub open spec fn when(cond: bool, a: Attribute) -> Seq<Attribute> {
    if cond {
        seq![a]
    } else {
        Seq::empty()
    }
}

/// The attribute switches that turn the modifiers `from` into `to`: first
/// those that end a removed modifier, then those that start an added one.
/// Bold and dim share one "normal intensity" switch, so ending bold starts
/// dim again where `to` keeps it.
pub open spec fn modifier_switches(from: u16, to: u16) -> Seq<Attribute> {
    let removed = from & !to;
    let added = to & !from;
    when(has(removed, REVERSED_BIT), Attribute::NoReverse)
        + when(has(removed, BOLD_BIT), Attribute::NormalIntensity)
        + when(has(removed, BOLD_BIT) && has(to, DIM_BIT), Attribute::Dim)
        + when(has(removed, ITALIC_BIT), Attribute::NoItalic)
        + when(has(removed, UNDERLINED_BIT), Attribute::NoUnderline)
        + when(has(removed, DIM_BIT), Attribute::NormalIntensity)
        + when(has(removed, CROSSED_OUT_BIT), Attribute::NotCrossedOut)
        + when(has(removed, SLOW_BLINK_BIT) || has(removed, RAPID_BLINK_BIT), Attribute::NoBlink)
        + when(has(added, REVERSED_BIT), Attribute::Reverse)
        + when(has(added, BOLD_BIT), Attribute::Bold)
        + when(has(added, ITALIC_BIT), Attribute::Italic)
        + when(has(added, UNDERLINED_BIT), Attribute::Underlined)
        + when(has(added, DIM_BIT), Attribute::Dim)
        + when(has(added, CROSSED_OUT_BIT), Attribute::CrossedOut)
        + when(has(added, SLOW_BLINK_BIT), Attribute::SlowBlink)
        + when(has(added, RAPID_BLINK_BIT), Attribute::RapidBlink)
}

/// The change from one set of modifiers to another.
#[derive(Debug, Clone, Copy, PartialEq, Eq, Hash, Default, Structural)]
pub struct ModifierDiff {
    pub from: Modifier,
    pub to: Modifier,
}

fn push_when(v: &mut Vec<Attribute>, cond: bool, a: Attribute)
    ensures
        final(v)@ == old(v)@ + when(cond, a),
{
    if cond {
        v.push(a);
    }
    assert(final(v)@ =~= old(v)@ + when(cond, a));
}

impl ModifierDiff {
    /// The attribute switches, in order, that turn `from` into `to`.
    pub fn attributes(&self) -> (r: Vec<Attribute>)
        ensures
            r@ == modifier_switches(self.from.bits, self.to.bits),
    {
        let removed = self.from.bits & !self.to.bits;
        let added = self.to.bits & !self.from.bits;
        let to = self.to.bits;
        let mut v: Vec<Attribute> = Vec::new();
        push_when(&mut v, removed & REVERSED_BIT != 0, Attribute::NoReverse);
        push_when(&mut v, removed & BOLD_BIT != 0, Attribute::NormalIntensity);
        push_when(&mut v, removed & BOLD_BIT != 0 && to & DIM_BIT != 0, Attribute::Dim);
        push_when(&mut v, removed & ITALIC_BIT != 0, Attribute::NoItalic);
        push_when(&mut v, removed & UNDERLINED_BIT != 0, Attribute::NoUnderline);
        push_when(&mut v, removed & DIM_BIT != 0, Attribute::NormalIntensity);
        push_when(&mut v, removed & CROSSED_OUT_BIT != 0, Attribute::NotCrossedOut);
        push_when(
            &mut v,
            removed & SLOW_BLINK_BIT != 0 || removed & RAPID_BLINK_BIT != 0,
            Attribute::NoBlink,
        );
        push_when(&mut v, added & REVERSED_BIT != 0, Attribute::Reverse);
        push_when(&mut v, added & BOLD_BIT != 0, Attribute::Bold);
        push_when(&mut v, added & ITALIC_BIT != 0, Attribute::Italic);
        push_when(&mut v, added & UNDERLINED_BIT != 0, Attribute::Underlined);
        push_when(&mut v, added & DIM_BIT != 0, Attribute::Dim);
        push_when(&mut v, added & CROSSED_OUT_BIT != 0, Attribute::CrossedOut);
        push_when(&mut v, added & SLOW_BLINK_BIT != 0, Attribute::SlowBlink);
        push_when(&mut v, added & RAPID_BLINK_BIT != 0, Attribute::RapidBlink);
        v
    }
}

/// What the terminal is set to while commands are sent: the colors and
/// modifiers in force, and the cell last printed.
#[derive(Debug, Clone, Copy, PartialEq, Eq, Structural)]
pub struct Pen {
    pub fg: Color,
    pub bg: Color,
    pub underline_color: Color,
    pub modifier: Modifier,
    pub last: Option<Position>,
}

/// The pen before the first command: the terminal's own colors, no
/// modifiers, no cell printed.
pub open spec fn initial_pen() -> Pen {
    Pen {
        fg: Color::Reset,
        bg: Color::Reset,
        underline_color: Color::Reset,
        modifier: Modifier { bits: 0 },
        last: None,
    }
}

/// Whether `(x, y)` is the cell right after the one last printed, where the
/// cursor already stands.
pub open spec fn follows(last: Option<Position>, x: u16, y: u16) -> bool {
    match last {
        Some(p) => x == p.x + 1 && y == p.y,
        None => false,
    }
}

/// A cursor move to `(x, y)`, unless the cursor already stands there.
pub open spec fn move_commands(pen: Pen, x: u16, y: u16) -> Seq<CommandView> {
    if follows(pen.last, x, y) {
        Seq::empty()
    } else {
        seq![CommandView::MoveTo(x, y)]
    }
}

/// The attribute switches from the pen's modifiers to `cell`'s.
pub open spec fn modifier_commands(pen: Pen, cell: CellView) -> Seq<CommandView> {
    if cell.modifier != pen.modifier {
        modifier_switches(pen.modifier.bits, cell.modifier.bits).map_values(
            |a: Attribute| CommandView::SetAttribute(a),
        )
    } else {
        Seq::empty()
    }
}

/// `seq![c]` when `cond` holds, else nothing.
pub open spec fn command_when(cond: bool, c: CommandView) -> Seq<CommandView> {
    if cond {
        seq![c]
    } else {
        Seq::empty()
    }
}

/// The color switches from the pen's colors to `cell`'s.
pub open spec fn color_commands(pen: Pen, cell: CellView) -> Seq<CommandView> {
    command_when(cell.fg != pen.fg, CommandView::SetForegroundColor(cell.fg)) + command_when(
        cell.bg != pen.bg,
        CommandView::SetBackgroundColor(cell.bg),
    ) + command_when(
        cell.underline_color != pen.underline_color,
        CommandView::SetUnderlineColor(cell.underline_color),
    )
}

/// The commands that print `cell` at `(x, y)` after `pen`.
pub open spec fn cell_commands(pen: Pen, x: u16, y: u16, cell: CellView) -> Seq<CommandView> {
    move_commands(pen, x, y) + modifier_commands(pen, cell) + color_commands(pen, cell) + seq![
        CommandView::Print(cell.symbol),
    ]
}

/// The pen after printing `cell` at `(x, y)`.
pub open spec fn pen_after(x: u16, y: u16, cell: CellView) -> Pen {
    Pen {
        fg: cell.fg,
        bg: cell.bg,
        underline_color: cell.underline_color,
        modifier: cell.modifier,
        last: Some(Position { x, y }),
    }
}

/// The commands for the first `n` updates, and the pen after them.
pub open spec fn plan(us: Seq<(u16, u16, CellView)>, n: int) -> (Seq<CommandView>, Pen)
    decreases n,
{
    if n <= 0 {
        (Seq::empty(), initial_pen())
    } else {
        let (cs, pen) = plan(us, n - 1);
        let u = us[n - 1];
        (cs + cell_commands(pen, u.0, u.1, u.2), pen_after(u.0, u.1, u.2))
    }
}

/// The commands that draw `us`, ending with every color and attribute
/// reset to the terminal's own.
pub open spec fn draw_plan(us: Seq<(u16, u16, CellView)>) -> Seq<CommandView> {
    plan(us, us.len() as int).0 + seq![
        CommandView::SetForegroundColor(Color::Reset),
        CommandView::SetBackgroundColor(Color::Reset),
        CommandView::SetUnderlineColor(Color::Reset),
        CommandView::SetAttribute(Attribute::Reset),
    ]
}

fn push_command(out: &mut Vec<Command>, c: Command)
    ensures
        commands_view(final(out)@) == commands_view(old(out)@).push(c@),
{
    out.push(c);
    assert(commands_view(final(out)@) =~= commands_view(old(out)@).push(c@));
}

fn push_command_when(out: &mut Vec<Command>, cond: bool, c: Command)
    ensures
        commands_view(final(out)@) == commands_view(old(out)@) + command_when(cond, c@),
{
    if cond {
        push_command(out, c);
    }
    assert(commands_view(final(out)@) =~= commands_view(old(out)@) + command_when(cond, c@));
}

fn push_modifiers(pen: &Pen, out: &mut Vec<Command>, modifier: Modifier, ghost_cell: Ghost<CellView>)
    requires
        ghost_cell@.modifier == modifier,
    ensures
        commands_view(final(out)@) == commands_view(old(out)@) + modifier_commands(*pen, ghost_cell@),
{
    let ghost start = commands_view(out@);
    if modifier != pen.modifier {
        let attrs = ModifierDiff { from: pen.modifier, to: modifier }.attributes();
        let n = attrs.len();
        let mut i: usize = 0;
        while i < n
            invariant
                i <= n,
                n == attrs@.len(),
                commands_view(out@) == start + attrs@.subrange(0, i as int).map_values(
                    |a: Attribute| CommandView::SetAttribute(a),
                ),
            decreases n - i,
        {
            push_command(out, Command::SetAttribute(attrs[i]));
            i = i + 1;
            assert(attrs@.subrange(0, i as int).map_values(
                |a: Attribute| CommandView::SetAttribute(a),
            ) =~= attrs@.subrange(0, i - 1 as int).map_values(
                |a: Attribute| CommandView::SetAttribute(a),
            ).push(CommandView::SetAttribute(attrs@[i - 1])));
        }
        assert(attrs@.subrange(0, n as int) =~= attrs@);
    } else {
        assert(commands_view(out@) =~= start + Seq::empty());
    }
}

/// Appends the commands that print `cell` at `(x, y)` and moves the pen on.
#[verifier::rlimit(50)]
fn print_cell(pen: &mut Pen, out: &mut Vec<Command>, x: u16, y: u16, cell: &crate::buffer::Cell)
    ensures
        commands_view(final(out)@) == commands_view(old(out)@) + cell_commands(*old(pen), x, y, cell@),
        *final(pen) == pen_after(x, y, cell@),
{
    let ghost start = commands_view(out@);
    let follows_last = match pen.last {
        Some(p) => (x as u32) == (p.x as u32) + 1 && y == p.y,
        None => false,
    };
    push_command_when(out, !follows_last, Command::MoveTo(x, y));
    let ghost a = commands_view(out@);
    assert(a == start + move_commands(*pen, x, y));
    push_modifiers(pen, out, cell.modifier, Ghost(cell@));
    let ghost b = commands_view(out@);
    assert(b == a + modifier_commands(*pen, cell@));
    push_command_when(out, cell.fg != pen.fg, Command::SetForegroundColor(cell.fg));
    push_command_when(out, cell.bg != pen.bg, Command::SetBackgroundColor(cell.bg));
    push_command_when(
        out,
        cell.underline_color != pen.underline_color,
        Command::SetUnderlineColor(cell.underline_color),
    );
    let ghost c = commands_view(out@);
    assert(c =~= b + color_commands(*pen, cell@));
    push_command(out, Command::Print(cell.symbol.clone()));
    proof {
        let m = move_commands(*pen, x, y);
        let mo = modifier_commands(*pen, cell@);
        let co = color_commands(*pen, cell@);
        let pr = seq![CommandView::Print(cell@.symbol)];
        assert(commands_view(out@) == c + pr);
        assert(((start + m) + mo) + co =~= start + ((m + mo) + co));
        assert(((start + ((m + mo) + co)) + pr) =~= start + (((m + mo) + co) + pr));
    }
    *pen = Pen {
        fg: cell.fg,
        bg: cell.bg,
        underline_color: cell.underline_color,
        modifier: cell.modifier,
        last: Some(Position { x, y }),
    };
}

/// The commands that draw `content`: a cursor move only where a cell does
/// not follow the one printed before it, color and modifier switches only
/// where they change, then every color and attribute reset.
pub fn draw_commands(content: &Vec<Update>) -> (r: Vec<Command>)
    ensures
        commands_view(r@) == draw_plan(crate::buffer::updates_view(content@)),
{
    let ghost us = crate::buffer::updates_view(content@);
    let mut out: Vec<Command> = Vec::new();
    let mut pen = Pen {
        fg: Color::Reset,
        bg: Color::Reset,
        underline_color: Color::Reset,
        modifier: Modifier::empty(),
        last: None,
    };
    let n = content.len();
    let mut k: usize = 0;
    assert(commands_view(out@) =~= Seq::empty());
    while k < n
        invariant
            k <= n,
            n == content@.len(),
            us == crate::buffer::updates_view(content@),
            commands_view(out@) == plan(us, k as int).0,
            pen == plan(us, k as int).1,
        decreases n - k,
    {
        let (x, y, cell) = &content[k];
        assert(us[k as int] == (*x, *y, cell@));
        print_cell(&mut pen, &mut out, *x, *y, cell);
        k = k + 1;
    }
    push_command(&mut out, Command::SetForegroundColor(Color::Reset));
    push_command(&mut out, Command::SetBackgroundColor(Color::Reset));
    push_command(&mut out, Command::SetUnderlineColor(Color::Reset));
    push_command(&mut out, Command::SetAttribute(Attribute::Reset));
    assert(commands_view(out@) =~= draw_plan(us));
    out
}

} // verus!
