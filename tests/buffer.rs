use ratatui::buffer::{Buffer, Cell};
use ratatui::layout::Rect;
use ratatui::style::{Color, Modifier, Style};

fn symbols(buffer: &Buffer) -> Vec<String> {
    buffer.content.iter().map(|c| c.symbol.clone()).collect()
}

#[test]
fn diff_of_single_changed_glyph_is_one_update() {
    let prev = Buffer::with_lines(vec!["wxyz "]);
    let next = Buffer::with_lines(vec!["wxyZ "]);
    let updates = prev.diff(&next);
    assert_eq!(updates.len(), 1);
    assert_eq!(updates[0].0, 3);
    assert_eq!(updates[0].1, 0);
    assert_eq!(updates[0].2.symbol, "Z");
}

#[test]
fn diff_with_itself_is_empty() {
    let mut buffer = Buffer::with_lines(vec!["abc", "def"]);
    buffer.set_glyph(0, 1, "世", 2, Style::new().fg(Color::Red));
    assert!(buffer.diff(&buffer).is_empty());
}

#[test]
fn diff_is_row_major_and_positioned_in_area() {
    let area = Rect::new(2, 3, 3, 2);
    let prev = Buffer::empty(area);
    let mut next = Buffer::empty(area);
    next.set_string(4, 4, "a", Style::new());
    next.set_string(2, 3, "b", Style::new());
    next.set_string(3, 4, "c", Style::new());
    let positions: Vec<(u16, u16)> = prev.diff(&next).iter().map(|u| (u.0, u.1)).collect();
    assert_eq!(positions, vec![(2, 3), (3, 4), (4, 4)]);
}

#[test]
fn diff_applied_to_previous_gives_next() {
    let prev = Buffer::with_lines(vec!["hello", "world"]);
    let mut next = Buffer::with_lines(vec!["help!", "word "]);
    next.get_mut(0, 0).set_fg(Color::Blue);
    let mut screen = Buffer::with_lines(vec!["hello", "world"]);
    for (x, y, cell) in prev.diff(&next) {
        *screen.get_mut(x, y) = cell;
    }
    assert_eq!(screen, next);
}

#[test]
fn diff_sends_only_changed_cells() {
    let prev = Buffer::with_lines(vec!["abcd"]);
    let next = Buffer::with_lines(vec!["abXd"]);
    for (x, y, cell) in prev.diff(&next) {
        assert!(cell != *prev.get(x, y));
        assert!(cell == *next.get(x, y));
    }
}

#[test]
fn diff_detects_style_only_changes() {
    let prev = Buffer::with_lines(vec!["ab"]);
    let mut next = Buffer::with_lines(vec!["ab"]);
    next.get_mut(1, 0).set_style(Style::new().add_modifier(Modifier::bold()));
    let updates = prev.diff(&next);
    assert_eq!(updates.len(), 1);
    assert_eq!((updates[0].0, updates[0].1), (1, 0));
    assert_eq!(updates[0].2.modifier, Modifier::bold());
}

#[test]
fn wide_glyph_marks_next_column() {
    let mut buffer = Buffer::empty(Rect::new(0, 0, 4, 1));
    assert!(buffer.set_glyph(1, 0, "世", 2, Style::new()));
    assert_eq!(buffer.get(1, 0).symbol, "世");
    assert!(!buffer.get(1, 0).skip);
    assert!(buffer.get(2, 0).skip);
    assert_eq!(buffer.get(2, 0).symbol, "");
    assert!(!buffer.get(3, 0).skip);
}

#[test]
fn wide_glyph_past_right_edge_is_not_written() {
    let mut buffer = Buffer::empty(Rect::new(0, 0, 3, 1));
    assert!(!buffer.set_glyph(2, 0, "世", 2, Style::new()));
    assert_eq!(buffer, Buffer::empty(Rect::new(0, 0, 3, 1)));
}

#[test]
fn diff_sends_wide_glyph_once() {
    let prev = Buffer::empty(Rect::new(0, 0, 4, 1));
    let mut next = Buffer::empty(Rect::new(0, 0, 4, 1));
    next.set_glyph(0, 0, "世", 2, Style::new());
    let updates = prev.diff(&next);
    assert_eq!(updates.len(), 1);
    assert_eq!(updates[0].0, 0);
    assert_eq!(updates[0].2.symbol, "世");
}

#[test]
fn diff_unchanged_wide_glyph_sends_nothing() {
    let mut prev = Buffer::empty(Rect::new(0, 0, 4, 1));
    prev.set_glyph(1, 0, "世", 2, Style::new());
    let mut next = Buffer::empty(Rect::new(0, 0, 4, 1));
    next.set_glyph(1, 0, "世", 2, Style::new());
    assert!(prev.diff(&next).is_empty());
}

#[test]
fn diff_replacing_wide_glyph_redraws_its_columns() {
    let mut prev = Buffer::empty(Rect::new(0, 0, 3, 1));
    prev.set_glyph(0, 0, "世", 2, Style::new());
    let next = Buffer::with_lines(vec!["ab "]);
    let positions: Vec<u16> = prev.diff(&next).iter().map(|u| u.0).collect();
    assert_eq!(positions, vec![0, 1]);
}

#[test]
fn set_string_truncates_at_right_edge() {
    let mut buffer = Buffer::empty(Rect::new(0, 0, 4, 1));
    let end = buffer.set_string(2, 0, "hello", Style::new());
    assert_eq!(end, 4);
    assert_eq!(symbols(&buffer), vec![" ", " ", "h", "e"]);
}

#[test]
fn set_string_applies_style() {
    let mut buffer = Buffer::empty(Rect::new(0, 0, 2, 1));
    let style = Style::new().fg(Color::Green).bg(Color::Black).add_modifier(Modifier::italic());
    buffer.set_string(0, 0, "a", style);
    let cell = buffer.get(0, 0);
    assert_eq!(cell.fg, Color::Green);
    assert_eq!(cell.bg, Color::Black);
    assert!(cell.modifier.contains(Modifier::italic()));
    assert_eq!(buffer.get(1, 0).fg, Color::Reset);
}

#[test]
fn resize_keeps_aligned_cells_and_blanks_the_rest() {
    let mut buffer = Buffer::with_lines(vec!["ab", "cd"]);
    buffer.resize(Rect::new(1, 0, 2, 3));
    assert_eq!(buffer.area, Rect::new(1, 0, 2, 3));
    assert_eq!(buffer.content.len(), 6);
    assert_eq!(symbols(&buffer), vec!["b", " ", "d", " ", " ", " "]);
}

#[test]
fn reset_blanks_every_cell() {
    let mut buffer = Buffer::with_lines(vec!["xyz"]);
    buffer.reset();
    assert_eq!(buffer, Buffer::empty(Rect::new(0, 0, 3, 1)));
}

#[test]
fn with_lines_pads_short_lines() {
    let buffer = Buffer::with_lines(vec!["abc", "d"]);
    assert_eq!(buffer.area, Rect::new(0, 0, 3, 2));
    assert_eq!(symbols(&buffer), vec!["a", "b", "c", "d", " ", " "]);
}

#[test]
fn empty_area_has_no_cells() {
    let buffer = Buffer::empty(Rect::new(5, 5, 0, 3));
    assert!(buffer.content.is_empty());
    assert!(buffer.diff(&buffer).is_empty());
}

#[test]
fn index_and_position_agree() {
    let buffer = Buffer::empty(Rect::new(10, 20, 4, 3));
    let i = buffer.index_of(12, 21);
    assert_eq!(i, 6);
    assert_eq!(buffer.pos_of(i), (12, 21));
}

#[test]
fn cell_default_is_blank() {
    let cell = Cell::default();
    assert_eq!(cell.symbol, " ");
    assert_eq!(cell.fg, Color::Reset);
    assert!(cell.modifier.is_empty());
    assert!(!cell.skip);
}

#[test]
fn style_remove_modifier_wins_over_cell() {
    let mut cell = Cell::new("a");
    cell.set_style(Style::new().add_modifier(Modifier::bold().union(Modifier::dim())));
    cell.set_style(Style::new().remove_modifier(Modifier::bold()));
    assert_eq!(cell.modifier, Modifier::dim());
}
