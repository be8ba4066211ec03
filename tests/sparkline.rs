use ratatui::buffer::{Buffer, Cell};
use ratatui::layout::Rect;
use ratatui::sparkline::{RenderDirection, Sparkline};
use ratatui::style::{Color, Style};

// Renders a sparkline into a buffer of the given width filled with x
// symbols, so that the cells it leaves alone stand out.
fn render(widget: Sparkline, width: u16) -> Buffer {
    let area = Rect::new(0, 0, width, 1);
    let cell = Cell::new("x");
    let mut buffer = Buffer::filled(area, &cell);
    widget.render(area, &mut buffer);
    buffer
}

#[test]
fn it_does_not_panic_if_max_is_zero() {
    let widget = Sparkline::default().data(&[0, 0, 0]);
    let buffer = render(widget, 6);
    assert_eq!(buffer, Buffer::with_lines(vec!["   xxx"]));
}

#[test]
fn it_does_not_panic_if_max_is_set_to_zero() {
    let widget = Sparkline::default().data(&[0, 1, 2]).max(0);
    let buffer = render(widget, 6);
    assert_eq!(buffer, Buffer::with_lines(vec!["   xxx"]));
}

#[test]
fn it_draws() {
    let widget = Sparkline::default().data(&[0, 1, 2, 3, 4, 5, 6, 7, 8]);
    let buffer = render(widget, 12);
    assert_eq!(buffer, Buffer::with_lines(vec![" ▁▂▃▄▅▆▇█xxx"]));
}

#[test]
fn it_renders_left_to_right() {
    let widget = Sparkline::default()
        .data(&[0, 1, 2, 3, 4, 5, 6, 7, 8])
        .direction(RenderDirection::LeftToRight);
    let buffer = render(widget, 12);
    assert_eq!(buffer, Buffer::with_lines(vec![" ▁▂▃▄▅▆▇█xxx"]));
}

#[test]
fn it_renders_right_to_left() {
    let widget = Sparkline::default()
        .data(&[0, 1, 2, 3, 4, 5, 6, 7, 8])
        .direction(RenderDirection::RightToLeft);
    let buffer = render(widget, 12);
    assert_eq!(buffer, Buffer::with_lines(vec!["xxx█▇▆▅▄▃▂▁ "]));
}

#[test]
fn sparkline_spans_several_rows() {
    let area = Rect::new(0, 0, 2, 2);
    let mut buffer = Buffer::empty(area);
    Sparkline::default().data(&[1, 2]).render(area, &mut buffer);
    assert_eq!(buffer, Buffer::with_lines(vec![" █", "██"]));
}

#[test]
fn sparkline_clips_values_above_max() {
    let widget = Sparkline::default().data(&[10, 2]).max(4);
    let buffer = render(widget, 3);
    assert_eq!(buffer, Buffer::with_lines(vec!["█▄x"]));
}

#[test]
fn sparkline_applies_style() {
    let widget = Sparkline::default().data(&[8]).style(Style::new().fg(Color::Red));
    let buffer = render(widget, 2);
    assert_eq!(buffer.get(0, 0).fg, Color::Red);
    assert_eq!(buffer.get(1, 0).fg, Color::Reset);
}
