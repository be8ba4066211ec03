use ratatui::backend::{Backend, BackendError};
use ratatui::buffer::Buffer;
use ratatui::layout::{Position, Rect, Size};
use ratatui::style::Style;
use ratatui::terminal::{
    compute_inline_size, inline_placement, lines_to_updates, Options, Terminal, Viewport,
};
use ratatui::test_backend::TestBackend;

fn fixed(area: Rect, backend: TestBackend) -> Terminal<TestBackend> {
    Terminal::with_options(backend, Options { viewport: Viewport::Fixed(area) }).unwrap()
}

#[test]
fn second_identical_frame_draws_nothing() {
    let mut terminal = fixed(Rect::new(0, 0, 10, 10), TestBackend::new(10, 10));
    terminal
        .draw(|f| {
            f.buffer.set_string(0, 0, "hello", Style::new());
        })
        .unwrap();
    terminal
        .draw(|f| {
            f.buffer.set_string(0, 0, "hello", Style::new());
        })
        .unwrap();
    assert_eq!(terminal.backend().draw_calls(), &vec![5, 0]);
}

#[test]
fn backend_termion_should_only_write_diffs() {
    let backend = TestBackend::new(3, 1);
    let mut terminal = Terminal::new(backend).unwrap();
    for text in ["a", "ab", "abc"] {
        terminal
            .draw(|f| {
                f.buffer.set_string(0, 0, text, Style::new());
            })
            .unwrap();
    }
    assert_eq!(terminal.backend().draw_calls(), &vec![1, 1, 1]);
    assert_eq!(terminal.backend().buffer(), &Buffer::with_lines(vec!["abc"]));
    assert!(!terminal.backend().cursor_visible());
    terminal.restore_cursor().unwrap();
    assert!(terminal.backend().cursor_visible());
}

#[test]
fn inline_viewport_placement_near_bottom() {
    let mut backend = TestBackend::new(80, 24);
    backend.set_cursor_position(Position::new(0, 20)).unwrap();
    let (area, pos) = compute_inline_size(&mut backend, 3, Size::new(80, 24), 0).unwrap();
    assert_eq!(pos, Position::new(0, 20));
    assert_eq!(area, Rect::new(0, 20, 80, 3));
    assert!(area.y >= 18 && area.y <= 21);
    assert!(area.y + area.height <= 24);
    // the two lines appended below the cursor moved it down
    assert_eq!(backend.cursor_position().y, 22);
}

#[test]
fn inline_placement_moves_up_when_short_of_room() {
    let (area, lines) = inline_placement(5, Size::new(10, 24), 0, 22);
    assert_eq!(lines, 4);
    assert_eq!(area, Rect::new(0, 19, 10, 5));
    let (area, lines) = inline_placement(30, Size::new(10, 24), 0, 5);
    assert_eq!(lines, 29);
    assert_eq!(area, Rect::new(0, 0, 10, 24));
    let (area, lines) = inline_placement(4, Size::new(10, 24), 2, 23);
    assert_eq!(lines, 1);
    assert_eq!(area, Rect::new(0, 20, 10, 4));
}

#[test]
fn inline_terminal_starts_at_cursor_row() {
    let mut backend = TestBackend::new(20, 10);
    backend.set_cursor_position(Position::new(0, 2)).unwrap();
    let mut terminal =
        Terminal::with_options(backend, Options { viewport: Viewport::Inline(4) }).unwrap();
    assert_eq!(terminal.get_frame().area(), Rect::new(0, 2, 20, 4));
}

#[test]
fn fullscreen_terminal_covers_the_screen() {
    let mut terminal = Terminal::new(TestBackend::new(7, 3)).unwrap();
    let frame = terminal.get_frame();
    assert_eq!(frame.area(), Rect::new(0, 0, 7, 3));
    assert_eq!(frame.count(), 0);
}

#[test]
fn resize_leaves_only_blank_buffers() {
    let mut terminal = Terminal::new(TestBackend::new(4, 2)).unwrap();
    terminal
        .draw(|f| {
            f.buffer.set_string(0, 0, "abcd", Style::new());
        })
        .unwrap();
    terminal.current_buffer_mut().set_string(0, 1, "zz", Style::new());
    terminal.resize(Rect::new(0, 0, 6, 3)).unwrap();
    assert_eq!(terminal.current_buffer_mut(), &mut Buffer::empty(Rect::new(0, 0, 6, 3)));
    terminal.swap_buffers();
    assert_eq!(terminal.current_buffer_mut(), &mut Buffer::empty(Rect::new(0, 0, 6, 3)));
}

#[test]
fn draw_follows_a_resized_screen() {
    let mut terminal = Terminal::new(TestBackend::new(4, 2)).unwrap();
    terminal.backend_mut().resize(6, 3);
    let completed = terminal
        .draw(|f| {
            f.buffer.set_string(0, 2, "x", Style::new());
        })
        .unwrap();
    assert_eq!(completed.area, Rect::new(0, 0, 6, 3));
    assert_eq!(completed.buffer.area, Rect::new(0, 0, 6, 3));
    assert_eq!(completed.count, 0);
}

#[test]
fn fixed_viewport_ignores_screen_resize() {
    let mut terminal = fixed(Rect::new(1, 1, 3, 1), TestBackend::new(5, 5));
    terminal.backend_mut().resize(10, 10);
    let completed = terminal.draw(|_| {}).unwrap();
    assert_eq!(completed.buffer.area, Rect::new(1, 1, 3, 1));
}

#[test]
fn cursor_request_shows_and_moves_cursor() {
    let mut terminal = Terminal::new(TestBackend::new(5, 5)).unwrap();
    terminal
        .draw(|f| {
            f.set_cursor_position(Position::new(2, 3));
        })
        .unwrap();
    assert!(terminal.backend().cursor_visible());
    assert_eq!(terminal.get_cursor_position().unwrap(), Position::new(2, 3));
    assert_eq!(terminal.get_cursor().unwrap(), (2, 3));
}

#[test]
fn failed_render_step_draws_nothing() {
    let mut terminal = Terminal::new(TestBackend::new(5, 1)).unwrap();
    let result = terminal.try_draw(|f| {
        f.buffer.set_string(0, 0, "oops", Style::new());
        Err(BackendError::new("render failed"))
    });
    assert_eq!(result.err().unwrap().message, "render failed");
    assert!(terminal.backend().draw_calls().is_empty());
    let completed = terminal.try_draw(|_| Ok(())).unwrap();
    assert_eq!(completed.count, 0);
}

#[test]
fn frame_count_increments() {
    let mut terminal = Terminal::new(TestBackend::new(2, 1)).unwrap();
    for expected in 0..3usize {
        let completed = terminal.draw(|_| {}).unwrap();
        assert_eq!(completed.count, expected);
    }
}

#[test]
fn insert_before_pushes_lines_above_inline_viewport() {
    let mut backend = TestBackend::new(5, 5);
    backend.set_cursor_position(Position::new(0, 0)).unwrap();
    let mut terminal =
        Terminal::with_options(backend, Options { viewport: Viewport::Inline(2) }).unwrap();
    terminal
        .insert_before(1, |buf| {
            buf.set_string(0, 0, "line1", Style::new());
        })
        .unwrap();
    assert_eq!(terminal.get_frame().area(), Rect::new(0, 1, 5, 2));
    assert_eq!(terminal.backend().buffer().get(0, 0).symbol, "l");
    terminal
        .insert_before(4, |buf| {
            for y in 0..4u16 {
                buf.set_string(0, y, "more", Style::new());
            }
        })
        .unwrap();
    assert_eq!(terminal.get_frame().area(), Rect::new(0, 3, 5, 2));
}

#[test]
fn insert_before_is_ignored_without_inline_viewport() {
    let mut terminal = Terminal::new(TestBackend::new(5, 5)).unwrap();
    terminal
        .insert_before(2, |buf| {
            buf.set_string(0, 0, "x", Style::new());
        })
        .unwrap();
    assert!(terminal.backend().draw_calls().is_empty());
}

#[test]
fn hide_and_show_cursor() {
    let mut terminal = Terminal::new(TestBackend::new(2, 2)).unwrap();
    terminal.hide_cursor().unwrap();
    assert!(!terminal.backend().cursor_visible());
    terminal.show_cursor().unwrap();
    assert!(terminal.backend().cursor_visible());
    terminal.set_cursor(1, 1).unwrap();
    assert_eq!(terminal.backend().cursor_position(), Position::new(1, 1));
    assert_eq!(terminal.size().unwrap(), Size::new(2, 2));
}

#[test]
fn clear_forces_full_redraw() {
    let mut terminal = Terminal::new(TestBackend::new(3, 1)).unwrap();
    terminal
        .draw(|f| {
            f.buffer.set_string(0, 0, "abc", Style::new());
        })
        .unwrap();
    terminal.clear().unwrap();
    terminal
        .draw(|f| {
            f.buffer.set_string(0, 0, "abc", Style::new());
        })
        .unwrap();
    assert_eq!(terminal.backend().draw_calls(), &vec![3, 3]);
}

#[test]
fn reported_size_equal_to_known_area_changes_nothing() {
    let mut terminal = Terminal::new(TestBackend::new(4, 2)).unwrap();
    terminal.resize_to_reported(Size::new(4, 2)).unwrap();
    assert!(terminal.backend().draw_calls().is_empty());
    assert_eq!(terminal.get_frame().area(), Rect::new(0, 0, 4, 2));
}

#[test]
fn reported_size_change_resizes_fullscreen() {
    let mut terminal = Terminal::new(TestBackend::new(4, 2)).unwrap();
    terminal.resize_to_reported(Size::new(9, 5)).unwrap();
    assert_eq!(terminal.get_frame().area(), Rect::new(0, 0, 9, 5));
}

#[test]
fn reported_size_is_ignored_by_fixed_viewport() {
    let mut terminal = fixed(Rect::new(1, 1, 2, 2), TestBackend::new(5, 5));
    terminal.resize_to_reported(Size::new(9, 9)).unwrap();
    assert_eq!(terminal.get_frame().area(), Rect::new(1, 1, 2, 2));
}

#[test]
fn lines_to_updates_places_rows_at_offset() {
    let buffer = Buffer::with_lines(vec!["ab", "cd", "ef"]);
    let updates = lines_to_updates(&buffer, 1, 7, 2);
    let got: Vec<(u16, u16, String)> =
        updates.iter().map(|u| (u.0, u.1, u.2.symbol.clone())).collect();
    assert_eq!(
        got,
        vec![
            (0, 7, "c".to_string()),
            (1, 7, "d".to_string()),
            (0, 8, "e".to_string()),
            (1, 8, "f".to_string()),
        ]
    );
}

#[test]
fn render_step_replacing_buffer_gets_blank_frame() {
    let mut terminal = Terminal::new(TestBackend::new(3, 1)).unwrap();
    let completed = terminal
        .draw(|f| {
            *f.buffer = Buffer::with_lines(vec!["toolong"]);
        })
        .unwrap();
    assert_eq!(completed.buffer, &Buffer::empty(Rect::new(0, 0, 3, 1)));
}
