use ratatui::buffer::{Cell, Update};
use ratatui::commands::{draw_commands, Attribute, Command, ModifierDiff};
use ratatui::style::{Color, Modifier};

#[test]
fn modifier_diff_removes_then_adds() {
    let diff = ModifierDiff {
        from: Modifier::bold().union(Modifier::italic()),
        to: Modifier::italic().union(Modifier::underlined()),
    };
    assert_eq!(diff.attributes(), vec![Attribute::NormalIntensity, Attribute::Underlined]);
}

#[test]
fn modifier_diff_removing_bold_keeps_dim() {
    let diff = ModifierDiff { from: Modifier::bold().union(Modifier::dim()), to: Modifier::dim() };
    assert_eq!(diff.attributes(), vec![Attribute::NormalIntensity, Attribute::Dim]);
}

#[test]
fn modifier_diff_blinks_share_one_switch_off() {
    let diff = ModifierDiff {
        from: Modifier::slow_blink().union(Modifier::rapid_blink()),
        to: Modifier::reversed(),
    };
    assert_eq!(diff.attributes(), vec![Attribute::NoBlink, Attribute::Reverse]);
}

#[test]
fn modifier_diff_of_equal_sets_is_empty() {
    let diff = ModifierDiff { from: Modifier::crossed_out(), to: Modifier::crossed_out() };
    assert!(diff.attributes().is_empty());
}

#[test]
fn draw_commands_move_only_when_not_adjacent() {
    let content: Vec<Update> = vec![(0, 0, Cell::new("a")), (1, 0, Cell::new("b")), (5, 0, Cell::new("c"))];
    let reset = vec![
        Command::SetForegroundColor(Color::Reset),
        Command::SetBackgroundColor(Color::Reset),
        Command::SetUnderlineColor(Color::Reset),
        Command::SetAttribute(Attribute::Reset),
    ];
    let mut expected = vec![
        Command::MoveTo(0, 0),
        Command::Print("a".to_string()),
        Command::Print("b".to_string()),
        Command::MoveTo(5, 0),
        Command::Print("c".to_string()),
    ];
    expected.extend(reset);
    assert_eq!(draw_commands(&content), expected);
}

#[test]
fn draw_commands_switch_colors_and_modifiers_once() {
    let mut red = Cell::new("x");
    red.set_fg(Color::Red);
    red.modifier = Modifier::bold();
    let content: Vec<Update> = vec![(2, 1, red.clone()), (3, 1, red.clone()), (4, 1, Cell::new("y"))];
    let commands = draw_commands(&content);
    assert_eq!(
        commands,
        vec![
            Command::MoveTo(2, 1),
            Command::SetAttribute(Attribute::Bold),
            Command::SetForegroundColor(Color::Red),
            Command::Print("x".to_string()),
            Command::Print("x".to_string()),
            Command::SetAttribute(Attribute::NormalIntensity),
            Command::SetForegroundColor(Color::Reset),
            Command::Print("y".to_string()),
            Command::SetForegroundColor(Color::Reset),
            Command::SetBackgroundColor(Color::Reset),
            Command::SetUnderlineColor(Color::Reset),
            Command::SetAttribute(Attribute::Reset),
        ]
    );
}

#[test]
fn draw_commands_for_nothing_only_reset() {
    assert_eq!(draw_commands(&Vec::new()).len(), 4);
}
