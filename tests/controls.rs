use tiny_pseudo_3d_renderer::axes::axis_label;
use tiny_pseudo_3d_renderer::controls::{command_for, Command, Key};
use tiny_pseudo_3d_renderer::grid::Grid;

#[test]
fn keys_map_to_commands() {
    assert_eq!(command_for(Key::Char('w')), Some(Command::MoveForward));
    assert_eq!(command_for(Key::Char('s')), Some(Command::MoveBackward));
    assert_eq!(command_for(Key::Char('a')), Some(Command::StrafeLeft));
    assert_eq!(command_for(Key::Char('d')), Some(Command::StrafeRight));
    assert_eq!(command_for(Key::Char('q')), Some(Command::TurnLeft));
    assert_eq!(command_for(Key::Char('e')), Some(Command::TurnRight));
    assert_eq!(command_for(Key::Delete), Some(Command::Quit));
    assert_eq!(command_for(Key::Resize), Some(Command::Resize));
    assert_eq!(command_for(Key::Char('x')), None);
    assert_eq!(command_for(Key::Char('W')), None);
    assert_eq!(command_for(Key::Other), None);
}

#[test]
fn moves_forward_and_back_cancel() {
    let (fx, fy) = Command::MoveForward.step().unwrap();
    let (bx, by) = Command::MoveBackward.step().unwrap();
    assert_eq!((fx, fy), (0, 1));
    assert_eq!((fx + bx, fy + by), (0, 0));
    let (lx, ly) = Command::StrafeLeft.step().unwrap();
    let (rx, ry) = Command::StrafeRight.step().unwrap();
    assert_eq!((rx, ry), (1, 0));
    assert_eq!((lx + rx, ly + ry), (0, 0));
    assert_eq!(Command::TurnLeft.step(), None);
    assert_eq!(Command::Quit.step(), None);
}

#[test]
fn turns_have_opposite_senses() {
    assert_eq!(Command::TurnLeft.turn(), Some(1));
    assert_eq!(Command::TurnRight.turn(), Some(-1));
    assert_eq!(Command::MoveForward.turn(), None);
}

#[test]
fn axis_labels_are_last_digits() {
    assert_eq!(axis_label(0), '0');
    assert_eq!(axis_label(7), '7');
    assert_eq!(axis_label(-13), '3');
    assert_eq!(axis_label(40), '0');
    assert_eq!(axis_label(i32::MIN), '8');
    assert_eq!(axis_label(i32::MAX), '7');
    assert_eq!(axis_label(-5), format!("{}", -5).chars().last().unwrap());
}

#[test]
fn fill_column_relative_to_centre() {
    let mut g = Grid::new(5, 4);
    // centre is column 2, row 2
    g.fill_column(1, -1, 0);
    for c in 0..5 {
        for r in 0..4 {
            let expected = c == 3 && (r == 1 || r == 2);
            assert_eq!(g.is_filled(c, r), expected, "cell {} {}", c, r);
        }
    }
}

#[test]
fn fill_column_outside_grid_is_dropped() {
    let mut g = Grid::new(4, 4);
    g.fill_column(5, -10, 10);
    g.fill_column(-3, 0, 0);
    g.fill_column(0, 3, 1);
    for c in 0..4 {
        for r in 0..4 {
            assert!(!g.is_filled(c, r));
        }
    }
    g.fill_column(-2, -100, 100);
    for r in 0..4 {
        assert!(g.is_filled(0, r));
        assert!(!g.is_filled(1, r));
    }
    g.fill_column(i64::MAX, i64::MIN, i64::MAX);
    g.fill_column(i64::MIN, i64::MIN, i64::MAX);
    assert!(!g.is_filled(3, 0));
}

#[test]
fn new_grid_is_empty() {
    let g = Grid::new(3, 2);
    assert_eq!((g.width(), g.height()), (3, 2));
    assert!(!g.is_filled(2, 1));
    let e = Grid::new(0, 0);
    assert_eq!(e.width(), 0);
}
