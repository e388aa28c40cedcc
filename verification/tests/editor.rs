use life_grid::editor::{on_wacom_input, PenAction, PenEvent};
use life_grid::game::{Cell, Frame};

#[test]
fn touch_with_the_pen_sets_the_cell_under_it() {
    let mut f = Frame::new(42, 42).unwrap();
    let mut draw = true;
    let action = on_wacom_input(&mut f, &mut draw, PenEvent::Draw { x: 700, y: 1000 });
    assert_eq!(action, PenAction::Redraw { x: 20, y: 23, cell: Cell::Alive });
    assert_eq!(f.get_cell(20, 23), Cell::Alive);
    assert_eq!(f.cells.iter().filter(|c| **c == Cell::Alive).count(), 1);
    assert!(draw);
}

#[test]
fn touching_the_same_cell_again_asks_for_nothing() {
    let mut f = Frame::new(42, 42).unwrap();
    let mut draw = true;
    on_wacom_input(&mut f, &mut draw, PenEvent::Draw { x: 700, y: 1000 });
    let again = on_wacom_input(&mut f, &mut draw, PenEvent::Draw { x: 701, y: 1001 });
    assert_eq!(again, PenAction::Nothing);
    assert_eq!(f.get_cell(20, 23), Cell::Alive);
}

#[test]
fn touch_with_the_rubber_clears_the_cell() {
    let mut f = Frame::new(42, 42).unwrap();
    f.set_cell(1, 1, Cell::Alive);
    let mut draw = false;
    let action = on_wacom_input(&mut f, &mut draw, PenEvent::Draw { x: 62, y: 296 });
    assert_eq!(action, PenAction::Redraw { x: 1, y: 1, cell: Cell::Dead });
    assert_eq!(f.get_cell(1, 1), Cell::Dead);
    let again = on_wacom_input(&mut f, &mut draw, PenEvent::Draw { x: 62, y: 296 });
    assert_eq!(again, PenAction::Nothing);
    assert!(!draw);
}

#[test]
fn touch_off_the_field_changes_nothing() {
    let mut f = Frame::new(42, 42).unwrap();
    let mut draw = true;
    let action = on_wacom_input(&mut f, &mut draw, PenEvent::Draw { x: 10, y: 10 });
    assert_eq!(action, PenAction::Nothing);
    assert!(f.cells.iter().all(|c| *c == Cell::Dead));
}

#[test]
fn touch_on_the_far_edge_writes_the_wrapped_cell() {
    let mut f = Frame::new(42, 42).unwrap();
    let mut draw = true;
    let action = on_wacom_input(&mut f, &mut draw, PenEvent::Draw { x: 1374, y: 264 });
    assert_eq!(action, PenAction::Redraw { x: 42, y: 0, cell: Cell::Alive });
    assert_eq!(f.get_cell(0, 0), Cell::Alive);
}

#[test]
fn tool_change_switches_the_mode() {
    let mut f = Frame::new(3, 3).unwrap();
    let mut draw = true;
    assert_eq!(on_wacom_input(&mut f, &mut draw, PenEvent::ToolRubber), PenAction::Nothing);
    assert!(!draw);
    assert_eq!(on_wacom_input(&mut f, &mut draw, PenEvent::ToolRubber), PenAction::Nothing);
    assert!(!draw);
    assert_eq!(on_wacom_input(&mut f, &mut draw, PenEvent::ToolPen), PenAction::Nothing);
    assert!(draw);
    assert!(f.cells.iter().all(|c| *c == Cell::Dead));
}

#[test]
fn other_events_change_nothing() {
    let mut f = Frame::new(3, 3).unwrap();
    f.set_cell(1, 1, Cell::Alive);
    let before = f.cells.clone();
    let mut draw = false;
    assert_eq!(on_wacom_input(&mut f, &mut draw, PenEvent::Other), PenAction::Nothing);
    assert!(!draw);
    assert_eq!(f.cells, before);
}
