use deskovery::data::DeskoveryData;
use deskovery::field::{ControllerData, FieldState, FIELD_COLOR, FIELD_SIZE};

fn at(x: i32, y: i32) -> DeskoveryData {
    DeskoveryData { x, y, ..Default::default() }
}

#[test]
fn poll_marks_cells_and_returns_the_controller() {
    let mut s = FieldState::new();
    let c = s.poll(vec![at(0, 0), at(-600, 700), at(10, -20)]);
    assert_eq!(c, ControllerData { x: 0, y: 0, b1: false, b2: false, b3: false, b4: false });
    assert_eq!(s.map_pixel(500, 500), (244, 244, FIELD_COLOR));
    assert_eq!(s.map_pixel(0, 999), (0, 231, FIELD_COLOR));
    assert_eq!(s.map_pixel(510, 480), (254, 224, FIELD_COLOR));
    assert_eq!(s.map_pixel(1, 1), (1, 1, 0));
    assert_eq!(s.map_data().len(), 3);
    assert_eq!(s.map_data()[1], at(-600, 700));
}

#[test]
fn history_restarts_at_its_limit() {
    let mut s = FieldState::new();
    for _ in 0..10 {
        s.poll(vec![at(1, 1); 100]);
    }
    assert_eq!(s.map_data().len(), 1000);
    s.poll(vec![at(2, 2), at(3, 3)]);
    assert_eq!(s.map_data().to_vec(), vec![at(2, 2), at(3, 3)]);
    // The map is not cleared with the history.
    assert_eq!(s.map_pixel(501, 501).2, FIELD_COLOR);
}

#[test]
fn push_sets_the_controller() {
    let mut s = FieldState::new();
    s.push(250, -1000, "true", "false", "True", "true");
    let c = s.poll(vec![]);
    assert_eq!(c, ControllerData { x: 250, y: -1000, b1: true, b2: false, b3: false, b4: true });
}

#[test]
fn delete_clears_history_and_map() {
    let mut s = FieldState::new();
    s.poll(vec![at(0, 0)]);
    s.delete_map_data();
    assert!(s.map_data().is_empty());
    assert_eq!(s.map_pixel(500, 500).2, 0);
    assert_eq!(FIELD_SIZE, 1000);
}
