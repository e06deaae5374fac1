use chillscapes::clicks::{ClickCommand, ClickMark, Clicks};
use chillscapes::geometry::Point;

#[test]
fn a_click_with_a_location_shows_the_mark_up_and_to_the_left() {
    let mut clicks = Clicks::new();
    let mark = clicks.receive_input(
        ClickCommand::SetStatus { success: true, location: Some(Point::new(100, 200)) },
        5_000,
    );
    assert_eq!(mark, Some(ClickMark { location: Point::new(76, 152), success: true }));
    assert_eq!(clicks.location, Point::new(76, 152));
    assert_eq!(clicks.last_click, Some(5_000));
}

#[test]
fn a_click_off_the_beat_is_marked_so() {
    let mut clicks = Clicks::new();
    let mark = clicks.receive_input(
        ClickCommand::SetStatus { success: false, location: Some(Point::new(10, 10)) },
        1,
    );
    assert_eq!(mark, Some(ClickMark { location: Point::new(-14, -38), success: false }));
}

#[test]
fn a_click_without_a_location_changes_nothing() {
    let mut clicks = Clicks::new();
    clicks.receive_input(
        ClickCommand::SetStatus { success: true, location: Some(Point::new(100, 200)) },
        5_000,
    );
    let mark =
        clicks.receive_input(ClickCommand::SetStatus { success: false, location: None }, 9_000);
    assert_eq!(mark, None);
    assert_eq!(clicks.location, Point::new(76, 152));
    assert_eq!(clicks.last_click, Some(5_000));
}

#[test]
fn the_mark_stops_at_the_edge_of_the_plane() {
    let mut clicks = Clicks::new();
    let mark = clicks.receive_input(
        ClickCommand::SetStatus { success: true, location: Some(Point::new(i64::MIN + 3, i64::MIN)) },
        0,
    );
    assert_eq!(mark, Some(ClickMark { location: Point::new(i64::MIN, i64::MIN), success: true }));
}

#[test]
fn the_mark_stays_for_a_quarter_of_a_second() {
    let mut clicks = Clicks::new();
    assert!(!clicks.update(1_000_000));
    clicks.receive_input(
        ClickCommand::SetStatus { success: true, location: Some(Point::new(0, 0)) },
        1_000_000,
    );
    assert!(!clicks.update(1_000_000));
    assert!(!clicks.update(1_250_999));
    assert!(clicks.update(1_251_000));
    assert!(!clicks.update(999_999));
    assert!(!clicks.update(0));
}
