use rift_ergo::geometry::{
    frame_matches_display, frame_validation, intervals_overlap, Coordinate, Extent,
    FrameValidation, Rect,
};
use rift_ergo::model::DisplayData;

fn coordinate(value: f64) -> Coordinate {
    Coordinate::from_bits(value.to_bits())
}

fn extent(start: f64, size: f64) -> Extent {
    Extent {
        start: coordinate(start),
        center: coordinate(start + size / 2.0),
        end: coordinate(start + size),
    }
}

fn rect(x: f64, y: f64, width: f64, height: f64) -> Rect {
    Rect { horizontal: extent(x, width), vertical: extent(y, height) }
}

fn display(uuid: &str, frame: Rect) -> DisplayData {
    DisplayData {
        uuid: uuid.into(),
        name: None,
        frame,
        space: Some(1),
        is_active_context: false,
        active_space_ids: vec![1],
        inactive_space_ids: vec![],
    }
}

#[test]
fn physical_display_check_uses_the_selected_axis() {
    let display = rect(-416.0, -1409.0, 2560.0, 1409.0);
    assert!(frame_matches_display(
        &rect(-414.0, -1407.0, 2556.0, 1404.0),
        FrameValidation::Vertical(display)
    ));
    assert!(!frame_matches_display(
        &rect(2143.0, -1.0, 2556.0, 1404.0),
        FrameValidation::Vertical(display)
    ));
    assert!(frame_matches_display(
        &rect(-2207.0, -1407.0, 2045.0, 1404.0),
        FrameValidation::Vertical(display)
    ));
}

#[test]
fn coordinates_compare_as_their_doubles_do() {
    let values = [
        f64::NEG_INFINITY,
        -1409.0,
        -1.5,
        -f64::MIN_POSITIVE,
        -0.0,
        0.0,
        5e-324,
        0.25,
        1.0,
        2560.0,
        f64::MAX,
        f64::INFINITY,
        f64::NAN,
    ];
    for first in values {
        for second in values {
            assert_eq!(coordinate(first).is_before(coordinate(second)), first < second);
            assert_eq!(coordinate(first).is_at_most(coordinate(second)), first <= second);
        }
    }
}

#[test]
fn intervals_that_touch_do_not_overlap() {
    let at = coordinate;
    assert!(intervals_overlap(at(0.0), at(10.0), at(9.0), at(20.0)));
    assert!(!intervals_overlap(at(0.0), at(10.0), at(10.0), at(20.0)));
    assert!(!intervals_overlap(at(0.0), at(f64::NAN), at(1.0), at(2.0)));
}

#[test]
fn rows_tell_stacked_displays_apart() {
    let top = display("top", rect(0.0, -1000.0, 1000.0, 1000.0));
    let bottom = display("bottom", rect(0.0, 0.0, 1000.0, 1000.0));
    let displays = vec![
        display("top", rect(0.0, -1000.0, 1000.0, 1000.0)),
        display("bottom", rect(0.0, 0.0, 1000.0, 1000.0)),
    ];
    assert_eq!(frame_validation(&top, &displays, "scrolling"), FrameValidation::Vertical(top.frame));
    assert_eq!(
        frame_validation(&bottom, &displays, "stack"),
        FrameValidation::Vertical(bottom.frame)
    );
}

#[test]
fn columns_tell_displays_apart_unless_the_layout_scrolls() {
    let left = display("left", rect(0.0, 0.0, 1000.0, 1000.0));
    let displays = vec![
        display("left", rect(0.0, 0.0, 1000.0, 1000.0)),
        display("right", rect(1000.0, 0.0, 1000.0, 1000.0)),
    ];
    assert_eq!(
        frame_validation(&left, &displays, "stack"),
        FrameValidation::Horizontal(left.frame)
    );
    assert_eq!(frame_validation(&left, &displays, "scrolling"), FrameValidation::MembershipOnly);
}

#[test]
fn mirrored_displays_leave_membership_alone() {
    let one = display("one", rect(0.0, 0.0, 1000.0, 1000.0));
    let displays = vec![
        display("one", rect(0.0, 0.0, 1000.0, 1000.0)),
        display("two", rect(500.0, 500.0, 1000.0, 1000.0)),
    ];
    assert_eq!(frame_validation(&one, &displays, "stack"), FrameValidation::MembershipOnly);
    assert!(frame_matches_display(
        &rect(9000.0, 9000.0, 1.0, 1.0),
        FrameValidation::MembershipOnly
    ));
}

#[test]
fn the_edges_of_a_display_belong_to_it() {
    let validation = FrameValidation::Horizontal(rect(100.0, 0.0, 100.0, 100.0));
    assert!(frame_matches_display(&rect(95.0, 0.0, 10.0, 10.0), validation));
    assert!(frame_matches_display(&rect(195.0, 0.0, 10.0, 10.0), validation));
    assert!(!frame_matches_display(&rect(196.0, 0.0, 10.0, 10.0), validation));
    assert!(!frame_matches_display(&rect(f64::NAN, 0.0, 10.0, 10.0), validation));
}

#[test]
fn the_horizontal_check_ignores_the_row() {
    let validation = FrameValidation::Horizontal(rect(100.0, 0.0, 100.0, 100.0));
    assert!(frame_matches_display(&rect(110.0, 10.0, 20.0, 20.0), validation));
    assert!(frame_matches_display(&rect(110.0, -9000.0, 20.0, 20.0), validation));
    assert!(!frame_matches_display(&rect(210.0, 10.0, 20.0, 20.0), validation));
    assert!(!frame_matches_display(&rect(210.0, -9000.0, 20.0, 20.0), validation));
}
