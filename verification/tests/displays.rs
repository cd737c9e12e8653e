use rift_ergo::error::ErrorKind;
use rift_ergo::geometry::{Coordinate, Extent, Rect};
use rift_ergo::model::{display_space, DisplayData};
use rift_ergo::workflow::{adjacent_display, DisplayDirection};

fn extent() -> Extent {
    Extent {
        start: Coordinate::from_bits(0.0f64.to_bits()),
        center: Coordinate::from_bits(50.0f64.to_bits()),
        end: Coordinate::from_bits(100.0f64.to_bits()),
    }
}

fn display(uuid: &str) -> DisplayData {
    DisplayData {
        uuid: uuid.into(),
        name: None,
        frame: Rect { horizontal: extent(), vertical: extent() },
        space: Some(1),
        is_active_context: false,
        active_space_ids: vec![1],
        inactive_space_ids: Vec::new(),
    }
}

#[test]
fn adjacent_display_wraps_in_both_directions() {
    let displays = vec![display("a"), display("b"), display("c")];
    assert_eq!(
        adjacent_display(&displays, "c", DisplayDirection::Next)
            .unwrap()
            .unwrap()
            .uuid,
        "a"
    );
    assert_eq!(
        adjacent_display(&displays, "a", DisplayDirection::Previous)
            .unwrap()
            .unwrap()
            .uuid,
        "c"
    );
}

#[test]
fn a_display_on_and_a_display_back_is_where_it_began() {
    let displays = vec![display("a"), display("b"), display("c")];
    for (there, back) in [
        (DisplayDirection::Next, DisplayDirection::Previous),
        (DisplayDirection::Previous, DisplayDirection::Next),
    ] {
        for display in &displays {
            let next = adjacent_display(&displays, &display.uuid, there).unwrap().unwrap();
            assert_ne!(next.uuid, display.uuid);
            let again = adjacent_display(&displays, &next.uuid, back).unwrap().unwrap();
            assert_eq!(again.uuid, display.uuid);
        }
    }
}

#[test]
fn a_display_alone_has_no_neighbour() {
    let displays = vec![display("a")];
    assert_eq!(adjacent_display(&displays, "a", DisplayDirection::Next).unwrap(), None);
    assert_eq!(adjacent_display(&displays, "z", DisplayDirection::Next).unwrap(), None);
    assert_eq!(adjacent_display(&vec![], "a", DisplayDirection::Previous).unwrap(), None);
}

#[test]
fn a_display_that_is_gone_has_no_neighbour() {
    let displays = vec![display("a"), display("b")];
    let error = adjacent_display(&displays, "z", DisplayDirection::Next).unwrap_err();
    assert_eq!(error.kind, ErrorKind::Other);
    assert_eq!(error.message, "source display disappeared");
}

#[test]
fn the_first_active_space_is_shown() {
    let mut shown = display("a");
    shown.active_space_ids = vec![7, 8];
    shown.space = Some(3);
    assert_eq!(display_space(&shown), Some(7));
    shown.active_space_ids = vec![];
    assert_eq!(display_space(&shown), Some(3));
    shown.space = None;
    assert_eq!(display_space(&shown), None);
}
