use screen_watch::frame::Frame;
use screen_watch::monitor::backdrop::Backdrop;
use screen_watch::monitor::overlay::{draw_overlay, overlay_fits, RED};
use screen_watch::monitor::selector::{Selector, SelectorInput};

const D: u32 = 0x00111111;
const O: u32 = 0x00EEEEEE;

fn drawn(width: usize, height: usize, sel: Option<(usize, usize, usize, usize)>) -> Vec<u32> {
    let original = vec![O; width * height];
    let dimmed = vec![D; width * height];
    let mut display = vec![0; width * height];
    assert!(overlay_fits(display.len(), original.len(), width, sel));
    draw_overlay(&mut display, &original, &dimmed, width, sel);
    display
}

fn dragged(places: &[(usize, usize)]) -> Selector {
    let mut selector = Selector::new(4, 3);
    for place in places {
        selector.step(SelectorInput {
            open: true,
            escape: false,
            mouse: Some(*place),
            left_down: true,
        });
    }
    selector
}

#[test]
fn without_a_selection_all_is_dimmed() {
    assert_eq!(drawn(3, 2, None), vec![D; 6]);
}

#[test]
fn the_frame_is_two_pixels_wide() {
    let r = RED;
    assert_eq!(
        drawn(8, 8, Some((1, 1, 6, 6))),
        vec![
            D, D, D, D, D, D, D, D, //
            D, r, r, r, r, r, r, D, //
            D, r, r, r, r, r, r, D, //
            D, r, r, O, O, r, r, D, //
            D, r, r, O, O, r, r, D, //
            D, r, r, r, r, r, r, D, //
            D, r, r, r, r, r, r, D, //
            D, D, D, D, D, D, D, D,
        ]
    );
}

#[test]
fn one_pixel_is_framed_by_a_cross() {
    let r = RED;
    assert_eq!(
        drawn(5, 5, Some((2, 2, 2, 2))),
        vec![
            D, D, D, D, D, //
            D, D, r, D, D, //
            D, r, r, r, D, //
            D, D, r, D, D, //
            D, D, D, D, D,
        ]
    );
}

#[test]
fn the_frame_stops_at_the_top_left() {
    let r = RED;
    assert_eq!(
        drawn(3, 3, Some((0, 0, 0, 0))),
        vec![
            r, r, D, //
            r, D, D, //
            D, D, D,
        ]
    );
}

#[test]
fn the_frame_runs_into_the_next_row_at_the_right_edge() {
    let r = RED;
    assert_eq!(
        drawn(3, 3, Some((2, 0, 2, 0))),
        vec![
            D, r, r, //
            r, D, r, //
            D, D, D,
        ]
    );
}

#[test]
fn a_selection_in_the_last_row_does_not_fit() {
    assert!(!overlay_fits(9, 9, 3, Some((0, 2, 1, 2))));
    assert!(!overlay_fits(9, 9, 3, Some((2, 1, 2, 2))));
    assert!(overlay_fits(9, 9, 3, Some((0, 1, 1, 2))));
    assert!(overlay_fits(9, 9, 3, Some((2, 0, 2, 1))));
    assert!(!overlay_fits(9, 8, 3, Some((0, 1, 2, 2))));
    assert!(!overlay_fits(9, 9, 3, Some((0, 0, 1, usize::MAX))));
    assert!(!overlay_fits(9, 9, 3, Some((0, usize::MAX, 1, 0))));
    assert!(overlay_fits(0, 0, 0, None));
}

#[test]
fn a_reversed_selection_has_only_its_rows_or_columns() {
    let r = RED;
    assert_eq!(
        drawn(3, 4, Some((0, 2, 1, 1))),
        vec![
            r, r, D, //
            r, r, D, //
            r, r, D, //
            r, r, D,
        ]
    );
    assert!(!overlay_fits(9, 9, 3, Some((2, 0, 0, 1))));
}

#[test]
fn a_backdrop_of_the_window_size_is_the_screenshot() {
    let frame = Frame::from_raw(2, 2, [10, 20, 30, 255].repeat(4)).unwrap();
    let backdrop = Backdrop::prepare(frame, None, Some(2));
    assert_eq!((backdrop.width(), backdrop.height()), (2, 2));
    let mut display = backdrop.blank();
    assert_eq!(display, vec![0; 4]);
    backdrop.draw(&Selector::new(2, 2), &mut display);
    assert_eq!(display, vec![0x00060C12; 4]);
}

#[test]
fn a_backdrop_is_resized_to_the_window() {
    let frame = Frame::from_raw(2, 2, [10, 20, 30, 255].repeat(4)).unwrap();
    let backdrop = Backdrop::prepare(frame, Some(4), Some(3));
    assert_eq!((backdrop.width(), backdrop.height()), (4, 3));
    let mut display = backdrop.blank();
    assert!(!backdrop.can_draw(&dragged(&[(0, 2), (3, 2)])));
    assert!(backdrop.can_draw(&dragged(&[(0, 2), (3, 0)])));
    let selector = dragged(&[(0, 0)]);
    assert!(backdrop.can_draw(&selector));
    backdrop.draw(&selector, &mut display);
    let (r, d) = (RED, 0x00060C12);
    assert_eq!(display, vec![r, r, d, d, r, d, d, d, d, d, d, d]);
}
