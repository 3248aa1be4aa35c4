use screen_watch::monitor::screens::{first_of_fresh, get_primary_monitor};
use screen_watch::monitor::selector::{Region, Selector, SelectorInput, SelectorStep};

fn at(x: usize, y: usize, left_down: bool) -> SelectorInput {
    SelectorInput {
        open: true,
        escape: false,
        mouse: Some((x, y)),
        left_down,
    }
}

#[test]
fn a_drag_chooses_a_region() {
    let mut selector = Selector::new(100, 80);
    assert_eq!(selector.step(at(10, 20, false)), SelectorStep::Drawing);
    assert_eq!(selector.selection(), None);
    assert_eq!(selector.step(at(10, 20, true)), SelectorStep::Drawing);
    assert_eq!(selector.selection(), Some((10, 20, 10, 20)));
    assert_eq!(selector.step(at(5, 70, true)), SelectorStep::Drawing);
    assert_eq!(selector.selection(), Some((5, 20, 10, 70)));
    assert_eq!(selector.step(at(40, 50, true)), SelectorStep::Drawing);
    assert_eq!(selector.selection(), Some((10, 20, 40, 50)));
    let region = Region { x: 10, y: 20, width: 30, height: 30 };
    assert_eq!(selector.step(at(99, 79, false)), SelectorStep::Chosen(region));
    assert_eq!(selector.selection(), None);
}

#[test]
fn the_direction_of_a_drag_does_not_matter() {
    for (from, to) in [((10, 20), (40, 50)), ((40, 50), (10, 20)), ((40, 20), (10, 50))] {
        let mut selector = Selector::new(100, 80);
        selector.step(at(from.0, from.1, true));
        selector.step(at(to.0, to.1, true));
        assert_eq!(
            selector.step(at(0, 0, false)),
            SelectorStep::Chosen(Region { x: 10, y: 20, width: 30, height: 30 })
        );
    }
}

#[test]
fn small_drags_are_dropped() {
    let mut selector = Selector::new(100, 80);
    selector.step(at(0, 0, true));
    selector.step(at(10, 60, true));
    assert_eq!(selector.step(at(10, 60, false)), SelectorStep::Drawing);
    assert_eq!(selector.selection(), None);
    selector.step(at(0, 0, true));
    selector.step(at(60, 10, true));
    assert_eq!(selector.step(at(60, 10, false)), SelectorStep::Drawing);
    selector.step(at(0, 0, true));
    selector.step(at(11, 11, true));
    assert_eq!(
        selector.step(at(0, 0, false)),
        SelectorStep::Chosen(Region { x: 0, y: 0, width: 11, height: 11 })
    );
}

#[test]
fn the_mouse_is_kept_in_the_window() {
    let mut selector = Selector::new(100, 80);
    selector.step(at(50, 50, true));
    selector.step(at(1000, 80, true));
    assert_eq!(selector.selection(), Some((50, 50, 99, 79)));
    let mut empty = Selector::new(0, 0);
    empty.step(at(5, 5, true));
    assert_eq!(empty.selection(), Some((0, 0, 0, 0)));
}

#[test]
fn escape_and_closing_cancel() {
    let mut selector = Selector::new(100, 80);
    selector.step(at(0, 0, true));
    selector.step(at(50, 50, true));
    let escape = SelectorInput { escape: true, ..at(50, 50, false) };
    assert_eq!(selector.step(escape), SelectorStep::Cancelled);
    let closed = SelectorInput { open: false, ..at(50, 50, false) };
    assert_eq!(selector.step(closed), SelectorStep::Cancelled);
}

#[test]
fn a_mouse_out_of_sight_changes_nothing() {
    let mut selector = Selector::new(100, 80);
    selector.step(at(0, 0, true));
    selector.step(at(50, 50, true));
    let gone = SelectorInput { mouse: None, ..at(0, 0, false) };
    assert_eq!(selector.step(gone), SelectorStep::Drawing);
    assert_eq!(selector.selection(), Some((0, 0, 50, 50)));
}

#[test]
fn the_first_primary_screen_is_taken() {
    assert_eq!(get_primary_monitor(&[Some(false), None, Some(true), Some(true)]), Some(2));
    assert_eq!(get_primary_monitor(&[Some(true)]), Some(0));
    assert_eq!(get_primary_monitor(&[Some(false), None]), None);
    assert_eq!(get_primary_monitor(&[]), None);
}

#[test]
fn the_first_of_a_fresh_list_is_taken() {
    assert_eq!(first_of_fresh(3), Some(0));
    assert_eq!(first_of_fresh(1), Some(0));
    assert_eq!(first_of_fresh(0), None);
}
