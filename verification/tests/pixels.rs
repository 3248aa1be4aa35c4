use screen_watch::frame::{can_resize, Frame, MAX_SIDE};
use screen_watch::monitor::pixels::{dim_buffer, rgba_to_0rgb};

#[test]
fn pictures_need_enough_bytes() {
    assert!(Frame::from_raw(2, 1, vec![0; 7]).is_none());
    assert!(Frame::from_raw(2, 1, vec![0; 8]).is_some());
    assert!(Frame::from_raw(0, 5, vec![]).is_some());
    assert!(Frame::from_raw(u32::MAX, u32::MAX, vec![1, 2, 3, 4]).is_none());
}

#[test]
fn surplus_bytes_are_dropped() {
    let frame = Frame::from_raw(1, 1, vec![1, 2, 3, 4, 5, 6]).unwrap();
    assert_eq!((frame.width(), frame.height()), (1, 1));
    assert_eq!(frame.bytes(), &vec![1, 2, 3, 4]);
    assert_eq!(frame.into_raw(), vec![1, 2, 3, 4]);
}

#[test]
fn alpha_is_left_out() {
    let frame = Frame::from_raw(2, 1, vec![0x12, 0x34, 0x56, 0x78, 0xFF, 0, 0x01, 0]).unwrap();
    assert_eq!(rgba_to_0rgb(&frame), vec![0x00123456, 0x00FF0001]);
}

#[test]
fn an_empty_picture_has_no_pixels() {
    let frame = Frame::from_raw(0, 3, vec![]).unwrap();
    assert!(rgba_to_0rgb(&frame).is_empty());
}

#[test]
fn dimming_takes_three_fifths() {
    assert_eq!(
        dim_buffer(&[0x00FFFFFF, 0x00000000, 0xFF050A0F, 0x00010203]),
        vec![0x00999999, 0x00000000, 0x00030609, 0x00000101]
    );
    assert!(dim_buffer(&[]).is_empty());
}

#[test]
fn resizing_to_the_same_size_copies() {
    let bytes: Vec<u8> = (0..24).collect();
    let frame = Frame::from_raw(3, 2, bytes.clone()).unwrap().resized(3, 2);
    assert_eq!(frame.into_raw(), bytes);
}

#[test]
fn resizing_averages_with_the_triangle_filter() {
    let row = vec![
        0, 200, 10, 255, //
        0, 200, 10, 255, //
        100, 0, 10, 255, //
        100, 0, 10, 255,
    ];
    let frame = Frame::from_raw(4, 1, row).unwrap().resized(1, 1);
    assert_eq!((frame.width(), frame.height()), (1, 1));
    assert_eq!(frame.into_raw(), vec![50, 100, 10, 255]);
}

#[test]
fn resizing_can_enlarge() {
    let frame = Frame::from_raw(1, 1, vec![9, 8, 7, 6]).unwrap().resized(3, 2);
    assert_eq!((frame.width(), frame.height()), (3, 2));
    assert_eq!(frame.into_raw(), [9, 8, 7, 6].repeat(6));
}

#[test]
fn sizes_that_can_be_resized() {
    assert!(can_resize(1920, 1080, 480, 270));
    assert!(can_resize(1920, 1080, 1920, 1080));
    assert!(can_resize(1, 1, MAX_SIDE, 1));
    assert!(!can_resize(1, 1, MAX_SIDE + 1, 1));
    assert!(!can_resize(MAX_SIDE + 1, 1, 1, 1));
    assert!(can_resize(0, 0, MAX_SIDE + 1, 1));
    assert!(can_resize(MAX_SIDE + 1, 1, MAX_SIDE + 1, 1));
    assert!(!can_resize(0, 0, u32::MAX, u32::MAX));
}
