use velowin::dwindle::Rect;
use velowin::monitors::WinRect;
use velowin::placement::{can_place, decorated_style, frame_placement, undecorated_style};

#[test]
fn tiling_strips_caption_frame_and_menu() {
    assert_eq!(undecorated_style(0x16CF_0000), Some(0x1603_0000));
    // A border bit of the caption is enough to count as decorated.
    assert_eq!(undecorated_style(0x0080_0000), Some(0));
    // No caption: the style is left alone.
    assert_eq!(undecorated_style(0x9400_0000), None);
}

#[test]
fn floating_restores_decorations() {
    assert_eq!(decorated_style(0x1603_0000), 0x16CF_0000);
    assert_eq!(decorated_style(0x9400_0000), 0x94CC_0000);
    // Restoring then stripping gives the stripped style back.
    let s = undecorated_style(decorated_style(0x1603_0000));
    assert_eq!(s, Some(0x1603_0000));
}

#[test]
fn outer_rect_compensates_invisible_borders() {
    let window = WinRect { left: 100, top: 100, right: 916, bottom: 708 };
    let frame = WinRect { left: 107, top: 100, right: 909, bottom: 701 };
    let rect = Rect { x: 0, y: 0, width: 960, height: 1080 };
    assert!(can_place(rect, window, frame));
    assert_eq!(
        frame_placement(rect, window, frame),
        Rect { x: -7, y: 0, width: 974, height: 1087 }
    );
}

#[test]
fn no_invisible_border_keeps_the_box() {
    let window = WinRect { left: 5, top: 6, right: 50, bottom: 60 };
    let rect = Rect { x: 10, y: 20, width: 300, height: 400 };
    assert!(can_place(rect, window, window));
    assert_eq!(frame_placement(rect, window, window), rect);
}

#[test]
fn placement_overflow_is_detected() {
    let window = WinRect { left: 0, top: 0, right: 100, bottom: 100 };
    let frame = WinRect { left: 7, top: 0, right: 93, bottom: 93 };
    let rect = Rect { x: i32::MIN, y: 0, width: 10, height: 10 };
    assert!(!can_place(rect, window, frame));
    let wide = WinRect { left: i32::MIN, top: 0, right: i32::MAX, bottom: 10 };
    assert!(!can_place(Rect { x: 0, y: 0, width: 1, height: 1 }, wide, wide));
}
