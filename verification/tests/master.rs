use velowin::dwindle::Rect;
use velowin::master::{MasterLayout, MasterNode};
use velowin::types::SendHWND;

fn rect(x: i32, y: i32, width: i32, height: i32) -> Rect {
    Rect { x, y, width, height }
}

#[test]
fn new_master_layout_is_empty() {
    let m = MasterLayout::new();
    assert!(m.windows.is_empty());
    assert_eq!(m.master_count, 1);
    assert_eq!(m.master_split_ratio, 500);
}

#[test]
fn single_window_fills_the_area() {
    let mut m = MasterLayout::new();
    m.add_window(SendHWND(1));
    assert_eq!(m.windows, vec![MasterNode { hwnd: SendHWND(1), box_area: rect(0, 0, 1920, 1080) }]);
}

#[test]
fn master_and_stack_columns() {
    let mut m = MasterLayout::new();
    m.add_window(SendHWND(1));
    m.add_window(SendHWND(2));
    m.add_window(SendHWND(3));
    assert_eq!(
        m.windows.iter().map(|w| (w.hwnd, w.box_area)).collect::<Vec<_>>(),
        vec![
            (SendHWND(1), rect(0, 0, 960, 1080)),
            (SendHWND(2), rect(960, 0, 960, 540)),
            (SendHWND(3), rect(960, 540, 960, 540)),
        ]
    );
}

#[test]
fn all_masters_stack_evenly() {
    let mut m = MasterLayout::new();
    m.master_count = 3;
    m.add_window(SendHWND(1));
    m.add_window(SendHWND(2));
    m.add_window(SendHWND(3));
    assert_eq!(
        m.windows.iter().map(|w| w.box_area).collect::<Vec<_>>(),
        vec![rect(0, 0, 1920, 360), rect(0, 360, 1920, 360), rect(0, 720, 1920, 360)]
    );
}

#[test]
fn recalculate_uses_given_area_and_ratio() {
    let mut m = MasterLayout::new();
    m.add_window(SendHWND(1));
    m.add_window(SendHWND(2));
    m.master_split_ratio = 600;
    m.recalculate(rect(10, 20, 1001, 301));
    assert_eq!(
        m.windows.iter().map(|w| w.box_area).collect::<Vec<_>>(),
        vec![rect(10, 20, 600, 301), rect(610, 20, 401, 301)]
    );
    // Heights round toward zero: 301 / 2 = 150.
    m.master_count = 2;
    m.recalculate(rect(0, 0, 100, 301));
    assert_eq!(
        m.windows.iter().map(|w| w.box_area).collect::<Vec<_>>(),
        vec![rect(0, 0, 100, 150), rect(0, 150, 100, 150)]
    );
}

#[test]
fn recalculate_of_empty_layout_does_nothing() {
    let mut m = MasterLayout::new();
    m.recalculate(rect(0, 0, 10, 10));
    assert!(m.windows.is_empty());
}

#[test]
fn master_ratio_above_one_widens_the_master_column() {
    let mut m = MasterLayout::new();
    m.master_split_ratio = 1500;
    m.add_window(SendHWND(1));
    assert_eq!(m.windows[0].box_area, rect(0, 0, 1920, 1080));
    m.add_window(SendHWND(2));
    assert_eq!(m.windows[0].box_area, rect(0, 0, 2880, 1080));
    assert_eq!(m.windows[1].box_area, rect(2880, 0, -960, 1080));
}
