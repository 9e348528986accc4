use velowin::dwindle::Rect;
use velowin::monitors::{Monitor, MonitorManager, SendHMONITOR, WinRect};

fn wr(left: i32, top: i32, right: i32, bottom: i32) -> WinRect {
    WinRect { left, top, right, bottom }
}

#[test]
fn default_monitor_is_full_hd_primary() {
    let m = Monitor::default();
    assert_eq!(m.hmonitor, SendHMONITOR(0));
    assert_eq!(m.rect, wr(0, 0, 0, 0));
    assert_eq!(m.work_rect, wr(0, 0, 1920, 1080));
    assert_eq!(m.dpi, 96);
    assert!(m.is_primary);
    assert_eq!(m.work_area(), Some(Rect { x: 0, y: 0, width: 1920, height: 1080 }));
}

#[test]
fn primary_monitor_uses_system_work_area() {
    let m = Monitor::from_monitor_info(
        SendHMONITOR(5),
        wr(0, 0, 2560, 1440),
        wr(0, 0, 2560, 1400),
        1,
        144,
        Some(wr(0, 0, 2560, 1392)),
    );
    assert!(m.is_primary);
    assert_eq!(m.work_rect, wr(0, 0, 2560, 1392));
    assert_eq!(m.dpi, 144);
    // A system work area with a zero bottom edge is ignored.
    let m = Monitor::from_monitor_info(SendHMONITOR(5), wr(0, 0, 10, 10), wr(0, 0, 10, 9), 1, 96, Some(wr(0, 0, 10, 0)));
    assert_eq!(m.work_rect, wr(0, 0, 10, 9));
}

#[test]
fn secondary_monitor_keeps_its_work_rect() {
    let m = Monitor::from_monitor_info(
        SendHMONITOR(6),
        wr(1920, 0, 3840, 1080),
        wr(1920, 0, 3840, 1040),
        0,
        96,
        Some(wr(0, 0, 1920, 1040)),
    );
    assert!(!m.is_primary);
    assert_eq!(m.work_rect, wr(1920, 0, 3840, 1040));
    assert_eq!(m.work_area(), Some(Rect { x: 1920, y: 0, width: 1920, height: 1040 }));
}

#[test]
fn unrepresentable_work_areas() {
    let mut m = Monitor::default();
    m.work_rect = wr(i32::MIN, 0, i32::MAX, 10);
    assert_eq!(m.work_area(), None);
    m.work_rect = wr(0, i32::MIN, 10, i32::MAX);
    assert_eq!(m.work_area(), None);
    // A large area is fine as long as the width and height fit.
    m.work_rect = wr(0, 0, 100_000, 100_000);
    assert_eq!(m.work_area(), Some(Rect { x: 0, y: 0, width: 100_000, height: 100_000 }));
}

#[test]
fn monitors_are_found_by_handle() {
    let mut mn = MonitorManager::new();
    assert!(mn.get_monitor_for_window(SendHMONITOR(1)).is_none());
    let mut a = Monitor::default();
    a.hmonitor = SendHMONITOR(1);
    a.dpi = 120;
    let mut b = Monitor::default();
    b.hmonitor = SendHMONITOR(2);
    let mut c = Monitor::default();
    c.hmonitor = SendHMONITOR(1);
    mn.monitors.push(a);
    mn.monitors.push(b);
    mn.monitors.push(c);
    assert_eq!(mn.get_monitor_for_window(SendHMONITOR(1)).map(|m| m.dpi), Some(120));
    assert_eq!(mn.get_monitor_for_window(SendHMONITOR(2)).map(|m| m.hmonitor), Some(SendHMONITOR(2)));
    assert!(mn.get_monitor_for_window(SendHMONITOR(3)).is_none());
}
