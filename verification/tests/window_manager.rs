use velowin::desktop::LayoutType;
use velowin::dwindle::Rect;
use velowin::types::SendHWND;
use velowin::window_manager::WindowManager;

fn rect(x: i32, y: i32, width: i32, height: i32) -> Rect {
    Rect { x, y, width, height }
}

const SCREEN: Rect = Rect { x: 0, y: 0, width: 1920, height: 1080 };

#[test]
fn new_manager_has_ten_empty_workspaces() {
    let wm = WindowManager::new();
    assert_eq!(wm.workspaces.len(), 10);
    for (i, ws) in wm.workspaces.iter().enumerate() {
        assert_eq!(ws.id, i as u32 + 1);
        assert!(ws.root.is_none());
        assert_eq!(ws.layout, LayoutType::Dwindle);
    }
    assert_eq!(wm.active_workspace, 1);
    assert!(wm.active_windows.is_empty());
    assert_eq!((wm.gaps_in, wm.gaps_out), (0, 0));
    assert!(wm.recalculate_layout().is_empty());
}

#[test]
fn added_windows_float() {
    let mut wm = WindowManager::new();
    wm.add_window(SendHWND(7), "Editor".to_string(), "EditClass".to_string());
    let s = &wm.active_windows[&7];
    assert!(s.is_floating);
    assert_eq!(s.workspace_id, 1);
    assert_eq!(s.title, "Editor");
    assert_eq!(s.class_name, "EditClass");
    assert!(wm.recalculate_layout().is_empty());
}

#[test]
fn toggling_tiles_and_untiles() {
    let mut wm = WindowManager::new();
    wm.add_window(SendHWND(1), "a".to_string(), "A".to_string());
    wm.add_window(SendHWND(2), "b".to_string(), "B".to_string());
    assert_eq!(wm.toggle_tiling(SendHWND(1), Some(SCREEN)), Some(false));
    assert_eq!(wm.recalculate_layout(), vec![(SendHWND(1), SCREEN)]);
    assert_eq!(wm.toggle_tiling(SendHWND(2), Some(SCREEN)), Some(false));
    wm.set_gaps(5, 10);
    assert_eq!(
        wm.recalculate_layout(),
        vec![(SendHWND(1), rect(10, 10, 940, 1060)), (SendHWND(2), rect(970, 10, 940, 1060))]
    );
    assert_eq!(wm.toggle_tiling(SendHWND(1), Some(SCREEN)), Some(true));
    assert!(wm.active_windows[&1].is_floating);
    assert_eq!(wm.recalculate_layout(), vec![(SendHWND(2), rect(10, 10, 1900, 1060))]);
    // Unmanaged windows are left alone.
    assert_eq!(wm.toggle_tiling(SendHWND(99), Some(SCREEN)), None);
}

#[test]
fn toggling_twice_restores_the_layout() {
    let mut wm = WindowManager::new();
    for h in 1..=4 {
        wm.add_window(SendHWND(h), String::new(), String::new());
    }
    for h in 1..=3 {
        wm.toggle_tiling(SendHWND(h), Some(SCREEN));
    }
    let before = wm.recalculate_layout();
    assert!(wm.active_windows[&4].is_floating);
    assert_eq!(wm.toggle_tiling(SendHWND(4), Some(SCREEN)), Some(false));
    assert_ne!(wm.recalculate_layout(), before);
    assert_eq!(wm.toggle_tiling(SendHWND(4), Some(SCREEN)), Some(true));
    assert_eq!(wm.recalculate_layout(), before);
    assert!(wm.active_windows[&4].is_floating);
}

#[test]
fn removed_windows_leave_the_layout() {
    let mut wm = WindowManager::new();
    for h in 1..=3 {
        wm.add_window(SendHWND(h), String::new(), String::new());
        wm.toggle_tiling(SendHWND(h), Some(SCREEN));
    }
    wm.remove_window(SendHWND(2));
    assert!(!wm.active_windows.contains_key(&2));
    let layout = wm.recalculate_layout();
    assert_eq!(layout.iter().map(|(h, _)| *h).collect::<Vec<_>>(), vec![SendHWND(1), SendHWND(3)]);
    wm.remove_window(SendHWND(1));
    wm.remove_window(SendHWND(3));
    assert!(wm.recalculate_layout().is_empty());
    assert!(wm.workspaces[0].root.is_none());
    // Removing a window that is not managed changes nothing.
    wm.remove_window(SendHWND(5));
    assert!(wm.active_windows.is_empty());
}

#[test]
fn other_workspaces_are_untouched() {
    let mut wm = WindowManager::new();
    wm.add_window(SendHWND(1), String::new(), String::new());
    wm.active_workspace = 3;
    wm.add_window(SendHWND(2), String::new(), String::new());
    assert_eq!(wm.active_windows[&2].workspace_id, 3);
    wm.toggle_tiling(SendHWND(2), Some(SCREEN));
    assert!(wm.workspaces[0].root.is_none());
    assert!(wm.workspaces[2].root.is_some());
    wm.active_workspace = 1;
    assert!(wm.recalculate_layout().is_empty());
}

#[test]
fn huge_gaps_cannot_be_laid_out() {
    let mut wm = WindowManager::new();
    wm.add_window(SendHWND(1), String::new(), String::new());
    wm.toggle_tiling(SendHWND(1), Some(SCREEN));
    wm.set_gaps(0, 20);
    assert!(wm.can_recalculate_layout());
    wm.set_gaps(0, i32::MAX);
    assert!(!wm.can_recalculate_layout());
}

#[test]
fn shown_windows_are_added_once() {
    let mut wm = WindowManager::new();
    assert!(!wm.is_managed(SendHWND(7)));
    assert!(wm.add_shown_window(SendHWND(7), "Editor".to_string(), "Edit".to_string()));
    assert!(wm.is_managed(SendHWND(7)));
    wm.toggle_tiling(SendHWND(7), Some(rect(0, 0, 1920, 1080)));
    // A second show event neither resets nor re-adds the window.
    assert!(!wm.add_shown_window(SendHWND(7), "Other".to_string(), "Other".to_string()));
    let s = &wm.active_windows[&7];
    assert_eq!(s.title, "Editor");
    assert!(!s.is_floating);
}

#[test]
fn work_areas_beyond_an_i32_area_are_tiled() {
    let big = rect(0, 0, 1 << 24, 1 << 24);
    let mut wm = WindowManager::new();
    wm.add_window(SendHWND(1), "a".to_string(), "A".to_string());
    wm.add_window(SendHWND(2), "b".to_string(), "B".to_string());
    assert!(wm.can_toggle_tiling(SendHWND(1), Some(big)));
    assert_eq!(wm.toggle_tiling(SendHWND(1), Some(big)), Some(false));
    // Splitting a leaf compares no areas, so the second window fits too,
    // and no work area is needed once the tree exists.
    assert!(wm.can_toggle_tiling(SendHWND(2), None));
    assert_eq!(wm.toggle_tiling(SendHWND(2), None), Some(false));
    let r = wm.recalculate_layout();
    assert_eq!(r.len(), 2);
    assert_eq!(r[0].1, rect(0, 0, 1 << 23, 1 << 24));
    // A third window would compare two areas of 2^47: refused.
    wm.add_window(SendHWND(3), "c".to_string(), "C".to_string());
    assert!(!wm.can_toggle_tiling(SendHWND(3), Some(big)));
}

#[test]
fn a_new_tree_needs_a_work_area() {
    let mut wm = WindowManager::new();
    wm.add_window(SendHWND(1), "a".to_string(), "A".to_string());
    assert!(!wm.can_toggle_tiling(SendHWND(1), None));
    // Unmanaged windows and untiling need nothing.
    assert!(wm.can_toggle_tiling(SendHWND(9), None));
    assert_eq!(wm.toggle_tiling(SendHWND(1), Some(SCREEN)), Some(false));
    assert!(wm.can_toggle_tiling(SendHWND(1), None));
    assert_eq!(wm.toggle_tiling(SendHWND(1), None), Some(true));
}
