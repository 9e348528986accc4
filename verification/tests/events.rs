use velowin::animation::AnimationManager;
use velowin::events::{classify_win_event, is_top_level_window, WinEventAction};

#[test]
fn window_events_are_classified() {
    assert_eq!(classify_win_event(0x8000, 0, 0, 42), WinEventAction::Shown);
    assert_eq!(classify_win_event(0x8002, 0, 0, 42), WinEventAction::Shown);
    assert_eq!(classify_win_event(0x8001, 0, 0, 42), WinEventAction::Destroyed);
    assert_eq!(classify_win_event(0x0003, 0, 0, 42), WinEventAction::Foreground);
    assert_eq!(classify_win_event(0x800B, 0, 0, 42), WinEventAction::Ignore);
    // Not the window object itself, a child, or no window.
    assert_eq!(classify_win_event(0x8000, -4, 0, 42), WinEventAction::Ignore);
    assert_eq!(classify_win_event(0x8000, 0, 3, 42), WinEventAction::Ignore);
    assert_eq!(classify_win_event(0x8000, 0, 0, 0), WinEventAction::Ignore);
}

#[test]
fn ordinary_application_windows_are_top_level() {
    assert!(is_top_level_window(0x14CF_0000, 0x100, true, 0, "Notepad", "Untitled - Notepad"));
}

#[test]
fn hidden_child_tool_and_cloaked_windows_are_not() {
    assert!(!is_top_level_window(0, 0, false, 0, "Notepad", "x"));
    assert!(!is_top_level_window(0x4000_0000, 0, true, 0, "Notepad", "x"));
    assert!(!is_top_level_window(0, 0x80, true, 0, "Notepad", "x"));
    assert!(!is_top_level_window(0, 0, true, 2, "Notepad", "x"));
}

#[test]
fn shell_classes_and_helper_titles_are_not() {
    for class in [
        "Xaml_WindowedPopupClass",
        "tooltips_class32",
        "DroppyClass",
        "ApplicationFrameTitleBarWindow",
        "GhostWindow",
        "Windows.UI.Core.CoreWindow",
        "Shell_TrayWnd",
        "Progman",
        "MyShell_TrayWndHost",
    ] {
        assert!(!is_top_level_window(0, 0, true, 0, class, "title"), "{}", class);
    }
    assert!(is_top_level_window(0, 0, true, 0, "ApplicationFrameWindow", "Settings"));
    assert!(!is_top_level_window(0, 0, true, 0, "ApplicationFrameWindow", ""));
    assert!(!is_top_level_window(0, 0, true, 0, "X", ""));
    assert!(!is_top_level_window(0, 0, true, 0, "X", "Windows Input Experience"));
    assert!(!is_top_level_window(0, 0, true, 0, "X", "Realtek Audio Console"));
    assert!(is_top_level_window(0, 0, true, 0, "X", "Realtek Audio Console 2"));
    assert!(is_top_level_window(0, 0, true, 0, "progman", "t"));
}

#[test]
fn animation_manager_starts_enabled() {
    assert!(AnimationManager::new().enabled);
}
