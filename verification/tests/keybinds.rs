use velowin::config::{Config, Keybind};
use velowin::keybinds::{is_key_down, match_key_name, modifiers_from_key_states, Dispatch, KeybindManager};

fn bind(mods: u32, key: &str, dispatcher: &str, arg: &str) -> Keybind {
    Keybind {
        mods,
        key: key.to_string(),
        dispatcher: dispatcher.to_string(),
        arg: arg.to_string(),
    }
}

fn manager(binds: Vec<Keybind>) -> KeybindManager {
    let mut config = Config::default();
    config.binds = binds;
    KeybindManager::new(config)
}

#[test]
fn exec_binding_on_return() {
    let kb = manager(vec![bind(8, "Return", "exec", "powershell")]);
    match kb.handle_key(0x0D, 8) {
        Some(Dispatch::Exec(cmd)) => assert_eq!(cmd, "powershell"),
        other => panic!("unexpected {:?}", other),
    }
    // Other modifiers, or another key: not handled.
    assert!(kb.handle_key(0x0D, 9).is_none());
    assert!(kb.handle_key(0x20, 8).is_none());
}

#[test]
fn key_names_match_case_insensitively() {
    let kb = manager(vec![
        bind(8, "enter", "killactive", ""),
        bind(8, "space", "togglefloating", ""),
        bind(4, "q", "killactive", ""),
        bind(4, "v", "togglefloating", ""),
        bind(4, "f", "fullscreen", ""),
        bind(2, "x", "exec", "notepad"),
        bind(2, "7", "exec", "calc"),
    ]);
    assert!(matches!(kb.handle_key(0x0D, 8), Some(Dispatch::KillActive)));
    assert!(matches!(kb.handle_key(0x20, 8), Some(Dispatch::ToggleFloating)));
    assert!(matches!(kb.handle_key('Q' as u32, 4), Some(Dispatch::KillActive)));
    assert!(matches!(kb.handle_key('V' as u32, 4), Some(Dispatch::ToggleFloating)));
    match kb.handle_key('F' as u32, 4) {
        Some(Dispatch::Unknown(name)) => assert_eq!(name, "fullscreen"),
        other => panic!("unexpected {:?}", other),
    }
    match kb.handle_key('X' as u32, 2) {
        Some(Dispatch::Exec(cmd)) => assert_eq!(cmd, "notepad"),
        other => panic!("unexpected {:?}", other),
    }
    assert!(kb.handle_key('x' as u32, 2).is_none());
    assert!(matches!(kb.handle_key('7' as u32, 2), Some(Dispatch::Exec(_))));
}

#[test]
fn unknown_multi_letter_names_never_match() {
    let kb = manager(vec![bind(8, "Tab", "exec", "a"), bind(8, "é", "exec", "b")]);
    for vk in 0..512u32 {
        assert!(kb.handle_key(vk, 8).is_none());
    }
}

#[test]
fn first_matching_binding_wins() {
    let kb = manager(vec![
        bind(8, "Q", "exec", "first"),
        bind(8, "q", "exec", "second"),
    ]);
    match kb.handle_key('Q' as u32, 8) {
        Some(Dispatch::Exec(cmd)) => assert_eq!(cmd, "first"),
        other => panic!("unexpected {:?}", other),
    }
}

#[test]
fn no_bindings_handle_nothing() {
    let kb = manager(vec![]);
    assert!(kb.handle_key(0x0D, 8).is_none());
}

#[test]
fn keyboard_events_need_a_key_press_and_a_modifier() {
    let kb = manager(vec![bind(8, "Return", "exec", "powershell")]);
    assert!(kb.handle_keyboard_event(0, 0x0100, 0x0D, 8).is_some());
    assert!(kb.handle_keyboard_event(0, 0x0104, 0x0D, 8).is_some());
    // Key release, another hook code, no modifier.
    assert!(kb.handle_keyboard_event(0, 0x0101, 0x0D, 8).is_none());
    assert!(kb.handle_keyboard_event(3, 0x0100, 0x0D, 8).is_none());
    assert!(kb.handle_keyboard_event(0, 0x0100, 0x0D, 0).is_none());
}

#[test]
fn modifier_mask_from_key_states() {
    let down: i16 = -32768;
    let toggled: i16 = 1;
    assert_eq!(modifiers_from_key_states(0, 0, 0, 0, 0), 0);
    assert_eq!(modifiers_from_key_states(down, 0, 0, 0, 0), 8);
    assert_eq!(modifiers_from_key_states(0, down, 0, 0, 0), 8);
    assert_eq!(modifiers_from_key_states(0, 0, down, 0, 0), 4);
    assert_eq!(modifiers_from_key_states(0, 0, 0, down, 0), 2);
    assert_eq!(modifiers_from_key_states(0, 0, 0, 0, -1), 1);
    assert_eq!(modifiers_from_key_states(down, down, down, down, down), 15);
    assert_eq!(modifiers_from_key_states(toggled, toggled, toggled, toggled, toggled), 0);
}

#[test]
fn key_presses_are_key_down_actions() {
    assert!(is_key_down(0, 0x0100));
    assert!(is_key_down(0, 0x0104));
    assert!(!is_key_down(0, 0x0101));
    assert!(!is_key_down(3, 0x0100));
}

#[test]
fn key_names_by_their_upper_case_form() {
    assert!(match_key_name("Return", "RETURN", 0x0D));
    assert!(match_key_name("enter", "ENTER", 0x0D));
    assert!(match_key_name("space", "SPACE", 0x20));
    assert!(match_key_name("q", "Q", 'Q' as u32));
    assert!(match_key_name("k", "K", 'K' as u32));
    assert!(match_key_name("7", "7", '7' as u32));
    assert!(!match_key_name("k", "K", 'k' as u32));
    assert!(!match_key_name("Tab", "TAB", 0x09));
    assert!(!match_key_name("é", "É", 0xC9));
}
