use vstd::prelude::*;

use crate::text::{chars_of, contains_seq, contains_str, range_is};

verus! {

broadcast use vstd::string::group_string_axioms;

/// A window was created.
pub const EVENT_OBJECT_CREATE: u32 = 0x8000;

/// A window was destroyed.
pub const EVENT_OBJECT_DESTROY: u32 = 0x8001;

/// A window was shown.
pub const EVENT_OBJECT_SHOW: u32 = 0x8002;

/// The foreground window changed.
pub const EVENT_SYSTEM_FOREGROUND: u32 = 0x0003;

/// Object id of a window itself.
pub const OBJID_WINDOW: i32 = 0;

/// Child id of the object itself.
pub const CHILDID_SELF: i32 = 0;

/// Style bit of a child window.
pub const WS_CHILD: u32 = 0x4000_0000;

/// Extended style bit of a tool window.
pub const WS_EX_TOOLWINDOW: u32 = 0x0000_0080;

/// What a window event asks of the window manager.
#[derive(Clone, Copy, Debug, PartialEq, Eq, Structural)]
pub enum WinEventAction {
    /// Not about a window itself, or not an event the manager follows.
    Ignore,
    /// A window was created or shown: manage it if it is a new top-level
    /// window.
    Shown,
    /// A window was destroyed: stop managing it.
    Destroyed,
    /// A window came to the foreground.
    Foreground,
}

/// The action for a window event on object `id_object`, child `id_child`
/// of window `hwnd` (0 for none).
pub open spec fn win_event_action(event: u32, id_object: i32, id_child: i32, hwnd: isize) -> WinEventAction {
    if id_object != OBJID_WINDOW || id_child != CHILDID_SELF || hwnd == 0 {
        WinEventAction::Ignore
    } else if event == EVENT_OBJECT_CREATE || event == EVENT_OBJECT_SHOW {
        WinEventAction::Shown
    } else if event == EVENT_OBJECT_DESTROY {
        WinEventAction::Destroyed
    } else if event == EVENT_SYSTEM_FOREGROUND {
        WinEventAction::Foreground
    } else {
        WinEventAction::Ignore
    }
}

/// Only window events about a window itself (object 0, child 0, non-null
/// handle) are acted on, and each action answers exactly its events:
/// `Shown` to creation (0x8000) and showing (0x8002), `Destroyed` to
/// destruction (0x8001), `Foreground` to a foreground change (0x0003);
/// every other event, hiding (0x8003) among them, is ignored.
pub proof fn lemma_win_event_actions(event: u32, id_object: i32, id_child: i32, hwnd: isize)
    ensures
        ({
            let a = win_event_action(event, id_object, id_child, hwnd);
            let own = id_object == 0 && id_child == 0 && hwnd != 0;
            &&& (a == WinEventAction::Shown) <==> (own && (event == 0x8000 || event == 0x8002))
            &&& (a == WinEventAction::Destroyed) <==> (own && event == 0x8001)
            &&& (a == WinEventAction::Foreground) <==> (own && event == 0x0003)
            &&& (a == WinEventAction::Ignore) <==> (!own || (event != 0x8000 && event != 0x8001
                && event != 0x8002 && event != 0x0003))
        }),
{
}

/// Classifies a window event.
pub fn classify_win_event(event: u32, id_object: i32, id_child: i32, hwnd: isize) -> (r:
    WinEventAction)
    ensures
        r == win_event_action(event, id_object, id_child, hwnd),
        (r == WinEventAction::Shown) <==> (id_object == 0 && id_child == 0 && hwnd != 0 && (event
            == 0x8000 || event == 0x8002)),
        (r == WinEventAction::Destroyed) <==> (id_object == 0 && id_child == 0 && hwnd != 0
            && event == 0x8001),
        (r == WinEventAction::Foreground) <==> (id_object == 0 && id_child == 0 && hwnd != 0
            && event == 0x0003),
{
    proof {
        lemma_win_event_actions(event, id_object, id_child, hwnd);
    }
    if id_object != OBJID_WINDOW || id_child != CHILDID_SELF || hwnd == 0 {
        return WinEventAction::Ignore;
    }
    if event == EVENT_OBJECT_CREATE || event == EVENT_OBJECT_SHOW {
        WinEventAction::Shown
    } else if event == EVENT_OBJECT_DESTROY {
        WinEventAction::Destroyed
    } else if event == EVENT_SYSTEM_FOREGROUND {
        WinEventAction::Foreground
    } else {
        WinEventAction::Ignore
    }
}

/// The class name contains the name of a class of shell, popup or helper
/// windows that are never managed.
pub open spec fn ignored_class(class: Seq<char>) -> bool {
    ||| contains_seq(class, "Xaml_WindowedPopupClass"@)
    ||| contains_seq(class, "tooltips_class32"@)
    ||| contains_seq(class, "DroppyClass"@)
    ||| contains_seq(class, "ApplicationFrameTitleBarWindow"@)
    ||| contains_seq(class, "GhostWindow"@)
    ||| contains_seq(class, "Windows.UI.Core.CoreWindow"@)
    ||| contains_seq(class, "Shell_TrayWnd"@)
    ||| contains_seq(class, "Progman"@)
}

/// A window with these properties is a top-level application window: it
/// is visible, neither a child nor a tool window, not cloaked, not of an
/// ignored class, and has a title that is not one of the system's helper
/// titles.
pub open spec fn top_level(
    style: u32,
    ex_style: u32,
    is_visible: bool,
    cloaked: i32,
    class: Seq<char>,
    title: Seq<char>,
) -> bool {
    &&& is_visible
    &&& style & WS_CHILD == 0
    &&& ex_style & WS_EX_TOOLWINDOW == 0
    &&& cloaked == 0
    &&& !ignored_class(class)
    &&& !(contains_seq(class, "ApplicationFrameWindow"@) && title.len() == 0)
    &&& title.len() != 0
    &&& title != "Windows Input Experience"@
    &&& title != "Realtek Audio Console"@
}

/// The names of the window classes that are never managed.
pub open spec fn ignored_class_names() -> Seq<Seq<char>> {
    seq![
        "Xaml_WindowedPopupClass"@,
        "tooltips_class32"@,
        "DroppyClass"@,
        "ApplicationFrameTitleBarWindow"@,
        "GhostWindow"@,
        "Windows.UI.Core.CoreWindow"@,
        "Shell_TrayWnd"@,
        "Progman"@,
    ]
}

/// A managed window is visible, has neither the child style bit
/// (0x4000_0000) nor the tool-window extended style bit (0x80), is not
/// cloaked in any way (a cloaking state of 0), has a non-empty title that
/// is not one of the two system helper titles, and its class name holds no
/// ignored class name at any position. Conversely every window with all
/// these properties is managed (its title being non-empty, the rule on
/// untitled `ApplicationFrameWindow` classes cannot refuse it).
pub proof fn lemma_top_level_conditions(
    style: u32,
    ex_style: u32,
    is_visible: bool,
    cloaked: i32,
    class: Seq<char>,
    title: Seq<char>,
)
    ensures
        top_level(style, ex_style, is_visible, cloaked, class, title) ==> {
            &&& is_visible
            &&& cloaked == 0
            &&& style & 0x4000_0000 == 0
            &&& ex_style & 0x80 == 0
            &&& title.len() > 0
            &&& title != "Windows Input Experience"@
            &&& title != "Realtek Audio Console"@
            &&& forall|j: int, k: int|
                0 <= j < 8 && 0 <= k && k + ignored_class_names()[j].len() <= class.len()
                    ==> #[trigger] class.subrange(k, k + ignored_class_names()[j].len())
                    != ignored_class_names()[j]
        },
        ({
            &&& is_visible
            &&& cloaked == 0
            &&& style & 0x4000_0000 == 0
            &&& ex_style & 0x80 == 0
            &&& title.len() > 0
            &&& title != "Windows Input Experience"@
            &&& title != "Realtek Audio Console"@
            &&& forall|j: int, k: int|
                0 <= j < 8 && 0 <= k && k + ignored_class_names()[j].len() <= class.len()
                    ==> #[trigger] class.subrange(k, k + ignored_class_names()[j].len())
                    != ignored_class_names()[j]
        }) ==> top_level(style, ex_style, is_visible, cloaked, class, title),
{
    let names = ignored_class_names();
    if top_level(style, ex_style, is_visible, cloaked, class, title) {
        assert forall|j: int, k: int|
            0 <= j < 8 && 0 <= k && k + names[j].len() <= class.len() implies #[trigger] class.subrange(
            k,
            k + names[j].len(),
        ) != names[j] by {
            if class.subrange(k, k + names[j].len()) == names[j] {
                assert(contains_seq(class, names[j]));
                assert(ignored_class(class));
            }
        }
    }
    let no_name = forall|j: int, k: int|
        0 <= j < 8 && 0 <= k && k + names[j].len() <= class.len() ==> #[trigger] class.subrange(
            k,
            k + names[j].len(),
        ) != names[j];
    if no_name {
        assert forall|j: int| 0 <= j < 8 implies !contains_seq(class, #[trigger] names[j]) by {
            if contains_seq(class, names[j]) {
                let k = choose|k: int|
                    0 <= k <= class.len() - names[j].len() && #[trigger] class.subrange(
                        k,
                        k + names[j].len(),
                    ) == names[j];
                assert(class.subrange(k, k + names[j].len()) != names[j]);
            }
        }
        assert(!contains_seq(class, names[0]));
        assert(!contains_seq(class, names[1]));
        assert(!contains_seq(class, names[2]));
        assert(!contains_seq(class, names[3]));
        assert(!contains_seq(class, names[4]));
        assert(!contains_seq(class, names[5]));
        assert(!contains_seq(class, names[6]));
        assert(!contains_seq(class, names[7]));
        assert(!ignored_class(class));
    }
}

fn class_contains(class: &Vec<char>, name: &str) -> (r: bool)
    ensures
        r == contains_seq(class@, name@),
{
    let n = chars_of(name);
    contains_str(class, &n)
}

/// Whether a window with style `style`, extended style `ex_style`,
/// visibility `is_visible`, cloaking state `cloaked`, class `class_name`
/// and title `title` is a top-level window to manage.
pub fn is_top_level_window(
    style: u32,
    ex_style: u32,
    is_visible: bool,
    cloaked: i32,
    class_name: &str,
    title: &str,
) -> (r: bool)
    ensures
        r == top_level(style, ex_style, is_visible, cloaked, class_name@, title@),
        r ==> is_visible && cloaked == 0 && style & 0x4000_0000 == 0 && ex_style & 0x80 == 0
            && title@.len() > 0,
{
    proof {
        lemma_top_level_conditions(style, ex_style, is_visible, cloaked, class_name@, title@);
    }
    if !is_visible || (style & WS_CHILD) != 0 {
        return false;
    }
    if (ex_style & WS_EX_TOOLWINDOW) != 0 {
        return false;
    }
    if cloaked != 0 {
        return false;
    }
    let class = chars_of(class_name);
    if class_contains(&class, "Xaml_WindowedPopupClass") || class_contains(
        &class,
        "tooltips_class32",
    ) || class_contains(&class, "DroppyClass") || class_contains(
        &class,
        "ApplicationFrameTitleBarWindow",
    ) || class_contains(&class, "GhostWindow") || class_contains(
        &class,
        "Windows.UI.Core.CoreWindow",
    ) || class_contains(&class, "Shell_TrayWnd") || class_contains(&class, "Progman") {
        return false;
    }
    let t = chars_of(title);
    if class_contains(&class, "ApplicationFrameWindow") && t.len() == 0 {
        return false;
    }
    if t.len() == 0 || range_is(&t, 0, t.len(), "Windows Input Experience") || range_is(
        &t,
        0,
        t.len(),
        "Realtek Audio Console",
    ) {
        assert(t@.subrange(0, t@.len() as int) =~= t@);
        return false;
    }
    assert(t@.subrange(0, t@.len() as int) =~= t@);
    true
}

} // verus!
