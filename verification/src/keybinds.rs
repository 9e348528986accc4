use vstd::prelude::*;

use crate::config::{Config, Keybind};
use crate::text::chars_of;

verus! {

broadcast use vstd::string::group_string_axioms;

/// The text `str::to_uppercase` gives for `s`: each character mapped by
/// Unicode's uppercase mapping.
pub uninterp spec fn uppercase_of(s: Seq<char>) -> Seq<char>;

/// Calls `str::to_uppercase`; its result is named `uppercase_of`, a
/// function of the text alone. Nothing more is claimed of it.
#[verifier::external_body]
fn to_uppercase(s: &str) -> (r: String)
    ensures
        r@ == uppercase_of(s@),
{
    s.to_uppercase()
}

/// Virtual-key code of the Enter key.
pub const VK_RETURN: u32 = 0x0D;

/// Virtual-key code of the space bar.
pub const VK_SPACE: u32 = 0x20;

/// Hook code of a keyboard event that is to be processed.
pub const HC_ACTION: i32 = 0;

/// Message of a key press.
pub const WM_KEYDOWN: usize = 0x0100;

/// Message of a key press while Alt is held.
pub const WM_SYSKEYDOWN: usize = 0x0104;

/// Modifier bits of a binding.
pub const MOD_ALT: u32 = 0x0001;

pub const MOD_CONTROL: u32 = 0x0002;

pub const MOD_SHIFT: u32 = 0x0004;

pub const MOD_SUPER: u32 = 0x0008;

/// The code of `c`, with `a`-`z` mapped to `A`-`Z`.
pub open spec fn ascii_upper_code(c: char) -> u32 {
    if 'a' <= c <= 'z' {
        (c as u32 - 32) as u32
    } else {
        c as u32
    }
}

/// Whether the key named `key`, whose upper-case form is `upper`, is the
/// key with virtual-key code `vk`: `upper` is one of `RETURN`/`ENTER`, `Q`,
/// `SPACE`, `V`, `F`, or else the name is a single ASCII character whose
/// upper-case code is `vk`.
pub open spec fn key_name_matches(key: Seq<char>, upper: Seq<char>, vk: u32) -> bool {
    if upper == "RETURN"@ || upper == "ENTER"@ {
        vk == VK_RETURN
    } else if upper == "Q"@ {
        vk == 'Q' as u32
    } else if upper == "SPACE"@ {
        vk == VK_SPACE
    } else if upper == "V"@ {
        vk == 'V' as u32
    } else if upper == "F"@ {
        vk == 'F' as u32
    } else if key.len() == 1 && (key[0] as u32) < 128 {
        vk == ascii_upper_code(key[0])
    } else {
        false
    }
}

/// The key names and the virtual-key codes they denote: `RETURN` and
/// `ENTER` are 0x0D, `SPACE` is 0x20, `Q`, `V` and `F` are their letters'
/// codes, any other single ASCII character is its upper-case code, and
/// any other name matches no key.
pub proof fn lemma_key_name_codes(key: Seq<char>, upper: Seq<char>, vk: u32)
    ensures
        (upper == "RETURN"@ || upper == "ENTER"@) ==> (key_name_matches(key, upper, vk) <==> vk
            == 0x0D),
        upper == "SPACE"@ ==> (key_name_matches(key, upper, vk) <==> vk == 0x20),
        upper == "Q"@ ==> (key_name_matches(key, upper, vk) <==> vk == 0x51),
        upper == "V"@ ==> (key_name_matches(key, upper, vk) <==> vk == 0x56),
        upper == "F"@ ==> (key_name_matches(key, upper, vk) <==> vk == 0x46),
        ({
            let special = upper == "RETURN"@ || upper == "ENTER"@ || upper == "SPACE"@ || upper
                == "Q"@ || upper == "V"@ || upper == "F"@;
            &&& (!special && key.len() == 1 && (key[0] as u32) < 128) ==> (key_name_matches(
                key,
                upper,
                vk,
            ) <==> vk == (if 'a' <= key[0] <= 'z' {
                key[0] as u32 - 32
            } else {
                key[0] as u32 as int
            }))
            &&& (!special && (key.len() != 1 || (key[0] as u32) >= 128)) ==> !key_name_matches(
                key,
                upper,
                vk,
            )
        }),
{
    reveal_strlit("RETURN");
    reveal_strlit("ENTER");
    reveal_strlit("SPACE");
    reveal_strlit("Q");
    reveal_strlit("V");
    reveal_strlit("F");
    assert("RETURN"@.len() == 6 && "ENTER"@.len() == 5 && "SPACE"@.len() == 5);
    assert("Q"@.len() == 1 && "V"@.len() == 1 && "F"@.len() == 1);
    assert("SPACE"@[0] != "ENTER"@[0]);
    assert("Q"@[0] != "V"@[0] && "Q"@[0] != "F"@[0] && "V"@[0] != "F"@[0]);
}

/// Whether the key named `key` is the key with virtual-key code `vk`.
pub open spec fn key_matches(key: Seq<char>, vk: u32) -> bool {
    key_name_matches(key, uppercase_of(key), vk)
}

/// Whether the key named `key_str`, whose upper-case form is `upper`, is
/// the key `vk_code`.
pub fn match_key_name(key_str: &str, upper: &str, vk_code: u32) -> (r: bool)
    ensures
        r == key_name_matches(key_str@, upper@, vk_code),
{
    let upper = upper.to_owned();
    if upper == "RETURN".to_owned() || upper == "ENTER".to_owned() {
        vk_code == VK_RETURN
    } else if upper == "Q".to_owned() {
        vk_code == 'Q' as u32
    } else if upper == "SPACE".to_owned() {
        vk_code == VK_SPACE
    } else if upper == "V".to_owned() {
        vk_code == 'V' as u32
    } else if upper == "F".to_owned() {
        vk_code == 'F' as u32
    } else {
        let cs = chars_of(key_str);
        if cs.len() == 1 && (cs[0] as u32) < 128 {
            let c = cs[0];
            let code: u32 = if 'a' <= c && c <= 'z' {
                c as u32 - 32
            } else {
                c as u32
            };
            vk_code == code
        } else {
            false
        }
    }
}

/// What a key binding asks for.
#[derive(Debug)]
pub enum Dispatch {
    /// Run the command line.
    Exec(String),
    /// Toggle the foreground window between floating and tiled.
    ToggleFloating,
    /// Ask the foreground window to close.
    KillActive,
    /// A dispatcher this manager does not know, by name.
    Unknown(String),
}

/// `d` is what dispatcher `dispatcher` with argument `arg` asks for.
pub open spec fn dispatch_is(d: Dispatch, dispatcher: Seq<char>, arg: Seq<char>) -> bool {
    if dispatcher == "exec"@ {
        d matches Dispatch::Exec(s) && s@ == arg
    } else if dispatcher == "togglefloating"@ {
        d is ToggleFloating
    } else if dispatcher == "killactive"@ {
        d is KillActive
    } else {
        d matches Dispatch::Unknown(s) && s@ == dispatcher
    }
}

/// Binding `b` fires on key `vk` with modifiers `mods`.
pub open spec fn bind_fires(b: Keybind, vk: u32, mods: u32) -> bool {
    b.mods == mods && key_matches(b.key@, vk)
}

/// `r` is the action of the first of `binds` that fires on `vk` with
/// `mods`, or `None` when none fires.
pub open spec fn key_handled_as(binds: Seq<Keybind>, vk: u32, mods: u32, r: Option<Dispatch>) -> bool {
    match r {
        Some(d) => exists|i: int|
            0 <= i < binds.len() && bind_fires(#[trigger] binds[i], vk, mods) && (forall|j: int|
                0 <= j < i ==> !bind_fires(#[trigger] binds[j], vk, mods)) && dispatch_is(
                d,
                binds[i].dispatcher@,
                binds[i].arg@,
            ),
        None => forall|j: int| 0 <= j < binds.len() ==> !bind_fires(#[trigger] binds[j], vk, mods),
    }
}

/// A key is handled only by a binding with exactly the modifiers held:
/// when one is handled, some binding with those modifiers names the key;
/// when no binding has those modifiers, nothing is handled.
pub proof fn lemma_handled_needs_exact_modifiers(
    binds: Seq<Keybind>,
    vk: u32,
    mods: u32,
    r: Option<Dispatch>,
)
    requires
        key_handled_as(binds, vk, mods, r),
    ensures
        r is Some ==> exists|i: int|
            0 <= i < binds.len() && #[trigger] binds[i].mods == mods && key_matches(
                binds[i].key@,
                vk,
            ),
        (forall|i: int| 0 <= i < binds.len() ==> #[trigger] binds[i].mods != mods) ==> r is None,
{
    if r is Some {
        let i = choose|i: int|
            0 <= i < binds.len() && bind_fires(#[trigger] binds[i], vk, mods) && (forall|j: int|
                0 <= j < i ==> !bind_fires(#[trigger] binds[j], vk, mods)) && dispatch_is(
                r->0,
                binds[i].dispatcher@,
                binds[i].arg@,
            );
        assert(binds[i].mods == mods);
    }
}

/// The modifier mask of the key states the system reports: a state with
/// its high bit set is a pressed key.
pub open spec fn modifier_mask(lwin: i16, rwin: i16, shift: i16, control: i16, menu: i16) -> u32 {
    (if (lwin as u16) & 0x8000 != 0 || (rwin as u16) & 0x8000 != 0 {
        MOD_SUPER
    } else {
        0
    }) | (if (shift as u16) & 0x8000 != 0 {
        MOD_SHIFT
    } else {
        0
    }) | (if (control as u16) & 0x8000 != 0 {
        MOD_CONTROL
    } else {
        0
    }) | (if (menu as u16) & 0x8000 != 0 {
        MOD_ALT
    } else {
        0
    })
}

/// A key state reports a pressed key exactly when it is negative (its
/// high bit set). The mask has the Windows bit (8) exactly when either
/// Windows key is pressed, the Shift bit (4), Control bit (2) and Alt bit
/// (1) exactly when that key is pressed, and no other bit.
pub proof fn lemma_modifier_mask_bits(lwin: i16, rwin: i16, shift: i16, control: i16, menu: i16)
    ensures
        ({
            let m = modifier_mask(lwin, rwin, shift, control, menu);
            &&& (m & 8 != 0) <==> (lwin < 0 || rwin < 0)
            &&& (m & 4 != 0) <==> shift < 0
            &&& (m & 2 != 0) <==> control < 0
            &&& (m & 1 != 0) <==> menu < 0
            &&& m < 16
        }),
{
    let w: u32 = if (lwin as u16) & 0x8000 != 0 || (rwin as u16) & 0x8000 != 0 { 8 } else { 0 };
    let sh: u32 = if (shift as u16) & 0x8000 != 0 { 4 } else { 0 };
    let c: u32 = if (control as u16) & 0x8000 != 0 { 2 } else { 0 };
    let a: u32 = if (menu as u16) & 0x8000 != 0 { 1 } else { 0 };
    assert(((lwin as u16) & 0x8000 != 0) <==> lwin < 0) by (bit_vector);
    assert(((rwin as u16) & 0x8000 != 0) <==> rwin < 0) by (bit_vector);
    assert(((shift as u16) & 0x8000 != 0) <==> shift < 0) by (bit_vector);
    assert(((control as u16) & 0x8000 != 0) <==> control < 0) by (bit_vector);
    assert(((menu as u16) & 0x8000 != 0) <==> menu < 0) by (bit_vector);
    assert({
        let m = w | sh | c | a;
        &&& (m & 8 != 0) <==> w == 8
        &&& (m & 4 != 0) <==> sh == 4
        &&& (m & 2 != 0) <==> c == 2
        &&& (m & 1 != 0) <==> a == 1
        &&& m < 16
    }) by (bit_vector)
        requires
            w == 8 || w == 0,
            sh == 4 || sh == 0,
            c == 2 || c == 0,
            a == 1 || a == 0,
    ;
}

/// The modifier mask from the states of the Windows, Shift, Control and
/// Alt keys.
pub fn modifiers_from_key_states(lwin: i16, rwin: i16, shift: i16, control: i16, menu: i16) -> (r:
    u32)
    ensures
        r == modifier_mask(lwin, rwin, shift, control, menu),
        (r & 8 != 0) <==> (lwin < 0 || rwin < 0),
        (r & 4 != 0) <==> shift < 0,
        (r & 2 != 0) <==> control < 0,
        (r & 1 != 0) <==> menu < 0,
        r < 16,
{
    proof {
        lemma_modifier_mask_bits(lwin, rwin, shift, control, menu);
    }
    let w: u32 = if (lwin as u16) & 0x8000 != 0 || (rwin as u16) & 0x8000 != 0 {
        MOD_SUPER
    } else {
        0
    };
    let s: u32 = if (shift as u16) & 0x8000 != 0 {
        MOD_SHIFT
    } else {
        0
    };
    let c: u32 = if (control as u16) & 0x8000 != 0 {
        MOD_CONTROL
    } else {
        0
    };
    let a: u32 = if (menu as u16) & 0x8000 != 0 {
        MOD_ALT
    } else {
        0
    };
    w | s | c | a
}

/// A low-level keyboard hook call with `code` and message `w_param` reports
/// a key being pressed.
pub open spec fn is_key_press(code: i32, w_param: usize) -> bool {
    code == HC_ACTION && (w_param == WM_KEYDOWN || w_param == WM_SYSKEYDOWN)
}

/// A hook call reports a key press exactly when its code is `HC_ACTION`
/// (0) and its message is `WM_KEYDOWN` (0x0100) or `WM_SYSKEYDOWN`
/// (0x0104); in particular key releases, `WM_KEYUP` (0x0101) and
/// `WM_SYSKEYUP` (0x0105), are not key presses.
pub proof fn lemma_key_press_messages(code: i32, w_param: usize)
    ensures
        is_key_press(code, w_param) <==> (code == 0 && (w_param == 0x0100 || w_param == 0x0104)),
        !is_key_press(code, 0x0101),
        !is_key_press(code, 0x0105),
{
}

/// Whether a low-level keyboard hook call with `code` and message
/// `w_param` reports a key being pressed.
pub fn is_key_down(code: i32, w_param: usize) -> (r: bool)
    ensures
        r == is_key_press(code, w_param),
        r == (code == 0 && (w_param == 0x0100 || w_param == 0x0104)),
{
    proof {
        lemma_key_press_messages(code, w_param);
    }
    code == HC_ACTION && (w_param == WM_KEYDOWN || w_param == WM_SYSKEYDOWN)
}

/// Dispatches key presses to the configured bindings.
pub struct KeybindManager {
    pub config: Config,
}

impl KeybindManager {
    pub fn new(config: Config) -> (r: Self)
        ensures
            r.config == config,
    {
        KeybindManager { config }
    }

    /// Whether the key named `key_str` is the key `vk_code`.
    fn match_key(&self, key_str: &str, vk_code: u32) -> (r: bool)
        ensures
            r == key_matches(key_str@, vk_code),
    {
        let upper = to_uppercase(key_str);
        match_key_name(key_str, upper.as_str(), vk_code)
    }

    /// What the dispatcher named `dispatcher` with argument `arg` asks for.
    fn dispatch(&self, dispatcher: &str, arg: &str) -> (r: Dispatch)
        ensures
            dispatch_is(r, dispatcher@, arg@),
    {
        let d = dispatcher.to_owned();
        if d == "exec".to_owned() {
            Dispatch::Exec(arg.to_owned())
        } else if d == "togglefloating".to_owned() {
            Dispatch::ToggleFloating
        } else if d == "killactive".to_owned() {
            Dispatch::KillActive
        } else {
            Dispatch::Unknown(d)
        }
    }

    /// The action of the first binding that fires on key `vk_code` with
    /// `modifiers`, or `None` when none does (the key is not handled).
    pub fn handle_key(&self, vk_code: u32, modifiers: u32) -> (r: Option<Dispatch>)
        ensures
            key_handled_as(self.config.binds@, vk_code, modifiers, r),
    {
        let mut i: usize = 0;
        while i < self.config.binds.len()
            invariant
                0 <= i <= self.config.binds@.len(),
                forall|j: int|
                    0 <= j < i ==> !bind_fires(#[trigger] self.config.binds@[j], vk_code, modifiers),
            decreases self.config.binds@.len() - i,
        {
            let bind = &self.config.binds[i];
            if bind.mods == modifiers && self.match_key(bind.key.as_str(), vk_code) {
                let d = self.dispatch(bind.dispatcher.as_str(), bind.arg.as_str());
                assert(bind_fires(self.config.binds@[i as int], vk_code, modifiers));
                return Some(d);
            }
            i = i + 1;
        }
        None
    }

    /// The action for a low-level keyboard event: for a key press (`code`
    /// is `HC_ACTION` and `w_param` a key-down message) with some modifier
    /// held, what `handle_key` gives; otherwise `None`.
    pub fn handle_keyboard_event(&self, code: i32, w_param: usize, vk_code: u32, modifiers: u32) -> (r:
        Option<Dispatch>)
        ensures
            if is_key_press(code, w_param) && modifiers != 0 {
                key_handled_as(self.config.binds@, vk_code, modifiers, r)
            } else {
                r is None
            },
            (code != 0 || (w_param != 0x0100 && w_param != 0x0104) || modifiers == 0) ==> r is None,
    {
        proof {
            lemma_key_press_messages(code, w_param);
        }
        if is_key_down(code, w_param) {
            if modifiers != 0 {
                return self.handle_key(vk_code, modifiers);
            }
        }
        None
    }
}

} // verus!
