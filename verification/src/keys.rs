//! Virtual-key codes and the classification of key presses.

use vstd::prelude::*;

verus! {

/// Backspace.
pub const VK_BACK: u16 = 8;
/// Tab.
pub const VK_TAB: u16 = 9;
/// Enter.
pub const VK_RETURN: u16 = 13;
/// Ctrl.
pub const VK_CONTROL: u16 = 17;
/// Alt.
pub const VK_MENU: u16 = 18;
/// Escape.
pub const VK_ESCAPE: u16 = 27;
/// Space bar.
pub const VK_SPACE: u16 = 32;
/// Page up.
pub const VK_PRIOR: u16 = 33;
/// Page down.
pub const VK_NEXT: u16 = 34;
/// End.
pub const VK_END: u16 = 35;
/// Home.
pub const VK_HOME: u16 = 36;
/// Left arrow.
pub const VK_LEFT: u16 = 37;
/// Up arrow.
pub const VK_UP: u16 = 38;
/// Right arrow.
pub const VK_RIGHT: u16 = 39;
/// Down arrow.
pub const VK_DOWN: u16 = 40;
/// Delete.
pub const VK_DELETE: u16 = 46;
/// Digit 0 on the main keyboard.
pub const VK_0: u16 = 48;
/// Digit 9 on the main keyboard.
pub const VK_9: u16 = 57;
/// Letter A.
pub const VK_A: u16 = 65;
/// Letter Z.
pub const VK_Z: u16 = 90;
/// Left Windows key.
pub const VK_LWIN: u16 = 91;
/// Right Windows key.
pub const VK_RWIN: u16 = 92;
/// Numeric keypad digit 0.
pub const VK_NUMPAD0: u16 = 96;
/// Numeric keypad digit 9.
pub const VK_NUMPAD9: u16 = 105;
/// Numeric keypad multiply.
pub const VK_MULTIPLY: u16 = 106;
/// Numeric keypad add.
pub const VK_ADD: u16 = 107;
/// Numeric keypad separator.
pub const VK_SEPARATOR: u16 = 108;
/// Numeric keypad subtract.
pub const VK_SUBTRACT: u16 = 109;
/// Numeric keypad decimal point.
pub const VK_DECIMAL: u16 = 110;
/// Numeric keypad divide.
pub const VK_DIVIDE: u16 = 111;
/// First OEM punctuation key (";:" on US layouts).
pub const VK_OEM_1: u16 = 186;
/// Last OEM punctuation key of the range that wipes the buffer.
pub const VK_OEM_8: u16 = 223;
/// The extra "<>" key of 102-key keyboards.
pub const VK_OEM_102: u16 = 226;

/// The 16-bit key code that a 32-bit hook key code stands for.
pub open spec fn key_code(vk: u32) -> u16 {
    vk as u16
}

/// Letters A to Z.
pub open spec fn spec_is_letter(vk: u32) -> bool {
    VK_A <= key_code(vk) <= VK_Z
}

/// Digits of the main keyboard and of the keypad, OEM punctuation keys
/// (the extra 102-key key included) and the keypad operators: every key
/// that types a digit or a symbol.
pub open spec fn spec_is_digit_or_symbol(vk: u32) -> bool {
    let v: u16 = key_code(vk);
    ||| VK_0 <= v <= VK_9
    ||| VK_NUMPAD0 <= v <= VK_NUMPAD9
    ||| VK_OEM_1 <= v <= VK_OEM_8
    ||| v == VK_OEM_102
    ||| v == VK_MULTIPLY
    ||| v == VK_ADD
    ||| v == VK_SEPARATOR
    ||| v == VK_SUBTRACT
    ||| v == VK_DECIMAL
    ||| v == VK_DIVIDE
}

/// Arrows, cursor keys, Delete and Escape.
pub open spec fn spec_is_navigation_key(vk: u32) -> bool {
    let v: u16 = key_code(vk);
    ||| v == VK_LEFT
    ||| v == VK_RIGHT
    ||| v == VK_UP
    ||| v == VK_DOWN
    ||| v == VK_HOME
    ||| v == VK_END
    ||| v == VK_PRIOR
    ||| v == VK_NEXT
    ||| v == VK_DELETE
    ||| v == VK_ESCAPE
}

/// The keys that end a word when no settings are loaded.
pub open spec fn spec_is_default_boundary(v: u16) -> bool {
    v == VK_SPACE || v == VK_RETURN || v == VK_TAB
}

/// A key ends a word: one of the configured boundary keys, or of the
/// defaults when no settings are loaded.
pub open spec fn spec_is_word_boundary(vk: u32, boundary_keys: Option<Seq<u16>>) -> bool {
    match boundary_keys {
        Some(keys) => keys.contains(key_code(vk)),
        None => spec_is_default_boundary(key_code(vk)),
    }
}

/// The key codes held by an optional list of boundary keys.
pub open spec fn keys_view(keys: Option<&Vec<u16>>) -> Option<Seq<u16>> {
    match keys {
        Some(k) => Some(k@),
        None => None,
    }
}

/// The lower-case ASCII letter that a letter key types.
pub open spec fn spec_letter_byte(vk: u32) -> u8 {
    (key_code(vk) - VK_A + 97) as u8
}

/// A key state as `GetAsyncKeyState` reports it is "down" when its most
/// significant bit is set, that is, when it is negative.
pub open spec fn spec_modifier_held(ctrl: i16, alt: i16, lwin: i16, rwin: i16) -> bool {
    ctrl < 0 || alt < 0 || lwin < 0 || rwin < 0
}

/// A modifier is held exactly when Ctrl, Alt, the left or the right
/// Windows key is reported down: any one of them is enough, and with none
/// down no modifier is held.
pub proof fn law_modifier_keys(ctrl: i16, alt: i16, lwin: i16, rwin: i16)
    ensures
        spec_modifier_held(ctrl, alt, lwin, rwin) <==> (ctrl < 0 || alt < 0 || lwin < 0 || rwin < 0),
        spec_modifier_held(ctrl, 0, 0, 0) == (ctrl < 0),
        spec_modifier_held(0, alt, 0, 0) == (alt < 0),
        spec_modifier_held(0, 0, lwin, 0) == (lwin < 0),
        spec_modifier_held(0, 0, 0, rwin) == (rwin < 0),
{
}

/// Whether the key is a letter A to Z.
pub fn is_letter(vk: u32) -> (r: bool)
    ensures
        r == spec_is_letter(vk),
{
    let v: u16 = #[verifier::truncate] (vk as u16);
    VK_A <= v && v <= VK_Z
}

/// Whether the key types a digit or a symbol.
pub fn is_digit_or_symbol(vk: u32) -> (r: bool)
    ensures
        r == spec_is_digit_or_symbol(vk),
{
    let v: u16 = #[verifier::truncate] (vk as u16);
    (VK_0 <= v && v <= VK_9) || (VK_NUMPAD0 <= v && v <= VK_NUMPAD9) || (VK_OEM_1 <= v && v
        <= VK_OEM_8) || v == VK_OEM_102 || v == VK_MULTIPLY || v == VK_ADD || v == VK_SEPARATOR || v == VK_SUBTRACT || v == VK_DECIMAL || v == VK_DIVIDE
}

/// Whether the key moves the cursor or resets the input.
pub fn is_navigation_key(vk: u32) -> (r: bool)
    ensures
        r == spec_is_navigation_key(vk),
{
    let v: u16 = #[verifier::truncate] (vk as u16);
    v == VK_LEFT || v == VK_RIGHT || v == VK_UP || v == VK_DOWN || v == VK_HOME || v == VK_END
        || v == VK_PRIOR || v == VK_NEXT || v == VK_DELETE || v == VK_ESCAPE
}

/// Whether the key ends a word, given the configured boundary keys if any.
pub fn is_word_boundary(vk: u32, boundary_keys: Option<&Vec<u16>>) -> (r: bool)
    ensures
        r == spec_is_word_boundary(vk, keys_view(boundary_keys)),
{
    let v: u16 = #[verifier::truncate] (vk as u16);
    match boundary_keys {
        Some(keys) => {
            let mut i: usize = 0;
            while i < keys.len()
                invariant
                    i <= keys.len(),
                    v == key_code(vk),
                    boundary_keys == Some(keys),
                    forall|j: int| 0 <= j < i ==> keys@[j] != v,
                decreases keys.len() - i,
            {
                if keys[i] == v {
                    assert(keys@[i as int] == v);
                    return true;
                }
                i = i + 1;
            }
            false
        },
        None => v == VK_SPACE || v == VK_RETURN || v == VK_TAB,
    }
}

/// The lower-case ASCII letter typed by a letter key.
pub fn letter_byte(vk: u32) -> (r: u8)
    requires
        spec_is_letter(vk),
    ensures
        r == spec_letter_byte(vk),
        97 <= r <= 122,
{
    let v: u16 = #[verifier::truncate] (vk as u16);
    (v - VK_A + 97) as u8
}

/// Whether Ctrl, Alt or a Windows key is held, from the four key states.
pub fn modifier_held(ctrl: i16, alt: i16, lwin: i16, rwin: i16) -> (r: bool)
    ensures
        r == spec_modifier_held(ctrl, alt, lwin, rwin),
{
    let down: i16 = 0x8000u16 as i16;
    let any: i16 = ctrl | alt | lwin | rwin;
    let r: bool = any & down != 0;
    assert(r == (ctrl < 0 || alt < 0 || lwin < 0 || rwin < 0)) by (bit_vector)
        requires
            down == 0x8000u16 as i16,
            any == ctrl | alt | lwin | rwin,
            r == (any & down != 0),
    ;
    r
}

} // verus!
