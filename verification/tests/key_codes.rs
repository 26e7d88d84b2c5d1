//! The key codes of the library against those of the Win32 bindings.

use simple_jingle::keys;
use simple_jingle::vk_names::{parse_vk_code, vk_code_from_name};
use windows_sys::Win32::UI::Input::KeyboardAndMouse as KM;

#[test]
fn key_constants_match_win32() {
    assert_eq!(keys::VK_BACK, KM::VK_BACK);
    assert_eq!(keys::VK_TAB, KM::VK_TAB);
    assert_eq!(keys::VK_RETURN, KM::VK_RETURN);
    assert_eq!(keys::VK_CONTROL, KM::VK_CONTROL);
    assert_eq!(keys::VK_MENU, KM::VK_MENU);
    assert_eq!(keys::VK_ESCAPE, KM::VK_ESCAPE);
    assert_eq!(keys::VK_SPACE, KM::VK_SPACE);
    assert_eq!(keys::VK_PRIOR, KM::VK_PRIOR);
    assert_eq!(keys::VK_NEXT, KM::VK_NEXT);
    assert_eq!(keys::VK_END, KM::VK_END);
    assert_eq!(keys::VK_HOME, KM::VK_HOME);
    assert_eq!(keys::VK_LEFT, KM::VK_LEFT);
    assert_eq!(keys::VK_UP, KM::VK_UP);
    assert_eq!(keys::VK_RIGHT, KM::VK_RIGHT);
    assert_eq!(keys::VK_DOWN, KM::VK_DOWN);
    assert_eq!(keys::VK_DELETE, KM::VK_DELETE);
    assert_eq!(keys::VK_0, KM::VK_0);
    assert_eq!(keys::VK_9, KM::VK_9);
    assert_eq!(keys::VK_A, KM::VK_A);
    assert_eq!(keys::VK_Z, KM::VK_Z);
    assert_eq!(keys::VK_LWIN, KM::VK_LWIN);
    assert_eq!(keys::VK_RWIN, KM::VK_RWIN);
    assert_eq!(keys::VK_MULTIPLY, KM::VK_MULTIPLY);
    assert_eq!(keys::VK_ADD, KM::VK_ADD);
    assert_eq!(keys::VK_SEPARATOR, KM::VK_SEPARATOR);
    assert_eq!(keys::VK_SUBTRACT, KM::VK_SUBTRACT);
    assert_eq!(keys::VK_DECIMAL, KM::VK_DECIMAL);
    assert_eq!(keys::VK_DIVIDE, KM::VK_DIVIDE);
    assert_eq!(keys::VK_OEM_1, KM::VK_OEM_1);
    assert_eq!(keys::VK_OEM_8, KM::VK_OEM_8);
    assert_eq!(keys::VK_OEM_102, KM::VK_OEM_102);
    assert_eq!(keys::VK_NUMPAD0, KM::VK_NUMPAD0);
    assert_eq!(keys::VK_NUMPAD9, KM::VK_NUMPAD9);
}

fn win32_names() -> Vec<(&'static str, u16)> {
    vec![
        ("VK_LBUTTON", KM::VK_LBUTTON),
        ("VK_RBUTTON", KM::VK_RBUTTON),
        ("VK_CANCEL", KM::VK_CANCEL),
        ("VK_MBUTTON", KM::VK_MBUTTON),
        ("VK_XBUTTON1", KM::VK_XBUTTON1),
        ("VK_XBUTTON2", KM::VK_XBUTTON2),
        ("VK_BACK", KM::VK_BACK),
        ("VK_TAB", KM::VK_TAB),
        ("VK_CLEAR", KM::VK_CLEAR),
        ("VK_RETURN", KM::VK_RETURN),
        ("VK_ENTER", KM::VK_RETURN),
        ("VK_SHIFT", KM::VK_SHIFT),
        ("VK_CONTROL", KM::VK_CONTROL),
        ("VK_MENU", KM::VK_MENU),
        ("VK_ALT", KM::VK_MENU),
        ("VK_PAUSE", KM::VK_PAUSE),
        ("VK_CAPITAL", KM::VK_CAPITAL),
        ("VK_CAPSLOCK", KM::VK_CAPITAL),
        ("VK_KANA", KM::VK_KANA),
        ("VK_HANGUEL", KM::VK_HANGEUL),
        ("VK_HANGEUL", KM::VK_HANGEUL),
        ("VK_HANGUL", KM::VK_HANGUL),
        ("VK_IME_ON", KM::VK_IME_ON),
        ("VK_JUNJA", KM::VK_JUNJA),
        ("VK_FINAL", KM::VK_FINAL),
        ("VK_HANJA", KM::VK_HANJA),
        ("VK_KANJI", KM::VK_KANJI),
        ("VK_IME_OFF", KM::VK_IME_OFF),
        ("VK_ESCAPE", KM::VK_ESCAPE),
        ("VK_CONVERT", KM::VK_CONVERT),
        ("VK_NONCONVERT", KM::VK_NONCONVERT),
        ("VK_ACCEPT", KM::VK_ACCEPT),
        ("VK_MODECHANGE", KM::VK_MODECHANGE),
        ("VK_SPACE", KM::VK_SPACE),
        ("VK_PRIOR", KM::VK_PRIOR),
        ("VK_PAGEUP", KM::VK_PRIOR),
        ("VK_NEXT", KM::VK_NEXT),
        ("VK_PAGEDOWN", KM::VK_NEXT),
        ("VK_END", KM::VK_END),
        ("VK_HOME", KM::VK_HOME),
        ("VK_LEFT", KM::VK_LEFT),
        ("VK_UP", KM::VK_UP),
        ("VK_RIGHT", KM::VK_RIGHT),
        ("VK_DOWN", KM::VK_DOWN),
        ("VK_SELECT", KM::VK_SELECT),
        ("VK_PRINT", KM::VK_PRINT),
        ("VK_EXECUTE", KM::VK_EXECUTE),
        ("VK_SNAPSHOT", KM::VK_SNAPSHOT),
        ("VK_PRINTSCREEN", KM::VK_SNAPSHOT),
        ("VK_INSERT", KM::VK_INSERT),
        ("VK_DELETE", KM::VK_DELETE),
        ("VK_HELP", KM::VK_HELP),
        ("VK_LWIN", KM::VK_LWIN),
        ("VK_RWIN", KM::VK_RWIN),
        ("VK_APPS", KM::VK_APPS),
        ("VK_SLEEP", KM::VK_SLEEP),
        ("VK_NUMPAD0", KM::VK_NUMPAD0),
        ("VK_NUMPAD1", KM::VK_NUMPAD1),
        ("VK_NUMPAD2", KM::VK_NUMPAD2),
        ("VK_NUMPAD3", KM::VK_NUMPAD3),
        ("VK_NUMPAD4", KM::VK_NUMPAD4),
        ("VK_NUMPAD5", KM::VK_NUMPAD5),
        ("VK_NUMPAD6", KM::VK_NUMPAD6),
        ("VK_NUMPAD7", KM::VK_NUMPAD7),
        ("VK_NUMPAD8", KM::VK_NUMPAD8),
        ("VK_NUMPAD9", KM::VK_NUMPAD9),
        ("VK_MULTIPLY", KM::VK_MULTIPLY),
        ("VK_ADD", KM::VK_ADD),
        ("VK_SEPARATOR", KM::VK_SEPARATOR),
        ("VK_SUBTRACT", KM::VK_SUBTRACT),
        ("VK_DECIMAL", KM::VK_DECIMAL),
        ("VK_DIVIDE", KM::VK_DIVIDE),
        ("VK_F1", KM::VK_F1),
        ("VK_F2", KM::VK_F2),
        ("VK_F3", KM::VK_F3),
        ("VK_F4", KM::VK_F4),
        ("VK_F5", KM::VK_F5),
        ("VK_F6", KM::VK_F6),
        ("VK_F7", KM::VK_F7),
        ("VK_F8", KM::VK_F8),
        ("VK_F9", KM::VK_F9),
        ("VK_F10", KM::VK_F10),
        ("VK_F11", KM::VK_F11),
        ("VK_F12", KM::VK_F12),
        ("VK_F13", KM::VK_F13),
        ("VK_F14", KM::VK_F14),
        ("VK_F15", KM::VK_F15),
        ("VK_F16", KM::VK_F16),
        ("VK_F17", KM::VK_F17),
        ("VK_F18", KM::VK_F18),
        ("VK_F19", KM::VK_F19),
        ("VK_F20", KM::VK_F20),
        ("VK_F21", KM::VK_F21),
        ("VK_F22", KM::VK_F22),
        ("VK_F23", KM::VK_F23),
        ("VK_F24", KM::VK_F24),
        ("VK_NUMLOCK", KM::VK_NUMLOCK),
        ("VK_SCROLL", KM::VK_SCROLL),
        ("VK_LSHIFT", KM::VK_LSHIFT),
        ("VK_RSHIFT", KM::VK_RSHIFT),
        ("VK_LCONTROL", KM::VK_LCONTROL),
        ("VK_RCONTROL", KM::VK_RCONTROL),
        ("VK_LMENU", KM::VK_LMENU),
        ("VK_RMENU", KM::VK_RMENU),
        ("VK_BROWSER_BACK", KM::VK_BROWSER_BACK),
        ("VK_BROWSER_FORWARD", KM::VK_BROWSER_FORWARD),
        ("VK_BROWSER_REFRESH", KM::VK_BROWSER_REFRESH),
        ("VK_BROWSER_STOP", KM::VK_BROWSER_STOP),
        ("VK_BROWSER_SEARCH", KM::VK_BROWSER_SEARCH),
        ("VK_BROWSER_FAVORITES", KM::VK_BROWSER_FAVORITES),
        ("VK_BROWSER_HOME", KM::VK_BROWSER_HOME),
        ("VK_VOLUME_MUTE", KM::VK_VOLUME_MUTE),
        ("VK_VOLUME_DOWN", KM::VK_VOLUME_DOWN),
        ("VK_VOLUME_UP", KM::VK_VOLUME_UP),
        ("VK_MEDIA_NEXT_TRACK", KM::VK_MEDIA_NEXT_TRACK),
        ("VK_MEDIA_PREV_TRACK", KM::VK_MEDIA_PREV_TRACK),
        ("VK_MEDIA_STOP", KM::VK_MEDIA_STOP),
        ("VK_MEDIA_PLAY_PAUSE", KM::VK_MEDIA_PLAY_PAUSE),
        ("VK_LAUNCH_MAIL", KM::VK_LAUNCH_MAIL),
        ("VK_LAUNCH_MEDIA_SELECT", KM::VK_LAUNCH_MEDIA_SELECT),
        ("VK_LAUNCH_APP1", KM::VK_LAUNCH_APP1),
        ("VK_LAUNCH_APP2", KM::VK_LAUNCH_APP2),
        ("VK_OEM_1", KM::VK_OEM_1),
        ("VK_OEM_PLUS", KM::VK_OEM_PLUS),
        ("VK_OEM_COMMA", KM::VK_OEM_COMMA),
        ("VK_OEM_MINUS", KM::VK_OEM_MINUS),
        ("VK_OEM_PERIOD", KM::VK_OEM_PERIOD),
        ("VK_OEM_2", KM::VK_OEM_2),
        ("VK_OEM_3", KM::VK_OEM_3),
        ("VK_OEM_4", KM::VK_OEM_4),
        ("VK_OEM_5", KM::VK_OEM_5),
        ("VK_OEM_6", KM::VK_OEM_6),
        ("VK_OEM_7", KM::VK_OEM_7),
        ("VK_OEM_8", KM::VK_OEM_8),
        ("VK_OEM_102", KM::VK_OEM_102),
        ("VK_PROCESSKEY", KM::VK_PROCESSKEY),
        ("VK_PACKET", KM::VK_PACKET),
        ("VK_ATTN", KM::VK_ATTN),
        ("VK_CRSEL", KM::VK_CRSEL),
        ("VK_EXSEL", KM::VK_EXSEL),
        ("VK_EREOF", KM::VK_EREOF),
        ("VK_PLAY", KM::VK_PLAY),
        ("VK_ZOOM", KM::VK_ZOOM),
        ("VK_NONAME", KM::VK_NONAME),
        ("VK_PA1", KM::VK_PA1),
        ("VK_OEM_CLEAR", KM::VK_OEM_CLEAR),
        ("VK_GAMEPAD_A", KM::VK_GAMEPAD_A),
        ("VK_GAMEPAD_B", KM::VK_GAMEPAD_B),
        ("VK_GAMEPAD_X", KM::VK_GAMEPAD_X),
        ("VK_GAMEPAD_Y", KM::VK_GAMEPAD_Y),
        ("VK_GAMEPAD_RIGHT_SHOULDER", KM::VK_GAMEPAD_RIGHT_SHOULDER),
        ("VK_GAMEPAD_LEFT_SHOULDER", KM::VK_GAMEPAD_LEFT_SHOULDER),
        ("VK_GAMEPAD_LEFT_TRIGGER", KM::VK_GAMEPAD_LEFT_TRIGGER),
        ("VK_GAMEPAD_RIGHT_TRIGGER", KM::VK_GAMEPAD_RIGHT_TRIGGER),
        ("VK_GAMEPAD_DPAD_UP", KM::VK_GAMEPAD_DPAD_UP),
        ("VK_GAMEPAD_DPAD_DOWN", KM::VK_GAMEPAD_DPAD_DOWN),
        ("VK_GAMEPAD_DPAD_LEFT", KM::VK_GAMEPAD_DPAD_LEFT),
        ("VK_GAMEPAD_DPAD_RIGHT", KM::VK_GAMEPAD_DPAD_RIGHT),
        ("VK_GAMEPAD_MENU", KM::VK_GAMEPAD_MENU),
        ("VK_GAMEPAD_VIEW", KM::VK_GAMEPAD_VIEW),
        ("VK_GAMEPAD_LEFT_THUMBSTICK_BUTTON", KM::VK_GAMEPAD_LEFT_THUMBSTICK_BUTTON),
        ("VK_GAMEPAD_RIGHT_THUMBSTICK_BUTTON", KM::VK_GAMEPAD_RIGHT_THUMBSTICK_BUTTON),
        ("VK_GAMEPAD_LEFT_THUMBSTICK_UP", KM::VK_GAMEPAD_LEFT_THUMBSTICK_UP),
        ("VK_GAMEPAD_LEFT_THUMBSTICK_DOWN", KM::VK_GAMEPAD_LEFT_THUMBSTICK_DOWN),
        ("VK_GAMEPAD_LEFT_THUMBSTICK_RIGHT", KM::VK_GAMEPAD_LEFT_THUMBSTICK_RIGHT),
        ("VK_GAMEPAD_LEFT_THUMBSTICK_LEFT", KM::VK_GAMEPAD_LEFT_THUMBSTICK_LEFT),
        ("VK_GAMEPAD_RIGHT_THUMBSTICK_UP", KM::VK_GAMEPAD_RIGHT_THUMBSTICK_UP),
        ("VK_GAMEPAD_RIGHT_THUMBSTICK_DOWN", KM::VK_GAMEPAD_RIGHT_THUMBSTICK_DOWN),
        ("VK_GAMEPAD_RIGHT_THUMBSTICK_RIGHT", KM::VK_GAMEPAD_RIGHT_THUMBSTICK_RIGHT),
        ("VK_GAMEPAD_RIGHT_THUMBSTICK_LEFT", KM::VK_GAMEPAD_RIGHT_THUMBSTICK_LEFT),
    ]
}

#[test]
fn every_key_name_has_its_win32_code() {
    for (name, code) in win32_names() {
        let chars: Vec<char> = name.chars().collect();
        assert_eq!(vk_code_from_name(&chars), Some(code), "{}", name);
        assert_eq!(parse_vk_code(name), Some(code), "{}", name);
        assert_eq!(parse_vk_code(&name.to_lowercase()), Some(code), "{}", name);
    }
}
