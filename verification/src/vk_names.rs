//! Virtual-key codes written in the settings file: in hexadecimal, in
//! decimal, or by their Win32 names.

use vstd::prelude::*;
use crate::text::{
    all_white_space, ascii_case, ascii_cased, chars_are, lemma_trim_cased,
    lemma_trim_idempotent, lemma_trim_surrounded, text_chars, to_uppercase, trim, trim_chars,
    upper_char, upper_text,
};

verus! {

broadcast use vstd::seq::group_seq_axioms;

/// The code of a Win32 virtual-key name, spelled in upper case; a few keys
/// have a second name.
pub open spec fn vk_named_code(name: Seq<char>) -> Option<u16> {
    if name == "VK_LBUTTON"@ {
        Some(1u16)
    } else if name == "VK_RBUTTON"@ {
        Some(2u16)
    } else if name == "VK_CANCEL"@ {
        Some(3u16)
    } else if name == "VK_MBUTTON"@ {
        Some(4u16)
    } else if name == "VK_XBUTTON1"@ {
        Some(5u16)
    } else if name == "VK_XBUTTON2"@ {
        Some(6u16)
    } else if name == "VK_BACK"@ {
        Some(8u16)
    } else if name == "VK_TAB"@ {
        Some(9u16)
    } else if name == "VK_CLEAR"@ {
        Some(12u16)
    } else if name == "VK_RETURN"@ {
        Some(13u16)
    } else if name == "VK_ENTER"@ {
        Some(13u16)
    } else if name == "VK_SHIFT"@ {
        Some(16u16)
    } else if name == "VK_CONTROL"@ {
        Some(17u16)
    } else if name == "VK_MENU"@ {
        Some(18u16)
    } else if name == "VK_ALT"@ {
        Some(18u16)
    } else if name == "VK_PAUSE"@ {
        Some(19u16)
    } else if name == "VK_CAPITAL"@ {
        Some(20u16)
    } else if name == "VK_CAPSLOCK"@ {
        Some(20u16)
    } else if name == "VK_KANA"@ {
        Some(21u16)
    } else if name == "VK_HANGUEL"@ {
        Some(21u16)
    } else if name == "VK_HANGEUL"@ {
        Some(21u16)
    } else if name == "VK_HANGUL"@ {
        Some(21u16)
    } else if name == "VK_IME_ON"@ {
        Some(22u16)
    } else if name == "VK_JUNJA"@ {
        Some(23u16)
    } else if name == "VK_FINAL"@ {
        Some(24u16)
    } else if name == "VK_HANJA"@ {
        Some(25u16)
    } else if name == "VK_KANJI"@ {
        Some(25u16)
    } else if name == "VK_IME_OFF"@ {
        Some(26u16)
    } else if name == "VK_ESCAPE"@ {
        Some(27u16)
    } else if name == "VK_CONVERT"@ {
        Some(28u16)
    } else if name == "VK_NONCONVERT"@ {
        Some(29u16)
    } else if name == "VK_ACCEPT"@ {
        Some(30u16)
    } else if name == "VK_MODECHANGE"@ {
        Some(31u16)
    } else if name == "VK_SPACE"@ {
        Some(32u16)
    } else if name == "VK_PRIOR"@ {
        Some(33u16)
    } else if name == "VK_PAGEUP"@ {
        Some(33u16)
    } else if name == "VK_NEXT"@ {
        Some(34u16)
    } else if name == "VK_PAGEDOWN"@ {
        Some(34u16)
    } else if name == "VK_END"@ {
        Some(35u16)
    } else if name == "VK_HOME"@ {
        Some(36u16)
    } else if name == "VK_LEFT"@ {
        Some(37u16)
    } else if name == "VK_UP"@ {
        Some(38u16)
    } else if name == "VK_RIGHT"@ {
        Some(39u16)
    } else if name == "VK_DOWN"@ {
        Some(40u16)
    } else if name == "VK_SELECT"@ {
        Some(41u16)
    } else if name == "VK_PRINT"@ {
        Some(42u16)
    } else if name == "VK_EXECUTE"@ {
        Some(43u16)
    } else if name == "VK_SNAPSHOT"@ {
        Some(44u16)
    } else if name == "VK_PRINTSCREEN"@ {
        Some(44u16)
    } else if name == "VK_INSERT"@ {
        Some(45u16)
    } else if name == "VK_DELETE"@ {
        Some(46u16)
    } else if name == "VK_HELP"@ {
        Some(47u16)
    } else if name == "VK_LWIN"@ {
        Some(91u16)
    } else if name == "VK_RWIN"@ {
        Some(92u16)
    } else if name == "VK_APPS"@ {
        Some(93u16)
    } else if name == "VK_SLEEP"@ {
        Some(95u16)
    } else if name == "VK_NUMPAD0"@ {
        Some(96u16)
    } else if name == "VK_NUMPAD1"@ {
        Some(97u16)
    } else if name == "VK_NUMPAD2"@ {
        Some(98u16)
    } else if name == "VK_NUMPAD3"@ {
        Some(99u16)
    } else if name == "VK_NUMPAD4"@ {
        Some(100u16)
    } else if name == "VK_NUMPAD5"@ {
        Some(101u16)
    } else if name == "VK_NUMPAD6"@ {
        Some(102u16)
    } else if name == "VK_NUMPAD7"@ {
        Some(103u16)
    } else if name == "VK_NUMPAD8"@ {
        Some(104u16)
    } else if name == "VK_NUMPAD9"@ {
        Some(105u16)
    } else if name == "VK_MULTIPLY"@ {
        Some(106u16)
    } else if name == "VK_ADD"@ {
        Some(107u16)
    } else if name == "VK_SEPARATOR"@ {
        Some(108u16)
    } else if name == "VK_SUBTRACT"@ {
        Some(109u16)
    } else if name == "VK_DECIMAL"@ {
        Some(110u16)
    } else if name == "VK_DIVIDE"@ {
        Some(111u16)
    } else if name == "VK_F1"@ {
        Some(112u16)
    } else if name == "VK_F2"@ {
        Some(113u16)
    } else if name == "VK_F3"@ {
        Some(114u16)
    } else if name == "VK_F4"@ {
        Some(115u16)
    } else if name == "VK_F5"@ {
        Some(116u16)
    } else if name == "VK_F6"@ {
        Some(117u16)
    } else if name == "VK_F7"@ {
        Some(118u16)
    } else if name == "VK_F8"@ {
        Some(119u16)
    } else if name == "VK_F9"@ {
        Some(120u16)
    } else if name == "VK_F10"@ {
        Some(121u16)
    } else if name == "VK_F11"@ {
        Some(122u16)
    } else if name == "VK_F12"@ {
        Some(123u16)
    } else if name == "VK_F13"@ {
        Some(124u16)
    } else if name == "VK_F14"@ {
        Some(125u16)
    } else if name == "VK_F15"@ {
        Some(126u16)
    } else if name == "VK_F16"@ {
        Some(127u16)
    } else if name == "VK_F17"@ {
        Some(128u16)
    } else if name == "VK_F18"@ {
        Some(129u16)
    } else if name == "VK_F19"@ {
        Some(130u16)
    } else if name == "VK_F20"@ {
        Some(131u16)
    } else if name == "VK_F21"@ {
        Some(132u16)
    } else if name == "VK_F22"@ {
        Some(133u16)
    } else if name == "VK_F23"@ {
        Some(134u16)
    } else if name == "VK_F24"@ {
        Some(135u16)
    } else if name == "VK_NUMLOCK"@ {
        Some(144u16)
    } else if name == "VK_SCROLL"@ {
        Some(145u16)
    } else if name == "VK_LSHIFT"@ {
        Some(160u16)
    } else if name == "VK_RSHIFT"@ {
        Some(161u16)
    } else if name == "VK_LCONTROL"@ {
        Some(162u16)
    } else if name == "VK_RCONTROL"@ {
        Some(163u16)
    } else if name == "VK_LMENU"@ {
        Some(164u16)
    } else if name == "VK_RMENU"@ {
        Some(165u16)
    } else if name == "VK_BROWSER_BACK"@ {
        Some(166u16)
    } else if name == "VK_BROWSER_FORWARD"@ {
        Some(167u16)
    } else if name == "VK_BROWSER_REFRESH"@ {
        Some(168u16)
    } else if name == "VK_BROWSER_STOP"@ {
        Some(169u16)
    } else if name == "VK_BROWSER_SEARCH"@ {
        Some(170u16)
    } else if name == "VK_BROWSER_FAVORITES"@ {
        Some(171u16)
    } else if name == "VK_BROWSER_HOME"@ {
        Some(172u16)
    } else if name == "VK_VOLUME_MUTE"@ {
        Some(173u16)
    } else if name == "VK_VOLUME_DOWN"@ {
        Some(174u16)
    } else if name == "VK_VOLUME_UP"@ {
        Some(175u16)
    } else if name == "VK_MEDIA_NEXT_TRACK"@ {
        Some(176u16)
    } else if name == "VK_MEDIA_PREV_TRACK"@ {
        Some(177u16)
    } else if name == "VK_MEDIA_STOP"@ {
        Some(178u16)
    } else if name == "VK_MEDIA_PLAY_PAUSE"@ {
        Some(179u16)
    } else if name == "VK_LAUNCH_MAIL"@ {
        Some(180u16)
    } else if name == "VK_LAUNCH_MEDIA_SELECT"@ {
        Some(181u16)
    } else if name == "VK_LAUNCH_APP1"@ {
        Some(182u16)
    } else if name == "VK_LAUNCH_APP2"@ {
        Some(183u16)
    } else if name == "VK_OEM_1"@ {
        Some(186u16)
    } else if name == "VK_OEM_PLUS"@ {
        Some(187u16)
    } else if name == "VK_OEM_COMMA"@ {
        Some(188u16)
    } else if name == "VK_OEM_MINUS"@ {
        Some(189u16)
    } else if name == "VK_OEM_PERIOD"@ {
        Some(190u16)
    } else if name == "VK_OEM_2"@ {
        Some(191u16)
    } else if name == "VK_OEM_3"@ {
        Some(192u16)
    } else if name == "VK_OEM_4"@ {
        Some(219u16)
    } else if name == "VK_OEM_5"@ {
        Some(220u16)
    } else if name == "VK_OEM_6"@ {
        Some(221u16)
    } else if name == "VK_OEM_7"@ {
        Some(222u16)
    } else if name == "VK_OEM_8"@ {
        Some(223u16)
    } else if name == "VK_OEM_102"@ {
        Some(226u16)
    } else if name == "VK_PROCESSKEY"@ {
        Some(229u16)
    } else if name == "VK_PACKET"@ {
        Some(231u16)
    } else if name == "VK_ATTN"@ {
        Some(246u16)
    } else if name == "VK_CRSEL"@ {
        Some(247u16)
    } else if name == "VK_EXSEL"@ {
        Some(248u16)
    } else if name == "VK_EREOF"@ {
        Some(249u16)
    } else if name == "VK_PLAY"@ {
        Some(250u16)
    } else if name == "VK_ZOOM"@ {
        Some(251u16)
    } else if name == "VK_NONAME"@ {
        Some(252u16)
    } else if name == "VK_PA1"@ {
        Some(253u16)
    } else if name == "VK_OEM_CLEAR"@ {
        Some(254u16)
    } else if name == "VK_GAMEPAD_A"@ {
        Some(195u16)
    } else if name == "VK_GAMEPAD_B"@ {
        Some(196u16)
    } else if name == "VK_GAMEPAD_X"@ {
        Some(197u16)
    } else if name == "VK_GAMEPAD_Y"@ {
        Some(198u16)
    } else if name == "VK_GAMEPAD_RIGHT_SHOULDER"@ {
        Some(199u16)
    } else if name == "VK_GAMEPAD_LEFT_SHOULDER"@ {
        Some(200u16)
    } else if name == "VK_GAMEPAD_LEFT_TRIGGER"@ {
        Some(201u16)
    } else if name == "VK_GAMEPAD_RIGHT_TRIGGER"@ {
        Some(202u16)
    } else if name == "VK_GAMEPAD_DPAD_UP"@ {
        Some(203u16)
    } else if name == "VK_GAMEPAD_DPAD_DOWN"@ {
        Some(204u16)
    } else if name == "VK_GAMEPAD_DPAD_LEFT"@ {
        Some(205u16)
    } else if name == "VK_GAMEPAD_DPAD_RIGHT"@ {
        Some(206u16)
    } else if name == "VK_GAMEPAD_MENU"@ {
        Some(207u16)
    } else if name == "VK_GAMEPAD_VIEW"@ {
        Some(208u16)
    } else if name == "VK_GAMEPAD_LEFT_THUMBSTICK_BUTTON"@ {
        Some(209u16)
    } else if name == "VK_GAMEPAD_RIGHT_THUMBSTICK_BUTTON"@ {
        Some(210u16)
    } else if name == "VK_GAMEPAD_LEFT_THUMBSTICK_UP"@ {
        Some(211u16)
    } else if name == "VK_GAMEPAD_LEFT_THUMBSTICK_DOWN"@ {
        Some(212u16)
    } else if name == "VK_GAMEPAD_LEFT_THUMBSTICK_RIGHT"@ {
        Some(213u16)
    } else if name == "VK_GAMEPAD_LEFT_THUMBSTICK_LEFT"@ {
        Some(214u16)
    } else if name == "VK_GAMEPAD_RIGHT_THUMBSTICK_UP"@ {
        Some(215u16)
    } else if name == "VK_GAMEPAD_RIGHT_THUMBSTICK_DOWN"@ {
        Some(216u16)
    } else if name == "VK_GAMEPAD_RIGHT_THUMBSTICK_RIGHT"@ {
        Some(217u16)
    } else if name == "VK_GAMEPAD_RIGHT_THUMBSTICK_LEFT"@ {
        Some(218u16)
    } else {
        None
    }
}

/// The code of a Win32 virtual-key name given in upper case, or none for an
/// unknown name.
#[verifier::rlimit(60)]
pub fn vk_code_from_name(name: &[char]) -> (r: Option<u16>)
    ensures
        r == vk_named_code(name@),
{
    if chars_are(name, "VK_LBUTTON") {
        return Some(1);
    }
    if chars_are(name, "VK_RBUTTON") {
        return Some(2);
    }
    if chars_are(name, "VK_CANCEL") {
        return Some(3);
    }
    if chars_are(name, "VK_MBUTTON") {
        return Some(4);
    }
    if chars_are(name, "VK_XBUTTON1") {
        return Some(5);
    }
    if chars_are(name, "VK_XBUTTON2") {
        return Some(6);
    }
    if chars_are(name, "VK_BACK") {
        return Some(8);
    }
    if chars_are(name, "VK_TAB") {
        return Some(9);
    }
    if chars_are(name, "VK_CLEAR") {
        return Some(12);
    }
    if chars_are(name, "VK_RETURN") {
        return Some(13);
    }
    if chars_are(name, "VK_ENTER") {
        return Some(13);
    }
    if chars_are(name, "VK_SHIFT") {
        return Some(16);
    }
    if chars_are(name, "VK_CONTROL") {
        return Some(17);
    }
    if chars_are(name, "VK_MENU") {
        return Some(18);
    }
    if chars_are(name, "VK_ALT") {
        return Some(18);
    }
    if chars_are(name, "VK_PAUSE") {
        return Some(19);
    }
    if chars_are(name, "VK_CAPITAL") {
        return Some(20);
    }
    if chars_are(name, "VK_CAPSLOCK") {
        return Some(20);
    }
    if chars_are(name, "VK_KANA") {
        return Some(21);
    }
    if chars_are(name, "VK_HANGUEL") {
        return Some(21);
    }
    if chars_are(name, "VK_HANGEUL") {
        return Some(21);
    }
    if chars_are(name, "VK_HANGUL") {
        return Some(21);
    }
    if chars_are(name, "VK_IME_ON") {
        return Some(22);
    }
    if chars_are(name, "VK_JUNJA") {
        return Some(23);
    }
    if chars_are(name, "VK_FINAL") {
        return Some(24);
    }
    if chars_are(name, "VK_HANJA") {
        return Some(25);
    }
    if chars_are(name, "VK_KANJI") {
        return Some(25);
    }
    if chars_are(name, "VK_IME_OFF") {
        return Some(26);
    }
    if chars_are(name, "VK_ESCAPE") {
        return Some(27);
    }
    if chars_are(name, "VK_CONVERT") {
        return Some(28);
    }
    if chars_are(name, "VK_NONCONVERT") {
        return Some(29);
    }
    if chars_are(name, "VK_ACCEPT") {
        return Some(30);
    }
    if chars_are(name, "VK_MODECHANGE") {
        return Some(31);
    }
    if chars_are(name, "VK_SPACE") {
        return Some(32);
    }
    if chars_are(name, "VK_PRIOR") {
        return Some(33);
    }
    if chars_are(name, "VK_PAGEUP") {
        return Some(33);
    }
    if chars_are(name, "VK_NEXT") {
        return Some(34);
    }
    if chars_are(name, "VK_PAGEDOWN") {
        return Some(34);
    }
    if chars_are(name, "VK_END") {
        return Some(35);
    }
    if chars_are(name, "VK_HOME") {
        return Some(36);
    }
    if chars_are(name, "VK_LEFT") {
        return Some(37);
    }
    if chars_are(name, "VK_UP") {
        return Some(38);
    }
    if chars_are(name, "VK_RIGHT") {
        return Some(39);
    }
    if chars_are(name, "VK_DOWN") {
        return Some(40);
    }
    if chars_are(name, "VK_SELECT") {
        return Some(41);
    }
    if chars_are(name, "VK_PRINT") {
        return Some(42);
    }
    if chars_are(name, "VK_EXECUTE") {
        return Some(43);
    }
    if chars_are(name, "VK_SNAPSHOT") {
        return Some(44);
    }
    if chars_are(name, "VK_PRINTSCREEN") {
        return Some(44);
    }
    if chars_are(name, "VK_INSERT") {
        return Some(45);
    }
    if chars_are(name, "VK_DELETE") {
        return Some(46);
    }
    if chars_are(name, "VK_HELP") {
        return Some(47);
    }
    if chars_are(name, "VK_LWIN") {
        return Some(91);
    }
    if chars_are(name, "VK_RWIN") {
        return Some(92);
    }
    if chars_are(name, "VK_APPS") {
        return Some(93);
    }
    if chars_are(name, "VK_SLEEP") {
        return Some(95);
    }
    if chars_are(name, "VK_NUMPAD0") {
        return Some(96);
    }
    if chars_are(name, "VK_NUMPAD1") {
        return Some(97);
    }
    if chars_are(name, "VK_NUMPAD2") {
        return Some(98);
    }
    if chars_are(name, "VK_NUMPAD3") {
        return Some(99);
    }
    if chars_are(name, "VK_NUMPAD4") {
        return Some(100);
    }
    if chars_are(name, "VK_NUMPAD5") {
        return Some(101);
    }
    if chars_are(name, "VK_NUMPAD6") {
        return Some(102);
    }
    if chars_are(name, "VK_NUMPAD7") {
        return Some(103);
    }
    if chars_are(name, "VK_NUMPAD8") {
        return Some(104);
    }
    if chars_are(name, "VK_NUMPAD9") {
        return Some(105);
    }
    if chars_are(name, "VK_MULTIPLY") {
        return Some(106);
    }
    if chars_are(name, "VK_ADD") {
        return Some(107);
    }
    if chars_are(name, "VK_SEPARATOR") {
        return Some(108);
    }
    if chars_are(name, "VK_SUBTRACT") {
        return Some(109);
    }
    if chars_are(name, "VK_DECIMAL") {
        return Some(110);
    }
    if chars_are(name, "VK_DIVIDE") {
        return Some(111);
    }
    if chars_are(name, "VK_F1") {
        return Some(112);
    }
    if chars_are(name, "VK_F2") {
        return Some(113);
    }
    if chars_are(name, "VK_F3") {
        return Some(114);
    }
    if chars_are(name, "VK_F4") {
        return Some(115);
    }
    if chars_are(name, "VK_F5") {
        return Some(116);
    }
    if chars_are(name, "VK_F6") {
        return Some(117);
    }
    if chars_are(name, "VK_F7") {
        return Some(118);
    }
    if chars_are(name, "VK_F8") {
        return Some(119);
    }
    if chars_are(name, "VK_F9") {
        return Some(120);
    }
    if chars_are(name, "VK_F10") {
        return Some(121);
    }
    if chars_are(name, "VK_F11") {
        return Some(122);
    }
    if chars_are(name, "VK_F12") {
        return Some(123);
    }
    if chars_are(name, "VK_F13") {
        return Some(124);
    }
    if chars_are(name, "VK_F14") {
        return Some(125);
    }
    if chars_are(name, "VK_F15") {
        return Some(126);
    }
    if chars_are(name, "VK_F16") {
        return Some(127);
    }
    if chars_are(name, "VK_F17") {
        return Some(128);
    }
    if chars_are(name, "VK_F18") {
        return Some(129);
    }
    if chars_are(name, "VK_F19") {
        return Some(130);
    }
    if chars_are(name, "VK_F20") {
        return Some(131);
    }
    if chars_are(name, "VK_F21") {
        return Some(132);
    }
    if chars_are(name, "VK_F22") {
        return Some(133);
    }
    if chars_are(name, "VK_F23") {
        return Some(134);
    }
    if chars_are(name, "VK_F24") {
        return Some(135);
    }
    if chars_are(name, "VK_NUMLOCK") {
        return Some(144);
    }
    if chars_are(name, "VK_SCROLL") {
        return Some(145);
    }
    if chars_are(name, "VK_LSHIFT") {
        return Some(160);
    }
    if chars_are(name, "VK_RSHIFT") {
        return Some(161);
    }
    if chars_are(name, "VK_LCONTROL") {
        return Some(162);
    }
    if chars_are(name, "VK_RCONTROL") {
        return Some(163);
    }
    if chars_are(name, "VK_LMENU") {
        return Some(164);
    }
    if chars_are(name, "VK_RMENU") {
        return Some(165);
    }
    if chars_are(name, "VK_BROWSER_BACK") {
        return Some(166);
    }
    if chars_are(name, "VK_BROWSER_FORWARD") {
        return Some(167);
    }
    if chars_are(name, "VK_BROWSER_REFRESH") {
        return Some(168);
    }
    if chars_are(name, "VK_BROWSER_STOP") {
        return Some(169);
    }
    if chars_are(name, "VK_BROWSER_SEARCH") {
        return Some(170);
    }
    if chars_are(name, "VK_BROWSER_FAVORITES") {
        return Some(171);
    }
    if chars_are(name, "VK_BROWSER_HOME") {
        return Some(172);
    }
    if chars_are(name, "VK_VOLUME_MUTE") {
        return Some(173);
    }
    if chars_are(name, "VK_VOLUME_DOWN") {
        return Some(174);
    }
    if chars_are(name, "VK_VOLUME_UP") {
        return Some(175);
    }
    if chars_are(name, "VK_MEDIA_NEXT_TRACK") {
        return Some(176);
    }
    if chars_are(name, "VK_MEDIA_PREV_TRACK") {
        return Some(177);
    }
    if chars_are(name, "VK_MEDIA_STOP") {
        return Some(178);
    }
    if chars_are(name, "VK_MEDIA_PLAY_PAUSE") {
        return Some(179);
    }
    if chars_are(name, "VK_LAUNCH_MAIL") {
        return Some(180);
    }
    if chars_are(name, "VK_LAUNCH_MEDIA_SELECT") {
        return Some(181);
    }
    if chars_are(name, "VK_LAUNCH_APP1") {
        return Some(182);
    }
    if chars_are(name, "VK_LAUNCH_APP2") {
        return Some(183);
    }
    if chars_are(name, "VK_OEM_1") {
        return Some(186);
    }
    if chars_are(name, "VK_OEM_PLUS") {
        return Some(187);
    }
    if chars_are(name, "VK_OEM_COMMA") {
        return Some(188);
    }
    if chars_are(name, "VK_OEM_MINUS") {
        return Some(189);
    }
    if chars_are(name, "VK_OEM_PERIOD") {
        return Some(190);
    }
    if chars_are(name, "VK_OEM_2") {
        return Some(191);
    }
    if chars_are(name, "VK_OEM_3") {
        return Some(192);
    }
    if chars_are(name, "VK_OEM_4") {
        return Some(219);
    }
    if chars_are(name, "VK_OEM_5") {
        return Some(220);
    }
    if chars_are(name, "VK_OEM_6") {
        return Some(221);
    }
    if chars_are(name, "VK_OEM_7") {
        return Some(222);
    }
    if chars_are(name, "VK_OEM_8") {
        return Some(223);
    }
    if chars_are(name, "VK_OEM_102") {
        return Some(226);
    }
    if chars_are(name, "VK_PROCESSKEY") {
        return Some(229);
    }
    if chars_are(name, "VK_PACKET") {
        return Some(231);
    }
    if chars_are(name, "VK_ATTN") {
        return Some(246);
    }
    if chars_are(name, "VK_CRSEL") {
        return Some(247);
    }
    if chars_are(name, "VK_EXSEL") {
        return Some(248);
    }
    if chars_are(name, "VK_EREOF") {
        return Some(249);
    }
    if chars_are(name, "VK_PLAY") {
        return Some(250);
    }
    if chars_are(name, "VK_ZOOM") {
        return Some(251);
    }
    if chars_are(name, "VK_NONAME") {
        return Some(252);
    }
    if chars_are(name, "VK_PA1") {
        return Some(253);
    }
    if chars_are(name, "VK_OEM_CLEAR") {
        return Some(254);
    }
    if chars_are(name, "VK_GAMEPAD_A") {
        return Some(195);
    }
    if chars_are(name, "VK_GAMEPAD_B") {
        return Some(196);
    }
    if chars_are(name, "VK_GAMEPAD_X") {
        return Some(197);
    }
    if chars_are(name, "VK_GAMEPAD_Y") {
        return Some(198);
    }
    if chars_are(name, "VK_GAMEPAD_RIGHT_SHOULDER") {
        return Some(199);
    }
    if chars_are(name, "VK_GAMEPAD_LEFT_SHOULDER") {
        return Some(200);
    }
    if chars_are(name, "VK_GAMEPAD_LEFT_TRIGGER") {
        return Some(201);
    }
    if chars_are(name, "VK_GAMEPAD_RIGHT_TRIGGER") {
        return Some(202);
    }
    if chars_are(name, "VK_GAMEPAD_DPAD_UP") {
        return Some(203);
    }
    if chars_are(name, "VK_GAMEPAD_DPAD_DOWN") {
        return Some(204);
    }
    if chars_are(name, "VK_GAMEPAD_DPAD_LEFT") {
        return Some(205);
    }
    if chars_are(name, "VK_GAMEPAD_DPAD_RIGHT") {
        return Some(206);
    }
    if chars_are(name, "VK_GAMEPAD_MENU") {
        return Some(207);
    }
    if chars_are(name, "VK_GAMEPAD_VIEW") {
        return Some(208);
    }
    if chars_are(name, "VK_GAMEPAD_LEFT_THUMBSTICK_BUTTON") {
        return Some(209);
    }
    if chars_are(name, "VK_GAMEPAD_RIGHT_THUMBSTICK_BUTTON") {
        return Some(210);
    }
    if chars_are(name, "VK_GAMEPAD_LEFT_THUMBSTICK_UP") {
        return Some(211);
    }
    if chars_are(name, "VK_GAMEPAD_LEFT_THUMBSTICK_DOWN") {
        return Some(212);
    }
    if chars_are(name, "VK_GAMEPAD_LEFT_THUMBSTICK_RIGHT") {
        return Some(213);
    }
    if chars_are(name, "VK_GAMEPAD_LEFT_THUMBSTICK_LEFT") {
        return Some(214);
    }
    if chars_are(name, "VK_GAMEPAD_RIGHT_THUMBSTICK_UP") {
        return Some(215);
    }
    if chars_are(name, "VK_GAMEPAD_RIGHT_THUMBSTICK_DOWN") {
        return Some(216);
    }
    if chars_are(name, "VK_GAMEPAD_RIGHT_THUMBSTICK_RIGHT") {
        return Some(217);
    }
    if chars_are(name, "VK_GAMEPAD_RIGHT_THUMBSTICK_LEFT") {
        return Some(218);
    }
    None
}


/// The value of a digit character in base 10 or 16, as `char::to_digit`
/// gives it.
pub open spec fn digit_value(c: char, radix: nat) -> Option<nat> {
    if '0' <= c <= '9' {
        Some((c as nat - '0' as nat) as nat)
    } else if radix == 16 && 'a' <= c <= 'f' {
        Some((c as nat - 'a' as nat + 10) as nat)
    } else if radix == 16 && 'A' <= c <= 'F' {
        Some((c as nat - 'A' as nat + 10) as nat)
    } else {
        None
    }
}

/// Every character is a digit in the radix.
pub open spec fn all_digits(ds: Seq<char>, radix: nat) -> bool {
    forall|i: int| 0 <= i < ds.len() ==> (#[trigger] digit_value(ds[i], radix)) is Some
}

/// The number that a sequence of digits writes, most significant first.
pub open spec fn digits_value(ds: Seq<char>, radix: nat) -> nat
    decreases ds.len(),
{
    if ds.len() == 0 {
        0
    } else {
        digits_value(ds.drop_last(), radix) * radix + match digit_value(ds.last(), radix) {
            Some(d) => d,
            None => 0,
        }
    }
}

/// The digits of an unsigned number without its optional leading `+`.
pub open spec fn unsigned_digits(s: Seq<char>) -> Seq<char> {
    if s.len() > 0 && s[0] == '+' {
        s.drop_first()
    } else {
        s
    }
}

/// `u16::from_str_radix` in base 10 or 16: an optional `+` and at least one
/// digit, of a value that fits in 16 bits.
pub open spec fn parse_u16_spec(s: Seq<char>, radix: nat) -> Option<u16> {
    let ds = unsigned_digits(s);
    if ds.len() > 0 && all_digits(ds, radix) && digits_value(ds, radix) <= u16::MAX {
        Some(digits_value(ds, radix) as u16)
    } else {
        None
    }
}

/// A value written with more digits is at least the value of its leading digits.
proof fn lemma_digits_value_prefix(ds: Seq<char>, k: int, radix: nat)
    requires
        0 <= k <= ds.len(),
        radix >= 1,
    ensures
        digits_value(ds.take(k), radix) <= digits_value(ds, radix),
    decreases ds.len(),
{
    if k < ds.len() {
        lemma_digits_value_prefix(ds.drop_last(), k, radix);
        assert(ds.drop_last().take(k) =~= ds.take(k));
        let v: nat = digits_value(ds.drop_last(), radix);
        assert(v * radix >= v) by (nonlinear_arith)
            requires
                radix >= 1,
        ;
    } else {
        assert(ds.take(k) =~= ds);
    }
}

/// The value of a digit character in base 10 or 16.
pub fn digit_of(c: char, radix: u32) -> (r: Option<u32>)
    requires
        radix == 10 || radix == 16,
    ensures
        r matches Some(d) ==> digit_value(c, radix as nat) == Some(d as nat) && d < radix,
        r is None ==> digit_value(c, radix as nat) is None,
{
    if '0' <= c && c <= '9' {
        Some((c as u32) - ('0' as u32))
    } else if radix == 16 && 'a' <= c && c <= 'f' {
        Some((c as u32) - ('a' as u32) + 10)
    } else if radix == 16 && 'A' <= c && c <= 'F' {
        Some((c as u32) - ('A' as u32) + 10)
    } else {
        None
    }
}

/// Parses an unsigned 16-bit number in base 10 or 16 as
/// `u16::from_str_radix` does.
pub fn parse_u16_radix(s: &[char], radix: u32) -> (r: Option<u16>)
    requires
        radix == 10 || radix == 16,
    ensures
        r == parse_u16_spec(s@, radix as nat),
{
    let ghost rdx: nat = radix as nat;
    let start: usize = if s.len() > 0 && s[0] == '+' { 1 } else { 0 };
    let ghost ds = unsigned_digits(s@);
    assert(ds =~= s@.subrange(start as int, s@.len() as int));
    let n: usize = s.len();
    if start == n {
        return None;
    }
    let mut acc: u32 = 0;
    let mut i: usize = start;
    while i < n
        invariant
            rdx == radix as nat,
            radix == 10 || radix == 16,
            n == s@.len(),
            start <= i <= n,
            ds == s@.subrange(start as int, n as int),
            ds == unsigned_digits(s@),
            all_digits(ds.take(i - start), rdx),
            acc as nat == digits_value(ds.take(i - start), rdx),
            acc <= u16::MAX,
        decreases n - i,
    {
        let ghost k: int = i - start;
        assert(ds.take(k + 1).drop_last() =~= ds.take(k));
        assert(ds.take(k + 1).last() == s@[i as int]);
        match digit_of(s[i], radix) {
            None => {
                assert(digit_value(ds[k], rdx) is None);
                return None;
            },
            Some(d) => {
                let next: u32 = if radix == 16 { acc * 16 + d } else { acc * 10 + d };
                assert(next as nat == digits_value(ds.take(k + 1), rdx));
                if next > 65535 {
                    proof {
                        lemma_digits_value_prefix(ds, k + 1, rdx);
                    }
                    return None;
                }
                acc = next;
                assert forall|j: int| 0 <= j < k + 1 implies (#[trigger] digit_value(
                    ds.take(k + 1)[j],
                    rdx,
                )) is Some by {
                    if j < k {
                        assert(ds.take(k + 1)[j] == ds.take(k)[j]);
                    }
                }
            },
        }
        i = i + 1;
    }
    assert(ds.take(n - start) =~= ds);
    Some(acc as u16)
}

/// The settings-file spelling of a hexadecimal key code: `0x` in any case
/// before the digits. A text's lower-case form starts with "0x" exactly when
/// the text starts with `0` and then `x` or `X`, so the prefix is tested on
/// the text itself.
pub open spec fn has_hex_prefix(t: Seq<char>) -> bool {
    t.len() >= 2 && t[0] == '0' && (t[1] == 'x' || t[1] == 'X')
}

/// The key code that a settings-file entry names, after trimming: a
/// hexadecimal number after `0x`, else a decimal number, else a Win32 name in
/// any case.
pub open spec fn vk_code_of(s: Seq<char>) -> Option<u16> {
    let t = trim(s);
    if t.len() == 0 {
        None
    } else if has_hex_prefix(t) && parse_u16_spec(t.skip(2), 16) is Some {
        parse_u16_spec(t.skip(2), 16)
    } else if parse_u16_spec(t, 10) is Some {
        parse_u16_spec(t, 10)
    } else {
        vk_named_code(upper_text(t))
    }
}


/// A settings-file key entry means the same with whitespace around it:
/// leading and trailing whitespace are ignored, and trimming an entry first
/// changes nothing.
pub proof fn law_vk_code_ignores_surrounding_white_space(
    pre: Seq<char>,
    s: Seq<char>,
    post: Seq<char>,
)
    requires
        all_white_space(pre),
        all_white_space(post),
    ensures
        vk_code_of(pre + s + post) == vk_code_of(s),
        vk_code_of(trim(s)) == vk_code_of(s),
{
    lemma_trim_surrounded(pre, s, post);
    lemma_trim_idempotent(s);
}

/// A digit keeps its value when its ASCII case changes.
proof fn lemma_digit_value_cased(c: char, radix: nat, upper: bool)
    requires
        radix == 10 || radix == 16,
    ensures
        digit_value(ascii_case(c, upper), radix) == digit_value(c, radix),
{
}

/// Digits keep their number when their ASCII case changes.
proof fn lemma_digits_cased(ds: Seq<char>, radix: nat, upper: bool)
    requires
        radix == 10 || radix == 16,
    ensures
        all_digits(ascii_cased(ds, upper), radix) == all_digits(ds, radix),
        digits_value(ascii_cased(ds, upper), radix) == digits_value(ds, radix),
    decreases ds.len(),
{
    let cs = ascii_cased(ds, upper);
    assert forall|i: int| 0 <= i < ds.len() implies (#[trigger] digit_value(cs[i], radix)) == digit_value(
        ds[i],
        radix,
    ) by {
        lemma_digit_value_cased(ds[i], radix, upper);
    }
    if !all_digits(ds, radix) {
        let i = choose|i: int| 0 <= i < ds.len() && !((#[trigger] digit_value(ds[i], radix)) is Some);
        assert(!(digit_value(cs[i], radix) is Some));
    }
    if ds.len() > 0 {
        assert(cs.drop_last() =~= ascii_cased(ds.drop_last(), upper));
        lemma_digits_cased(ds.drop_last(), radix, upper);
        assert(digit_value(cs.last(), radix) == digit_value(ds.last(), radix));
    }
}

/// A number reads the same when the ASCII case of its text changes.
proof fn lemma_parse_cased(s: Seq<char>, radix: nat, upper: bool)
    requires
        radix == 10 || radix == 16,
    ensures
        parse_u16_spec(ascii_cased(s, upper), radix) == parse_u16_spec(s, radix),
{
    let cs = ascii_cased(s, upper);
    if s.len() > 0 {
        assert(cs[0] == ascii_case(s[0], upper));
        assert(cs.drop_first() =~= ascii_cased(s.drop_first(), upper));
    }
    assert(unsigned_digits(cs) =~= ascii_cased(unsigned_digits(s), upper));
    lemma_digits_cased(unsigned_digits(s), radix, upper);
}

/// A text keeps its upper-case form when its ASCII case changes.
proof fn lemma_upper_cased(t: Seq<char>, upper: bool)
    ensures
        upper_text(ascii_cased(t, upper)) == upper_text(t),
    decreases t.len(),
{
    let ct = ascii_cased(t, upper);
    if t.len() > 0 {
        assert(ct.drop_last() =~= ascii_cased(t.drop_last(), upper));
        assert(ct.last() == ascii_case(t.last(), upper));
        lemma_upper_cased(t.drop_last(), upper);
        assert(upper_char(ct.last()) =~= upper_char(t.last()));
    } else {
        assert(ct =~= t);
    }
}

/// A settings-file key entry means the same whatever the ASCII case of its
/// letters: `vk_space`, `VK_SPACE`, `0X20` and `0x20` name the same key.
pub proof fn law_vk_code_ignores_ascii_case(s: Seq<char>, upper: bool)
    ensures
        vk_code_of(ascii_cased(s, upper)) == vk_code_of(s),
{
    let t = trim(s);
    lemma_trim_cased(s, upper);
    let ct = ascii_cased(t, upper);
    assert(trim(ascii_cased(s, upper)) == ct);
    if t.len() >= 2 {
        assert(ct[0] == ascii_case(t[0], upper));
        assert(ct[1] == ascii_case(t[1], upper));
        assert(has_hex_prefix(ct) == has_hex_prefix(t));
        assert(ct.skip(2) =~= ascii_cased(t.skip(2), upper));
        lemma_parse_cased(t.skip(2), 16, upper);
    }
    lemma_parse_cased(t, 10, upper);
    lemma_upper_cased(t, upper);
}


/// The character that writes a digit of base 10 or 16, in upper or lower
/// case.
pub open spec fn digit_char(d: nat, upper: bool) -> char {
    if d < 10 {
        ('0' as nat + d) as char
    } else if upper {
        ('A' as nat + d - 10) as char
    } else {
        ('a' as nat + d - 10) as char
    }
}

/// The base: 16 for hexadecimal, 10 otherwise.
pub open spec fn base_of(hex: bool) -> nat {
    if hex {
        16
    } else {
        10
    }
}

/// A number written in base 10 or 16 with no leading zeros (zero is "0"),
/// as `format!("{}")`, `format!("{:x}")` and `format!("{:X}")` write it.
pub open spec fn spelled(n: nat, hex: bool, upper: bool) -> Seq<char>
    decreases n,
{
    if n < base_of(hex) {
        seq![digit_char(n, upper)]
    } else {
        spelled(n / base_of(hex), hex, upper).push(digit_char(n % base_of(hex), upper))
    }
}

/// `count` zeros.
pub open spec fn zeros(count: nat) -> Seq<char> {
    Seq::new(count, |i: int| '0')
}

/// The digit character of a value below the base reads back as that value.
proof fn lemma_digit_char(d: nat, upper: bool, b: nat)
    requires
        b == 10 || b == 16,
        d < b,
    ensures
        digit_value(digit_char(d, upper), b) == Some(d),
        ('0' <= digit_char(d, upper) <= '9') || ('a' <= digit_char(d, upper) <= 'f') || ('A'
            <= digit_char(d, upper) <= 'F'),
{
}

/// A spelled number is a non-empty run of digits of its base, of its value.
proof fn lemma_spelled(n: nat, hex: bool, upper: bool)
    ensures
        spelled(n, hex, upper).len() > 0,
        all_digits(spelled(n, hex, upper), base_of(hex)),
        digits_value(spelled(n, hex, upper), base_of(hex)) == n,
        forall|i: int|
            0 <= i < spelled(n, hex, upper).len() ==> {
                let c = #[trigger] spelled(n, hex, upper)[i];
                ('0' <= c <= '9') || ('a' <= c <= 'f') || ('A' <= c <= 'F')
            },
    decreases n,
{
    let b = base_of(hex);
    let sp = spelled(n, hex, upper);
    if n < b {
        lemma_digit_char(n, upper, b);
        assert(sp.drop_last() =~= Seq::<char>::empty());
        assert(digits_value(sp, b) == digits_value(sp.drop_last(), b) * b + n);
    } else {
        let q: nat = n / b;
        let r: nat = n % b;
        let prev = spelled(q, hex, upper);
        lemma_spelled(q, hex, upper);
        lemma_digit_char(r, upper, b);
        assert(sp == prev.push(digit_char(r, upper)));
        assert(sp.drop_last() =~= prev);
        assert(n == q * b + r) by (nonlinear_arith)
            requires
                b == 10 || b == 16,
                q == n / b,
                r == n % b,
        ;
        assert(digits_value(sp, b) == digits_value(prev, b) * b + r);
        assert forall|i: int| 0 <= i < sp.len() implies (#[trigger] digit_value(sp[i], b)) is Some by {
            if i < sp.len() - 1 {
                assert(sp[i] == prev[i]);
            }
        }
        assert forall|i: int| 0 <= i < sp.len() implies {
            let c = #[trigger] sp[i];
            ('0' <= c <= '9') || ('a' <= c <= 'f') || ('A' <= c <= 'F')
        } by {
            if i < sp.len() - 1 {
                assert(sp[i] == prev[i]);
            }
        }
    }
}

/// Leading zeros do not change a number.
proof fn lemma_leading_zeros(k: nat, ds: Seq<char>, radix: nat)
    requires
        radix == 10 || radix == 16,
        all_digits(ds, radix),
    ensures
        all_digits(zeros(k) + ds, radix),
        digits_value(zeros(k) + ds, radix) == digits_value(ds, radix),
    decreases ds.len() + k,
{
    let zs = zeros(k) + ds;
    assert forall|i: int| 0 <= i < zs.len() implies (#[trigger] digit_value(zs[i], radix)) is Some by {
        if i >= k {
            assert(zs[i] == ds[i - k]);
        }
    }
    if ds.len() > 0 {
        assert(zs.drop_last() =~= zeros(k) + ds.drop_last());
        assert(all_digits(ds.drop_last(), radix)) by {
            assert forall|i: int| 0 <= i < ds.drop_last().len() implies (#[trigger] digit_value(
                ds.drop_last()[i],
                radix,
            )) is Some by {
                assert(ds.drop_last()[i] == ds[i]);
            }
        }
        lemma_leading_zeros(k, ds.drop_last(), radix);
    } else if k > 0 {
        assert(zs =~= zeros((k - 1) as nat) + ds + seq!['0']);
        assert(zs.drop_last() =~= zeros((k - 1) as nat) + ds);
        lemma_leading_zeros((k - 1) as nat, ds, radix);
    } else {
        assert(zs =~= ds);
    }
}

/// A text that starts and ends with a character that is not whitespace is
/// its own trimmed form.
proof fn lemma_trim_ends_solid(t: Seq<char>)
    requires
        t.len() > 0,
        !crate::text::is_white_space(t[0]),
        !crate::text::is_white_space(t.last()),
    ensures
        trim(t) == t,
{
    assert(crate::text::trim_start(t) == t);
}

/// A key code written in decimal, or in hexadecimal after `0x` or `0X`
/// with any number of leading zeros, reads back as that code.
pub proof fn law_vk_code_reads_spelled_numbers(n: u16, pad: nat)
    ensures
        vk_code_of(spelled(n as nat, false, false)) == Some(n),
        vk_code_of(seq!['0', 'x'] + zeros(pad) + spelled(n as nat, true, false)) == Some(n),
        vk_code_of(seq!['0', 'X'] + zeros(pad) + spelled(n as nat, true, true)) == Some(n),
{
    let d = spelled(n as nat, false, false);
    lemma_spelled(n as nat, false, false);
    assert(d[0] == d[0]);
    assert(d.last() == d[d.len() - 1]);
    lemma_trim_ends_solid(d);
    assert(unsigned_digits(d) == d);
    if d.len() >= 2 {
        assert(!has_hex_prefix(d));
    }
    assert(parse_u16_spec(d, 10) == Some(n));
    lemma_hex_spelling(n, pad, false);
    lemma_hex_spelling(n, pad, true);
}

proof fn lemma_hex_spelling(n: u16, pad: nat, upper: bool)
    ensures
        vk_code_of(seq!['0', if upper { 'X' } else { 'x' }] + zeros(pad) + spelled(n as nat, true, upper))
            == Some(n),
{
    let x: char = if upper { 'X' } else { 'x' };
    let h = spelled(n as nat, true, upper);
    lemma_spelled(n as nat, true, upper);
    lemma_leading_zeros(pad, h, 16);
    let ds = zeros(pad) + h;
    let t = seq!['0', x] + ds;
    assert(t.last() == h[h.len() - 1]);
    lemma_trim_ends_solid(t);
    assert(has_hex_prefix(t));
    assert(t.skip(2) =~= ds);
    assert(ds[0] != '+') by {
        if pad == 0 {
            assert(ds[0] == h[0]);
        }
    }
    assert(unsigned_digits(ds) == ds);
    assert(parse_u16_spec(t.skip(2), 16) == Some(n));
    assert(seq!['0', x] + zeros(pad) + h =~= t);
}

/// The key code that a settings-file entry, given as characters, names.
pub fn parse_vk_chars(s: &[char]) -> (r: Option<u16>)
    ensures
        r == vk_code_of(s@),
{
    let t: &[char] = trim_chars(s);
    if t.len() == 0 {
        return None;
    }
    if t.len() >= 2 && t[0] == '0' && (t[1] == 'x' || t[1] == 'X') {
        let rest: &[char] = &t[2..t.len()];
        assert(rest@ =~= t@.skip(2));
        if let Some(v) = parse_u16_radix(rest, 16) {
            return Some(v);
        }
    }
    if let Some(v) = parse_u16_radix(t, 10) {
        return Some(v);
    }
    let upper: Vec<char> = to_uppercase(t);
    vk_code_from_name(upper.as_slice())
}

/// The key code that a settings-file entry names: `0x20`, `32` and
/// `VK_SPACE` all name the space bar.
pub fn parse_vk_code(s: &str) -> (r: Option<u16>)
    ensures
        r == vk_code_of(s@),
{
    let c: Vec<char> = text_chars(s);
    parse_vk_chars(c.as_slice())
}

} // verus!
