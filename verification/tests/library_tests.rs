use simple_jingle::audio::{
    channels_or_default, frame_count, sample_depth, sample_rate_or_default, SampleCursor,
    SampleDepth, WavError,
};
use simple_jingle::config::{parse_config, settings_would_panic, Config};
use simple_jingle::hook::{KeyEvent, KeyHook, KeyOutcome};
use simple_jingle::icon::fallback_icon_rgba;
use simple_jingle::keys::{
    is_digit_or_symbol, is_letter, is_navigation_key, is_word_boundary, letter_byte,
    modifier_held, VK_0, VK_A, VK_BACK, VK_DELETE, VK_ESCAPE, VK_LEFT, VK_OEM_1, VK_RETURN,
    VK_SPACE, VK_TAB,
};
use simple_jingle::monitor::{check_control, decode_utf16_lossy, title_blacklisted, FocusWatcher};
use simple_jingle::text::{split_chars, trim_chars};
use simple_jingle::tray::{on_menu_click, startup_toggle_label, startup_tooltip, MenuItemKind, TrayCommand};
use simple_jingle::vk_names::{parse_u16_radix, parse_vk_code};
use simple_jingle::word_buffer::WordBuffer;

fn chars(s: &str) -> Vec<char> {
    s.chars().collect()
}

fn event(vk: u16) -> KeyEvent {
    KeyEvent {
        vk: vk as u32,
        clear_requested: false,
        ctrl: 0,
        alt: 0,
        lwin: 0,
        rwin: 0,
        window: 7,
        window_blacklisted: false,
        password_field: false,
    }
}

fn letter(c: char) -> u16 {
    VK_A + (c as u16 - 'a' as u16)
}

fn type_word(hook: &mut KeyHook, word: &str, config: Option<&Config>) {
    for c in word.chars() {
        let r = hook.on_key_down(&event(letter(c)), config, true);
        assert!(matches!(r, KeyOutcome::LetterTyped));
    }
}

// ---- key codes ----

#[test]
fn vk_code_hex_decimal_and_names() {
    assert_eq!(parse_vk_code("0x20"), Some(32));
    assert_eq!(parse_vk_code("0X0d"), Some(13));
    assert_eq!(parse_vk_code("  32\t"), Some(32));
    assert_eq!(parse_vk_code("+9"), Some(9));
    assert_eq!(parse_vk_code("0x+1f"), Some(31));
    assert_eq!(parse_vk_code("65535"), Some(65535));
    assert_eq!(parse_vk_code("VK_SPACE"), Some(32));
    assert_eq!(parse_vk_code("vk_return"), Some(13));
    assert_eq!(parse_vk_code("VK_ENTER"), Some(13));
    assert_eq!(parse_vk_code(" vk_Tab "), Some(9));
}

#[test]
fn vk_code_rejects() {
    assert_eq!(parse_vk_code(""), None);
    assert_eq!(parse_vk_code("   "), None);
    assert_eq!(parse_vk_code("65536"), None);
    assert_eq!(parse_vk_code("-5"), None);
    assert_eq!(parse_vk_code("+"), None);
    assert_eq!(parse_vk_code("0x"), None);
    assert_eq!(parse_vk_code("0xfffff"), None);
    assert_eq!(parse_vk_code("VK_NOPE"), None);
    assert_eq!(parse_vk_code("SPACE"), None);
}

#[test]
fn vk_name_goes_through_unicode_upper_case() {
    // U+FB05 (the "st" ligature) becomes "ST" in upper case.
    assert_eq!(parse_vk_code("vk_browser_\u{fb05}op"), Some(169));
    // U+0131 (dotless i) becomes "I", U+017F (long s) becomes "S".
    assert_eq!(parse_vk_code("vk_\u{131}nsert"), Some(45));
    assert_eq!(parse_vk_code("VK_\u{17f}PACE"), Some(32));
}

#[test]
fn u16_parsing_bounds() {
    assert_eq!(parse_u16_radix(&chars("ffff"), 16), Some(0xffff));
    assert_eq!(parse_u16_radix(&chars("10000"), 16), None);
    assert_eq!(parse_u16_radix(&chars("0065535"), 10), Some(65535));
    assert_eq!(parse_u16_radix(&chars("12a"), 10), None);
    assert_eq!(parse_u16_radix(&chars("12a"), 16), Some(0x12a));
}

#[test]
fn key_classes() {
    assert!(is_letter(VK_A as u32));
    assert!(is_letter(90));
    assert!(!is_letter(91));
    assert!(!is_letter(64));
    // Codes are taken modulo 2^16, as the hook does.
    assert!(is_letter(0x1_0041));
    assert!(is_digit_or_symbol(VK_0 as u32));
    assert!(is_digit_or_symbol(VK_OEM_1 as u32));
    assert!(is_digit_or_symbol(106));
    assert!(is_digit_or_symbol(0x60)); // keypad 0
    assert!(is_digit_or_symbol(0x69)); // keypad 9
    assert!(is_digit_or_symbol(0xe2)); // 102-key "<>" key
    assert!(!is_digit_or_symbol(0x5f));
    assert!(!is_digit_or_symbol(0xe1));
    assert!(!is_digit_or_symbol(0xe3));
    assert!(is_navigation_key(VK_LEFT as u32));
    assert!(is_navigation_key(VK_DELETE as u32));
    assert!(is_navigation_key(VK_ESCAPE as u32));
    assert!(!is_navigation_key(VK_SPACE as u32));
    assert!(is_word_boundary(VK_SPACE as u32, None));
    assert!(is_word_boundary(VK_TAB as u32, None));
    assert!(!is_word_boundary(VK_A as u32, None));
    let keys = vec![VK_A];
    assert!(is_word_boundary(VK_A as u32, Some(&keys)));
    assert!(!is_word_boundary(VK_SPACE as u32, Some(&keys)));
    assert_eq!(letter_byte(VK_A as u32), b'a');
    assert_eq!(letter_byte(90), b'z');
}

#[test]
fn modifier_states() {
    assert!(!modifier_held(0, 0, 0, 0));
    assert!(!modifier_held(1, 0x7fff, 1, 0));
    assert!(modifier_held(i16::MIN, 0, 0, 0));
    assert!(modifier_held(0, 0, 0, -1));
    assert!(modifier_held(0, -32767, 0, 0));
}

// ---- word buffer ----

#[test]
fn word_buffer_pop_on_empty_and_limits() {
    let mut b = WordBuffer::new();
    b.pop();
    assert_eq!(b.as_str(), None);
    assert_eq!(b.len(), 0);
    for _ in 0..64 {
        b.push_byte(b'y');
    }
    assert_eq!(b.len(), 64);
    assert_eq!(b.as_str().map(|s| s.len()), Some(64));
    b.push_byte(b'z');
    assert_eq!(b.len(), 0);
    b.push_byte(b'q');
    assert_eq!(b.as_str(), Some("q"));
}

#[test]
fn word_buffer_invalid_utf8_is_none() {
    let mut b = WordBuffer::new();
    b.push_byte(0xff);
    assert_eq!(b.as_str(), None);
    b.pop();
    b.push_byte(0xc3);
    b.push_byte(0xa9);
    assert_eq!(b.as_str(), Some("\u{e9}"));
}

// ---- hook ----

#[test]
fn trigger_word_then_space_triggers() {
    let cfg = Config::defaults();
    let mut hook = KeyHook::new();
    type_word(&mut hook, "proceed", Some(&cfg));
    match hook.on_key_down(&event(VK_SPACE), Some(&cfg), true) {
        KeyOutcome::Triggered { word, play_sound } => {
            assert_eq!(word, "proceed");
            assert!(play_sound);
        }
        _ => panic!("expected a trigger"),
    }
    assert_eq!(hook.buffer().as_str(), None);
}

#[test]
fn trigger_with_sound_disabled() {
    let cfg = Config::defaults();
    let mut hook = KeyHook::new();
    type_word(&mut hook, "proceed", Some(&cfg));
    match hook.on_key_down(&event(VK_RETURN), Some(&cfg), false) {
        KeyOutcome::Triggered { play_sound, .. } => assert!(!play_sound),
        _ => panic!("expected a trigger"),
    }
}

#[test]
fn no_trigger_without_settings_or_on_other_words() {
    let cfg = Config::defaults();
    let mut hook = KeyHook::new();
    type_word(&mut hook, "proceed", None);
    assert!(matches!(hook.on_key_down(&event(VK_SPACE), None, true), KeyOutcome::Passed));
    type_word(&mut hook, "proceeds", Some(&cfg));
    assert!(matches!(hook.on_key_down(&event(VK_SPACE), Some(&cfg), true), KeyOutcome::Passed));
    assert!(matches!(hook.on_key_down(&event(VK_SPACE), Some(&cfg), true), KeyOutcome::Passed));
}

#[test]
fn case_sensitive_and_insensitive_matching() {
    let mut cfg = Config::defaults();
    cfg.triggers.words = vec!["Proceed".to_string()];
    let mut hook = KeyHook::new();
    type_word(&mut hook, "proceed", Some(&cfg));
    assert!(matches!(
        hook.on_key_down(&event(VK_SPACE), Some(&cfg), true),
        KeyOutcome::Triggered { .. }
    ));
    cfg.triggers.case_sensitive = true;
    type_word(&mut hook, "proceed", Some(&cfg));
    assert!(matches!(hook.on_key_down(&event(VK_SPACE), Some(&cfg), true), KeyOutcome::Passed));
}

#[test]
fn configured_boundary_keys_replace_defaults() {
    let mut cfg = Config::defaults();
    cfg.triggers.boundary_vkeys = vec![VK_RETURN];
    let mut hook = KeyHook::new();
    type_word(&mut hook, "proceed", Some(&cfg));
    // Space is no longer a boundary and changes nothing.
    assert!(matches!(hook.on_key_down(&event(VK_SPACE), Some(&cfg), true), KeyOutcome::Passed));
    assert_eq!(hook.buffer().as_str(), Some("proceed"));
    assert!(matches!(
        hook.on_key_down(&event(VK_RETURN), Some(&cfg), true),
        KeyOutcome::Triggered { .. }
    ));
}

#[test]
fn modifiers_ignore_the_key() {
    let mut hook = KeyHook::new();
    type_word(&mut hook, "ab", None);
    let mut e = event(VK_A);
    e.ctrl = i16::MIN;
    assert!(matches!(hook.on_key_down(&e, None, true), KeyOutcome::Passed));
    assert_eq!(hook.buffer().as_str(), Some("ab"));
    // A key pressed with a modifier does not even wipe on a digit.
    let mut e = event(VK_0);
    e.alt = -1;
    hook.on_key_down(&e, None, true);
    assert_eq!(hook.buffer().as_str(), Some("ab"));
}

#[test]
fn clear_request_wipes_before_the_key() {
    let mut hook = KeyHook::new();
    type_word(&mut hook, "ab", None);
    let mut e = event(letter('c'));
    e.clear_requested = true;
    hook.on_key_down(&e, None, true);
    assert_eq!(hook.buffer().as_str(), Some("c"));
    // Even with a modifier held the request is honoured.
    let mut e = event(VK_A);
    e.clear_requested = true;
    e.lwin = -1;
    hook.on_key_down(&e, None, true);
    assert_eq!(hook.buffer().as_str(), None);
}

#[test]
fn focus_change_wipes_then_types() {
    let mut hook = KeyHook::new();
    type_word(&mut hook, "ab", None);
    let mut e = event(letter('c'));
    e.window = 8;
    hook.on_key_down(&e, None, true);
    assert_eq!(hook.buffer().as_str(), Some("c"));
}

#[test]
fn sensitive_window_wipes() {
    let mut hook = KeyHook::new();
    type_word(&mut hook, "ab", None);
    let mut e = event(letter('c'));
    e.window_blacklisted = true;
    assert!(matches!(hook.on_key_down(&e, None, true), KeyOutcome::Passed));
    assert_eq!(hook.buffer().as_str(), None);
}

#[test]
fn backspace_undoes_a_letter() {
    let mut hook = KeyHook::new();
    type_word(&mut hook, "ab", None);
    hook.on_key_down(&event(letter('x')), None, true);
    hook.on_key_down(&event(VK_BACK), None, true);
    assert_eq!(hook.buffer().as_str(), Some("ab"));
    hook.on_key_down(&event(VK_BACK), None, true);
    hook.on_key_down(&event(VK_BACK), None, true);
    hook.on_key_down(&event(VK_BACK), None, true);
    assert_eq!(hook.buffer().as_str(), None);
}

#[test]
fn other_keys_leave_the_word() {
    let mut hook = KeyHook::new();
    type_word(&mut hook, "ab", None);
    hook.on_key_down(&event(0x10), None, true); // Shift
    hook.on_key_down(&event(0x70), None, true); // F1
    assert_eq!(hook.buffer().as_str(), Some("ab"));
}

#[test]
fn buffer_holds_only_letters() {
    let mut hook = KeyHook::new();
    for vk in 0u16..=255 {
        hook.on_key_down(&event(vk), None, true);
        if let Some(w) = hook.buffer().as_str() {
            assert!(w.bytes().all(|b| b.is_ascii_lowercase()));
        }
    }
}

// ---- settings ----

fn strings(v: &[String]) -> Vec<&str> {
    v.iter().map(|s| s.as_str()).collect()
}

#[test]
fn empty_settings_are_defaults() {
    for text in ["", "\n\n", "; comment\n# other\n   \r\n"] {
        assert!(!settings_would_panic(text));
        let c = parse_config(text);
        assert_eq!(c.sound.path, "sounds/snd_ominous_music.wav");
        assert_eq!(strings(&c.triggers.words), vec!["proceed"]);
        assert!(!c.triggers.case_sensitive);
        assert_eq!(c.triggers.boundary_vkeys, vec![32, 13, 9]);
        assert!(!c.debug.enabled);
    }
}

#[test]
fn readme_settings_file() {
    let text = "[sound]\n\
path = sounds/snd_ominous_music.wav    ; Relative path to the audio file\n\
\n\
[triggers]\n\
words = proceed,start,play             ; Comma-separated list of trigger words\n\
case_sensitive = false                 ; Case-insensitive matching\n\
boundary_keys = VK_SPACE,VK_RETURN,VK_TAB   ; Windows Virtual-Key code names (e.g. VK_SPACE, VK_RETURN, VK_TAB) or hex codes (e.g. 0x20)\n\
\n\
[debug]\n\
enabled = false                        ; Set to true to allocate a diagnostic console\n";
    assert!(!settings_would_panic(text));
    let c = parse_config(text);
    assert_eq!(c.sound.path, "sounds/snd_ominous_music.wav");
    assert_eq!(strings(&c.triggers.words), vec!["proceed", "start", "play"]);
    assert!(!c.triggers.case_sensitive);
    assert_eq!(c.triggers.boundary_vkeys, vec![0x20, 0x0d, 0x09]);
    assert!(!c.debug.enabled);
    // The same file with Windows line endings.
    let c = parse_config(&text.replace('\n', "\r\n"));
    assert_eq!(c.sound.path, "sounds/snd_ominous_music.wav");
    assert_eq!(c.triggers.boundary_vkeys, vec![0x20, 0x0d, 0x09]);
}

#[test]
fn inline_comments() {
    let c = parse_config("[sound]\npath = \"a b.wav\" ; quoted\n[triggers]\nwords = x;y, z #k\ncase_sensitive = 1;no space before\n");
    assert_eq!(c.sound.path, "a b.wav");
    // A ';' not after whitespace, and a '#', are part of the value.
    assert_eq!(strings(&c.triggers.words), vec!["x;y", "z #k"]);
    assert!(!c.triggers.case_sensitive);
    // A value that is nothing but a comment is empty.
    let c = parse_config("[sound]\npath = ; none\n");
    assert_eq!(c.sound.path, "");
    let c = parse_config("[sound]\npath = C#/jingle.wav\n");
    assert_eq!(c.sound.path, "C#/jingle.wav");
    // Inside quotes a ';' is part of the value.
    let c = parse_config("[sound]\npath = \"a ;b.wav\"\n");
    assert_eq!(c.sound.path, "a ;b.wav");
    let c = parse_config("[sound]\npath = 'a ;b.wav'   ; the sound\n");
    assert_eq!(c.sound.path, "a ;b.wav");
    // A quote that is never closed leaves the whole value in place.
    let c = parse_config("[sound]\npath = \"a ; b\n");
    assert_eq!(c.sound.path, "\"a ; b");
    let c = parse_config("[sound]\npath=;x\n");
    assert_eq!(c.sound.path, ";x");
}

#[test]
fn settings_values() {
    let text = "[ SOUND ]\nPATH = \"my sound.wav\"\n[Triggers]\nwords = , a ,, B c ,\n\
                Case_Sensitive = TRUE\nboundary_keys = 0x0d, nope, 9\n[debug]\nenabled = 1\n";
    let c = parse_config(text);
    assert_eq!(c.sound.path, "my sound.wav");
    assert_eq!(strings(&c.triggers.words), vec!["a", "B c"]);
    assert!(c.triggers.case_sensitive);
    assert_eq!(c.triggers.boundary_vkeys, vec![13, 9]);
    assert!(c.debug.enabled);
}

#[test]
fn settings_edge_cases() {
    // Keys outside their section, unknown keys, lines without '=' and
    // boundary lists that name no key change nothing.
    let text = "path = x.wav\n[triggers]\nboundary_keys = nope, , VK_NOPE\nenabled = true\njunk\n\
                [debug]\nwords = a\nenabled = yes\n";
    let c = parse_config(text);
    assert_eq!(c.sound.path, "sounds/snd_ominous_music.wav");
    assert_eq!(c.triggers.boundary_vkeys, vec![32, 13, 9]);
    assert_eq!(strings(&c.triggers.words), vec!["proceed"]);
    assert!(!c.debug.enabled);
    // The first '=' splits key and value; single quotes are stripped too;
    // an empty word list is kept empty.
    let c = parse_config("[sound]\npath='a=b'\n[triggers]\nwords = ,\n");
    assert_eq!(c.sound.path, "a=b");
    assert!(c.triggers.words.is_empty());
    // A later line overrides an earlier one.
    let c = parse_config("[debug]\nenabled=true\nenabled=0\n");
    assert!(!c.debug.enabled);
}

#[test]
fn lone_quote_value_panics_in_the_reader() {
    assert!(settings_would_panic("[sound]\npath = \"\n"));
    assert!(settings_would_panic("x = '"));
    assert!(!settings_would_panic("x = ''"));
    assert!(!settings_would_panic("; x = '"));
    assert!(!settings_would_panic("['=\"]"));
    assert!(!settings_would_panic("x = ' ; comment"));
    assert!(settings_would_panic("x = ' "));
    assert!(!settings_would_panic("x = ; '"));
}

// ---- text ----

#[test]
fn trim_matches_std() {
    for s in ["", "  a b  ", "\u{a0}\u{3000}x\u{2028}", "\r\nline\r", "\u{200b}x", "\u{85}y\u{1680}"] {
        let c = chars(s);
        let t: String = trim_chars(&c).iter().collect();
        assert_eq!(t, s.trim(), "{:?}", s);
    }
}

#[test]
fn split_matches_std() {
    for s in ["", ",", "a,b", ",a,,b,", "abc"] {
        let parts: Vec<String> = split_chars(&chars(s), ',').iter().map(|p| p.iter().collect()).collect();
        let expected: Vec<String> = s.split(',').map(|p| p.to_string()).collect();
        assert_eq!(parts, expected);
    }
}

// ---- sensitive windows ----

fn utf16(s: &str) -> Vec<u16> {
    s.encode_utf16().collect()
}

#[test]
fn blacklisted_titles() {
    assert!(title_blacklisted(&utf16("Bitwarden - Vault")));
    assert!(title_blacklisted(&utf16("Please SIGN IN to continue")));
    assert!(title_blacklisted(&utf16("Enter OTP")));
    assert!(!title_blacklisted(&utf16("Untitled - Notepad")));
    assert!(!title_blacklisted(&utf16("")));
    assert!(!title_blacklisted(&utf16("sign-in")));
    // U+212A KELVIN SIGN lower-cases to 'k'.
    assert!(title_blacklisted(&utf16("\u{212a}eePass")));
}

#[test]
fn utf16_decoding_matches_std() {
    let samples: Vec<Vec<u16>> = vec![
        utf16("h\u{e9}llo \u{1f600}"),
        vec![0xd800],
        vec![0xdc00, 0x61],
        vec![0xd83d, 0x61, 0xd83d, 0xde00],
        vec![0xd83d, 0xd83d, 0xde00],
        vec![],
    ];
    for s in samples {
        let got: String = decode_utf16_lossy(&s).iter().collect();
        assert_eq!(got, String::from_utf16_lossy(&s));
    }
}

#[test]
fn focus_watcher_decisions() {
    let mut w = FocusWatcher::new();
    let c = w.check_window(0, false);
    assert!(!c.signal_clear && !c.set_password_field && c.query_control);
    let c = w.check_window(5, true);
    assert!(c.signal_clear && c.set_password_field && !c.query_control);
    let c = w.check_window(5, true);
    assert!(c.signal_clear && c.set_password_field && !c.query_control);
    let c = w.check_window(5, false);
    assert!(!c.signal_clear && !c.set_password_field && c.query_control);
    let c = w.check_window(7, false);
    assert!(c.signal_clear && !c.set_password_field && c.query_control);
    let p = check_control(true);
    assert!(p.password_field && p.signal_clear);
    let p = check_control(false);
    assert!(!p.password_field && !p.signal_clear);
}

// ---- audio ----

#[test]
fn sample_depths() {
    assert_eq!(sample_depth(8), Ok(SampleDepth::Bits8));
    assert_eq!(sample_depth(16), Ok(SampleDepth::Bits16));
    assert_eq!(sample_depth(24), Ok(SampleDepth::Bits24));
    assert_eq!(sample_depth(32), Err(WavError::UnsupportedBits(32)));
    assert_eq!(sample_depth(0), Err(WavError::UnsupportedBits(0)));
    assert_eq!(SampleDepth::Bits8.full_scale(), 128);
    assert_eq!(SampleDepth::Bits16.full_scale(), 32768);
    assert_eq!(SampleDepth::Bits24.full_scale(), 8388608);
    assert_eq!(SampleDepth::Bits24.scaled_sample(0x7fff_ff00), 0x7f_ffff);
    assert_eq!(SampleDepth::Bits24.scaled_sample(-256), -1);
    assert_eq!(SampleDepth::Bits24.scaled_sample(-1), -1);
    assert_eq!(SampleDepth::Bits16.scaled_sample(-1), -1);
    assert_eq!(sample_rate_or_default(0), 44100);
    assert_eq!(sample_rate_or_default(8000), 8000);
    assert_eq!(channels_or_default(0), 1);
    assert_eq!(channels_or_default(2), 2);
    assert_eq!(frame_count(9, 2), 4);
}

#[test]
fn sample_cursor_yields_each_sample_once() {
    let mut c = SampleCursor::new(vec![0.5f32, -0.25, 1.0]);
    assert_eq!(c.remaining(), 3);
    assert_eq!(c.next_sample(), Some(0.5));
    assert_eq!(c.next_sample(), Some(-0.25));
    assert_eq!(c.remaining(), 1);
    assert_eq!(c.next_sample(), Some(1.0));
    assert_eq!(c.next_sample(), None);
    assert_eq!(c.next_sample(), None);
    assert_eq!(c.remaining(), 0);
    assert_eq!(c.len(), 3);
}

// ---- icon ----

#[test]
fn fallback_icon_is_a_disc() {
    let data = fallback_icon_rgba();
    assert_eq!(data.len(), 32 * 32 * 4);
    let mut expected = vec![0u8; 32 * 32 * 4];
    for y in 0..32i32 {
        for x in 0..32i32 {
            let idx = ((y * 32 + x) * 4) as usize;
            if (x - 16) * (x - 16) + (y - 16) * (y - 16) < 14 * 14 {
                expected[idx..idx + 4].copy_from_slice(&[100, 180, 255, 255]);
            }
        }
    }
    assert_eq!(data, expected);
    assert_eq!(&data[(16 * 32 + 16) * 4..(16 * 32 + 16) * 4 + 4], &[100, 180, 255, 255]);
    assert_eq!(&data[0..4], &[0, 0, 0, 0]);
}

// ---- tray ----

#[test]
fn tray_menu_toggles_twice_back() {
    assert_eq!(startup_toggle_label(), "Disable");
    assert_eq!(startup_tooltip(), "Simple-Jingle - Listening for trigger words");
    let enabled = match on_menu_click(MenuItemKind::Toggle, true) {
        TrayCommand::SetAudio { enabled, item_text, tooltip } => {
            assert_eq!(item_text, "Enable");
            assert_eq!(tooltip, "Simple-Jingle - Disabled");
            enabled
        }
        _ => panic!(),
    };
    assert!(!enabled);
    match on_menu_click(MenuItemKind::Toggle, enabled) {
        TrayCommand::SetAudio { enabled, item_text, tooltip } => {
            assert!(enabled);
            assert_eq!(item_text, "Disable");
            assert_eq!(tooltip, "Simple-Jingle - Listening");
        }
        _ => panic!(),
    }
    assert!(matches!(on_menu_click(MenuItemKind::Quit, true), TrayCommand::Quit));
    assert!(matches!(on_menu_click(MenuItemKind::Other, false), TrayCommand::Nothing));
}

#[test]
fn keypad_digits_and_102_key_wipe() {
    for vk in [0x60u16, 0x65, 0x69, 0xe2] {
        let mut hook = KeyHook::new();
        type_word(&mut hook, "ab", None);
        hook.on_key_down(&event(vk), None, true);
        assert_eq!(hook.buffer().as_str(), None);
    }
}

#[test]
fn every_key_code_reads_back_from_its_spellings() {
    for n in 0..=u16::MAX {
        assert_eq!(parse_vk_code(&n.to_string()), Some(n));
        assert_eq!(parse_vk_code(&format!("0x{:x}", n)), Some(n));
        assert_eq!(parse_vk_code(&format!("0X{:04X}", n)), Some(n));
    }
}

#[test]
fn key_entries_ignore_whitespace_and_ascii_case() {
    for s in [
        "VK_SPACE", "vk_return", "0x1B", "0X1b", "27", "+27", "nope", "", "Vk_Oem_Plus",
        "vk_\u{131}nsert", "Vk_\u{17f}pace", "vk_browser_\u{fb05}op", "\u{e9}",
    ] {
        let expected = parse_vk_code(s);
        assert_eq!(parse_vk_code(s.trim()), expected);
        assert_eq!(parse_vk_code(&format!(" \t{}\n", s)), expected);
        assert_eq!(parse_vk_code(&s.to_ascii_uppercase()), expected);
        assert_eq!(parse_vk_code(&s.to_ascii_lowercase()), expected);
    }
}

#[test]
fn toggle_clicks_alternate() {
    let mut enabled = true;
    for k in 1..=6u32 {
        match on_menu_click(MenuItemKind::Toggle, enabled) {
            TrayCommand::SetAudio { enabled: e, item_text, tooltip } => {
                enabled = e;
                assert_eq!(enabled, k % 2 == 0);
                assert_eq!(item_text, if enabled { "Disable" } else { "Enable" });
                assert_eq!(
                    tooltip,
                    if enabled { "Simple-Jingle - Listening" } else { "Simple-Jingle - Disabled" }
                );
            }
            _ => panic!(),
        }
    }
}

#[test]
fn cursor_collects_all_samples_then_none() {
    let samples: Vec<i32> = (0..100).map(|i| i * 3 - 50).collect();
    let mut c = SampleCursor::new(samples.clone());
    let mut out = Vec::new();
    while let Some(s) = c.next_sample() {
        out.push(s);
    }
    assert_eq!(out, samples);
    for _ in 0..3 {
        assert_eq!(c.next_sample(), None);
    }
}

#[test]
fn sound_off_trigger_plays_nothing() {
    let cfg = Config::defaults();
    let mut hook = KeyHook::new();
    let enabled = match on_menu_click(MenuItemKind::Toggle, true) {
        TrayCommand::SetAudio { enabled, .. } => enabled,
        _ => panic!(),
    };
    type_word(&mut hook, "proceed", Some(&cfg));
    match hook.on_key_down(&event(VK_TAB), Some(&cfg), enabled) {
        KeyOutcome::Triggered { play_sound, .. } => assert!(!play_sound),
        _ => panic!("expected a trigger"),
    }
}
