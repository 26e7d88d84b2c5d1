use simple_jingle::hook::{KeyEvent, KeyHook};
use simple_jingle::keys::{VK_0, VK_A, VK_LEFT};
use simple_jingle::word_buffer::WordBuffer;

const VK_B: u16 = VK_A + 1;
const VK_3: u16 = VK_0 + 3;

fn key(vk: u16, password_field: bool) -> KeyEvent {
    KeyEvent {
        vk: vk as u32,
        clear_requested: false,
        ctrl: 0,
        alt: 0,
        lwin: 0,
        rwin: 0,
        window: 0,
        window_blacklisted: false,
        password_field,
    }
}

fn simulate_key(hook: &mut KeyHook, vk: u16, password_field: bool) {
    let _ = hook.on_key_down(&key(vk, password_field), None, true);
}

#[test]
fn test_word_buffer() {
    let mut buf = WordBuffer::new();
    buf.clear();
    buf.push_byte(b'h');
    buf.push_byte(b'i');
    assert_eq!(buf.as_str(), Some("hi"));
    buf.clear();
    assert_eq!(buf.as_str(), None);
}

#[test]
fn test_backspace() {
    let mut buf = WordBuffer::new();
    buf.clear();
    buf.push_byte(b'a');
    buf.push_byte(b'b');
    buf.pop();
    assert_eq!(buf.as_str(), Some("a"));
}

#[test]
fn test_overflow() {
    let mut buf = WordBuffer::new();
    buf.clear();
    for _ in 0..65 {
        buf.push_byte(b'x');
    }
    assert_eq!(buf.as_str(), None);
}

#[test]
fn test_hook_letters() {
    let mut hook = KeyHook::new();
    hook.clear();
    simulate_key(&mut hook, VK_A, false);
    simulate_key(&mut hook, VK_B, false);
    assert_eq!(hook.buffer().as_str(), Some("ab"));
}

#[test]
fn test_hook_password_field() {
    let mut buf = WordBuffer::new();
    buf.clear();
    buf.push_byte(b'a');
    let mut hook = KeyHook::with_buffer(buf);
    simulate_key(&mut hook, VK_B, true); // Typing in password field
    assert_eq!(hook.buffer().as_str(), None); // Buffer should be cleared and key ignored
}

#[test]
fn test_hook_digit_wipe() {
    let mut hook = KeyHook::new();
    hook.clear();
    simulate_key(&mut hook, VK_A, false);
    simulate_key(&mut hook, VK_3, false); // Digit
    assert_eq!(hook.buffer().as_str(), None); // Buffer wiped
}

#[test]
fn test_hook_navigation_wipe() {
    let mut hook = KeyHook::new();
    hook.clear();
    simulate_key(&mut hook, VK_A, false);
    simulate_key(&mut hook, VK_LEFT, false); // Left Arrow
    assert_eq!(hook.buffer().as_str(), None); // Buffer wiped
}
