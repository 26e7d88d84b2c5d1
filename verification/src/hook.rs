//! The reaction of the low-level keyboard hook to one key press: what it
//! does to the word buffer, and whether the word just finished is a trigger.

use vstd::prelude::*;
use vstd::utf8::{decode_utf8, encode_utf8, encode_utf8_decode_utf8, valid_utf8};
use crate::config::{Config, TriggerConfig};
use crate::keys::{
    is_digit_or_symbol, is_letter, is_navigation_key, is_word_boundary, key_code, keys_view,
    letter_byte, modifier_held, spec_is_digit_or_symbol, spec_is_letter, spec_is_navigation_key,
    spec_is_word_boundary, spec_letter_byte, spec_modifier_held, VK_BACK,
};
use crate::word_buffer::{ascii_text, lemma_ascii_utf8, WordBuffer, BUFFER_SIZE};

verus! {

broadcast use vstd::seq::group_seq_axioms;

/// ASCII upper-case letters mapped to lower case, other bytes unchanged.
pub open spec fn ascii_lower(b: u8) -> u8 {
    if 65 <= b <= 90 {
        (b + 32) as u8
    } else {
        b
    }
}

/// `str::eq_ignore_ascii_case`: the same number of bytes, equal once ASCII
/// letters are put in lower case.
pub open spec fn bytes_eq_ignore_ascii_case(a: Seq<u8>, b: Seq<u8>) -> bool {
    a.len() == b.len() && forall|i: int| 0 <= i < a.len() ==> ascii_lower(#[trigger] a[i])
        == ascii_lower(b[i])
}

/// A typed word matches a trigger word: exactly, or ignoring the case of
/// ASCII letters.
pub open spec fn word_matches(word: Seq<char>, trigger: Seq<char>, case_sensitive: bool) -> bool {
    if case_sensitive {
        word == trigger
    } else {
        bytes_eq_ignore_ascii_case(encode_utf8(word), encode_utf8(trigger))
    }
}

/// A typed word matches one of the trigger words.
pub open spec fn is_trigger(word: Seq<char>, triggers: Seq<Seq<char>>, case_sensitive: bool) -> bool {
    exists|i: int| 0 <= i < triggers.len() && word_matches(word, #[trigger] triggers[i], case_sensitive)
}

/// The word after a byte is typed: the byte appended, or, when the buffer
/// is full, an empty word.
pub open spec fn word_after_push(w: Seq<u8>, b: u8) -> Seq<u8> {
    if w.len() < BUFFER_SIZE {
        w.push(b)
    } else {
        Seq::<u8>::empty()
    }
}

/// The word after Backspace.
pub open spec fn word_after_pop(w: Seq<u8>) -> Seq<u8> {
    if w.len() > 0 {
        w.drop_last()
    } else {
        w
    }
}

/// The word after a key reaches the buffer (no modifier held, focus and
/// password checks passed).
pub open spec fn word_after_key(w: Seq<u8>, vk: u32, boundary_keys: Option<Seq<u16>>) -> Seq<u8> {
    if spec_is_letter(vk) {
        word_after_push(w, spec_letter_byte(vk))
    } else if spec_is_word_boundary(vk, boundary_keys) {
        Seq::<u8>::empty()
    } else if key_code(vk) == VK_BACK {
        word_after_pop(w)
    } else if spec_is_digit_or_symbol(vk) || spec_is_navigation_key(vk) {
        Seq::<u8>::empty()
    } else {
        w
    }
}

/// The boundary keys in force: the configured ones, or the defaults when no
/// settings are loaded.
pub open spec fn boundary_keys_of(config: Option<&Config>) -> Option<Seq<u16>> {
    match config {
        Some(c) => Some(c.triggers.boundary_vkeys@),
        None => None,
    }
}

/// A word that, ended by a boundary key, is a trigger word under the loaded
/// settings: it is not empty, it is valid UTF-8, and it matches one of the
/// trigger words.
pub open spec fn completes_trigger(config: Option<&Config>, w: Seq<u8>) -> bool {
    match config {
        Some(c) => w.len() > 0 && valid_utf8(w) && is_trigger(
            decode_utf8(w),
            c.triggers.words@.map_values(|t: String| t@),
            c.triggers.case_sensitive,
        ),
        None => false,
    }
}

/// Every byte of the word is a lower-case ASCII letter.
pub open spec fn only_letters(w: Seq<u8>) -> bool {
    forall|i: int| 0 <= i < w.len() ==> 97 <= #[trigger] w[i] <= 122
}

/// The word after a run of keys reaches the buffer one by one.
pub open spec fn word_after_keys(w: Seq<u8>, keys: Seq<u32>, boundary_keys: Option<Seq<u16>>) -> Seq<u8>
    decreases keys.len(),
{
    if keys.len() == 0 {
        w
    } else {
        word_after_key(word_after_keys(w, keys.drop_last(), boundary_keys), keys.last(), boundary_keys)
    }
}

/// The buffer never holds anything but lower-case letters: keys other than
/// letters only shorten or empty the word, so digits, symbols and other
/// characters typed never reach memory.
pub proof fn law_word_holds_only_letters(w: Seq<u8>, vk: u32, boundary_keys: Option<Seq<u16>>)
    requires
        only_letters(w),
    ensures
        only_letters(word_after_key(w, vk, boundary_keys)),
{
    let r = word_after_key(w, vk, boundary_keys);
    if spec_is_letter(vk) {
        assert forall|i: int| 0 <= i < r.len() implies 97 <= #[trigger] r[i] <= 122 by {
            if w.len() < BUFFER_SIZE && i == w.len() {
                assert(r[i] == spec_letter_byte(vk));
            }
        }
    }
}

/// Letter keys typed into an empty buffer spell their word, as long as it
/// fits.
pub proof fn law_letters_spell_word(keys: Seq<u32>, boundary_keys: Option<Seq<u16>>)
    requires
        keys.len() <= BUFFER_SIZE,
        forall|i: int| 0 <= i < keys.len() ==> spec_is_letter(#[trigger] keys[i]),
    ensures
        word_after_keys(Seq::<u8>::empty(), keys, boundary_keys) == keys.map_values(
            |k: u32| spec_letter_byte(k),
        ),
    decreases keys.len(),
{
    if keys.len() > 0 {
        law_letters_spell_word(keys.drop_last(), boundary_keys);
        assert(keys.drop_last().map_values(|k: u32| spec_letter_byte(k)).push(
            spec_letter_byte(keys.last()),
        ) =~= keys.map_values(|k: u32| spec_letter_byte(k)));
    } else {
        assert(keys.map_values(|k: u32| spec_letter_byte(k)) =~= Seq::<u8>::empty());
    }
}

/// A trigger word typed as letters is reported: when the letters typed
/// into an empty buffer spell a word that matches one of the configured
/// trigger words (exactly, or up to the case of ASCII letters when matching
/// ignores case), the word in the buffer when a boundary key comes
/// completes a trigger.
pub proof fn law_typed_trigger_word_is_reported(config: &Config, keys: Seq<u32>, i: int)
    requires
        0 < keys.len() <= BUFFER_SIZE,
        forall|j: int| 0 <= j < keys.len() ==> spec_is_letter(#[trigger] keys[j]),
        0 <= i < config.triggers.words@.len(),
        word_matches(
            ascii_text(keys.map_values(|k: u32| spec_letter_byte(k))),
            config.triggers.words@[i]@,
            config.triggers.case_sensitive,
        ),
    ensures
        completes_trigger(
            Some(config),
            word_after_keys(Seq::<u8>::empty(), keys, boundary_keys_of(Some(config))),
        ),
{
    let w = keys.map_values(|k: u32| spec_letter_byte(k));
    law_letters_spell_word(keys, boundary_keys_of(Some(config)));
    assert forall|j: int| 0 <= j < w.len() implies #[trigger] w[j] < 128 by {
        assert(spec_is_letter(keys[j]));
    }
    lemma_ascii_utf8(w);
    let ts = config.triggers.words@.map_values(|t: String| t@);
    assert(ts[i] == config.triggers.words@[i]@);
    assert(word_matches(decode_utf8(w), ts[i], config.triggers.case_sensitive));
}

/// Backspace undoes a letter: typing a letter and then Backspace gives back
/// the word there was, as long as the letter fitted and Backspace is not
/// configured as a word boundary.
pub proof fn law_backspace_undoes_letter(w: Seq<u8>, letter: u32, boundary_keys: Option<Seq<u16>>)
    requires
        w.len() < BUFFER_SIZE,
        spec_is_letter(letter),
        !spec_is_word_boundary(VK_BACK as u32, boundary_keys),
    ensures
        word_after_key(word_after_key(w, letter, boundary_keys), VK_BACK as u32, boundary_keys) == w,
{
    let w1 = word_after_key(w, letter, boundary_keys);
    assert(w1 == w.push(spec_letter_byte(letter)));
    assert(!spec_is_letter(VK_BACK as u32));
    assert(key_code(VK_BACK as u32) == VK_BACK);
    assert(w1.drop_last() =~= w);
}

/// What one key does to the word, by its virtual-key code (the other
/// checks of a key press passed):
/// - a letter key, A to Z, adds its lower-case letter, or wipes a full
///   64-byte buffer;
/// - a configured boundary key, or with no settings Space, Enter or Tab,
///   ends the word and empties it;
/// - Backspace, where it is not a boundary, takes off the last letter;
/// - a digit of the main keyboard or the keypad, a keypad operator, an OEM
///   punctuation key, the extra key of 102-key keyboards, an arrow, Home,
///   End, Page Up, Page Down, Delete or Escape wipes the word;
/// - any other key leaves it as it is.
pub proof fn law_key_effects(w: Seq<u8>, vk: u32, boundary_keys: Option<Seq<u16>>)
    ensures
        ({
            let v = key_code(vk);
            let r = word_after_key(w, vk, boundary_keys);
            let is_boundary = match boundary_keys {
                Some(ks) => ks.contains(v),
                None => v == 0x20 || v == 0x0D || v == 0x09,
            };
            let wipes = (0x30 <= v <= 0x39) || (0x60 <= v <= 0x6F) || (0xBA <= v <= 0xDF)
                || v == 0xE2 || v == 0x25 || v == 0x26 || v == 0x27 || v == 0x28 || v == 0x24
                || v == 0x23 || v == 0x21 || v == 0x22 || v == 0x2E || v == 0x1B;
            &&& 0x41 <= v <= 0x5A ==> r == (if w.len() < 64 {
                w.push((v + 32) as u8)
            } else {
                Seq::<u8>::empty()
            })
            &&& !(0x41 <= v <= 0x5A) && is_boundary ==> r == Seq::<u8>::empty()
            &&& v == 0x08 && !is_boundary ==> r == (if w.len() > 0 {
                w.subrange(0, w.len() - 1)
            } else {
                w
            })
            &&& !is_boundary && wipes ==> r == Seq::<u8>::empty()
            &&& !(0x41 <= v <= 0x5A) && !is_boundary && v != 0x08 && !wipes ==> r == w
        }),
{
}

/// A typed word matches a trigger word, when case matters, only if it is
/// that word; when case does not matter, exactly when the two have the same
/// UTF-8 bytes once every ASCII capital is put in lower case. So the two
/// have the same length, and a prefix or an extension of a trigger word
/// never matches it.
pub proof fn law_trigger_match_is_whole_word(word: Seq<char>, trigger: Seq<char>)
    ensures
        word_matches(word, trigger, true) <==> word == trigger,
        word_matches(word, trigger, false) <==> encode_utf8(word).map_values(
            |b: u8|
                if 65 <= b <= 90 {
                    (b + 32) as u8
                } else {
                    b
                },
        ) == encode_utf8(trigger).map_values(
            |b: u8|
                if 65 <= b <= 90 {
                    (b + 32) as u8
                } else {
                    b
                },
        ),
        word_matches(word, trigger, false) ==> encode_utf8(word).len() == encode_utf8(
            trigger,
        ).len(),
        word == trigger ==> word_matches(word, trigger, false),
{
    let a = encode_utf8(word);
    let b = encode_utf8(trigger);
    let la = a.map_values(|x: u8| if 65 <= x <= 90 { (x + 32) as u8 } else { x });
    let lb = b.map_values(|x: u8| if 65 <= x <= 90 { (x + 32) as u8 } else { x });
    if bytes_eq_ignore_ascii_case(a, b) {
        assert(la =~= lb);
    }
    if la == lb {
        assert(la.len() == a.len() && lb.len() == b.len());
        assert forall|i: int| 0 <= i < a.len() implies ascii_lower(#[trigger] a[i]) == ascii_lower(
            b[i],
        ) by {
            assert(la[i] == lb[i]);
        }
    }
}

/// The trigger words are what the typed word is checked against: each of
/// them, typed as it is, is a trigger whatever the case setting; when case
/// matters the triggers are exactly the trigger words; when it does not, a
/// trigger has as many UTF-8 bytes as one of the trigger words and matches
/// it ignoring ASCII case.
pub proof fn law_triggers_are_the_trigger_words(word: Seq<char>, triggers: Seq<Seq<char>>)
    ensures
        forall|i: int| 0 <= i < triggers.len() ==> is_trigger(#[trigger] triggers[i], triggers, true)
            && is_trigger(triggers[i], triggers, false),
        is_trigger(word, triggers, true) <==> triggers.contains(word),
        is_trigger(word, triggers, false) ==> exists|i: int|
            0 <= i < triggers.len() && encode_utf8(word).len() == encode_utf8(#[trigger] triggers[i]).len()
                && word_matches(word, triggers[i], false),
{
    assert forall|i: int| 0 <= i < triggers.len() implies is_trigger(#[trigger] triggers[i], triggers, true)
        && is_trigger(triggers[i], triggers, false) by {
        law_trigger_match_is_whole_word(triggers[i], triggers[i]);
        assert(word_matches(triggers[i], triggers[i], true));
    }
    if is_trigger(word, triggers, false) {
        let i = choose|i: int| 0 <= i < triggers.len() && word_matches(word, #[trigger] triggers[i], false);
        law_trigger_match_is_whole_word(word, triggers[i]);
    }
}

/// What the hook learns of a key press from the system.
pub struct KeyEvent {
    /// The virtual-key code of the key pressed.
    pub vk: u32,
    /// Another thread asked for the buffer to be wiped.
    pub clear_requested: bool,
    /// The states of Ctrl, Alt and the two Windows keys.
    pub ctrl: i16,
    pub alt: i16,
    pub lwin: i16,
    pub rwin: i16,
    /// The foreground window.
    pub window: usize,
    /// The foreground window's title marks it as sensitive.
    pub window_blacklisted: bool,
    /// The focused control is a password field.
    pub password_field: bool,
}

/// What the hook did with a key press.
pub enum KeyOutcome {
    /// Nothing to report.
    Passed,
    /// A letter was added to the word.
    LetterTyped,
    /// A word boundary ended a trigger word.
    Triggered {
        /// The word that was typed.
        word: String,
        /// Whether the sound is to be played.
        play_sound: bool,
    },
}

/// The state kept between key presses: the word buffer and the window that
/// had the focus at the last key press.
pub struct KeyHook {
    buffer: WordBuffer,
    last_window: usize,
}

impl KeyHook {
    /// The hook's invariant is that of its buffer.
    pub closed spec fn well_formed(&self) -> bool {
        self.buffer.well_formed()
    }

    /// The bytes of the word typed so far.
    pub closed spec fn word(&self) -> Seq<u8> {
        self.buffer@
    }

    /// The window that had the focus at the last key press.
    pub closed spec fn window(&self) -> usize {
        self.last_window
    }

    /// The storage of the word buffer.
    pub closed spec fn storage(&self) -> Seq<u8> {
        self.buffer.storage()
    }

    /// Nothing but the word is ever kept: the buffer's storage holds the
    /// word followed by zeros, so every key press that empties the word (a
    /// word boundary, a focus change, a digit, a symbol, a navigation key, a
    /// sensitive window or a password field) leaves the storage zeroed.
    pub proof fn lemma_storage_holds_only_word(&self)
        requires
            self.well_formed(),
        ensures
            self.word().len() <= BUFFER_SIZE,
            self.storage() == self.word() + Seq::new(
                (BUFFER_SIZE - self.word().len()) as nat,
                |i: int| 0u8,
            ),
            self.word().len() == 0 ==> self.storage() == WordBuffer::zeroed(),
    {
        self.buffer.lemma_storage_holds_only_word();
    }

    /// A hook with an empty, zeroed buffer and no window seen yet.
    pub fn new() -> (r: KeyHook)
        ensures
            r.well_formed(),
            r.word() == Seq::<u8>::empty(),
            r.window() == 0,
            r.storage() == WordBuffer::zeroed(),
    {
        KeyHook { buffer: WordBuffer::new(), last_window: 0 }
    }

    /// A hook that continues with the given buffer, no window seen yet.
    pub fn with_buffer(buffer: WordBuffer) -> (r: KeyHook)
        requires
            buffer.well_formed(),
        ensures
            r.well_formed(),
            r.word() == buffer@,
            r.storage() == buffer.storage(),
            r.window() == 0,
    {
        KeyHook { buffer, last_window: 0 }
    }

    /// The word buffer.
    pub fn buffer(&self) -> (r: &WordBuffer)
        requires
            self.well_formed(),
        ensures
            r.well_formed(),
            r@ == self.word(),
            r.storage() == self.storage(),
    {
        &self.buffer
    }

    /// Wipes the word buffer.
    pub fn clear(&mut self)
        requires
            old(self).well_formed(),
        ensures
            final(self).well_formed(),
            final(self).word() == Seq::<u8>::empty(),
            final(self).storage() == WordBuffer::zeroed(),
            final(self).window() == old(self).window(),
    {
        self.buffer.clear();
    }

    /// Handles one key press: wipes the buffer on request; ignores keys
    /// pressed with Ctrl, Alt or a Windows key; wipes the buffer when the
    /// focus moved, and ignores keys typed into a sensitive window or a
    /// password field; otherwise adds letters, ends the word at a boundary
    /// key (reporting it when it is a trigger word and settings are loaded),
    /// removes the last letter on Backspace, and wipes the buffer on digits,
    /// symbols and navigation keys.
    pub fn on_key_down(&mut self, ev: &KeyEvent, config: Option<&Config>, audio_enabled: bool) -> (r:
        KeyOutcome)
        requires
            old(self).well_formed(),
        ensures
            final(self).well_formed(),
            ({
                let w1 = if ev.clear_requested {
                    Seq::<u8>::empty()
                } else {
                    old(self).word()
                };
                let w2 = if ev.window != old(self).window() {
                    Seq::<u8>::empty()
                } else {
                    w1
                };
                if spec_modifier_held(ev.ctrl, ev.alt, ev.lwin, ev.rwin) {
                    &&& final(self).word() == w1
                    &&& final(self).window() == old(self).window()
                    &&& r is Passed
                } else if ev.window_blacklisted || ev.password_field {
                    &&& final(self).word() == Seq::<u8>::empty()
                    &&& final(self).window() == ev.window
                    &&& r is Passed
                } else {
                    &&& final(self).word() == word_after_key(w2, ev.vk, boundary_keys_of(config))
                    &&& final(self).window() == ev.window
                    &&& (r is LetterTyped <==> spec_is_letter(ev.vk))
                    &&& (r is Triggered <==> !spec_is_letter(ev.vk) && spec_is_word_boundary(
                        ev.vk,
                        boundary_keys_of(config),
                    ) && completes_trigger(config, w2))
                    &&& (r matches KeyOutcome::Triggered { word, play_sound } ==> word@
                        == decode_utf8(w2) && play_sound == audio_enabled)
                }
            }),
    {
        if ev.clear_requested {
            self.buffer.clear();
        }
        if modifier_held(ev.ctrl, ev.alt, ev.lwin, ev.rwin) {
            return KeyOutcome::Passed;
        }
        if ev.window != self.last_window {
            self.last_window = ev.window;
            self.buffer.clear();
        }
        if ev.window_blacklisted {
            self.buffer.clear();
            return KeyOutcome::Passed;
        }
        if ev.password_field {
            self.buffer.clear();
            return KeyOutcome::Passed;
        }
        let vk: u32 = ev.vk;
        let keys: Option<&Vec<u16>> = match config {
            Some(c) => Some(&c.triggers.boundary_vkeys),
            None => None,
        };
        assert(keys_view(keys) == boundary_keys_of(config));
        if is_letter(vk) {
            self.buffer.push_byte(letter_byte(vk));
            KeyOutcome::LetterTyped
        } else if is_word_boundary(vk, keys) {
            let mut outcome: KeyOutcome = KeyOutcome::Passed;
            if let Some(word) = self.buffer.as_str() {
                if let Some(c) = config {
                    if matches_trigger(word, &c.triggers) {
                        outcome = KeyOutcome::Triggered {
                            word: word.to_owned(),
                            play_sound: audio_enabled,
                        };
                    }
                }
            }
            self.buffer.clear();
            outcome
        } else {
            let v: u16 = #[verifier::truncate] (vk as u16);
            if v == VK_BACK {
                self.buffer.pop();
            } else if is_digit_or_symbol(vk) || is_navigation_key(vk) {
                self.buffer.clear();
            }
            KeyOutcome::Passed
        }
    }
}

/// Whether two byte strings are equal once ASCII letters are put in lower
/// case.
pub fn bytes_equal_ignore_ascii_case(a: &[u8], b: &[u8]) -> (r: bool)
    ensures
        r == bytes_eq_ignore_ascii_case(a@, b@),
{
    if a.len() != b.len() {
        return false;
    }
    let n: usize = a.len();
    let mut i: usize = 0;
    while i < n
        invariant
            n == a@.len(),
            n == b@.len(),
            i <= n,
            forall|j: int| 0 <= j < i ==> ascii_lower(#[trigger] a@[j]) == ascii_lower(b@[j]),
        decreases n - i,
    {
        let x: u8 = a[i];
        let y: u8 = b[i];
        let lx: u8 = if 65 <= x && x <= 90 { x + 32 } else { x };
        let ly: u8 = if 65 <= y && y <= 90 { y + 32 } else { y };
        if lx != ly {
            return false;
        }
        i = i + 1;
    }
    true
}

/// Whether two byte strings are equal.
pub fn bytes_equal(a: &[u8], b: &[u8]) -> (r: bool)
    ensures
        r == (a@ == b@),
{
    if a.len() != b.len() {
        return false;
    }
    let n: usize = a.len();
    let mut i: usize = 0;
    while i < n
        invariant
            n == a@.len(),
            n == b@.len(),
            i <= n,
            forall|j: int| 0 <= j < i ==> a@[j] == b@[j],
        decreases n - i,
    {
        if a[i] != b[i] {
            return false;
        }
        i = i + 1;
    }
    assert(a@ =~= b@);
    true
}

/// Whether a typed word matches a trigger word.
pub fn word_matches_trigger(word: &str, trigger: &str, case_sensitive: bool) -> (r: bool)
    ensures
        r == word_matches(word@, trigger@, case_sensitive),
{
    let a: &[u8] = word.as_bytes();
    let b: &[u8] = trigger.as_bytes();
    if case_sensitive {
        let r: bool = bytes_equal(a, b);
        proof {
            encode_utf8_decode_utf8(word@);
            encode_utf8_decode_utf8(trigger@);
        }
        r
    } else {
        bytes_equal_ignore_ascii_case(a, b)
    }
}

/// Whether a typed word matches one of the trigger words.
pub fn matches_trigger(word: &str, triggers: &TriggerConfig) -> (r: bool)
    ensures
        r == is_trigger(
            word@,
            triggers.words@.map_values(|t: String| t@),
            triggers.case_sensitive,
        ),
{
    let ghost ts = triggers.words@.map_values(|t: String| t@);
    let n: usize = triggers.words.len();
    let mut i: usize = 0;
    while i < n
        invariant
            n == triggers.words@.len(),
            ts == triggers.words@.map_values(|t: String| t@),
            i <= n,
            forall|j: int| 0 <= j < i ==> !word_matches(word@, #[trigger] ts[j], triggers.case_sensitive),
        decreases n - i,
    {
        if word_matches_trigger(word, triggers.words[i].as_str(), triggers.case_sensitive) {
            assert(word_matches(word@, ts[i as int], triggers.case_sensitive));
            return true;
        }
        i = i + 1;
    }
    false
}

} // verus!
