//! Sensitive windows: the title blacklist, and the decisions of the thread
//! that watches the focused window and control.

use vstd::prelude::*;
use crate::text::{chars_equal, lower_text, text_chars, to_lowercase};

verus! {

broadcast use vstd::seq::group_seq_axioms;

/// Words that mark a window title as belonging to a password manager, a
/// login page or another place where secrets are typed.
pub open spec fn blacklist_keywords() -> Seq<Seq<char>> {
    seq![
        "password"@,
        "login"@,
        "sign in"@,
        "credentials"@,
        "bitwarden"@,
        "1password"@,
        "keepass"@,
        "lastpass"@,
        "vault"@,
        "unlock"@,
        "master password"@,
        "encryption key"@,
        "private key"@,
        "secret key"@,
        "otp"@,
        "2fa"@,
        "authenticator"@,
    ]
}

/// The blacklist keywords, in order.
pub fn blacklist_keyword_list() -> (r: Vec<&'static str>)
    ensures
        r@.map_values(|k: &str| k@) == blacklist_keywords(),
{
    let mut v: Vec<&'static str> = Vec::new();
    v.push("password");
    v.push("login");
    v.push("sign in");
    v.push("credentials");
    v.push("bitwarden");
    v.push("1password");
    v.push("keepass");
    v.push("lastpass");
    v.push("vault");
    v.push("unlock");
    v.push("master password");
    v.push("encryption key");
    v.push("private key");
    v.push("secret key");
    v.push("otp");
    v.push("2fa");
    v.push("authenticator");
    assert(v@.map_values(|k: &str| k@) =~= blacklist_keywords());
    v
}

/// The needle occurs in the text at the position.
pub open spec fn occurs_at(hay: Seq<char>, needle: Seq<char>, k: int) -> bool {
    0 <= k && k + needle.len() <= hay.len() && hay.subrange(k, k + needle.len()) == needle
}

/// The needle occurs somewhere in the text.
pub open spec fn contains_text(hay: Seq<char>, needle: Seq<char>) -> bool {
    exists|k: int| #[trigger] occurs_at(hay, needle, k)
}

/// A lower-case window title that holds one of the blacklist keywords.
pub open spec fn lower_title_is_sensitive(lower: Seq<char>) -> bool {
    exists|i: int|
        0 <= i < blacklist_keywords().len() && contains_text(
            lower,
            #[trigger] blacklist_keywords()[i],
        )
}

/// A window title is sensitive exactly when it is not empty and its
/// lower-case form holds one of the words password, login, sign in,
/// credentials, bitwarden, 1password, keepass, lastpass, vault, unlock,
/// master password, encryption key, private key, secret key, otp, 2fa or
/// authenticator.
pub proof fn law_sensitive_titles(units: Seq<u16>)
    ensures
        title_is_sensitive(units) <==> units.len() > 0 && {
            let lower = lower_text(utf16_lossy(units));
            ||| contains_text(lower, "password"@)
            ||| contains_text(lower, "login"@)
            ||| contains_text(lower, "sign in"@)
            ||| contains_text(lower, "credentials"@)
            ||| contains_text(lower, "bitwarden"@)
            ||| contains_text(lower, "1password"@)
            ||| contains_text(lower, "keepass"@)
            ||| contains_text(lower, "lastpass"@)
            ||| contains_text(lower, "vault"@)
            ||| contains_text(lower, "unlock"@)
            ||| contains_text(lower, "master password"@)
            ||| contains_text(lower, "encryption key"@)
            ||| contains_text(lower, "private key"@)
            ||| contains_text(lower, "secret key"@)
            ||| contains_text(lower, "otp"@)
            ||| contains_text(lower, "2fa"@)
            ||| contains_text(lower, "authenticator"@)
        },
{
    let lower = lower_text(utf16_lossy(units));
    let ks = blacklist_keywords();
    assert(ks[0] == "password"@);
    assert(ks[1] == "login"@);
    assert(ks[2] == "sign in"@);
    assert(ks[3] == "credentials"@);
    assert(ks[4] == "bitwarden"@);
    assert(ks[5] == "1password"@);
    assert(ks[6] == "keepass"@);
    assert(ks[7] == "lastpass"@);
    assert(ks[8] == "vault"@);
    assert(ks[9] == "unlock"@);
    assert(ks[10] == "master password"@);
    assert(ks[11] == "encryption key"@);
    assert(ks[12] == "private key"@);
    assert(ks[13] == "secret key"@);
    assert(ks[14] == "otp"@);
    assert(ks[15] == "2fa"@);
    assert(ks[16] == "authenticator"@);
    if lower_title_is_sensitive(lower) {
        let i = choose|i: int| 0 <= i < ks.len() && contains_text(lower, #[trigger] ks[i]);
    }
}

/// The replacement character that stands for invalid UTF-16.
pub open spec fn replacement_char() -> char {
    '\u{fffd}'
}

/// `String::from_utf16_lossy`: UTF-16 decoded, with each unpaired surrogate
/// replaced by U+FFFD.
pub open spec fn utf16_lossy(units: Seq<u16>) -> Seq<char>
    decreases units.len(),
{
    if units.len() == 0 {
        Seq::<char>::empty()
    } else {
        let u: u16 = units[0];
        if u < 0xd800 || u > 0xdfff {
            seq![u as char] + utf16_lossy(units.drop_first())
        } else if u <= 0xdbff && units.len() >= 2 && 0xdc00 <= units[1] <= 0xdfff {
            seq![
                (0x10000 + (u - 0xd800) * 0x400 + (units[1] - 0xdc00)) as char,
            ] + utf16_lossy(units.subrange(2, units.len() as int))
        } else {
            seq![replacement_char()] + utf16_lossy(units.drop_first())
        }
    }
}

/// How a window title's UTF-16 is read: units that are not surrogates are
/// the characters of their values, one for one; a high surrogate followed
/// by a low one is the one character above U+FFFF that the pair encodes;
/// a low surrogate first, or a high surrogate not followed by a low one,
/// is read as U+FFFD and reading goes on with the next unit.
pub proof fn law_utf16_titles(units: Seq<u16>, hi: u16, lo: u16, rest: Seq<u16>)
    ensures
        (forall|i: int| 0 <= i < units.len() ==> !(0xd800 <= #[trigger] units[i] <= 0xdfff))
            ==> utf16_lossy(units).len() == units.len() && forall|i: int|
            0 <= i < units.len() ==> #[trigger] utf16_lossy(units)[i] as u32 == units[i] as u32,
        0xd800 <= hi <= 0xdbff && 0xdc00 <= lo <= 0xdfff ==> utf16_lossy(seq![hi, lo] + rest)
            == seq![((hi as u32 - 0xd800) * 0x400 + (lo as u32 - 0xdc00) + 0x10000) as char]
            + utf16_lossy(rest),
        0xdc00 <= lo <= 0xdfff ==> utf16_lossy(seq![lo] + rest) == seq!['\u{fffd}'] + utf16_lossy(
            rest,
        ),
        0xd800 <= hi <= 0xdbff && !(rest.len() > 0 && 0xdc00 <= rest[0] <= 0xdfff)
            ==> utf16_lossy(seq![hi] + rest) == seq!['\u{fffd}'] + utf16_lossy(rest),
{
    lemma_utf16_plain(units);
    let p = seq![hi, lo] + rest;
    assert(p.subrange(2, p.len() as int) =~= rest);
    assert((seq![lo] + rest).drop_first() =~= rest);
    assert((seq![hi] + rest).drop_first() =~= rest);
}

/// Units that are not surrogates are read one for one.
proof fn lemma_utf16_plain(units: Seq<u16>)
    ensures
        (forall|i: int| 0 <= i < units.len() ==> !(0xd800 <= #[trigger] units[i] <= 0xdfff))
            ==> utf16_lossy(units).len() == units.len() && forall|i: int|
            0 <= i < units.len() ==> #[trigger] utf16_lossy(units)[i] as u32 == units[i] as u32,
    decreases units.len(),
{
    if units.len() > 0 && forall|i: int| 0 <= i < units.len() ==> !(0xd800 <= #[trigger] units[i] <= 0xdfff) {
        let t = units.drop_first();
        assert forall|i: int| 0 <= i < t.len() implies !(0xd800 <= #[trigger] t[i] <= 0xdfff) by {
            assert(t[i] == units[i + 1]);
        }
        lemma_utf16_plain(t);
        let r = utf16_lossy(units);
        assert(!(0xd800 <= units[0] <= 0xdfff));
        assert(r == seq![units[0] as char] + utf16_lossy(t));
        assert forall|i: int| 0 <= i < units.len() implies #[trigger] r[i] as u32 == units[i] as u32 by {
            if i > 0 {
                assert(r[i] == utf16_lossy(t)[i - 1]);
                assert(t[i - 1] == units[i]);
            }
        }
    }
}

/// A window title, given as UTF-16, that marks the window as sensitive: a
/// non-empty title whose lower-case form holds a blacklist keyword.
pub open spec fn title_is_sensitive(units: Seq<u16>) -> bool {
    units.len() > 0 && lower_title_is_sensitive(lower_text(utf16_lossy(units)))
}

/// The character of a Unicode scalar value.
///
/// Trusted: calls `char::from_u32`, documented to return `Some` for every
/// value outside the surrogate range up to 0x10FFFF; the contract claims
/// that the character has the given value.
#[verifier::external_body]
fn scalar_char(v: u32) -> (r: char)
    requires
        v <= 0xd7ff || (0xe000 <= v <= 0x10ffff),
    ensures
        r == v as char,
{
    char::from_u32(v).unwrap()
}

/// Decodes UTF-16, replacing each unpaired surrogate by U+FFFD.
pub fn decode_utf16_lossy(units: &[u16]) -> (r: Vec<char>)
    ensures
        r@ == utf16_lossy(units@),
{
    let n: usize = units.len();
    let mut out: Vec<char> = Vec::new();
    let mut i: usize = 0;
    assert(units@.subrange(0, n as int) =~= units@);
    while i < n
        invariant
            n == units@.len(),
            i <= n,
            out@ + utf16_lossy(units@.subrange(i as int, n as int)) == utf16_lossy(units@),
        decreases n - i,
    {
        let ghost rest = units@.subrange(i as int, n as int);
        let u: u16 = units[i];
        assert(rest[0] == u);
        if u < 0xd800 || u > 0xdfff {
            let c: char = scalar_char(u as u32);
            assert(rest.drop_first() =~= units@.subrange(i + 1, n as int));
            out.push(c);
            assert(out@ + utf16_lossy(units@.subrange(i + 1, n as int)) =~= utf16_lossy(units@));
            i = i + 1;
        } else if u <= 0xdbff && i + 1 < n && 0xdc00 <= units[i + 1] && units[i + 1] <= 0xdfff {
            let lo: u16 = units[i + 1];
            assert(rest[1] == lo);
            let v: u32 = 0x10000 + ((u as u32) - 0xd800) * 0x400 + ((lo as u32) - 0xdc00);
            let c: char = scalar_char(v);
            assert(rest.subrange(2, rest.len() as int) =~= units@.subrange(i + 2, n as int));
            out.push(c);
            assert(out@ + utf16_lossy(units@.subrange(i + 2, n as int)) =~= utf16_lossy(units@));
            i = i + 2;
        } else {
            assert(rest.drop_first() =~= units@.subrange(i + 1, n as int));
            out.push('\u{fffd}');
            assert(out@ + utf16_lossy(units@.subrange(i + 1, n as int)) =~= utf16_lossy(units@));
            i = i + 1;
        }
    }
    assert(units@.subrange(n as int, n as int) =~= Seq::<u16>::empty());
    assert(out@ + Seq::<char>::empty() =~= out@);
    out
}

/// Whether the needle occurs in the text.
pub fn contains_chars(hay: &[char], needle: &[char]) -> (r: bool)
    ensures
        r == contains_text(hay@, needle@),
{
    let n: usize = hay.len();
    let m: usize = needle.len();
    if m > n {
        assert forall|k: int| !#[trigger] occurs_at(hay@, needle@, k) by {}
        return false;
    }
    if m == 0 {
        assert(hay@.subrange(0, 0) =~= needle@);
        assert(occurs_at(hay@, needle@, 0));
        return true;
    }
    let mut k: usize = 0;
    while k <= n - m
        invariant
            n == hay@.len(),
            m == needle@.len(),
            0 < m <= n,
            k <= n - m + 1,
            forall|j: int| 0 <= j < k ==> !#[trigger] occurs_at(hay@, needle@, j),
        decreases n - m + 1 - k,
    {
        let window: &[char] = &hay[k..k + m];
        if chars_equal(window, needle) {
            assert(occurs_at(hay@, needle@, k as int));
            return true;
        }
        k = k + 1;
    }
    assert forall|j: int| !#[trigger] occurs_at(hay@, needle@, j) by {
        if 0 <= j && j + m <= n {
            assert(j < k);
        }
    }
    false
}

/// Whether a lower-case window title holds a blacklist keyword.
pub fn lower_title_blacklisted(lower: &[char]) -> (r: bool)
    ensures
        r == lower_title_is_sensitive(lower@),
{
    let keywords: Vec<&'static str> = blacklist_keyword_list();
    let ghost kws = blacklist_keywords();
    let n: usize = keywords.len();
    let mut i: usize = 0;
    while i < n
        invariant
            n == kws.len(),
            kws == blacklist_keywords(),
            keywords@.map_values(|k: &str| k@) == kws,
            i <= n,
            forall|j: int| 0 <= j < i ==> !contains_text(lower@, #[trigger] kws[j]),
        decreases n - i,
    {
        let kw: Vec<char> = text_chars(keywords[i]);
        assert(kw@ == kws[i as int]);
        if contains_chars(lower, kw.as_slice()) {
            return true;
        }
        i = i + 1;
    }
    false
}

/// Whether a window title, as the UTF-16 text that the window reports,
/// marks the window as sensitive.
pub fn title_blacklisted(units: &[u16]) -> (r: bool)
    ensures
        r == title_is_sensitive(units@),
{
    if units.len() == 0 {
        return false;
    }
    let title: Vec<char> = decode_utf16_lossy(units);
    let lower: Vec<char> = to_lowercase(title.as_slice());
    lower_title_blacklisted(lower.as_slice())
}

/// What to do after a look at the foreground window.
pub struct WindowCheck {
    /// The word buffer is to be wiped: the focus moved to another window,
    /// or the window is sensitive.
    pub signal_clear: bool,
    /// The password-field flag is to be set: the window is sensitive.
    pub set_password_field: bool,
    /// The focused control is to be asked whether it is a password field:
    /// the window is not sensitive, so its control decides.
    pub query_control: bool,
}

/// What the watcher learned from the focused control.
pub struct ControlCheck {
    /// The value of the password-field flag.
    pub password_field: bool,
    /// The word buffer is to be wiped.
    pub signal_clear: bool,
}

/// The watcher's memory: the foreground window at the last check.
pub struct FocusWatcher {
    last_window: usize,
}

impl FocusWatcher {
    /// The foreground window at the last check.
    pub closed spec fn window(&self) -> usize {
        self.last_window
    }

    /// A watcher that has seen no window yet.
    pub fn new() -> (r: FocusWatcher)
        ensures
            r.window() == 0,
    {
        FocusWatcher { last_window: 0 }
    }

    /// Takes in the foreground window and whether its title is sensitive,
    /// and says what to do: a new window wipes the buffer; a sensitive one
    /// also sets the password-field flag and makes asking for the focused
    /// control needless.
    pub fn check_window(&mut self, window: usize, sensitive: bool) -> (r: WindowCheck)
        ensures
            final(self).window() == window,
            r.signal_clear == (window != old(self).window() || sensitive),
            r.set_password_field == sensitive,
            r.query_control == !sensitive,
    {
        let changed: bool = window != self.last_window;
        self.last_window = window;
        WindowCheck {
            signal_clear: changed || sensitive,
            set_password_field: sensitive,
            query_control: !sensitive,
        }
    }
}

/// Takes in whether the focused control is a password field (false when
/// that cannot be learned): the flag follows it, and a password field wipes
/// the buffer.
pub fn check_control(is_password: bool) -> (r: ControlCheck)
    ensures
        r.password_field == is_password,
        r.signal_clear == is_password,
{
    ControlCheck { password_field: is_password, signal_clear: is_password }
}

} // verus!
