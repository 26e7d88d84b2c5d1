//! The settings file: an INI-style text of `[section]` headers and
//! `key = value` lines, with `;` and `#` comments.
//!
//! Lines are split at `\n`; a line is trimmed of Unicode whitespace (which
//! also removes the `\r` of a `\r\n` ending) and skipped when it is then
//! empty, so an empty last piece after a final `\n` changes nothing.
//! A line that starts with `;` or `#` is a comment. In a value, a `;` after
//! whitespace begins a comment that runs to the end of the line, so
//! `path = a.wav   ; the sound` sets the path to `a.wav`. A value that opens
//! with a quote is read up to its closing quote before a comment is looked
//! for, so `path = "a ;b.wav"` sets the path to `a ;b.wav`; when that quote
//! is never closed, the value has no comment.

use vstd::prelude::*;
use vstd::utf8::is_ascii_chars;
use crate::text::{
    all_white_space, ascii_cased, chars_are, is_white_space, law_split_then_join, lemma_split_append, lemma_split_without_separator, lemma_trim_idempotent,
    lemma_trim_keeps_out, is_whitespace_char, lower_text, split_chars, split_on,
    text_chars, text_string, to_lowercase, trim, trim_chars,
};
use crate::vk_names::{parse_vk_chars, vk_code_of};

verus! {

broadcast use vstd::seq::group_seq_axioms;

/// Where the sound file lives.
pub struct SoundConfig {
    pub path: String,
}

/// Which words trigger the sound, and which keys end a word.
pub struct TriggerConfig {
    pub words: Vec<String>,
    pub case_sensitive: bool,
    pub boundary_vkeys: Vec<u16>,
}

/// Whether diagnostics are printed.
pub struct DebugConfig {
    pub enabled: bool,
}

/// The application's settings.
pub struct Config {
    pub sound: SoundConfig,
    pub triggers: TriggerConfig,
    pub debug: DebugConfig,
}

/// The settings as mathematical values.
pub struct ConfigModel {
    pub sound_path: Seq<char>,
    pub words: Seq<Seq<char>>,
    pub case_sensitive: bool,
    pub boundary_vkeys: Seq<u16>,
    pub debug_enabled: bool,
}

/// The parser's state after some lines: the current section, in lower
/// case, and the settings read so far.
pub struct ParseState {
    pub section: Seq<char>,
    pub config: ConfigModel,
}

impl Config {
    /// The settings as mathematical values.
    pub open spec fn model(&self) -> ConfigModel {
        ConfigModel {
            sound_path: self.sound.path@,
            words: self.triggers.words@.map_values(|w: String| w@),
            case_sensitive: self.triggers.case_sensitive,
            boundary_vkeys: self.triggers.boundary_vkeys@,
            debug_enabled: self.debug.enabled,
        }
    }
}

/// The settings that hold where the file says nothing: the bundled sound,
/// the single trigger word "proceed", case-insensitive matching, Space,
/// Enter and Tab as word boundaries, and no diagnostics.
pub open spec fn default_model() -> ConfigModel {
    ConfigModel {
        sound_path: "sounds/snd_ominous_music.wav"@,
        words: seq!["proceed"@],
        case_sensitive: false,
        boundary_vkeys: seq![32u16, 13u16, 9u16],
        debug_enabled: false,
    }
}

/// The state before the first line: no section, default settings.
pub open spec fn initial_state() -> ParseState {
    ParseState { section: Seq::<char>::empty(), config: default_model() }
}

/// The position of the first occurrence of a character.
pub open spec fn first_index_of(s: Seq<char>, c: char) -> Option<int>
    decreases s.len(),
{
    if s.len() == 0 {
        None
    } else if s[0] == c {
        Some(0)
    } else {
        match first_index_of(s.drop_first(), c) {
            Some(i) => Some(i + 1),
            None => None,
        }
    }
}

/// The first position from `i` on that holds no whitespace (the value's
/// length when there is none).
pub open spec fn skip_white_space(v: Seq<char>, i: int) -> int
    decreases v.len() - i,
{
    if 0 <= i < v.len() && is_white_space(v[i]) {
        skip_white_space(v, i + 1)
    } else {
        i
    }
}

/// A quote character.
pub open spec fn is_quote(c: char) -> bool {
    c == '"' || c == '\''
}

/// Where the search for a comment in a value begins: after the closing quote
/// when the value opens with a quote, at the value's end when that quote is
/// never closed, and at the value's first non-whitespace character
/// otherwise.
pub open spec fn comment_search_start(v: Seq<char>) -> int {
    let j = skip_white_space(v, 0);
    if j < v.len() && is_quote(v[j]) {
        match first_index_of(v.skip(j + 1), v[j]) {
            Some(k) => j + k + 2,
            None => v.len() as int,
        }
    } else {
        j
    }
}

/// A comment begins at this position of a value: a `;` after whitespace.
pub open spec fn starts_comment(v: Seq<char>, i: int) -> bool {
    v[i] == ';' && i > 0 && is_white_space(v[i - 1])
}

/// The position where the first comment of a value begins, looking from
/// position `i` on; the value's length when there is none.
pub open spec fn comment_start(v: Seq<char>, i: int) -> int
    decreases v.len() - i,
{
    if i >= v.len() {
        v.len() as int
    } else if i >= 0 && starts_comment(v, i) {
        i
    } else {
        comment_start(v, i + 1)
    }
}

/// The text after `=` without its trailing comment.
pub open spec fn strip_comment(v: Seq<char>) -> Seq<char> {
    v.take(comment_start(v, comment_search_start(v)))
}

/// A value enclosed in a pair of double or of single quotes (one quote
/// character alone counts as both ends).
pub open spec fn is_quoted(v: Seq<char>) -> bool {
    v.len() > 0 && ((v[0] == '"' && v.last() == '"') || (v[0] == '\'' && v.last() == '\''))
}

/// A value without its enclosing quotes.
pub open spec fn unquote(v: Seq<char>) -> Seq<char> {
    if is_quoted(v) && v.len() >= 2 {
        v.subrange(1, v.len() - 1)
    } else {
        v
    }
}

/// A trimmed line that is ignored: empty, or a comment.
pub open spec fn is_blank_or_comment(line: Seq<char>) -> bool {
    line.len() == 0 || line[0] == ';' || line[0] == '#'
}

/// A trimmed line that opens a section.
pub open spec fn is_section_header(line: Seq<char>) -> bool {
    line.len() > 0 && line[0] == '[' && line.last() == ']'
}

/// A `key = value` line whose value is one quote character, which would be
/// both the opening and the closing quote: no unquoted value exists, and a
/// settings file with such a line is not read.
pub open spec fn line_panics(raw: Seq<char>) -> bool {
    let line = trim(raw);
    &&& !is_blank_or_comment(line)
    &&& !is_section_header(line)
    &&& first_index_of(line, '=') matches Some(pos) && {
        let v = trim(strip_comment(line.skip(pos + 1)));
        is_quoted(v) && v.len() == 1
    }
}

/// A settings file with a line whose value is one quote character.
pub open spec fn text_panics(text: Seq<char>) -> bool {
    exists|i: int| 0 <= i < split_on(text, '\n').len() && line_panics(#[trigger] split_on(text, '\n')[i])
}

/// A yes/no value: "true" in any case, or "1".
pub open spec fn flag_of(val: Seq<char>, val_lower: Seq<char>) -> bool {
    val_lower == "true"@ || val == "1"@
}

/// The trimmed pieces that are not empty.
pub open spec fn nonempty_trimmed(pieces: Seq<Seq<char>>) -> Seq<Seq<char>>
    decreases pieces.len(),
{
    if pieces.len() == 0 {
        Seq::<Seq<char>>::empty()
    } else {
        let before = nonempty_trimmed(pieces.drop_last());
        if trim(pieces.last()).len() > 0 {
            before.push(trim(pieces.last()))
        } else {
            before
        }
    }
}

/// The key codes that the trimmed pieces name, skipping the others.
pub open spec fn named_codes(pieces: Seq<Seq<char>>) -> Seq<u16>
    decreases pieces.len(),
{
    if pieces.len() == 0 {
        Seq::<u16>::empty()
    } else {
        let before = named_codes(pieces.drop_last());
        match vk_code_of(trim(pieces.last())) {
            Some(code) => before.push(code),
            None => before,
        }
    }
}

/// The settings after one `key = value` line of a section; the key and the
/// section are in lower case.
pub open spec fn apply_setting(
    cfg: ConfigModel,
    section: Seq<char>,
    key: Seq<char>,
    val: Seq<char>,
) -> ConfigModel {
    if section == "sound"@ && key == "path"@ {
        ConfigModel { sound_path: val, ..cfg }
    } else if section == "triggers"@ && key == "words"@ {
        ConfigModel { words: nonempty_trimmed(split_on(val, ',')), ..cfg }
    } else if section == "triggers"@ && key == "case_sensitive"@ {
        ConfigModel { case_sensitive: flag_of(val, lower_text(val)), ..cfg }
    } else if section == "triggers"@ && key == "boundary_keys"@ {
        let parsed = named_codes(split_on(val, ','));
        if parsed.len() > 0 {
            ConfigModel { boundary_vkeys: parsed, ..cfg }
        } else {
            cfg
        }
    } else if section == "debug"@ && key == "enabled"@ {
        ConfigModel { debug_enabled: flag_of(val, lower_text(val)), ..cfg }
    } else {
        cfg
    }
}

/// The parser's state after one more line.
pub open spec fn apply_line(st: ParseState, raw: Seq<char>) -> ParseState {
    let line = trim(raw);
    if is_blank_or_comment(line) {
        st
    } else if is_section_header(line) {
        ParseState { section: lower_text(trim(line.subrange(1, line.len() - 1))), ..st }
    } else {
        match first_index_of(line, '=') {
            None => st,
            Some(pos) => ParseState {
                config: apply_setting(
                    st.config,
                    st.section,
                    lower_text(trim(line.take(pos))),
                    unquote(trim(strip_comment(line.skip(pos + 1)))),
                ),
                ..st
            },
        }
    }
}

/// The parser's state after the given lines, in order.
pub open spec fn parse_lines(lines: Seq<Seq<char>>) -> ParseState
    decreases lines.len(),
{
    if lines.len() == 0 {
        initial_state()
    } else {
        apply_line(parse_lines(lines.drop_last()), lines.last())
    }
}

/// The settings that a settings file holds.
pub open spec fn config_from_text(text: Seq<char>) -> ConfigModel {
    parse_lines(split_on(text, '\n')).config
}

/// `first_index_of` is the first position that holds the character.
proof fn lemma_first_index_of(s: Seq<char>, c: char, i: int)
    requires
        0 <= i <= s.len(),
        forall|j: int| 0 <= j < i ==> s[j] != c,
    ensures
        i < s.len() && s[i] == c ==> first_index_of(s, c) == Some(i),
        i == s.len() ==> first_index_of(s, c) is None,
    decreases i,
{
    if i > 0 {
        lemma_first_index_of(s.drop_first(), c, i - 1);
    }
}


/// Lines that are all blank or comments leave the parser where it started.
proof fn lemma_blank_lines_change_nothing(lines: Seq<Seq<char>>)
    requires
        forall|i: int| 0 <= i < lines.len() ==> is_blank_or_comment(trim(#[trigger] lines[i])),
    ensures
        parse_lines(lines) == initial_state(),
    decreases lines.len(),
{
    if lines.len() > 0 {
        lemma_blank_lines_change_nothing(lines.drop_last());
        assert(is_blank_or_comment(trim(lines[lines.len() - 1])));
    }
}

/// Whitespace in front of a character that is not whitespace is skipped
/// up to that character.
proof fn lemma_skip_white_space_prefix(pre: Seq<char>, rest: Seq<char>, i: int)
    requires
        all_white_space(pre),
        rest.len() > 0,
        !is_white_space(rest[0]),
        0 <= i <= pre.len(),
    ensures
        skip_white_space(pre + rest, i) == pre.len(),
    decreases pre.len() - i,
{
    let v = pre + rest;
    if i < pre.len() {
        assert(v[i] == pre[i]);
        lemma_skip_white_space_prefix(pre, rest, i + 1);
    } else {
        assert(v[i] == rest[0]);
    }
}

/// The first occurrence of a character that the text before it does not
/// hold is right after that text.
proof fn lemma_first_index_after(x: Seq<char>, c: char, rest: Seq<char>)
    requires
        !x.contains(c),
    ensures
        first_index_of(x.push(c) + rest, c) == Some(x.len() as int),
    decreases x.len(),
{
    let v = x.push(c) + rest;
    if x.len() > 0 {
        assert(x[0] != c);
        assert(v.drop_first() =~= x.drop_first().push(c) + rest);
        assert(!x.drop_first().contains(c)) by {
            if x.drop_first().contains(c) {
                let j = choose|j: int| 0 <= j < x.drop_first().len() && x.drop_first()[j] == c;
                assert(x[j + 1] == c);
            }
        }
        lemma_first_index_after(x.drop_first(), c, rest);
    }
}

/// No comment begins between two positions that hold no `;`.
proof fn lemma_comment_start_skip(v: Seq<char>, i: int, k: int)
    requires
        0 <= i <= k <= v.len(),
        forall|j: int| i <= j < k ==> v[j] != ';',
    ensures
        comment_start(v, i) == comment_start(v, k),
    decreases k - i,
{
    if i < k {
        lemma_comment_start_skip(v, i + 1, k);
    }
}

/// The search for a comment begins inside the value or at its end.
proof fn lemma_comment_search_start_bounds(v: Seq<char>)
    ensures
        0 <= comment_search_start(v) <= v.len(),
{
    lemma_skip_white_space_bounds(v, 0);
    let j = skip_white_space(v, 0);
    if j < v.len() && is_quote(v[j]) {
        lemma_first_index_bounds(v.skip(j + 1), v[j]);
    }
}

proof fn lemma_skip_white_space_bounds(v: Seq<char>, i: int)
    requires
        0 <= i <= v.len(),
    ensures
        i <= skip_white_space(v, i) <= v.len(),
    decreases v.len() - i,
{
    if i < v.len() && is_white_space(v[i]) {
        lemma_skip_white_space_bounds(v, i + 1);
    }
}

proof fn lemma_first_index_bounds(s: Seq<char>, c: char)
    ensures
        first_index_of(s, c) matches Some(k) ==> 0 <= k < s.len(),
    decreases s.len(),
{
    if s.len() > 0 && s[0] != c {
        lemma_first_index_bounds(s.drop_first(), c);
    }
}

/// A `;` after whitespace starts a comment only outside quotes:
/// - a value with no `;` keeps all of it;
/// - a value that, after its leading whitespace, does not open with a
///   quote and is followed by whitespace, a `;` and anything, loses the
///   `;` and all that follows it;
/// - a value in quotes, after leading whitespace, keeps all that is
///   between the quotes, `;` included.
pub proof fn law_inline_comments(pre: Seq<char>, x: Seq<char>, w: char, rest: Seq<char>, q: char)
    requires
        all_white_space(pre),
    ensures
        !x.contains(';') ==> strip_comment(x) == x,
        !x.contains(';') && x.len() > 0 && !is_white_space(x[0]) && x[0] != '"' && x[0] != '\''
            && is_white_space(w) ==> strip_comment(pre + x + seq![w, ';'] + rest) == pre + x
            + seq![w],
        (q == '"' || q == '\'') && !x.contains(q) ==> strip_comment(pre + seq![q] + x + seq![q])
            == pre + seq![q] + x + seq![q],
{
    if !x.contains(';') {
        lemma_comment_search_start_bounds(x);
        lemma_comment_start_skip(x, comment_search_start(x), x.len() as int);
        assert(x.take(x.len() as int) =~= x);
        if x.len() > 0 && !is_white_space(x[0]) && x[0] != '"' && x[0] != '\'' && is_white_space(w) {
            let v = pre + x + seq![w, ';'] + rest;
            let j = pre.len() as int;
            let p = j + x.len() + 1;
            assert(v =~= pre + (x + seq![w, ';'] + rest));
            assert((x + seq![w, ';'] + rest)[0] == x[0]);
            lemma_skip_white_space_prefix(pre, x + seq![w, ';'] + rest, 0);
            assert(v[j] == x[0]);
            assert(comment_search_start(v) == j);
            assert forall|k: int| j <= k < p implies v[k] != ';' by {
                if k < j + x.len() {
                    assert(v[k] == x[k - j]);
                } else {
                    assert(v[k] == w);
                }
            }
            lemma_comment_start_skip(v, j, p);
            assert(v[p] == ';' && v[p - 1] == w);
            assert(starts_comment(v, p));
            assert(v.take(p) =~= pre + x + seq![w]);
        }
    }
    if (q == '"' || q == '\'') && !x.contains(q) {
        let v = pre + seq![q] + x + seq![q];
        let j = pre.len() as int;
        assert(v =~= pre + (seq![q] + x + seq![q]));
        lemma_skip_white_space_prefix(pre, seq![q] + x + seq![q], 0);
        assert(v[j] == q);
        assert(v.skip(j + 1) =~= x.push(q) + Seq::<char>::empty());
        lemma_first_index_after(x, q, Seq::<char>::empty());
        assert(comment_search_start(v) == v.len());
        assert(v.take(v.len() as int) =~= v);
    }
}

/// A value in a pair of double or of single quotes loses them, whatever is
/// between them; a value that does not open with a quote is kept as it is.
pub proof fn law_quotes(x: Seq<char>, q: char, v: Seq<char>)
    ensures
        (q == '"' || q == '\'') ==> unquote(seq![q] + x + seq![q]) == x,
        v.len() == 0 || (v[0] != '"' && v[0] != '\'') ==> unquote(v) == v,
{
    let t = seq![q] + x + seq![q];
    assert(t[0] == q && t.last() == q);
    assert(t.subrange(1, t.len() - 1) =~= x);
}

/// How one line of the settings file is read, once trimmed: an empty line
/// or one that starts with `;` or `#` changes nothing; `[name]` makes the
/// trimmed name, in lower case, the current section; a line with an `=`
/// (that is neither of these) sets the key before the first `=`, trimmed
/// and in lower case, in the current section to the value after it,
/// without its comment, trimmed and without its quotes; any other line
/// changes nothing.
pub proof fn law_settings_lines(st: ParseState, raw: Seq<char>, name: Seq<char>, key: Seq<char>, val: Seq<char>)
    ensures
        trim(raw).len() == 0 || trim(raw)[0] == ';' || trim(raw)[0] == '#' ==> apply_line(st, raw)
            == st,
        trim(raw) == seq!['['] + name + seq![']'] ==> apply_line(st, raw) == (ParseState {
            section: lower_text(trim(name)),
            ..st
        }),
        trim(raw) == key + seq!['='] + val && !key.contains('=') && key.len() > 0 && key[0] != ';'
            && key[0] != '#' && !(key[0] == '[' && val.len() > 0 && val.last() == ']')
            ==> apply_line(st, raw) == (ParseState {
            config: apply_setting(
                st.config,
                st.section,
                lower_text(trim(key)),
                unquote(trim(strip_comment(val))),
            ),
            ..st
        }),
        !trim(raw).contains('=') && !(trim(raw).len() > 0 && trim(raw)[0] == '[' && trim(raw).last()
            == ']') ==> apply_line(st, raw) == st,
{
    let line = trim(raw);
    if line == seq!['['] + name + seq![']'] {
        assert(line.subrange(1, line.len() - 1) =~= name);
    }
    if line == key + seq!['='] + val && !key.contains('=') && key.len() > 0 {
        assert(line =~= key.push('=') + val);
        lemma_first_index_after(key, '=', val);
        assert(line[0] == key[0]);
        assert(val.len() > 0 ==> line.last() == val.last());
        assert(val.len() == 0 ==> line.last() == '=');
        assert(line.take(key.len() as int) =~= key);
        assert(line.skip(key.len() as int + 1) =~= val);
    }
    if !line.contains('=') {
        lemma_first_index_none(line, '=');
    }
}

/// A character that the text does not hold is not found in it.
proof fn lemma_first_index_none(s: Seq<char>, c: char)
    requires
        !s.contains(c),
    ensures
        first_index_of(s, c) is None,
    decreases s.len(),
{
    if s.len() > 0 {
        assert(s[0] != c);
        assert(!s.drop_first().contains(c)) by {
            if s.drop_first().contains(c) {
                let j = choose|j: int| 0 <= j < s.drop_first().len() && s.drop_first()[j] == c;
                assert(s[j + 1] == c);
            }
        }
        lemma_first_index_none(s.drop_first(), c);
    }
}

/// A settings file is read line by line, in order: a line added at the end,
/// after a line break, is applied to the state that the file before it
/// left, so it overrides what earlier lines set.
pub proof fn law_lines_read_in_order(text: Seq<char>, line: Seq<char>)
    requires
        !line.contains('\n'),
    ensures
        parse_lines(split_on(text + seq!['\n'] + line, '\n')) == apply_line(
            parse_lines(split_on(text, '\n')),
            line,
        ),
        config_from_text(text + seq!['\n'] + line) == apply_line(
            parse_lines(split_on(text, '\n')),
            line,
        ).config,
{
    lemma_split_append(text, '\n', line);
    let pieces = split_on(text, '\n').push(line);
    assert(pieces.drop_last() =~= split_on(text, '\n'));
}

/// A yes/no setting, `case_sensitive` under `[triggers]` or `enabled`
/// under `[debug]`, is turned on exactly when its value is "true" in any
/// case or is "1", and off otherwise, and the line changes nothing else:
/// "true", "True" and "TRUE" all turn it on.
pub proof fn law_yes_no_settings(cfg: ConfigModel, val: Seq<char>)
    ensures
        apply_setting(cfg, "triggers"@, "case_sensitive"@, val) == (ConfigModel {
            case_sensitive: lower_text(val) == "true"@ || val == "1"@,
            ..cfg
        }),
        apply_setting(cfg, "debug"@, "enabled"@, val) == (ConfigModel {
            debug_enabled: lower_text(val) == "true"@ || val == "1"@,
            ..cfg
        }),
        is_ascii_chars(val) ==> (apply_setting(cfg, "triggers"@, "case_sensitive"@, val).case_sensitive
            <==> (ascii_cased(val, false) == "true"@ || val == "1"@)),
        is_ascii_chars(val) ==> (apply_setting(cfg, "debug"@, "enabled"@, val).debug_enabled <==> (
        ascii_cased(val, false) == "true"@ || val == "1"@)),
{
    reveal_strlit("triggers");
    reveal_strlit("sound");
    reveal_strlit("debug");
    reveal_strlit("path");
    reveal_strlit("words");
    reveal_strlit("case_sensitive");
    reveal_strlit("boundary_keys");
    reveal_strlit("enabled");
    assert("triggers"@ != "sound"@ && "debug"@ != "sound"@ && "debug"@ != "triggers"@) by {
        assert("triggers"@[0] != "sound"@[0] && "debug"@[0] != "sound"@[0]);
        assert("debug"@[0] != "triggers"@[0]);
    }
    assert("case_sensitive"@ != "words"@ && "case_sensitive"@ != "path"@) by {
        assert("case_sensitive"@[0] != "words"@[0] && "case_sensitive"@[0] != "path"@[0]);
    }
}

/// The trimmed pieces that are not empty, of pieces that hold no comma, are
/// words that are not empty, have no whitespace at either end and hold no
/// comma.
proof fn lemma_nonempty_trimmed_words(pieces: Seq<Seq<char>>)
    requires
        forall|i: int| 0 <= i < pieces.len() ==> !(#[trigger] pieces[i]).contains(','),
    ensures
        forall|i: int|
            0 <= i < nonempty_trimmed(pieces).len() ==> {
                let w = #[trigger] nonempty_trimmed(pieces)[i];
                w.len() > 0 && trim(w) == w && !w.contains(',')
            },
    decreases pieces.len(),
{
    if pieces.len() > 0 {
        let p = pieces.last();
        assert(!pieces[pieces.len() - 1].contains(','));
        assert forall|i: int| 0 <= i < pieces.drop_last().len() implies !(
        #[trigger] pieces.drop_last()[i]).contains(',') by {
            assert(pieces.drop_last()[i] == pieces[i]);
        }
        lemma_nonempty_trimmed_words(pieces.drop_last());
        lemma_trim_idempotent(p);
        lemma_trim_keeps_out(p, ',');
        let before = nonempty_trimmed(pieces.drop_last());
        let r = nonempty_trimmed(pieces);
        assert forall|i: int| 0 <= i < r.len() implies {
            let w = #[trigger] r[i];
            w.len() > 0 && trim(w) == w && !w.contains(',')
        } by {
            if i < before.len() {
                assert(r[i] == before[i]);
            }
        }
    }
}

/// The `path` setting under `[sound]` takes the value as it is. The
/// `words` setting under `[triggers]` takes the comma-separated pieces of
/// the value, trimmed, that are not empty: every trigger word is not empty,
/// has no whitespace at either end and holds no comma, and a value with no
/// comma gives itself trimmed as the one word, or no word when it is blank.
/// Neither line changes anything else.
pub proof fn law_path_and_word_settings(cfg: ConfigModel, val: Seq<char>)
    ensures
        apply_setting(cfg, "sound"@, "path"@, val) == (ConfigModel { sound_path: val, ..cfg }),
        apply_setting(cfg, "triggers"@, "words"@, val) == (ConfigModel {
            words: apply_setting(cfg, "triggers"@, "words"@, val).words,
            ..cfg
        }),
        forall|i: int|
            0 <= i < apply_setting(cfg, "triggers"@, "words"@, val).words.len() ==> {
                let w = #[trigger] apply_setting(cfg, "triggers"@, "words"@, val).words[i];
                w.len() > 0 && trim(w) == w && !w.contains(',')
            },
        !val.contains(',') ==> apply_setting(cfg, "triggers"@, "words"@, val).words == (if trim(
            val,
        ).len() > 0 {
            seq![trim(val)]
        } else {
            Seq::<Seq<char>>::empty()
        }),
{
    reveal_strlit("triggers");
    reveal_strlit("sound");
    reveal_strlit("path");
    reveal_strlit("words");
    assert("triggers"@ != "sound"@) by {
        assert("triggers"@[0] != "sound"@[0]);
    }
    let pieces = split_on(val, ',');
    law_split_then_join(val, ',');
    lemma_nonempty_trimmed_words(pieces);
    if !val.contains(',') {
        lemma_split_without_separator(val, ',');
        assert(pieces.drop_last() =~= Seq::<Seq<char>>::empty());
        assert(nonempty_trimmed(Seq::<Seq<char>>::empty()) == Seq::<Seq<char>>::empty());
        if trim(val).len() > 0 {
            assert(nonempty_trimmed(pieces) =~= seq![trim(val)]);
        }
    }
}

/// The `boundary_keys` setting under `[triggers]` takes the keys that the
/// comma-separated pieces of the value name, in order, skipping pieces that
/// name none; a value that names no key leaves the keys as they were, so
/// the boundary keys never become an empty list. A value with no comma that
/// names a key makes that key the only boundary. The line changes nothing
/// else.
pub proof fn law_boundary_key_setting(cfg: ConfigModel, val: Seq<char>)
    ensures
        apply_setting(cfg, "triggers"@, "boundary_keys"@, val) == (ConfigModel {
            boundary_vkeys: apply_setting(cfg, "triggers"@, "boundary_keys"@, val).boundary_vkeys,
            ..cfg
        }),
        apply_setting(cfg, "triggers"@, "boundary_keys"@, val).boundary_vkeys == cfg.boundary_vkeys
            || apply_setting(cfg, "triggers"@, "boundary_keys"@, val).boundary_vkeys.len() > 0,
        !val.contains(',') ==> apply_setting(cfg, "triggers"@, "boundary_keys"@, val).boundary_vkeys
            == (match vk_code_of(val) {
            Some(c) => seq![c],
            None => cfg.boundary_vkeys,
        }),
{
    reveal_strlit("triggers");
    reveal_strlit("sound");
    reveal_strlit("boundary_keys");
    reveal_strlit("words");
    reveal_strlit("case_sensitive");
    assert("triggers"@ != "sound"@) by {
        assert("triggers"@[0] != "sound"@[0]);
    }
    assert("boundary_keys"@ != "words"@ && "boundary_keys"@ != "case_sensitive"@) by {
        assert("boundary_keys"@[0] != "words"@[0] && "boundary_keys"@[0] != "case_sensitive"@[0]);
    }
    if !val.contains(',') {
        let pieces = split_on(val, ',');
        lemma_split_without_separator(val, ',');
        assert(pieces.drop_last() =~= Seq::<Seq<char>>::empty());
        assert(named_codes(Seq::<Seq<char>>::empty()) == Seq::<u16>::empty());
        lemma_trim_idempotent(val);
        if let Some(c) = vk_code_of(val) {
            assert(named_codes(pieces) =~= seq![c]);
        }
    }
}

/// A settings file with nothing but blank lines and comments, or an empty
/// one, gives the default settings.
pub proof fn law_blank_settings_are_defaults(text: Seq<char>)
    requires
        forall|i: int|
            0 <= i < split_on(text, '\n').len() ==> is_blank_or_comment(
                trim(#[trigger] split_on(text, '\n')[i]),
            ),
    ensures
        config_from_text(text) == default_model(),
{
    lemma_blank_lines_change_nothing(split_on(text, '\n'));
}

/// The position of the first occurrence of a character.
pub fn find_char(s: &[char], c: char) -> (r: Option<usize>)
    ensures
        r matches Some(i) ==> first_index_of(s@, c) == Some(i as int) && i < s@.len(),
        r is None ==> first_index_of(s@, c) is None,
{
    let n: usize = s.len();
    let mut i: usize = 0;
    while i < n
        invariant
            n == s@.len(),
            i <= n,
            forall|j: int| 0 <= j < i ==> s@[j] != c,
        decreases n - i,
    {
        if s[i] == c {
            proof {
                lemma_first_index_of(s@, c, i as int);
            }
            return Some(i);
        }
        i = i + 1;
    }
    proof {
        lemma_first_index_of(s@, c, n as int);
    }
    None
}

/// The yes/no value of a setting, given the value and its lower-case form.
pub fn flag_from(val: &[char], val_lower: &[char]) -> (r: bool)
    ensures
        r == flag_of(val@, val_lower@),
{
    chars_are(val_lower, "true") || chars_are(val, "1")
}

/// The yes/no value of a setting: "true" in any case, or "1".
pub fn parse_flag(val: &[char]) -> (r: bool)
    ensures
        r == flag_of(val@, lower_text(val@)),
{
    let lower: Vec<char> = to_lowercase(val);
    flag_from(val, lower.as_slice())
}

/// The trigger words of a comma-separated list: each trimmed, empty ones
/// left out.
pub fn parse_word_list(val: &[char]) -> (r: Vec<String>)
    ensures
        r@.map_values(|w: String| w@) == nonempty_trimmed(split_on(val@, ',')),
{
    let pieces: Vec<Vec<char>> = split_chars(val, ',');
    let ghost pv = pieces@.map_values(|p: Vec<char>| p@);
    let mut words: Vec<String> = Vec::new();
    let n: usize = pieces.len();
    let mut j: usize = 0;
    assert(pv.take(0) =~= Seq::<Seq<char>>::empty());
    assert(words@.map_values(|w: String| w@) =~= Seq::<Seq<char>>::empty());
    while j < n
        invariant
            n == pieces@.len(),
            pv == pieces@.map_values(|p: Vec<char>| p@),
            j <= n,
            words@.map_values(|w: String| w@) == nonempty_trimmed(pv.take(j as int)),
        decreases n - j,
    {
        assert(pv.take(j + 1).drop_last() =~= pv.take(j as int));
        assert(pv.take(j + 1).last() == pieces@[j as int]@);
        let t: &[char] = trim_chars(pieces[j].as_slice());
        if t.len() > 0 {
            let w: String = text_string(t);
            words.push(w);
            assert(words@.map_values(|w: String| w@) =~= nonempty_trimmed(pv.take(j as int)).push(
                t@,
            ));
        }
        j = j + 1;
    }
    assert(pv.take(n as int) =~= pv);
    words
}

/// The key codes of a comma-separated list: each piece trimmed and read as
/// a key code, those that name none left out.
pub fn parse_key_list(val: &[char]) -> (r: Vec<u16>)
    ensures
        r@ == named_codes(split_on(val@, ',')),
{
    let pieces: Vec<Vec<char>> = split_chars(val, ',');
    let ghost pv = pieces@.map_values(|p: Vec<char>| p@);
    let mut codes: Vec<u16> = Vec::new();
    let n: usize = pieces.len();
    let mut j: usize = 0;
    assert(pv.take(0) =~= Seq::<Seq<char>>::empty());
    while j < n
        invariant
            n == pieces@.len(),
            pv == pieces@.map_values(|p: Vec<char>| p@),
            j <= n,
            codes@ == named_codes(pv.take(j as int)),
        decreases n - j,
    {
        assert(pv.take(j + 1).drop_last() =~= pv.take(j as int));
        assert(pv.take(j + 1).last() == pieces@[j as int]@);
        let t: &[char] = trim_chars(pieces[j].as_slice());
        if let Some(code) = parse_vk_chars(t) {
            codes.push(code);
        }
        j = j + 1;
    }
    assert(pv.take(n as int) =~= pv);
    codes
}


/// The text after `=` without its trailing comment.
pub fn strip_comment_chars(v: &[char]) -> (r: &[char])
    ensures
        r@ == strip_comment(v@),
{
    let n: usize = v.len();
    let mut j: usize = 0;
    while j < n && is_whitespace_char(v[j])
        invariant
            n == v@.len(),
            j <= n,
            skip_white_space(v@, 0) == skip_white_space(v@, j as int),
        decreases n - j,
    {
        j = j + 1;
    }
    assert(skip_white_space(v@, j as int) == j);
    let mut i: usize = j;
    if j < n && (v[j] == '"' || v[j] == '\'') {
        let tail: &[char] = &v[j + 1..n];
        assert(tail@ =~= v@.skip(j + 1));
        match find_char(tail, v[j]) {
            Some(k) => {
                i = j + k + 2;
            },
            None => {
                assert(v@ =~= strip_comment(v@));
                return v;
            },
        }
    }
    assert(i as int == comment_search_start(v@));
    while i < n
        invariant
            n == v@.len(),
            i <= n,
            comment_start(v@, comment_search_start(v@)) == comment_start(v@, i as int),
        decreases n - i,
    {
        if v[i] == ';' && i > 0 && is_whitespace_char(v[i - 1]) {
            assert(starts_comment(v@, i as int));
            let r: &[char] = &v[0..i];
            assert(r@ =~= strip_comment(v@));
            return r;
        }
        assert(!starts_comment(v@, i as int));
        i = i + 1;
    }
    let r: &[char] = &v[0..n];
    assert(r@ =~= strip_comment(v@));
    r
}

/// Whether this is a `key = value` line whose value is one quote
/// character.
pub fn line_would_panic(raw: &[char]) -> (r: bool)
    ensures
        r == line_panics(raw@),
{
    let line: &[char] = trim_chars(raw);
    if line.len() == 0 || line[0] == ';' || line[0] == '#' {
        return false;
    }
    if line[0] == '[' && line[line.len() - 1] == ']' {
        return false;
    }
    match find_char(line, '=') {
        None => false,
        Some(pos) => {
            let rest: &[char] = &line[pos + 1..line.len()];
            assert(rest@ =~= line@.skip(pos + 1));
            let v: &[char] = trim_chars(strip_comment_chars(rest));
            v.len() == 1 && (v[0] == '"' || v[0] == '\'')
        },
    }
}

/// Applies one line of the settings file to the current section and the
/// settings read so far.
pub fn apply_line_to(section: &mut Vec<char>, config: &mut Config, raw: &[char])
    requires
        !line_panics(raw@),
    ensures
        final(section)@ == apply_line(
            ParseState { section: old(section)@, config: old(config).model() },
            raw@,
        ).section,
        final(config).model() == apply_line(
            ParseState { section: old(section)@, config: old(config).model() },
            raw@,
        ).config,
{
    let line: &[char] = trim_chars(raw);
    if line.len() == 0 || line[0] == ';' || line[0] == '#' {
        return ;
    }
    if line[0] == '[' && line[line.len() - 1] == ']' {
        let inner: &[char] = trim_chars(&line[1..line.len() - 1]);
        *section = to_lowercase(inner);
        return ;
    }
    match find_char(line, '=') {
        None => {},
        Some(pos) => {
            let head: &[char] = &line[0..pos];
            assert(head@ =~= line@.take(pos as int));
            let key: Vec<char> = to_lowercase(trim_chars(head));
            let rest: &[char] = &line[pos + 1..line.len()];
            assert(rest@ =~= line@.skip(pos + 1));
            let v: &[char] = trim_chars(strip_comment_chars(rest));
            let quoted: bool = v.len() > 0 && ((v[0] == '"' && v[v.len() - 1] == '"') || (v[0]
                == '\'' && v[v.len() - 1] == '\''));
            let val: &[char] = if quoted {
                &v[1..v.len() - 1]
            } else {
                v
            };
            assert(val@ =~= unquote(v@));
            config.apply_setting(section.as_slice(), key.as_slice(), val);
        },
    }
}

/// Whether a settings file cannot be read: it has a `key = value` line
/// whose value is one quote character.
pub fn settings_would_panic(content: &str) -> (r: bool)
    ensures
        r == text_panics(content@),
{
    let chars: Vec<char> = text_chars(content);
    let lines: Vec<Vec<char>> = split_chars(chars.as_slice(), '\n');
    let ghost lv = lines@.map_values(|p: Vec<char>| p@);
    let n: usize = lines.len();
    let mut i: usize = 0;
    while i < n
        invariant
            n == lines@.len(),
            lv == lines@.map_values(|p: Vec<char>| p@),
            lv == split_on(content@, '\n'),
            i <= n,
            forall|j: int| 0 <= j < i ==> !line_panics(#[trigger] lv[j]),
        decreases n - i,
    {
        if line_would_panic(lines[i].as_slice()) {
            assert(line_panics(lv[i as int]));
            return true;
        }
        i = i + 1;
    }
    false
}

/// Reads the settings from the text of a settings file; settings that the
/// file does not mention keep their defaults.
pub fn parse_config(content: &str) -> (r: Config)
    requires
        !text_panics(content@),
    ensures
        r.model() == config_from_text(content@),
{
    let chars: Vec<char> = text_chars(content);
    let lines: Vec<Vec<char>> = split_chars(chars.as_slice(), '\n');
    let ghost lv = lines@.map_values(|p: Vec<char>| p@);
    let mut section: Vec<char> = Vec::new();
    let mut config: Config = Config::defaults();
    let n: usize = lines.len();
    let mut i: usize = 0;
    assert(lv.take(0) =~= Seq::<Seq<char>>::empty());
    assert(section@ =~= Seq::<char>::empty());
    while i < n
        invariant
            n == lines@.len(),
            lv == lines@.map_values(|p: Vec<char>| p@),
            lv == split_on(content@, '\n'),
            !text_panics(content@),
            i <= n,
            section@ == parse_lines(lv.take(i as int)).section,
            config.model() == parse_lines(lv.take(i as int)).config,
        decreases n - i,
    {
        assert(lv.take(i + 1).drop_last() =~= lv.take(i as int));
        assert(lv.take(i + 1).last() == lines@[i as int]@);
        assert(!line_panics(lv[i as int]));
        apply_line_to(&mut section, &mut config, lines[i].as_slice());
        i = i + 1;
    }
    assert(lv.take(n as int) =~= lv);
    config
}

impl Config {
    /// The settings that hold when the file says nothing.
    pub fn defaults() -> (r: Config)
        ensures
            r.model() == default_model(),
    {
        let mut words: Vec<String> = Vec::new();
        words.push("proceed".to_owned());
        let mut keys: Vec<u16> = Vec::new();
        keys.push(32);
        keys.push(13);
        keys.push(9);
        let r = Config {
            sound: SoundConfig { path: "sounds/snd_ominous_music.wav".to_owned() },
            triggers: TriggerConfig { words, case_sensitive: false, boundary_vkeys: keys },
            debug: DebugConfig { enabled: false },
        };
        assert(r.model().words =~= seq!["proceed"@]);
        assert(r.model().boundary_vkeys =~= seq![32u16, 13u16, 9u16]);
        r
    }

    /// Applies one `key = value` line of a section; the section and the key
    /// are given in lower case, the value trimmed and unquoted.
    pub fn apply_setting(&mut self, section: &[char], key: &[char], val: &[char])
        ensures
            final(self).model() == apply_setting(old(self).model(), section@, key@, val@),
    {
        if chars_are(section, "sound") && chars_are(key, "path") {
            self.sound.path = text_string(val);
        } else if chars_are(section, "triggers") && chars_are(key, "words") {
            self.triggers.words = parse_word_list(val);
        } else if chars_are(section, "triggers") && chars_are(key, "case_sensitive") {
            self.triggers.case_sensitive = parse_flag(val);
        } else if chars_are(section, "triggers") && chars_are(key, "boundary_keys") {
            let parsed: Vec<u16> = parse_key_list(val);
            if parsed.len() > 0 {
                self.triggers.boundary_vkeys = parsed;
            }
        } else if chars_are(section, "debug") && chars_are(key, "enabled") {
            self.debug.enabled = parse_flag(val);
        }
    }
}

} // verus!
