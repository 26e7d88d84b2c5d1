//! Text as sequences of characters: whitespace trimming, splitting at a
//! separator, comparison, and the conversions to and from std strings.

use vstd::prelude::*;
use vstd::utf8::is_ascii_chars;

verus! {

broadcast use vstd::seq::group_seq_axioms;

/// Unicode `White_Space`, the set that `char::is_whitespace` and
/// `str::trim` go by.
pub open spec fn is_white_space(c: char) -> bool {
    ||| '\u{9}' <= c <= '\u{d}'
    ||| c == ' '
    ||| c == '\u{85}'
    ||| c == '\u{a0}'
    ||| c == '\u{1680}'
    ||| '\u{2000}' <= c <= '\u{200a}'
    ||| c == '\u{2028}'
    ||| c == '\u{2029}'
    ||| c == '\u{202f}'
    ||| c == '\u{205f}'
    ||| c == '\u{3000}'
}

/// The text without its leading whitespace.
pub open spec fn trim_start(s: Seq<char>) -> Seq<char>
    decreases s.len(),
{
    if s.len() > 0 && is_white_space(s[0]) {
        trim_start(s.drop_first())
    } else {
        s
    }
}

/// The text without its trailing whitespace.
pub open spec fn trim_end(s: Seq<char>) -> Seq<char>
    decreases s.len(),
{
    if s.len() > 0 && is_white_space(s.last()) {
        trim_end(s.drop_last())
    } else {
        s
    }
}

/// The text without leading and trailing whitespace, as `str::trim` gives it.
pub open spec fn trim(s: Seq<char>) -> Seq<char> {
    trim_end(trim_start(s))
}

/// The pieces of a text between the occurrences of a separator, as
/// `str::split` with a `char` pattern yields them: one more piece than there
/// are separators, empty pieces included.
pub open spec fn split_on(s: Seq<char>, sep: char) -> Seq<Seq<char>>
    decreases s.len(),
{
    if s.len() == 0 {
        seq![Seq::<char>::empty()]
    } else {
        let before = split_on(s.drop_last(), sep);
        if s.last() == sep {
            before.push(Seq::<char>::empty())
        } else {
            before.update(before.len() - 1, before.last().push(s.last()))
        }
    }
}

/// Pieces joined again, with the separator between each two.
pub open spec fn join_with(pieces: Seq<Seq<char>>, sep: char) -> Seq<char>
    decreases pieces.len(),
{
    if pieces.len() == 0 {
        Seq::<char>::empty()
    } else if pieces.len() == 1 {
        pieces[0]
    } else {
        join_with(pieces.drop_last(), sep).push(sep) + pieces.last()
    }
}

/// Splitting a text at a separator gives at least one piece, no piece holds
/// the separator, and the pieces joined with the separator give the text
/// back.
pub proof fn law_split_then_join(s: Seq<char>, sep: char)
    ensures
        split_on(s, sep).len() >= 1,
        forall|i: int| 0 <= i < split_on(s, sep).len() ==> !(#[trigger] split_on(s, sep)[i]).contains(sep),
        join_with(split_on(s, sep), sep) == s,
    decreases s.len(),
{
    let r = split_on(s, sep);
    if s.len() == 0 {
        assert(r =~= seq![Seq::<char>::empty()]);
        assert(join_with(r, sep) =~= s);
        assert forall|i: int| 0 <= i < r.len() implies !(#[trigger] r[i]).contains(sep) by {
            assert(r[i].len() == 0);
        }
    } else {
        let c = s.last();
        let before = split_on(s.drop_last(), sep);
        law_split_then_join(s.drop_last(), sep);
        if c == sep {
            assert(r == before.push(Seq::<char>::empty()));
            assert(r.drop_last() =~= before);
            assert(join_with(r, sep) =~= s);
            assert forall|i: int| 0 <= i < r.len() implies !(#[trigger] r[i]).contains(sep) by {
                if i < before.len() {
                    assert(r[i] == before[i]);
                } else {
                    assert(r[i].len() == 0);
                }
            }
        } else {
            let l = before.len() - 1;
            assert(r == before.update(l, before.last().push(c)));
            if before.len() == 1 {
                assert(join_with(before, sep) == before[0]);
                assert(join_with(r, sep) == r[0]);
                assert(join_with(r, sep) =~= s);
            } else {
                assert(r.drop_last() =~= before.drop_last());
                assert(r.last() == before.last().push(c));
                let head = join_with(before.drop_last(), sep).push(sep);
                assert(join_with(before, sep) == head + before.last());
                assert(join_with(r, sep) == head + before.last().push(c));
                assert(s =~= (head + before.last()).push(c));
                assert(join_with(r, sep) =~= s);
            }
            assert forall|i: int| 0 <= i < r.len() implies !(#[trigger] r[i]).contains(sep) by {
                if i < l {
                    assert(r[i] == before[i]);
                } else {
                    assert(!before[l].contains(sep));
                    if r[i].contains(sep) {
                        let j = choose|j: int| 0 <= j < r[i].len() && r[i][j] == sep;
                        if j < before[l].len() {
                            assert(before[l][j] == sep);
                        }
                    }
                }
            }
        }
    }
}

/// A separator and then a text without it add that text as one more piece.
pub proof fn lemma_split_append(s: Seq<char>, sep: char, piece: Seq<char>)
    requires
        !piece.contains(sep),
    ensures
        split_on(s + seq![sep] + piece, sep) == split_on(s, sep).push(piece),
    decreases piece.len(),
{
    let t = s + seq![sep] + piece;
    if piece.len() == 0 {
        assert(t =~= s.push(sep));
        assert(t.drop_last() =~= s);
        assert(t.last() == sep);
        assert(piece =~= Seq::<char>::empty());
    } else {
        let p = piece.drop_last();
        assert(!p.contains(sep)) by {
            if p.contains(sep) {
                let j = choose|j: int| 0 <= j < p.len() && p[j] == sep;
                assert(piece[j] == sep);
            }
        }
        assert(piece.last() != sep);
        lemma_split_append(s, sep, p);
        assert(t.drop_last() =~= s + seq![sep] + p);
        assert(t.last() == piece.last());
        let before = split_on(t.drop_last(), sep);
        assert(before == split_on(s, sep).push(p));
        assert(before.last() == p);
        assert(p.push(piece.last()) =~= piece);
        assert(split_on(t, sep) == before.update(before.len() - 1, p.push(piece.last())));
        assert(split_on(t, sep) =~= split_on(s, sep).push(piece));
    }
}

/// A text without the separator splits into one piece: itself.
pub proof fn lemma_split_without_separator(s: Seq<char>, sep: char)
    requires
        !s.contains(sep),
    ensures
        split_on(s, sep) == seq![s],
{
    let pieces = split_on(s, sep);
    law_split_then_join(s, sep);
    if pieces.len() >= 2 {
        let head = join_with(pieces.drop_last(), sep);
        assert(join_with(pieces, sep) == head.push(sep) + pieces.last());
        assert(s[head.len() as int] == sep);
    }
    assert(pieces =~= seq![s]);
}

/// Leading whitespace removed piece by piece ends where `trim_start` ends.
proof fn lemma_trim_start_skip(s: Seq<char>, k: int)
    requires
        0 <= k <= s.len(),
        forall|j: int| 0 <= j < k ==> is_white_space(#[trigger] s[j]),
    ensures
        trim_start(s) == trim_start(s.subrange(k, s.len() as int)),
    decreases k,
{
    if k > 0 {
        assert(s.drop_first() =~= s.subrange(1, s.len() as int));
        lemma_trim_start_skip(s.drop_first(), k - 1);
        assert(s.drop_first().subrange(k - 1, s.drop_first().len() as int) =~= s.subrange(
            k,
            s.len() as int,
        ));
    } else {
        assert(s.subrange(0, s.len() as int) =~= s);
    }
}

/// Trailing whitespace removed piece by piece ends where `trim_end` ends.
proof fn lemma_trim_end_take(s: Seq<char>, k: int)
    requires
        0 <= k <= s.len(),
        forall|j: int| k <= j < s.len() ==> is_white_space(#[trigger] s[j]),
    ensures
        trim_end(s) == trim_end(s.subrange(0, k)),
    decreases s.len() - k,
{
    if k < s.len() {
        lemma_trim_end_take(s.drop_last(), k);
        assert(s.drop_last().subrange(0, k) =~= s.subrange(0, k));
    } else {
        assert(s.subrange(0, k) =~= s);
    }
}

/// Whether a character is Unicode whitespace.
pub fn is_whitespace_char(c: char) -> (r: bool)
    ensures
        r == is_white_space(c),
{
    ('\u{9}' <= c && c <= '\u{d}') || c == ' ' || c == '\u{85}' || c == '\u{a0}' || c
        == '\u{1680}' || ('\u{2000}' <= c && c <= '\u{200a}') || c == '\u{2028}' || c == '\u{2029}'
        || c == '\u{202f}' || c == '\u{205f}' || c == '\u{3000}'
}

/// The text without leading and trailing whitespace.
pub fn trim_chars(s: &[char]) -> (r: &[char])
    ensures
        r@ == trim(s@),
{
    let n: usize = s.len();
    let mut lo: usize = 0;
    while lo < n && is_whitespace_char(s[lo])
        invariant
            n == s@.len(),
            lo <= n,
            forall|j: int| 0 <= j < lo ==> is_white_space(#[trigger] s@[j]),
        decreases n - lo,
    {
        lo = lo + 1;
    }
    proof {
        lemma_trim_start_skip(s@, lo as int);
    }
    let ghost rest = s@.subrange(lo as int, n as int);
    assert(lo == n || !is_white_space(rest[0]));
    assert(trim_start(s@) == rest);
    let mut hi: usize = n;
    while hi > lo && is_whitespace_char(s[hi - 1])
        invariant
            n == s@.len(),
            lo <= hi <= n,
            rest == s@.subrange(lo as int, n as int),
            forall|j: int| hi <= j < n ==> is_white_space(#[trigger] s@[j]),
        decreases hi,
    {
        hi = hi - 1;
    }
    proof {
        assert forall|j: int| hi - lo <= j < rest.len() implies is_white_space(#[trigger] rest[j]) by {
            assert(rest[j] == s@[j + lo]);
        }
        lemma_trim_end_take(rest, hi - lo);
        assert(rest.subrange(0, hi - lo) =~= s@.subrange(lo as int, hi as int));
    }
    let r: &[char] = &s[lo..hi];
    r
}

/// The pieces of a text between the occurrences of a separator.
pub fn split_chars(s: &[char], sep: char) -> (r: Vec<Vec<char>>)
    ensures
        r@.map_values(|p: Vec<char>| p@) == split_on(s@, sep),
{
    let mut parts: Vec<Vec<char>> = Vec::new();
    let mut cur: Vec<char> = Vec::new();
    let n: usize = s.len();
    let mut i: usize = 0;
    assert(s@.take(0) =~= Seq::<char>::empty());
    assert(parts@.map_values(|p: Vec<char>| p@).push(cur@) =~= split_on(s@.take(0), sep));
    while i < n
        invariant
            n == s@.len(),
            i <= n,
            parts@.map_values(|p: Vec<char>| p@).push(cur@) == split_on(s@.take(i as int), sep),
        decreases n - i,
    {
        let ghost before = split_on(s@.take(i as int), sep);
        let c: char = s[i];
        assert(s@.take(i + 1).drop_last() =~= s@.take(i as int));
        assert(s@.take(i + 1).last() == c);
        if c == sep {
            let done: Vec<char> = cur;
            parts.push(done);
            cur = Vec::new();
            assert(parts@.map_values(|p: Vec<char>| p@).push(cur@) =~= before.push(
                Seq::<char>::empty(),
            ));
        } else {
            cur.push(c);
            assert(parts@.map_values(|p: Vec<char>| p@).push(cur@) =~= before.update(
                before.len() - 1,
                before.last().push(c),
            ));
        }
        i = i + 1;
    }
    assert(s@.take(n as int) =~= s@);
    parts.push(cur);
    assert(parts@.map_values(|p: Vec<char>| p@) =~= split_on(s@, sep));
    parts
}

/// Whether two texts are equal.
pub fn chars_equal(a: &[char], b: &[char]) -> (r: bool)
    ensures
        r == (a@ == b@),
{
    if a.len() != b.len() {
        return false;
    }
    let n: usize = a.len();
    let mut i: usize = 0;
    while i < n
        invariant
            n == a@.len(),
            n == b@.len(),
            i <= n,
            forall|j: int| 0 <= j < i ==> a@[j] == b@[j],
        decreases n - i,
    {
        if a[i] != b[i] {
            return false;
        }
        i = i + 1;
    }
    assert(a@ =~= b@);
    true
}

/// Whether a text equals the characters of a string.
pub fn chars_are(a: &[char], s: &str) -> (r: bool)
    ensures
        r == (a@ == s@),
{
    let b: Vec<char> = text_chars(s);
    chars_equal(a, b.as_slice())
}

/// The characters of a string.
pub fn text_chars(s: &str) -> (r: Vec<char>)
    ensures
        r@ == s@,
{
    broadcast use vstd::string::group_string_axioms;

    let mut v: Vec<char> = Vec::new();
    for c in it: s.chars()
        invariant
            it.seq() == s@,
            v@ == s@.take(it.index() as int),
    {
        v.push(c);
    }
    assert(v@ =~= s@);
    v
}

/// A string made of the given characters.
///
/// Trusted: calls `Iterator::collect` into a `String` over the characters;
/// the contract claims that the string holds exactly those characters, in
/// order, as the documentation of `FromIterator<&char> for String` says.
#[verifier::external_body]
pub(crate) fn text_string(c: &[char]) -> (r: String)
    ensures
        r@ == c@,
{
    c.iter().collect()
}

} // verus!

verus! {

/// An ASCII letter put in upper or in lower case; other characters are
/// unchanged.
pub open spec fn ascii_case(c: char, upper: bool) -> char {
    if upper && 'a' <= c <= 'z' {
        (c as u32 - 32) as char
    } else if !upper && 'A' <= c <= 'Z' {
        (c as u32 + 32) as char
    } else {
        c
    }
}

/// A text with its ASCII letters put in upper or in lower case, as
/// `str::to_ascii_uppercase` and `str::to_ascii_lowercase` give it.
pub open spec fn ascii_cased(s: Seq<char>, upper: bool) -> Seq<char> {
    s.map_values(|c: char| ascii_case(c, upper))
}

/// The lower-case form of a text: the ASCII mapping for ASCII text, the
/// Unicode mapping of the standard library otherwise.
pub open spec fn lower_text(s: Seq<char>) -> Seq<char> {
    if is_ascii_chars(s) {
        ascii_cased(s, false)
    } else {
        lowercase_of(s)
    }
}

/// The upper-case form of one character: its ASCII capital for an ASCII
/// character, the Unicode mapping of the standard library otherwise (one or
/// more characters).
pub open spec fn upper_char(c: char) -> Seq<char> {
    if c <= '\u{7f}' {
        seq![ascii_case(c, true)]
    } else {
        uppercase_of(seq![c])
    }
}

/// The upper-case form of a text: each character mapped on its own, the
/// results joined in order.
pub open spec fn upper_text(s: Seq<char>) -> Seq<char>
    decreases s.len(),
{
    if s.len() == 0 {
        Seq::<char>::empty()
    } else {
        upper_text(s.drop_last()) + upper_char(s.last())
    }
}

/// What `str::to_lowercase` gives for a text: its lower-case mapping under
/// the Unicode tables of the standard library.
pub uninterp spec fn lowercase_of(s: Seq<char>) -> Seq<char>;

/// What `str::to_uppercase` gives for a text: its upper-case mapping under
/// the Unicode tables of the standard library.
pub uninterp spec fn uppercase_of(s: Seq<char>) -> Seq<char>;

/// The lower-case mapping of a text.
///
/// Trusted: calls `str::to_lowercase` on the string of the characters; the
/// contract claims that the result is `lowercase_of` of the input, a
/// function of the characters alone, and that for ASCII text it is the ASCII
/// lower-case mapping (the Unicode lower-case mapping of an ASCII letter is
/// its ASCII lower-case letter, and other ASCII characters map to
/// themselves).
#[verifier::external_body]
pub(crate) fn to_lowercase(c: &[char]) -> (r: Vec<char>)
    ensures
        r@ == lowercase_of(c@),
        is_ascii_chars(c@) ==> r@ == ascii_cased(c@, false),
{
    c.iter().collect::<String>().to_lowercase().chars().collect()
}

/// The upper-case mapping of a text.
///
/// Trusted: calls `str::to_uppercase` on the string of the characters; the
/// contract claims that the result is `uppercase_of` of the input, a
/// function of the characters alone, and that it is `upper_text` of the
/// input: the upper-case mapping takes each character on its own, without
/// context (the unconditional mapping that `char::to_uppercase` documents as
/// independent of context and language), and joins the results in order; the
/// mapping of an ASCII letter is its ASCII capital, and other ASCII
/// characters map to themselves.
#[verifier::external_body]
pub(crate) fn to_uppercase(c: &[char]) -> (r: Vec<char>)
    ensures
        r@ == uppercase_of(c@),
        r@ == upper_text(c@),
{
    c.iter().collect::<String>().to_uppercase().chars().collect()
}

} // verus!

verus! {

/// Every character of the text is whitespace.
pub open spec fn all_white_space(s: Seq<char>) -> bool {
    forall|i: int| 0 <= i < s.len() ==> is_white_space(#[trigger] s[i])
}

/// Leading whitespace does not change where `trim_start` ends.
pub proof fn lemma_trim_start_after_white_space(pre: Seq<char>, s: Seq<char>)
    requires
        all_white_space(pre),
    ensures
        trim_start(pre + s) == trim_start(s),
    decreases pre.len(),
{
    if pre.len() > 0 {
        assert((pre + s)[0] == pre[0]);
        assert((pre + s).drop_first() =~= pre.drop_first() + s);
        lemma_trim_start_after_white_space(pre.drop_first(), s);
    } else {
        assert(pre + s =~= s);
    }
}

/// Trailing whitespace does not change where `trim_end` ends.
pub proof fn lemma_trim_end_before_white_space(s: Seq<char>, post: Seq<char>)
    requires
        all_white_space(post),
    ensures
        trim_end(s + post) == trim_end(s),
    decreases post.len(),
{
    if post.len() > 0 {
        assert((s + post).last() == post.last());
        assert((s + post).drop_last() =~= s + post.drop_last());
        lemma_trim_end_before_white_space(s, post.drop_last());
    } else {
        assert(s + post =~= s);
    }
}

/// `trim_start` of a text and then more whitespace.
proof fn lemma_trim_start_then_white_space(s: Seq<char>, post: Seq<char>)
    requires
        all_white_space(post),
    ensures
        trim_start(s + post) == (if trim_start(s).len() > 0 {
            trim_start(s) + post
        } else {
            Seq::<char>::empty()
        }),
    decreases s.len() + post.len(),
{
    if s.len() > 0 {
        assert((s + post)[0] == s[0]);
        if is_white_space(s[0]) {
            assert((s + post).drop_first() =~= s.drop_first() + post);
            lemma_trim_start_then_white_space(s.drop_first(), post);
        }
    } else {
        assert(s + post =~= post);
        if post.len() > 0 {
            assert(post.drop_first() =~= Seq::<char>::empty() + post.drop_first());
            lemma_trim_start_then_white_space(s, post.drop_first());
        }
    }
}

/// Whitespace around a text does not change its trimmed form.
pub proof fn lemma_trim_surrounded(pre: Seq<char>, s: Seq<char>, post: Seq<char>)
    requires
        all_white_space(pre),
        all_white_space(post),
    ensures
        trim(pre + s + post) == trim(s),
{
    assert(pre + s + post =~= pre + (s + post));
    lemma_trim_start_after_white_space(pre, s + post);
    lemma_trim_start_then_white_space(s, post);
    if trim_start(s).len() > 0 {
        lemma_trim_end_before_white_space(trim_start(s), post);
    }
}

/// `trim_start` gives a text that is empty or starts with a non-whitespace
/// character; `trim_end` one that is empty or ends with one.
proof fn lemma_trim_ends(s: Seq<char>)
    ensures
        trim_start(s).len() > 0 ==> !is_white_space(trim_start(s)[0]),
        trim_end(s).len() > 0 ==> !is_white_space(trim_end(s).last()),
        trim_end(s) == s.take(trim_end(s).len() as int),
        trim_end(s).len() <= s.len(),
    decreases s.len(),
{
    if s.len() > 0 {
        lemma_trim_ends(s.drop_first());
        lemma_trim_ends(s.drop_last());
        if is_white_space(s.last()) {
            assert(s.drop_last().take(trim_end(s).len() as int) =~= s.take(trim_end(s).len() as int));
        } else {
            assert(s.take(s.len() as int) =~= s);
        }
    } else {
        assert(s.take(0) =~= s);
    }
}

/// `trim_start` leaves a suffix of the text.
proof fn lemma_trim_start_suffix(s: Seq<char>)
    ensures
        trim_start(s).len() <= s.len(),
        trim_start(s) == s.skip(s.len() - trim_start(s).len()),
    decreases s.len(),
{
    if s.len() > 0 && is_white_space(s[0]) {
        lemma_trim_start_suffix(s.drop_first());
        assert(s.drop_first().skip(s.drop_first().len() - trim_start(s).len()) =~= s.skip(
            s.len() - trim_start(s).len(),
        ));
    } else {
        assert(s.skip(0) =~= s);
    }
}

/// Trimming keeps out any character that the text does not hold.
pub proof fn lemma_trim_keeps_out(s: Seq<char>, c: char)
    requires
        !s.contains(c),
    ensures
        !trim(s).contains(c),
{
    let a = trim_start(s);
    lemma_trim_start_suffix(s);
    lemma_trim_ends(a);
    let k = s.len() - a.len();
    if trim(s).contains(c) {
        let j = choose|j: int| 0 <= j < trim(s).len() && trim(s)[j] == c;
        assert(trim(s)[j] == a[j]);
        assert(a[j] == s[k + j]);
    }
}

/// Trimming twice is trimming once.
pub proof fn lemma_trim_idempotent(s: Seq<char>)
    ensures
        trim(trim(s)) == trim(s),
{
    let a = trim_start(s);
    let t = trim_end(a);
    lemma_trim_ends(s);
    lemma_trim_ends(a);
    lemma_trim_ends(t);
    if t.len() > 0 {
        assert(t[0] == a[0]);
        assert(trim_start(t) == t);
        assert(trim_end(t) == t);
    }
}

/// An ASCII case mapping keeps whitespace and non-whitespace apart.
proof fn lemma_case_white_space(c: char, upper: bool)
    ensures
        is_white_space(ascii_case(c, upper)) == is_white_space(c),
{
}

/// Trimming commutes with an ASCII case mapping.
pub proof fn lemma_trim_cased(s: Seq<char>, upper: bool)
    ensures
        trim(ascii_cased(s, upper)) == ascii_cased(trim(s), upper),
{
    lemma_trim_start_cased(s, upper);
    lemma_trim_end_cased(trim_start(s), upper);
}

proof fn lemma_trim_start_cased(s: Seq<char>, upper: bool)
    ensures
        trim_start(ascii_cased(s, upper)) == ascii_cased(trim_start(s), upper),
    decreases s.len(),
{
    if s.len() > 0 {
        lemma_case_white_space(s[0], upper);
        assert(ascii_cased(s, upper)[0] == ascii_case(s[0], upper));
        assert(ascii_cased(s, upper).drop_first() =~= ascii_cased(s.drop_first(), upper));
        lemma_trim_start_cased(s.drop_first(), upper);
    } else {
        assert(ascii_cased(s, upper) =~= s);
    }
}

proof fn lemma_trim_end_cased(s: Seq<char>, upper: bool)
    ensures
        trim_end(ascii_cased(s, upper)) == ascii_cased(trim_end(s), upper),
    decreases s.len(),
{
    if s.len() > 0 {
        lemma_case_white_space(s.last(), upper);
        assert(ascii_cased(s, upper).last() == ascii_case(s.last(), upper));
        assert(ascii_cased(s, upper).drop_last() =~= ascii_cased(s.drop_last(), upper));
        lemma_trim_end_cased(s.drop_last(), upper);
    } else {
        assert(ascii_cased(s, upper) =~= s);
    }
}

} // verus!
