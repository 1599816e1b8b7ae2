//! Operations on text, stated over sequences of characters.
//!
//! Each executable function has a spec function that says what it returns.
//! Positions count characters.

use vstd::prelude::*;
use vstd::slice::slice_subrange;
use vstd::string::*;
use vstd::utf8::*;

verus! {

/// The standard library's `String::push` adds one character at the end.
pub assume_specification[ String::push ](s: &mut String, c: char)
    ensures
        final(s)@ == old(s)@.push(c),
;

/// What the standard library's `str::to_lowercase` returns for a text.
pub uninterp spec fn unicode_lowercase(s: Seq<char>) -> Seq<char>;

/// What the standard library's `str::to_uppercase` returns for a text.
pub uninterp spec fn unicode_uppercase(s: Seq<char>) -> Seq<char>;

/// The standard library's `str::to_lowercase`: its result is a function of the
/// characters of its argument. Nothing else is said of it.
pub assume_specification[ str::to_lowercase ](s: &str) -> (r: String)
    ensures
        r@ == unicode_lowercase(s@),
;

/// The standard library's `str::to_uppercase`: its result is a function of the
/// characters of its argument. Nothing else is said of it.
pub assume_specification[ str::to_uppercase ](s: &str) -> (r: String)
    ensures
        r@ == unicode_uppercase(s@),
;

/// What the standard library's `Debug` prints for a text: it in quotes, with escapes.
pub uninterp spec fn debug_text(s: Seq<char>) -> Seq<char>;

/// The `Debug` of `str`: what is printed is a function of the characters of the text. Nothing
/// else is said of it.
#[verifier::external_body]
pub(crate) fn debug(s: &str) -> (r: String)
    ensures
        r@ == debug_text(s@),
{
    format!("{:?}", s)
}

/// The texts of a sequence of strings.
pub open spec fn texts(v: Seq<String>) -> Seq<Seq<char>> {
    v.map_values(|s: String| s@)
}

/// The text of an optional string.
pub open spec fn text_opt(o: Option<String>) -> Option<Seq<char>> {
    match o {
        Some(s) => Some(s@),
        None => None,
    }
}

/// The characters of a text.
pub fn chars_of(s: &str) -> (v: Vec<char>)
    ensures
        v@ == s@,
{
    let mut v: Vec<char> = Vec::new();
    for c in it: s.chars()
        invariant
            v@ == it.seq().take(it.index() as int),
            it.seq() == s@,
    {
        v.push(c);
    }
    v
}

/// The text made of the given characters.
pub fn text_of(v: &[char]) -> (s: String)
    ensures
        s@ == v@,
{
    let mut s = String::new();
    for i in 0..v.len()
        invariant
            s@ == v@.take(i as int),
    {
        s.push(v[i]);
    }
    assert(v@.take(v@.len() as int) == v@);
    s
}

/// Whether two texts hold the same characters.
pub fn same_text(a: &str, b: &str) -> (r: bool)
    ensures
        r == (a@ == b@),
{
    let x = chars_of(a);
    let y = chars_of(b);
    if x.len() != y.len() {
        return false;
    }
    for i in 0..x.len()
        invariant
            x@ == a@,
            y@ == b@,
            x@.len() == y@.len(),
            x@.take(i as int) == y@.take(i as int),
    {
        if x[i] != y[i] {
            return false;
        }
        assert(x@.take(i + 1) == x@.take(i as int).push(x@[i as int]));
        assert(y@.take(i + 1) == y@.take(i as int).push(y@[i as int]));
    }
    assert(x@.take(x@.len() as int) == x@);
    assert(y@.take(y@.len() as int) == y@);
    true
}

/// The number of bytes of a text in UTF-8.
pub fn byte_len(s: &str) -> (n: usize)
    ensures
        n == encode_utf8(s@).len(),
{
    s.as_bytes().len()
}

/// The part of a text from one character position to another.
pub fn part(s: &str, from: usize, to: usize) -> (r: String)
    requires
        from <= to <= s@.len(),
    ensures
        r@ == s@.subrange(from as int, to as int),
{
    s.substring_char(from, to).to_string()
}

/// The first `to` characters of a text.
pub fn head(s: &str, to: usize) -> (r: String)
    requires
        to <= s@.len(),
    ensures
        r@ == s@.take(to as int),
{
    s.substring_char(0, to).to_string()
}

/// What follows the first `from` characters of a text.
pub fn tail(s: &str, from: usize) -> (r: String)
    requires
        from <= s@.len(),
    ensures
        r@ == s@.skip(from as int),
{
    s.substring_char(from, s.unicode_len()).to_string()
}

// ---------------------------------------------------------------------------
// Searching

/// Whether `p` stands in `s` at character position `i`.
pub open spec fn occurs_at(s: Seq<char>, p: Seq<char>, i: int) -> bool {
    0 <= i && i + p.len() <= s.len() && s.subrange(i, i + p.len()) == p
}

/// The first position at or after `from` at which `p` stands in `s`.
pub open spec fn position_from(s: Seq<char>, p: Seq<char>, from: int) -> Option<int>
    decreases s.len() + 1 - from,
{
    if from < 0 || from + p.len() > s.len() {
        None
    } else if occurs_at(s, p, from) {
        Some(from)
    } else {
        position_from(s, p, from + 1)
    }
}

/// The first position at which `p` stands in `s`.
pub open spec fn position_of(s: Seq<char>, p: Seq<char>) -> Option<int> {
    position_from(s, p, 0)
}

/// The last position not after `from` at which `p` stands in `s`.
pub open spec fn last_position_from(s: Seq<char>, p: Seq<char>, from: int) -> Option<int>
    decreases from + 1,
{
    if from < 0 {
        None
    } else if occurs_at(s, p, from) {
        Some(from)
    } else {
        last_position_from(s, p, from - 1)
    }
}

/// The last position at which `p` stands in `s`.
pub open spec fn last_position_of(s: Seq<char>, p: Seq<char>) -> Option<int> {
    last_position_from(s, p, s.len() as int)
}

/// Whether `p` stands somewhere in `s`.
pub open spec fn has_part(s: Seq<char>, p: Seq<char>) -> bool {
    position_of(s, p) is Some
}

/// Whether `s` begins with `p`.
pub open spec fn has_prefix(s: Seq<char>, p: Seq<char>) -> bool {
    p.len() <= s.len() && s.take(p.len() as int) == p
}

/// Whether `s` ends with `p`.
pub open spec fn has_suffix(s: Seq<char>, p: Seq<char>) -> bool {
    p.len() <= s.len() && s.skip(s.len() - p.len()) == p
}

/// `position_of` gives the first occurrence, and gives one whenever there is one.
pub proof fn position_is_first(s: Seq<char>, p: Seq<char>, from: int)
    requires
        from >= 0,
    ensures
        match position_from(s, p, from) {
            Some(i) => from <= i && occurs_at(s, p, i) && forall|j: int|
                from <= j < i ==> !occurs_at(s, p, j),
            None => forall|j: int| from <= j ==> !occurs_at(s, p, j),
        },
    decreases s.len() + 1 - from,
{
    if from + p.len() <= s.len() && !occurs_at(s, p, from) {
        position_is_first(s, p, from + 1);
    }
}

/// `last_position_of` gives the last occurrence, and gives one whenever there is one.
pub proof fn last_position_is_last(s: Seq<char>, p: Seq<char>, from: int)
    ensures
        match last_position_from(s, p, from) {
            Some(i) => 0 <= i <= from && occurs_at(s, p, i) && forall|j: int|
                i < j <= from ==> !occurs_at(s, p, j),
            None => forall|j: int| 0 <= j <= from ==> !occurs_at(s, p, j),
        },
    decreases from + 1,
{
    if from >= 0 && !occurs_at(s, p, from) {
        last_position_is_last(s, p, from - 1);
    }
}

/// Whether `p` stands in `s` at position `i`.
fn occurs(s: &[char], p: &[char], i: usize) -> (r: bool)
    ensures
        r == occurs_at(s@, p@, i as int),
{
    if p.len() > s.len() || i > s.len() - p.len() {
        return false;
    }
    for k in 0..p.len()
        invariant
            i + p@.len() <= s.len(),
            forall|j: int| 0 <= j < k ==> s@[i + j] == p@[j],
    {
        if s[i + k] != p[k] {
            assert(s@.subrange(i as int, i + p@.len())[k as int] != p@[k as int]);
            return false;
        }
    }
    assert(s@.subrange(i as int, i + p@.len()) =~= p@);
    true
}

/// The first position of `p` in `s`.
pub fn find(s: &str, p: &str) -> (r: Option<usize>)
    ensures
        match r {
            Some(i) => position_of(s@, p@) == Some(i as int) && i + p@.len() <= s@.len()
                && s@.len() <= usize::MAX,
            None => position_of(s@, p@) is None,
        },
{
    let x = chars_of(s);
    let y = chars_of(p);
    if y.len() > x.len() {
        return None;
    }
    let last: usize = x.len() - y.len();
    let mut i: usize = 0;
    loop
        invariant
            x@ == s@,
            y@ == p@,
            last == x.len() - y@.len(),
            i <= last,
            position_of(s@, p@) == position_from(s@, p@, i as int),
        decreases last - i,
    {
        if occurs(x.as_slice(), y.as_slice(), i) {
            return Some(i);
        }
        if i == last {
            assert(position_from(s@, p@, i + 1) is None);
            return None;
        }
        i = i + 1;
    }
}

/// The last position of `p` in `s`.
pub fn rfind(s: &str, p: &str) -> (r: Option<usize>)
    ensures
        match r {
            Some(i) => last_position_of(s@, p@) == Some(i as int) && i + p@.len() <= s@.len()
                && s@.len() <= usize::MAX,
            None => last_position_of(s@, p@) is None,
        },
{
    let x = chars_of(s);
    let y = chars_of(p);
    let mut i: usize = x.len();
    loop
        invariant
            x@ == s@,
            y@ == p@,
            i <= x.len(),
            last_position_of(s@, p@) == last_position_from(s@, p@, i as int),
        decreases i,
    {
        if occurs(x.as_slice(), y.as_slice(), i) {
            return Some(i);
        }
        if i == 0 {
            assert(last_position_from(s@, p@, -1) is None);
            return None;
        }
        i = i - 1;
    }
}

/// Whether `p` stands somewhere in `s`.
pub fn contains(s: &str, p: &str) -> (r: bool)
    ensures
        r == has_part(s@, p@),
{
    find(s, p).is_some()
}

/// Whether `s` begins with `p`.
pub fn starts_with(s: &str, p: &str) -> (r: bool)
    ensures
        r == has_prefix(s@, p@),
{
    let x = chars_of(s);
    let y = chars_of(p);
    let r = occurs(x.as_slice(), y.as_slice(), 0);
    assert(p@.len() <= s@.len() ==> s@.take(p@.len() as int) == s@.subrange(0, p@.len() as int));
    r
}

/// Whether `s` ends with `p`.
pub fn ends_with(s: &str, p: &str) -> (r: bool)
    ensures
        r == has_suffix(s@, p@),
{
    let x = chars_of(s);
    let y = chars_of(p);
    if y.len() > x.len() {
        return false;
    }
    let at: usize = x.len() - y.len();
    assert(s@.skip(s@.len() - p@.len()) == s@.subrange(at as int, at + p@.len()));
    occurs(x.as_slice(), y.as_slice(), at)
}

/// The first position at or after `from` of the character `c` in `s`.
pub open spec fn char_from(s: Seq<char>, c: char, from: int) -> Option<int>
    decreases s.len() - from,
{
    if from < 0 || from >= s.len() {
        None
    } else if s[from] == c {
        Some(from)
    } else {
        char_from(s, c, from + 1)
    }
}

/// The first position of the character `c` in `s`.
pub open spec fn char_position(s: Seq<char>, c: char) -> Option<int> {
    char_from(s, c, 0)
}

/// `char_position` gives the first occurrence, and gives one whenever there is one.
pub proof fn char_position_is_first(s: Seq<char>, c: char, from: int)
    requires
        from >= 0,
    ensures
        match char_from(s, c, from) {
            Some(i) => from <= i < s.len() && s[i] == c && forall|j: int|
                from <= j < i ==> s[j] != c,
            None => forall|j: int| from <= j < s.len() ==> s[j] != c,
        },
    decreases s.len() - from,
{
    if from < s.len() && s[from] != c {
        char_position_is_first(s, c, from + 1);
    }
}

/// The first position of `c` at or after `from`.
fn find_in(s: &[char], c: char, from: usize) -> (r: Option<usize>)
    requires
        from <= s@.len(),
    ensures
        match r {
            Some(i) => char_from(s@, c, from as int) == Some(i as int) && from <= i < s@.len(),
            None => char_from(s@, c, from as int) is None,
        },
{
    let mut i: usize = from;
    while i < s.len()
        invariant
            from <= i <= s@.len(),
            char_from(s@, c, from as int) == char_from(s@, c, i as int),
        decreases s@.len() - i,
    {
        if s[i] == c {
            return Some(i);
        }
        i = i + 1;
    }
    None
}

/// The first position of the character `c` in `s`.
pub fn find_char(s: &str, c: char) -> (r: Option<usize>)
    ensures
        match r {
            Some(i) => char_position(s@, c) == Some(i as int) && i < s@.len() && s@.len()
                <= usize::MAX,
            None => char_position(s@, c) is None,
        },
{
    let x = chars_of(s);
    assert(x.len() <= usize::MAX);
    find_in(x.as_slice(), c, 0)
}

// ---------------------------------------------------------------------------
// Replacing

/// `s` with every occurrence of `p`, taken from the left without overlap, replaced by `to`.
pub open spec fn replaced(s: Seq<char>, p: Seq<char>, to: Seq<char>) -> Seq<char>
    recommends
        p.len() > 0,
    decreases s.len(),
{
    if s.len() == 0 || p.len() == 0 {
        s
    } else if has_prefix(s, p) {
        to + replaced(s.skip(p.len() as int), p, to)
    } else {
        seq![s[0]] + replaced(s.skip(1), p, to)
    }
}

/// `s` with every occurrence of `p` replaced by `to`.
pub fn replace(s: &str, p: &str, to: &str) -> (r: String)
    requires
        p@.len() > 0,
    ensures
        r@ == replaced(s@, p@, to@),
{
    let x = chars_of(s);
    let y = chars_of(p);
    let mut out = String::new();
    let mut i: usize = 0;
    assert(s@.skip(0) == s@);
    while i < x.len()
        invariant
            x@ == s@,
            y@ == p@,
            p@.len() > 0,
            i <= x@.len(),
            out@ + replaced(s@.skip(i as int), p@, to@) == replaced(s@, p@, to@),
        decreases x@.len() - i,
    {
        let ghost rest = s@.skip(i as int);
        let ghost before = out@;
        if occurs(x.as_slice(), y.as_slice(), i) {
            assert(rest.take(p@.len() as int) == s@.subrange(i as int, i + p@.len()));
            assert(rest.skip(p@.len() as int) == s@.skip(i + p@.len()));
            out.append(to);
            i = i + y.len();
            assert(out@ + replaced(s@.skip(i as int), p@, to@) == before + (to@ + replaced(
                s@.skip(i as int),
                p@,
                to@,
            )));
        } else {
            assert(has_prefix(rest, p@) ==> rest.take(p@.len() as int) == s@.subrange(
                i as int,
                i + p@.len(),
            ));
            assert(rest.skip(1) == s@.skip(i + 1));
            out.push(x[i]);
            i = i + 1;
            assert(out@ + replaced(s@.skip(i as int), p@, to@) == before + (seq![rest[0]]
                + replaced(s@.skip(i as int), p@, to@)));
        }
    }
    assert(s@.skip(i as int) == Seq::<char>::empty());
    out
}

// ---------------------------------------------------------------------------
// White space

/// Whether a character is white space: the Unicode property `White_Space`.
pub open spec fn is_space(c: char) -> bool {
    ||| '\u{9}' <= c <= '\u{d}'
    ||| c == ' '
    ||| c == '\u{85}'
    ||| c == '\u{a0}'
    ||| c == '\u{1680}'
    ||| '\u{2000}' <= c <= '\u{200a}'
    ||| c == '\u{2028}'
    ||| c == '\u{2029}'
    ||| c == '\u{202f}'
    ||| c == '\u{205f}'
    ||| c == '\u{3000}'
}

/// Whether a character is white space.
pub fn is_whitespace(c: char) -> (r: bool)
    ensures
        r == is_space(c),
{
    ('\u{9}' <= c && c <= '\u{d}') || c == ' ' || c == '\u{85}' || c == '\u{a0}' || c == '\u{1680}'
        || ('\u{2000}' <= c && c <= '\u{200a}') || c == '\u{2028}' || c == '\u{2029}' || c
        == '\u{202f}' || c == '\u{205f}' || c == '\u{3000}'
}

/// `s` without the white space at its beginning.
pub open spec fn trimmed_start(s: Seq<char>) -> Seq<char>
    decreases s.len(),
{
    if s.len() > 0 && is_space(s[0]) {
        trimmed_start(s.skip(1))
    } else {
        s
    }
}

/// `s` without the white space at its end.
pub open spec fn trimmed_end(s: Seq<char>) -> Seq<char>
    decreases s.len(),
{
    if s.len() > 0 && is_space(s.last()) {
        trimmed_end(s.drop_last())
    } else {
        s
    }
}

/// `s` without the white space at both ends.
pub open spec fn trimmed(s: Seq<char>) -> Seq<char> {
    trimmed_end(trimmed_start(s))
}

/// The position of the first character that is not white space, at or after `from`.
fn skip_space(x: &[char], from: usize) -> (i: usize)
    requires
        from <= x@.len(),
    ensures
        from <= i <= x@.len(),
        x@.skip(i as int) == trimmed_start(x@.skip(from as int)),
        i < x@.len() ==> !is_space(x@[i as int]),
{
    let mut i: usize = from;
    while i < x.len() && is_whitespace(x[i])
        invariant
            from <= i <= x@.len(),
            trimmed_start(x@.skip(i as int)) == trimmed_start(x@.skip(from as int)),
        decreases x@.len() - i,
    {
        assert(x@.skip(i as int).skip(1) == x@.skip(i + 1));
        i = i + 1;
    }
    i
}

/// The length of `x` up to `to` without the white space before `to`.
fn drop_space(x: &[char], from: usize, to: usize) -> (j: usize)
    requires
        from <= to <= x@.len(),
    ensures
        from <= j <= to,
        x@.subrange(from as int, j as int) == trimmed_end(x@.subrange(from as int, to as int)),
{
    let mut j: usize = to;
    while j > from && is_whitespace(x[j - 1])
        invariant
            from <= j <= to <= x@.len(),
            trimmed_end(x@.subrange(from as int, j as int)) == trimmed_end(
                x@.subrange(from as int, to as int),
            ),
        decreases j,
    {
        assert(x@.subrange(from as int, j as int).drop_last() == x@.subrange(
            from as int,
            j - 1,
        ));
        j = j - 1;
    }
    j
}

/// `s` without the white space at both ends.
pub fn trim(s: &str) -> (r: String)
    ensures
        r@ == trimmed(s@),
{
    let x = chars_of(s);
    let i = skip_space(x.as_slice(), 0);
    assert(x@.skip(0) == x@);
    let n: usize = x.len();
    let j = drop_space(x.as_slice(), i, n);
    assert(x@.subrange(i as int, n as int) == x@.skip(i as int));
    text_of(slice_subrange(x.as_slice(), i, j))
}

/// `s` without the white space at its end.
pub fn trim_end(s: &str) -> (r: String)
    ensures
        r@ == trimmed_end(s@),
{
    let x = chars_of(s);
    let n: usize = x.len();
    let j = drop_space(x.as_slice(), 0, n);
    assert(x@.subrange(0, n as int) == x@);
    text_of(slice_subrange(x.as_slice(), 0, j))
}

// ---------------------------------------------------------------------------
// Splitting

/// The pieces of `s` between the occurrences of `c`.
pub open spec fn pieces(s: Seq<char>, c: char) -> Seq<Seq<char>>
    decreases s.len(),
{
    match char_position(s, c) {
        Some(i) => if 0 <= i < s.len() {
            seq![s.take(i)] + pieces(s.skip(i + 1), c)
        } else {
            seq![s]
        },
        None => seq![s],
    }
}

proof fn char_from_of_suffix(s: Seq<char>, c: char, k: int, from: int)
    requires
        0 <= k <= s.len(),
        from >= 0,
    ensures
        char_from(s.skip(k), c, from) == match char_from(s, c, k + from) {
            Some(i) => Some(i - k),
            None => None,
        },
    decreases s.len() - k - from,
{
    if from < s.skip(k).len() && s.skip(k)[from] != c {
        char_from_of_suffix(s, c, k, from + 1);
    }
}

/// The pieces of `s` between the occurrences of `c`.
pub fn split(s: &str, c: char) -> (r: Vec<String>)
    ensures
        texts(r@) == pieces(s@, c),
{
    let x = chars_of(s);
    let mut out: Vec<String> = Vec::new();
    let mut start: usize = 0;
    assert(s@.skip(0) == s@);
    assert(texts(out@) == Seq::<Seq<char>>::empty());
    loop
        invariant
            x@ == s@,
            start <= x@.len(),
            texts(out@) + pieces(s@.skip(start as int), c) == pieces(s@, c),
        decreases x@.len() - start,
    {
        let ghost rest = s@.skip(start as int);
        let ghost before = out@;
        proof {
            char_from_of_suffix(s@, c, start as int, 0);
        }
        let n: usize = x.len();
        match find_in(x.as_slice(), c, start) {
            Some(i) => {
                assert(rest.take(i - start) == s@.subrange(start as int, i as int));
                assert(rest.skip(i - start + 1) == s@.skip(i + 1));
                out.push(text_of(slice_subrange(x.as_slice(), start, i)));
                assert(texts(out@) == texts(before) + seq![rest.take(i - start)]);
                assert(texts(out@) + pieces(s@.skip(i + 1), c) == texts(before) + (seq![
                    rest.take(i - start),
                ] + pieces(s@.skip(i + 1), c)));
                start = i + 1;
            },
            None => {
                assert(s@.subrange(start as int, n as int) == rest);
                out.push(text_of(slice_subrange(x.as_slice(), start, n)));
                assert(texts(out@) == texts(before).push(rest));
                assert(texts(out@) == texts(before) + seq![rest]);
                return out;
            },
        }
    }
}


/// The number of characters before the first white space of `s`.
pub open spec fn word_len(s: Seq<char>) -> int
    decreases s.len(),
{
    if s.len() == 0 || is_space(s[0]) {
        0
    } else {
        1 + word_len(s.skip(1))
    }
}

/// A word is no longer than the text that it begins, and is not empty where the text begins with one.
pub proof fn word_len_bound(s: Seq<char>)
    ensures
        0 <= word_len(s) <= s.len(),
        s.len() > 0 && !is_space(s[0]) ==> word_len(s) > 0,
    decreases s.len(),
{
    if s.len() > 0 && !is_space(s[0]) {
        word_len_bound(s.skip(1));
    }
}

/// Trimming makes no text longer, and leaves no white space at its beginning.
pub proof fn trimmed_start_shortens(s: Seq<char>)
    ensures
        trimmed_start(s).len() <= s.len(),
        trimmed_start(s).len() > 0 ==> !is_space(trimmed_start(s)[0]),
    decreases s.len(),
{
    if s.len() > 0 && is_space(s[0]) {
        trimmed_start_shortens(s.skip(1));
    }
}

/// The longest runs of characters of `s` that are not white space, in order.
pub open spec fn words(s: Seq<char>) -> Seq<Seq<char>>
    decreases s.len(),
{
    let rest = trimmed_start(s);
    if rest.len() == 0 {
        Seq::empty()
    } else {
        proof {
            trimmed_start_shortens(s);
            word_len_bound(rest);
        }
        seq![rest.take(word_len(rest))] + words(rest.skip(word_len(rest)))
    }
}

/// The end of the run of characters that are not white space that begins at `from`.
fn word_end(x: &[char], from: usize) -> (i: usize)
    requires
        from <= x@.len(),
    ensures
        from <= i <= x@.len(),
        i - from == word_len(x@.skip(from as int)),
{
    let mut i: usize = from;
    while i < x.len() && !is_whitespace(x[i])
        invariant
            from <= i <= x@.len(),
            word_len(x@.skip(from as int)) == i - from + word_len(x@.skip(i as int)),
        decreases x@.len() - i,
    {
        assert(x@.skip(i as int).skip(1) == x@.skip(i + 1));
        i = i + 1;
    }
    i
}

/// The longest runs of characters of `s` that are not white space, in order.
pub fn split_whitespace(s: &str) -> (r: Vec<String>)
    ensures
        texts(r@) == words(s@),
{
    let x = chars_of(s);
    let mut out: Vec<String> = Vec::new();
    let mut at: usize = 0;
    assert(s@.skip(0) == s@);
    assert(texts(out@) == Seq::<Seq<char>>::empty());
    loop
        invariant
            x@ == s@,
            at <= x@.len(),
            texts(out@) + words(s@.skip(at as int)) == words(s@),
        decreases x@.len() - at,
    {
        let ghost before = out@;
        let i = skip_space(x.as_slice(), at);
        let ghost rest = s@.skip(i as int);
        if i == x.len() {
            assert(words(s@.skip(at as int)) == Seq::<Seq<char>>::empty());
            assert(texts(out@) + Seq::<Seq<char>>::empty() == texts(out@));
            return out;
        }
        let j = word_end(x.as_slice(), i);
        proof {
            word_len_bound(rest);
        }
        assert(rest.take(j - i) == s@.subrange(i as int, j as int));
        assert(rest.skip(j - i) == s@.skip(j as int));
        out.push(text_of(slice_subrange(x.as_slice(), i, j)));
        assert(texts(out@) == texts(before) + seq![rest.take(j - i)]);
        assert(texts(out@) + words(s@.skip(j as int)) == texts(before) + (seq![rest.take(j - i)]
            + words(s@.skip(j as int))));
        at = j;
    }
}

/// `s` without a carriage return at its end.
pub open spec fn without_return(s: Seq<char>) -> Seq<char> {
    if s.len() > 0 && s.last() == '\r' {
        s.drop_last()
    } else {
        s
    }
}

/// The lines of `s`: each ends at a line feed, or a carriage return and a line
/// feed, which are not part of it; the last line may go without.
pub open spec fn text_lines(s: Seq<char>) -> Seq<Seq<char>>
    decreases s.len(),
{
    if s.len() == 0 {
        Seq::empty()
    } else {
        match char_position(s, '\n') {
            Some(i) => if 0 <= i < s.len() {
                seq![without_return(s.take(i))] + text_lines(s.skip(i + 1))
            } else {
                seq![s]
            },
            None => seq![s],
        }
    }
}

/// The lines of `s`.
pub fn lines(s: &str) -> (r: Vec<String>)
    ensures
        texts(r@) == text_lines(s@),
{
    let x = chars_of(s);
    let mut out: Vec<String> = Vec::new();
    let mut start: usize = 0;
    let n: usize = x.len();
    assert(s@.skip(0) == s@);
    assert(texts(out@) == Seq::<Seq<char>>::empty());
    while start < n
        invariant
            x@ == s@,
            n == x@.len(),
            start <= n,
            texts(out@) + text_lines(s@.skip(start as int)) == text_lines(s@),
        decreases n - start,
    {
        let ghost rest = s@.skip(start as int);
        let ghost before = out@;
        proof {
            char_from_of_suffix(s@, '\n', start as int, 0);
        }
        match find_in(x.as_slice(), '\n', start) {
            Some(i) => {
                assert(rest.take(i - start) == s@.subrange(start as int, i as int));
                assert(rest.skip(i - start + 1) == s@.skip(i + 1));
                let end: usize = if i > start && x[i - 1] == '\r' {
                    i - 1
                } else {
                    i
                };
                assert(s@.subrange(start as int, end as int) == without_return(
                    rest.take(i - start),
                ));
                out.push(text_of(slice_subrange(x.as_slice(), start, end)));
                assert(texts(out@) == texts(before) + seq![without_return(rest.take(i - start))]);
                assert(texts(out@) + text_lines(s@.skip(i + 1)) == texts(before) + (seq![
                    without_return(rest.take(i - start)),
                ] + text_lines(s@.skip(i + 1))));
                start = i + 1;
            },
            None => {
                assert(s@.subrange(start as int, n as int) == rest);
                out.push(text_of(slice_subrange(x.as_slice(), start, n)));
                assert(texts(out@) == texts(before) + seq![rest]);
                return out;
            },
        }
    }
    assert(text_lines(s@.skip(start as int)) == Seq::<Seq<char>>::empty());
    assert(texts(out@) + Seq::<Seq<char>>::empty() == texts(out@));
    out
}

/// The texts of `parts` one after the other with `sep` between them.
pub open spec fn joined(parts: Seq<Seq<char>>, sep: Seq<char>) -> Seq<char>
    decreases parts.len(),
{
    if parts.len() == 0 {
        Seq::empty()
    } else if parts.len() == 1 {
        parts[0]
    } else {
        joined(parts.drop_last(), sep) + sep + parts.last()
    }
}

/// The strings of `parts` one after the other with `sep` between them.
pub fn join(parts: &Vec<String>, sep: &str) -> (r: String)
    ensures
        r@ == joined(texts(parts@), sep@),
{
    let mut out = String::new();
    for i in 0..parts.len()
        invariant
            out@ == joined(texts(parts@).take(i as int), sep@),
    {
        if i > 0 {
            out.append(sep);
        }
        out.append(parts[i].as_str());
        let ghost next = texts(parts@).take(i + 1);
        assert(next.drop_last() == texts(parts@).take(i as int));
        assert(next.last() == parts@[i as int]@);
        assert(i == 0 ==> Seq::<char>::empty() + parts@[0]@ == parts@[0]@);
    }
    assert(texts(parts@).take(parts@.len() as int) == texts(parts@));
    out
}

// ---------------------------------------------------------------------------
// Letter case

/// An ASCII letter in lower case, and any other character itself.
pub open spec fn ascii_lower(c: char) -> char {
    if 'A' <= c <= 'Z' {
        (c as u8 + 32) as u8 as char
    } else {
        c
    }
}

/// An ASCII letter in upper case, and any other character itself.
pub open spec fn ascii_upper(c: char) -> char {
    if 'a' <= c <= 'z' {
        (c as u8 - 32) as u8 as char
    } else {
        c
    }
}

/// A text in lower case.
pub open spec fn lowercased(s: Seq<char>) -> Seq<char> {
    if is_ascii_chars(s) {
        s.map_values(|c: char| ascii_lower(c))
    } else {
        unicode_lowercase(s)
    }
}

/// A text in upper case.
pub open spec fn uppercased(s: Seq<char>) -> Seq<char> {
    if is_ascii_chars(s) {
        s.map_values(|c: char| ascii_upper(c))
    } else {
        unicode_uppercase(s)
    }
}

/// Whether two texts differ at most in the case of ASCII letters.
pub open spec fn same_ignoring_case(a: Seq<char>, b: Seq<char>) -> bool {
    a.map_values(|c: char| ascii_lower(c)) == b.map_values(|c: char| ascii_lower(c))
}

fn lower_char(c: char) -> (r: char)
    ensures
        r == ascii_lower(c),
{
    if 'A' <= c && c <= 'Z' {
        (c as u8 + 32) as char
    } else {
        c
    }
}

fn upper_char(c: char) -> (r: char)
    ensures
        r == ascii_upper(c),
{
    if 'a' <= c && c <= 'z' {
        (c as u8 - 32) as char
    } else {
        c
    }
}

/// A text in lower case. ASCII text is mapped letter by letter; for other text
/// the standard library's mapping decides.
pub fn to_lowercase(s: &str) -> (r: String)
    ensures
        r@ == lowercased(s@),
{
    if !s.is_ascii() {
        return s.to_lowercase();
    }
    let x = chars_of(s);
    let mut out = String::new();
    for i in 0..x.len()
        invariant
            x@ == s@,
            out@ == s@.map_values(|c: char| ascii_lower(c)).take(i as int),
    {
        out.push(lower_char(x[i]));
    }
    assert(s@.map_values(|c: char| ascii_lower(c)).take(x@.len() as int) == s@.map_values(
        |c: char| ascii_lower(c),
    ));
    out
}

/// A text in upper case. ASCII text is mapped letter by letter; for other text
/// the standard library's mapping decides.
pub fn to_uppercase(s: &str) -> (r: String)
    ensures
        r@ == uppercased(s@),
{
    if !s.is_ascii() {
        return s.to_uppercase();
    }
    let x = chars_of(s);
    let mut out = String::new();
    for i in 0..x.len()
        invariant
            x@ == s@,
            out@ == s@.map_values(|c: char| ascii_upper(c)).take(i as int),
    {
        out.push(upper_char(x[i]));
    }
    assert(s@.map_values(|c: char| ascii_upper(c)).take(x@.len() as int) == s@.map_values(
        |c: char| ascii_upper(c),
    ));
    out
}

/// Whether two texts differ at most in the case of ASCII letters.
pub fn eq_ignore_ascii_case(a: &str, b: &str) -> (r: bool)
    ensures
        r == same_ignoring_case(a@, b@),
{
    let x = chars_of(a);
    let y = chars_of(b);
    let ghost la = a@.map_values(|c: char| ascii_lower(c));
    let ghost lb = b@.map_values(|c: char| ascii_lower(c));
    if x.len() != y.len() {
        assert(la.len() != lb.len());
        return false;
    }
    for i in 0..x.len()
        invariant
            x@ == a@,
            y@ == b@,
            x@.len() == y@.len(),
            la == a@.map_values(|c: char| ascii_lower(c)),
            lb == b@.map_values(|c: char| ascii_lower(c)),
            forall|j: int| 0 <= j < i ==> la[j] == lb[j],
    {
        if lower_char(x[i]) != lower_char(y[i]) {
            assert(la[i as int] != lb[i as int]);
            return false;
        }
    }
    assert(la =~= lb);
    true
}

// ---------------------------------------------------------------------------
// Bytes

/// How many characters at the beginning of `s` make up its first `n` bytes in UTF-8;
/// nothing where these end inside a character, or `s` is shorter.
pub open spec fn chars_in_bytes(s: Seq<char>, n: int) -> Option<int>
    decreases s.len(),
{
    if n == 0 {
        Some(0)
    } else if n < 0 || s.len() == 0 {
        None
    } else {
        match chars_in_bytes(s.skip(1), n - encode_scalar(s[0] as u32).len()) {
            Some(k) => Some(k + 1),
            None => None,
        }
    }
}

/// The characters that make up the first bytes are encoded in these bytes.
pub proof fn chars_in_bytes_encode(s: Seq<char>, n: int)
    ensures
        chars_in_bytes(s, n) matches Some(k) ==> 0 <= k <= s.len() && encode_utf8(s.take(k)).len()
            == n,
    decreases s.len(),
{
    if n > 0 && s.len() > 0 {
        let w = encode_scalar(s[0] as u32).len();
        chars_in_bytes_encode(s.skip(1), n - w);
        match chars_in_bytes(s, n) {
            Some(k) => {
                assert(s.take(k).drop_first() =~= s.skip(1).take(k - 1));
            },
            None => {},
        }
    }
}

fn encoded_len(c: char) -> (n: usize)
    ensures
        n == encode_scalar(c as u32).len(),
        1 <= n <= 4,
{
    proof {
        char_is_scalar(c);
    }
    let v: u32 = c as u32;
    if v <= 0x7f {
        1
    } else if v <= 0x7ff {
        2
    } else if v <= 0xffff {
        3
    } else {
        4
    }
}

/// How many characters at the beginning of `s` make up its first `n` bytes.
pub fn char_count_of_bytes(s: &str, n: usize) -> (r: Option<usize>)
    ensures
        match r {
            Some(k) => chars_in_bytes(s@, n as int) == Some(k as int) && k <= s@.len(),
            None => chars_in_bytes(s@, n as int) is None,
        },
{
    let x = chars_of(s);
    let mut left: usize = n;
    let mut i: usize = 0;
    assert(s@.skip(0) =~= s@);
    while i < x.len() && left > 0
        invariant
            x@ == s@,
            i <= x@.len(),
            match chars_in_bytes(s@.skip(i as int), left as int) {
                Some(k) => chars_in_bytes(s@, n as int) == Some(i + k),
                None => chars_in_bytes(s@, n as int) is None,
            },
        decreases x@.len() - i,
    {
        let w: usize = encoded_len(x[i]);
        assert(s@.skip(i as int).skip(1) =~= s@.skip(i + 1));
        if w > left {
            return None;
        }
        left = left - w;
        i = i + 1;
    }
    if left == 0 {
        Some(i)
    } else {
        None
    }
}

// ---------------------------------------------------------------------------
// Order

/// Whether `a` comes before `b` in the order of texts: by the first character in
/// which they differ, and a beginning of a text before the text.
pub open spec fn precedes(a: Seq<char>, b: Seq<char>) -> bool
    decreases a.len(),
{
    if b.len() == 0 {
        false
    } else if a.len() == 0 {
        true
    } else if a[0] != b[0] {
        a[0] < b[0]
    } else {
        precedes(a.skip(1), b.skip(1))
    }
}

/// Of two different texts one comes before the other, and not both.
pub proof fn precedes_is_total(a: Seq<char>, b: Seq<char>)
    ensures
        a != b ==> precedes(a, b) != precedes(b, a),
        a == b ==> !precedes(a, b),
    decreases a.len(),
{
    if a.len() > 0 && b.len() > 0 && a[0] == b[0] {
        precedes_is_total(a.skip(1), b.skip(1));
        if a.skip(1) == b.skip(1) {
            assert(a =~= seq![a[0]] + a.skip(1));
            assert(b =~= seq![b[0]] + b.skip(1));
        }
    } else if a.len() == 0 && b.len() == 0 {
        assert(a =~= b);
    }
}

/// What comes before a text comes before all that come after it.
pub proof fn precedes_is_transitive(a: Seq<char>, b: Seq<char>, c: Seq<char>)
    requires
        precedes(a, b),
        precedes(b, c),
    ensures
        precedes(a, c),
    decreases a.len(),
{
    if a.len() > 0 && b.len() > 0 && c.len() > 0 && a[0] == b[0] && b[0] == c[0] {
        precedes_is_transitive(a.skip(1), b.skip(1), c.skip(1));
    }
}

/// A text with a smaller character after a common beginning comes first.
pub proof fn precedes_at(a: Seq<char>, b: Seq<char>, i: int)
    requires
        0 <= i < a.len(),
        i < b.len(),
        a.take(i) == b.take(i),
        a[i] < b[i],
    ensures
        precedes(a, b),
    decreases i,
{
    if i > 0 {
        assert(a[0] == a.take(i)[0] && b[0] == b.take(i)[0]);
        assert(a.skip(1).take(i - 1) =~= a.take(i).skip(1));
        assert(b.skip(1).take(i - 1) =~= b.take(i).skip(1));
        precedes_at(a.skip(1), b.skip(1), i - 1);
    }
}

/// Whether `a` comes before `b` in the order of texts.
pub fn is_before(a: &str, b: &str) -> (r: bool)
    ensures
        r == precedes(a@, b@),
{
    let x = chars_of(a);
    let y = chars_of(b);
    let mut i: usize = 0;
    assert(a@.skip(0) == a@);
    assert(b@.skip(0) == b@);
    while i < x.len() && i < y.len()
        invariant
            x@ == a@,
            y@ == b@,
            i <= x@.len(),
            i <= y@.len(),
            precedes(a@, b@) == precedes(a@.skip(i as int), b@.skip(i as int)),
        decreases x@.len() - i,
    {
        if x[i] != y[i] {
            return x[i] < y[i];
        }
        assert(a@.skip(i as int).skip(1) == a@.skip(i + 1));
        assert(b@.skip(i as int).skip(1) == b@.skip(i + 1));
        i = i + 1;
    }
    i < y.len()
}

// ---------------------------------------------------------------------------
// Numbers

/// The decimal digit of a value below ten.
pub open spec fn digit(d: nat) -> char {
    (48 + d) as char
}

/// A number in decimal.
pub open spec fn decimal(n: nat) -> Seq<char>
    decreases n,
{
    if n < 10 {
        seq![digit(n)]
    } else {
        decimal(n / 10).push(digit(n % 10))
    }
}

/// Different numbers are different texts in decimal.
pub proof fn decimal_is_injective(a: nat, b: nat)
    requires
        decimal(a) == decimal(b),
    ensures
        a == b,
    decreases a,
{
    let x = decimal(a);
    let y = decimal(b);
    assert(x.last() == digit(a % 10));
    assert(y.last() == digit(b % 10));
    if a >= 10 && b >= 10 {
        assert(x.drop_last() =~= decimal(a / 10));
        assert(y.drop_last() =~= decimal(b / 10));
        decimal_is_injective(a / 10, b / 10);
    } else if a >= 10 {
        decimal_is_not_empty(a / 10);
        assert(x.len() > 1);
    } else if b >= 10 {
        decimal_is_not_empty(b / 10);
        assert(y.len() > 1);
    }
}

proof fn decimal_is_not_empty(n: nat)
    ensures
        decimal(n).len() > 0,
    decreases n,
{
    if n >= 10 {
        decimal_is_not_empty(n / 10);
    }
}

/// `s` with as many `0` before it as make it `width` characters long.
pub open spec fn zero_padded(s: Seq<char>, width: nat) -> Seq<char> {
    Seq::new((if s.len() < width { width - s.len() } else { 0 }) as nat, |i: int| '0') + s
}

/// A number in decimal.
pub fn number_text(n: u64) -> (r: String)
    ensures
        r@ == decimal(n as nat),
    decreases n,
{
    let d: u8 = (n % 10) as u8;
    let c: char = (48 + d) as char;
    if n < 10 {
        let mut out = String::new();
        out.push(c);
        assert(out@ == seq![digit(n as nat)]);
        out
    } else {
        let mut out = number_text(n / 10);
        out.push(c);
        out
    }
}

/// A number in decimal with zeros before it up to eight digits.
pub fn padded_number(n: u64) -> (r: String)
    ensures
        r@ == zero_padded(decimal(n as nat), 8),
{
    let digits = number_text(n);
    let count = digits.as_str().unicode_len();
    let mut out = String::new();
    let mut i: usize = count;
    while i < 8
        invariant
            count == digits@.len(),
            count <= i,
            count <= 8 ==> i <= 8,
            count > 8 ==> i == count,
            out@ == Seq::new((i - count) as nat, |j: int| '0'),
        decreases 8 - i,
    {
        out.push('0');
        i = i + 1;
    }
    out.append(digits.as_str());
    assert(out@ == zero_padded(decimal(n as nat), 8));
    out
}

/// The value of a text of decimal digits, read on after the value `acc`; nothing
/// where a character is no digit.
pub open spec fn digits_value(s: Seq<char>, acc: nat) -> Option<nat>
    decreases s.len(),
{
    if s.len() == 0 {
        Some(acc)
    } else if '0' <= s[0] <= '9' {
        digits_value(s.skip(1), (acc * 10 + (s[0] as nat - 48)) as nat)
    } else {
        None
    }
}

/// The number below 2^32 that a text denotes: decimal digits, at least one, with
/// or without a plus sign before them.
pub open spec fn u32_value(s: Seq<char>) -> Option<u32> {
    let digits = if s.len() > 0 && s[0] == '+' {
        s.skip(1)
    } else {
        s
    };
    if digits.len() == 0 {
        None
    } else {
        match digits_value(digits, 0) {
            Some(n) => if n <= u32::MAX {
                Some(n as u32)
            } else {
                None
            },
            None => None,
        }
    }
}

proof fn digits_value_push(s: Seq<char>, d: nat, acc: nat)
    requires
        d < 10,
        digits_value(s, acc) is Some,
    ensures
        digits_value(s.push(digit(d)), acc) == Some((digits_value(s, acc)->0 * 10 + d) as nat),
    decreases s.len(),
{
    let t = s.push(digit(d));
    if s.len() == 0 {
        let value = (acc * 10 + d) as nat;
        assert(t.skip(1) =~= Seq::<char>::empty());
        assert(t[0] == digit(d) && t[0] as nat - 48 == d);
        assert(digits_value(t.skip(1), value) == Some(value));
        assert(digits_value(t, acc) == digits_value(t.skip(1), value));
    } else {
        assert(t[0] == s[0]);
        let next = (acc * 10 + (s[0] as nat - 48)) as nat;
        assert(t.skip(1) =~= s.skip(1).push(digit(d)));
        digits_value_push(s.skip(1), d, next);
    }
}

/// A number is read back from its decimal text.
pub proof fn decimal_is_read_back(n: nat)
    ensures
        digits_value(decimal(n), 0) == Some(n),
        decimal(n).len() > 0,
        forall|i: int| 0 <= i < decimal(n).len() ==> '0' <= #[trigger] decimal(n)[i] <= '9',
    decreases n,
{
    if n < 10 {
        let s = decimal(n);
        assert(s.skip(1) =~= Seq::<char>::empty());
        assert(digits_value(s.skip(1), n) == Some(n));
    } else {
        decimal_is_read_back(n / 10);
        digits_value_push(decimal(n / 10), n % 10, 0);
    }
}

/// A text that begins and ends with something else than white space has none around it.
pub proof fn words_are_not_trimmed(s: Seq<char>)
    requires
        s.len() > 0,
        !is_space(s[0]),
        !is_space(s.last()),
    ensures
        trimmed(s) == s,
{
}

proof fn digits_value_grows(s: Seq<char>, acc: nat)
    ensures
        digits_value(s, acc) matches Some(n) ==> n >= acc,
    decreases s.len(),
{
    if s.len() > 0 && '0' <= s[0] <= '9' {
        digits_value_grows(s.skip(1), (acc * 10 + (s[0] as nat - 48)) as nat);
    }
}

/// The number below 2^32 that a text denotes.
pub fn parse_u32(s: &str) -> (r: Option<u32>)
    ensures
        r == u32_value(s@),
{
    let x = chars_of(s);
    let mut i: usize = if x.len() > 0 && x[0] == '+' {
        1
    } else {
        0
    };
    if i == x.len() {
        return None;
    }
    let ghost digits = s@.skip(i as int);
    assert(i == 0 ==> s@.skip(0) == s@);
    let mut acc: u64 = 0;
    while i < x.len()
        invariant
            x@ == s@,
            i <= x@.len(),
            acc <= u32::MAX,
            digits.len() > 0,
            digits == (if s@.len() > 0 && s@[0] == '+' {
                s@.skip(1)
            } else {
                s@
            }),
            digits_value(digits, 0) == digits_value(s@.skip(i as int), acc as nat),
        decreases x@.len() - i,
    {
        let c: char = x[i];
        assert(s@.skip(i as int).skip(1) == s@.skip(i + 1));
        if c < '0' || '9' < c {
            return None;
        }
        acc = acc * 10 + (c as u8 - 48) as u64;
        i = i + 1;
        if acc > u32::MAX as u64 {
            proof {
                digits_value_grows(s@.skip(i as int), acc as nat);
            }
            return None;
        }
    }
    Some(acc as u32)
}

}
