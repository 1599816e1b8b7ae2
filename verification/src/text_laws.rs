//! What the operations on texts do, told by how their results are put together again.

use crate::text;
use vstd::prelude::*;
use vstd::string::*;
use vstd::utf8::*;

verus! {

// ---------------------------------------------------------------------------
// White space

/// All characters are white space.
pub open spec fn all_space(s: Seq<char>) -> bool {
    forall|i: int| 0 <= i < s.len() ==> text::is_space(#[trigger] s[i])
}

/// Something else than white space stands at both ends.
pub open spec fn is_bare(s: Seq<char>) -> bool {
    s.len() > 0 && !text::is_space(s[0]) && !text::is_space(s.last())
}

/// The usual white space is white space, and what can be seen in ASCII is not.
pub proof fn space_is_known()
    ensures
        text::is_space(' ') && text::is_space('\n') && text::is_space('\t') && text::is_space('\r'),
        forall|c: char| '!' <= c <= '~' ==> !#[trigger] text::is_space(c),
{
}

/// The white space around a text is taken away, all of it, and nothing else.
pub proof fn trimming_takes_space_away(before: Seq<char>, s: Seq<char>, after: Seq<char>)
    requires
        all_space(before),
        all_space(after),
        s.len() == 0 || is_bare(s),
    ensures
        text::trimmed(before + s + after) == s,
    decreases before.len(),
{
    let all = before + s + after;
    if before.len() > 0 {
        assert(text::is_space(before[0]));
        assert(all[0] == before[0]);
        assert(all.skip(1) =~= before.skip(1) + s + after);
        assert forall|i: int| 0 <= i < before.skip(1).len() implies text::is_space(
            #[trigger] before.skip(1)[i],
        ) by {
            assert(before.skip(1)[i] == before[i + 1]);
        }
        trimming_takes_space_away(before.skip(1), s, after);
    } else if s.len() > 0 {
        assert(all =~= s + after);
        assert(all[0] == s[0]);
        assert(text::trimmed_start(all) == all);
        end_is_trimmed(s, after);
    } else {
        assert(all =~= after);
        start_of_space(after);
        assert(text::trimmed(after) =~= s);
    }
}

proof fn start_of_space(s: Seq<char>)
    requires
        all_space(s),
    ensures
        text::trimmed_start(s) == Seq::<char>::empty(),
    decreases s.len(),
{
    if s.len() > 0 {
        assert(text::is_space(s[0]));
        assert forall|i: int| 0 <= i < s.skip(1).len() implies text::is_space(
            #[trigger] s.skip(1)[i],
        ) by {
            assert(s.skip(1)[i] == s[i + 1]);
        }
        start_of_space(s.skip(1));
    } else {
        assert(s =~= Seq::<char>::empty());
    }
}

/// The white space after a text is taken away, all of it, and nothing else.
pub proof fn end_is_trimmed(s: Seq<char>, after: Seq<char>)
    requires
        all_space(after),
        s.len() == 0 || !text::is_space(s.last()),
    ensures
        text::trimmed_end(s + after) == s,
    decreases after.len(),
{
    let all = s + after;
    if after.len() > 0 {
        assert(text::is_space(after[after.len() - 1]));
        assert(all.last() == after.last());
        assert(all.drop_last() =~= s + after.drop_last());
        assert forall|i: int| 0 <= i < after.drop_last().len() implies text::is_space(
            #[trigger] after.drop_last()[i],
        ) by {
            assert(after.drop_last()[i] == after[i]);
        }
        end_is_trimmed(s, after.drop_last());
    } else {
        assert(all =~= s);
    }
}

// ---------------------------------------------------------------------------
// Cutting

/// No character of the text is this one.
pub open spec fn is_without(s: Seq<char>, c: char) -> bool {
    forall|i: int| 0 <= i < s.len() ==> s[i] != c
}

/// A text without the separator is one piece; a separator ends a piece, and the rest is cut alike.
pub proof fn pieces_are_cut(a: Seq<char>, c: char, b: Seq<char>)
    requires
        is_without(a, c),
    ensures
        text::pieces(a, c) == seq![a],
        text::pieces(a.push(c) + b, c) == seq![a] + text::pieces(b, c),
{
    let s = a.push(c) + b;
    let n = a.len() as int;
    text::char_position_is_first(a, c, 0);
    text::char_position_is_first(s, c, 0);
    assert(s[n] == c);
    assert forall|i: int| 0 <= i < n implies s[i] != c by {
        assert(s[i] == a[i]);
    }
    assert(text::char_position(s, c) == Some(n));
    assert(s.take(n) =~= a);
    assert(s.skip(n + 1) =~= b);
}

/// A line ends before a line feed, or before a carriage return and a line feed; the last line may go
/// without, and keeps its carriage return.
pub proof fn lines_are_cut(a: Seq<char>, b: Seq<char>)
    requires
        is_without(a, '\n'),
        a.len() == 0 || a.last() != '\r',
    ensures
        text::text_lines(a.push('\n') + b) == seq![a] + text::text_lines(b),
        text::text_lines(a.push('\r').push('\n') + b) == seq![a] + text::text_lines(b),
        a.len() > 0 ==> text::text_lines(a) == seq![a],
        text::text_lines(a.push('\r')) == seq![a.push('\r')],
        text::text_lines(Seq::empty()) == Seq::<Seq<char>>::empty(),
{
    line_is_cut(a, b);
    line_is_cut(a.push('\r'), b);
    assert(a.push('\r').drop_last() =~= a);
    text::char_position_is_first(a, '\n', 0);
    text::char_position_is_first(a.push('\r'), '\n', 0);
}

proof fn line_is_cut(a: Seq<char>, b: Seq<char>)
    requires
        is_without(a, '\n'),
    ensures
        text::text_lines(a.push('\n') + b) == seq![text::without_return(a)] + text::text_lines(b),
{
    let s = a.push('\n') + b;
    let n = a.len() as int;
    text::char_position_is_first(s, '\n', 0);
    assert(s[n] == '\n');
    assert forall|i: int| 0 <= i < n implies s[i] != '\n' by {
        assert(s[i] == a[i]);
    }
    assert(text::char_position(s, '\n') == Some(n));
    assert(s.take(n) =~= a);
    assert(s.skip(n + 1) =~= b);
}

/// Words are what stands between white space: the first one is followed by the words of the rest.
pub proof fn words_are_cut(spaces: Seq<char>, word: Seq<char>, space: char, rest: Seq<char>)
    requires
        all_space(spaces),
        word.len() > 0,
        forall|i: int| 0 <= i < word.len() ==> !text::is_space(#[trigger] word[i]),
        text::is_space(space),
    ensures
        text::words(spaces + word + seq![space] + rest) == seq![word] + text::words(
            seq![space] + rest,
        ),
        text::words(spaces + word) == seq![word],
        text::words(spaces) == Seq::<Seq<char>>::empty(),
        text::words(seq![space] + rest) == text::words(rest),
{
    let one = spaces + word + seq![space] + rest;
    let two = spaces + word;
    start_is_skipped(spaces, word + seq![space] + rest);
    start_is_skipped(spaces, word);
    start_of_space(spaces);
    assert(one =~= spaces + (word + seq![space] + rest));
    let a = word + seq![space] + rest;
    assert(a[0] == word[0]);
    word_is_measured(word, seq![space] + rest);
    assert(a =~= word + (seq![space] + rest));
    let empty = Seq::<char>::empty();
    word_is_measured(word, empty);
    assert(word + empty =~= word);
    assert(a.take(word.len() as int) =~= word);
    assert(a.skip(word.len() as int) =~= seq![space] + rest);
    assert(word.take(word.len() as int) =~= word);
    assert(word.skip(word.len() as int) =~= empty);
    assert(text::words(empty) =~= Seq::<Seq<char>>::empty());
    assert(text::words(two) =~= seq![word]);
    let b = seq![space] + rest;
    assert(b[0] == space);
    assert(b.skip(1) =~= rest);
    assert(text::trimmed_start(b) == text::trimmed_start(rest));
}

proof fn start_is_skipped(spaces: Seq<char>, s: Seq<char>)
    requires
        all_space(spaces),
        s.len() > 0,
        !text::is_space(s[0]),
    ensures
        text::trimmed_start(spaces + s) == s,
    decreases spaces.len(),
{
    let all = spaces + s;
    if spaces.len() > 0 {
        assert(text::is_space(spaces[0]));
        assert(all[0] == spaces[0]);
        assert(all.skip(1) =~= spaces.skip(1) + s);
        assert forall|i: int| 0 <= i < spaces.skip(1).len() implies text::is_space(
            #[trigger] spaces.skip(1)[i],
        ) by {
            assert(spaces.skip(1)[i] == spaces[i + 1]);
        }
        start_is_skipped(spaces.skip(1), s);
    } else {
        assert(all =~= s);
    }
}

proof fn word_is_measured(word: Seq<char>, rest: Seq<char>)
    requires
        forall|i: int| 0 <= i < word.len() ==> !text::is_space(#[trigger] word[i]),
        rest.len() == 0 || text::is_space(rest[0]),
    ensures
        text::word_len(word + rest) == word.len(),
    decreases word.len(),
{
    let all = word + rest;
    if word.len() > 0 {
        assert(!text::is_space(word[0]));
        assert(all[0] == word[0]);
        assert(all.skip(1) =~= word.skip(1) + rest);
        assert forall|i: int| 0 <= i < word.skip(1).len() implies !text::is_space(
            #[trigger] word.skip(1)[i],
        ) by {
            assert(word.skip(1)[i] == word[i + 1]);
        }
        word_is_measured(word.skip(1), rest);
    } else {
        assert(all =~= rest);
    }
}

// ---------------------------------------------------------------------------
// Replacing and joining

/// The first occurrence of a part is replaced, and the rest after it alike.
pub proof fn parts_are_replaced(a: Seq<char>, p: Seq<char>, to: Seq<char>, b: Seq<char>)
    requires
        p.len() > 0,
        forall|i: int| 0 <= i < a.len() ==> !#[trigger] text::occurs_at(a + p + b, p, i),
    ensures
        text::replaced(a + p + b, p, to) == a + to + text::replaced(b, p, to),
    decreases a.len(),
{
    let s = a + p + b;
    if a.len() == 0 {
        assert(s.take(p.len() as int) =~= p);
        assert(s.skip(p.len() as int) =~= b);
        assert(a + to + text::replaced(b, p, to) =~= to + text::replaced(b, p, to));
    } else {
        assert(!text::occurs_at(s, p, 0));
        assert(s.subrange(0, p.len() as int) =~= s.take(p.len() as int));
        let c = a.skip(1);
        assert(s.skip(1) =~= c + p + b);
        assert forall|i: int| 0 <= i < c.len() implies !#[trigger] text::occurs_at(c + p + b, p, i) by {
            assert(!text::occurs_at(s, p, i + 1));
            assert(s.subrange(i + 1, i + 1 + p.len()) =~= (c + p + b).subrange(i, i + p.len()));
        }
        parts_are_replaced(c, p, to, b);
        assert(seq![s[0]] + (c + to + text::replaced(b, p, to)) =~= a + to + text::replaced(
            b,
            p,
            to,
        ));
    }
}

/// Where the part does not occur, nothing is replaced.
pub proof fn nothing_to_replace(s: Seq<char>, p: Seq<char>, to: Seq<char>)
    requires
        p.len() > 0,
        forall|i: int| 0 <= i ==> !#[trigger] text::occurs_at(s, p, i),
    ensures
        text::replaced(s, p, to) == s,
    decreases s.len(),
{
    if s.len() > 0 {
        assert(!text::occurs_at(s, p, 0));
        if p.len() <= s.len() {
            assert(s.subrange(0, p.len() as int) =~= s.take(p.len() as int));
        }
        let t = s.skip(1);
        assert forall|i: int| 0 <= i implies !#[trigger] text::occurs_at(t, p, i) by {
            assert(!text::occurs_at(s, p, i + 1));
            if i + p.len() <= t.len() {
                assert(s.subrange(i + 1, i + 1 + p.len()) =~= t.subrange(i, i + p.len()));
            }
        }
        nothing_to_replace(t, p, to);
        assert(seq![s[0]] + t =~= s);
    }
}

/// Joined texts come in order, with the separator between each two and nowhere else.
pub proof fn texts_are_joined(parts: Seq<Seq<char>>, last: Seq<char>, sep: Seq<char>)
    ensures
        text::joined(Seq::empty(), sep) == Seq::<char>::empty(),
        text::joined(seq![last], sep) == last,
        parts.len() > 0 ==> text::joined(parts.push(last), sep) == text::joined(parts, sep) + sep
            + last,
{
    if parts.len() > 0 {
        assert(parts.push(last).drop_last() =~= parts);
    }
}

// ---------------------------------------------------------------------------
// Upper and lower case

/// In a text of ASCII each letter is changed by itself, and nothing else.
pub proof fn ascii_case_is_changed(s: Seq<char>, i: int)
    requires
        is_ascii_chars(s),
        0 <= i < s.len(),
    ensures
        text::uppercased(s).len() == s.len() && text::lowercased(s).len() == s.len(),
        'a' <= s[i] <= 'z' ==> text::uppercased(s)[i] as int == s[i] as int - 32
            && text::lowercased(s)[i] == s[i],
        'A' <= s[i] <= 'Z' ==> text::lowercased(s)[i] as int == s[i] as int + 32
            && text::uppercased(s)[i] == s[i],
        !('a' <= s[i] <= 'z') && !('A' <= s[i] <= 'Z') ==> text::uppercased(s)[i] == s[i]
            && text::lowercased(s)[i] == s[i],
{
    assert(is_ascii_chars(s));
}

/// Texts are the same but for case exactly if they are as long and each two characters are the
/// same, or the two cases of a letter of ASCII.
pub proof fn case_is_ignored(a: Seq<char>, b: Seq<char>)
    ensures
        text::same_ignoring_case(a, b) <==> a.len() == b.len() && forall|i: int|
            0 <= i < a.len() ==> (#[trigger] a[i] == b[i] || ('a' <= a[i] <= 'z' && a[i] as int
                == b[i] as int + 32) || ('A' <= a[i] <= 'Z' && a[i] as int + 32 == b[i] as int)),
{
    let x = a.map_values(|c: char| text::ascii_lower(c));
    let y = b.map_values(|c: char| text::ascii_lower(c));
    if text::same_ignoring_case(a, b) {
        assert(x.len() == a.len() && y.len() == b.len());
        assert forall|i: int| 0 <= i < a.len() implies (#[trigger] a[i] == b[i] || ('a' <= a[i]
            <= 'z' && a[i] as int == b[i] as int + 32) || ('A' <= a[i] <= 'Z' && a[i] as int + 32
            == b[i] as int)) by {
            assert(x[i] == y[i]);
            assert(text::ascii_lower(a[i]) == text::ascii_lower(b[i]));
        }
    } else if a.len() == b.len() && forall|i: int|
        0 <= i < a.len() ==> (#[trigger] a[i] == b[i] || ('a' <= a[i] <= 'z' && a[i] as int
            == b[i] as int + 32) || ('A' <= a[i] <= 'Z' && a[i] as int + 32 == b[i] as int)) {
        assert forall|i: int| 0 <= i < x.len() implies x[i] == y[i] by {
            assert(a[i] == b[i] || ('a' <= a[i] <= 'z' && a[i] as int == b[i] as int + 32) || ('A'
                <= a[i] <= 'Z' && a[i] as int + 32 == b[i] as int));
            assert(text::ascii_lower(a[i]) == text::ascii_lower(b[i]));
        }
        assert(x =~= y);
    }
}

// ---------------------------------------------------------------------------
// Numbers

/// A number is read back from its digits, with a plus sign or without; with any other character it
/// is no number.
pub proof fn numbers_are_read_back(n: u32)
    ensures
        text::u32_value(text::decimal(n as nat)) == Some(n),
        text::u32_value("+"@ + text::decimal(n as nat)) == Some(n),
        text::u32_value("-"@ + text::decimal(n as nat)) is None,
        text::u32_value(Seq::empty()) is None,
{
    reveal_strlit("+");
    reveal_strlit("-");
    let d = text::decimal(n as nat);
    text::decimal_is_read_back(n as nat);
    assert(("+"@ + d).skip(1) =~= d);
    assert(("-"@ + d)[0] == '-');
    assert('0' <= d[0] <= '9');
}

/// Padding adds zeros before a text until it is long enough, and keeps the text.
pub proof fn padding_adds_zeros(s: Seq<char>, width: nat)
    ensures
        text::has_suffix(text::zero_padded(s, width), s),
        s.len() >= width ==> text::zero_padded(s, width) == s,
        s.len() < width ==> text::zero_padded(s, width).len() == width && forall|i: int|
            0 <= i < width - s.len() ==> text::zero_padded(s, width)[i] == '0',
{
    let p = text::zero_padded(s, width);
    assert(p.skip(p.len() - s.len()) =~= s);
    if s.len() >= width {
        assert(p =~= s);
    }
}

}
