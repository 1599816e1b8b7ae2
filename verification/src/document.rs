//! The documents that an editor has open.

use crate::table::Table;
use crate::text;
use vstd::prelude::*;
use vstd::string::*;
use vstd::utf8::*;

verus! {

/// A place in a text: a line, and in it a number of UTF-16 units.
#[derive(Debug, Clone, Copy, PartialEq, Eq, Structural)]
pub struct Position {
    pub line: u32,
    pub character: u32,
}

/// The part of a text between two places.
#[derive(Debug, Clone, Copy, PartialEq, Eq, Structural)]
pub struct Range {
    pub start: Position,
    pub end: Position,
}

/// A change of a document: of a part of it, or of the whole.
#[derive(Debug, Clone)]
pub struct TextChange {
    pub range: Option<Range>,
    pub text: String,
}

// ---------------------------------------------------------------------------
// Positions

/// The number of UTF-16 units of a character.
pub open spec fn utf16_len(c: char) -> nat {
    if c as u32 >= 0x10000 {
        2
    } else {
        1
    }
}

/// Where a line begins, where there is such a line.
pub open spec fn line_start(s: Seq<char>, line: nat) -> Option<int>
    decreases line,
{
    if line == 0 {
        Some(0)
    } else {
        match line_start(s, (line - 1) as nat) {
            Some(start) => match text::char_from(s, '\n', start) {
                Some(end) => Some(end + 1),
                None => None,
            },
            None => None,
        }
    }
}

/// The number of characters from `at` on that come before `character` UTF-16 units
/// are counted, after `units`, and before the line ends.
pub open spec fn column(s: Seq<char>, at: int, character: nat, units: nat) -> int
    decreases s.len() - at,
{
    if at < 0 || at >= s.len() || units >= character || s[at] == '\n' {
        0
    } else {
        1 + column(s, at + 1, character, units + utf16_len(s[at]))
    }
}

/// The character at which a position lies. One beyond the end of its line is that end,
/// and one beyond the last line is the end of the text.
pub open spec fn char_index(s: Seq<char>, p: Position) -> int {
    match line_start(s, p.line as nat) {
        Some(start) => start + column(s, start, p.character as nat, 0),
        None => s.len() as int,
    }
}

/// The text with the part between two positions replaced.
pub open spec fn edited(s: Seq<char>, range: Range, new: Seq<char>) -> Seq<char> {
    s.take(char_index(s, range.start)) + new + s.skip(char_index(s, range.end))
}

/// A line begins inside the text or at its end, and after the line before it.
pub proof fn line_start_bounds(s: Seq<char>, line: nat)
    ensures
        match line_start(s, line) {
            Some(start) => 0 <= start <= s.len(),
            None => true,
        },
    decreases line,
{
    if line > 0 {
        line_start_bounds(s, (line - 1) as nat);
        match line_start(s, (line - 1) as nat) {
            Some(start) => {
                text::char_position_is_first(s, '\n', start);
            },
            None => {},
        }
    }
}

proof fn column_bounds(s: Seq<char>, at: int, character: nat, units: nat)
    requires
        0 <= at <= s.len(),
    ensures
        0 <= column(s, at, character, units) <= s.len() - at,
        forall|j: int| at <= j < at + column(s, at, character, units) ==> s[j] != '\n',
    decreases s.len() - at,
{
    if !(at >= s.len() || units >= character || s[at] == '\n') {
        column_bounds(s, at + 1, character, units + utf16_len(s[at]));
    }
}

/// A position lies on its line, however far beyond the end of it its column is.
pub proof fn position_stays_in_line(s: Seq<char>, p: Position)
    ensures
        0 <= char_index(s, p) <= s.len(),
        line_start(s, p.line as nat) matches Some(start) ==> start <= char_index(s, p) && forall|
            j: int,
        |
            start <= j < char_index(s, p) ==> s[j] != '\n',
{
    line_start_bounds(s, p.line as nat);
    match line_start(s, p.line as nat) {
        Some(start) => {
            column_bounds(s, start, p.character as nat, 0);
        },
        None => {},
    }
}

proof fn column_grows(s: Seq<char>, at: int, a: nat, b: nat, units: nat)
    requires
        0 <= at <= s.len(),
        a <= b,
    ensures
        column(s, at, a, units) <= column(s, at, b, units),
    decreases s.len() - at,
{
    column_bounds(s, at, b, units);
    if !(at >= s.len() || units >= a || s[at] == '\n') {
        column_grows(s, at + 1, a, b, units + utf16_len(s[at]));
    }
}

/// What lies on a line comes before the lines after it.
proof fn lines_keep_order(s: Seq<char>, p: Position, line: nat)
    requires
        p.line < line,
    ensures
        line_start(s, line) matches Some(start) ==> char_index(s, p) < start,
    decreases line,
{
    position_stays_in_line(s, p);
    line_start_bounds(s, (line - 1) as nat);
    match line_start(s, (line - 1) as nat) {
        Some(start) => {
            text::char_position_is_first(s, '\n', start);
            if p.line == line - 1 {
                match text::char_from(s, '\n', start) {
                    Some(end) => {
                        if end < char_index(s, p) {
                            assert(s[end] != '\n');
                        }
                    },
                    None => {},
                }
            } else {
                lines_keep_order(s, p, (line - 1) as nat);
            }
        },
        None => {},
    }
}

/// Positions keep their order in the text.
pub proof fn positions_keep_order(s: Seq<char>, a: Position, b: Position)
    requires
        a.line < b.line || (a.line == b.line && a.character <= b.character),
    ensures
        char_index(s, a) <= char_index(s, b),
{
    position_stays_in_line(s, a);
    position_stays_in_line(s, b);
    line_start_bounds(s, b.line as nat);
    match line_start(s, b.line as nat) {
        Some(start) => {
            if a.line == b.line {
                column_grows(s, start, a.character as nat, b.character as nat, 0);
            } else {
                lines_keep_order(s, a, b.line as nat);
            }
        },
        None => {},
    }
}

/// A change of a part keeps what is before and after the part, and nothing else of
/// the text.
pub proof fn edit_keeps_the_rest(s: Seq<char>, range: Range, new: Seq<char>)
    requires
        range.start.line < range.end.line || (range.start.line == range.end.line
            && range.start.character <= range.end.character),
    ensures
        ({
            let from = char_index(s, range.start);
            let to = char_index(s, range.end);
            let r = edited(s, range, new);
            &&& 0 <= from <= to <= s.len()
            &&& r.len() == s.len() - (to - from) + new.len()
            &&& r.take(from) == s.take(from)
            &&& r.subrange(from, from + new.len()) == new
            &&& r.skip(from + new.len()) == s.skip(to)
        }),
{
    positions_keep_order(s, range.start, range.end);
    position_stays_in_line(s, range.start);
    position_stays_in_line(s, range.end);
    let from = char_index(s, range.start);
    let to = char_index(s, range.end);
    let r = edited(s, range, new);
    assert(r.take(from) =~= s.take(from));
    assert(r.subrange(from, from + new.len()) =~= new);
    assert(r.skip(from + new.len()) =~= s.skip(to));
}

/// The character at which a position lies.
pub fn position_to_index(content: &str, position: Position) -> (r: usize)
    ensures
        r == char_index(content@, position),
        r <= content@.len(),
{
    let x = text::chars_of(content);
    let n: usize = x.len();
    let mut start: usize = 0;
    let mut line: u32 = 0;
    let mut i: usize = 0;
    // The line is the one that `i` is on.
    while line < position.line
        invariant
            x@ == content@,
            n == x.len(),
            line <= position.line,
            start <= i <= n,
            line_start(content@, line as nat) == Some(start as int),
            text::char_from(content@, '\n', start as int) == text::char_from(
                content@,
                '\n',
                i as int,
            ),
        decreases n - i, position.line - line,
    {
        if i == n {
            proof {
                no_line_after(content@, (line + 1) as nat, position.line as nat);
                position_stays_in_line(content@, position);
            }
            return n;
        }
        if x[i] == '\n' {
            line = line + 1;
            i = i + 1;
            start = i;
        } else {
            i = i + 1;
        }
    }
    let mut units: u64 = 0;
    let mut at: usize = start;
    while at < n && units < position.character as u64 && x[at] != '\n'
        invariant
            x@ == content@,
            n == x.len(),
            start <= at <= n,
            units <= position.character + 1,
            column(content@, start as int, position.character as nat, 0) == at - start + column(
                content@,
                at as int,
                position.character as nat,
                units as nat,
            ),
        decreases n - at,
    {
        if x[at] as u32 >= 0x10000 {
            units = units + 2;
        } else {
            units = units + 1;
        }
        at = at + 1;
    }
    at
}

proof fn no_line_after(s: Seq<char>, a: nat, b: nat)
    requires
        a <= b,
        line_start(s, a) is None,
    ensures
        line_start(s, b) is None,
    decreases b,
{
    if a < b {
        no_line_after(s, a, (b - 1) as nat);
    }
}

/// The byte at which a position lies.
pub fn position_to_offset(content: &str, position: Position) -> (r: usize)
    ensures
        r == encode_utf8(content@.take(char_index(content@, position))).len(),
{
    let i: usize = position_to_index(content, position);
    text::byte_len(text::head(content, i).as_str())
}

/// Replaces a part of a text.
pub fn apply_change(content: &mut String, range: Range, new_text: &str)
    ensures
        final(content)@ == edited(old(content)@, range, new_text@),
{
    let start: usize = position_to_index(content.as_str(), range.start);
    let end: usize = position_to_index(content.as_str(), range.end);
    let mut out = text::head(content.as_str(), start);
    let rest = text::tail(content.as_str(), end);
    out.append(new_text);
    out.append(rest.as_str());
    *content = out;
}

// ---------------------------------------------------------------------------
// Documents

/// The text after one change.
pub open spec fn changed(s: Seq<char>, change: TextChange) -> Seq<char> {
    match change.range {
        Some(range) => edited(s, range, change.text@),
        None => change.text@,
    }
}

/// The text after all changes, each made on what the ones before it left.
pub open spec fn changed_all(s: Seq<char>, changes: Seq<TextChange>) -> Seq<char>
    decreases changes.len(),
{
    if changes.len() == 0 {
        s
    } else {
        changed(changed_all(s, changes.drop_last()), changes.last())
    }
}

/// The open documents and their texts.
#[derive(Debug)]
pub struct DocumentTracker {
    documents: Table<String>,
}

impl View for DocumentTracker {
    type V = Map<Seq<char>, Seq<char>>;

    /// The text of each open document, by its address.
    closed spec fn view(&self) -> Map<Seq<char>, Seq<char>> {
        self.documents@.map_values(|s: String| s@)
    }
}

impl DocumentTracker {
    /// No document is open.
    pub fn new() -> (r: Self)
        ensures
            r@ == Map::<Seq<char>, Seq<char>>::empty(),
    {
        let r = DocumentTracker { documents: Table::new() };
        assert(r@ =~= Map::<Seq<char>, Seq<char>>::empty());
        r
    }

    /// Opens a document.
    pub fn open(&mut self, uri: String, text: String)
        ensures
            final(self)@ == old(self)@.insert(uri@, text@),
    {
        let ghost key = uri@;
        let ghost value = text@;
        self.documents.insert(uri, text);
        assert(self@ =~= old(self)@.insert(key, value));
    }

    /// Changes a document, where it is open.
    pub fn change(&mut self, uri: String, changes: Vec<TextChange>)
        ensures
            final(self)@ == (if old(self)@.dom().contains(uri@) {
                old(self)@.insert(uri@, changed_all(old(self)@[uri@], changes@))
            } else {
                old(self)@
            }),
    {
        let mut content = match self.documents.get(uri.as_str()) {
            Some(s) => s.clone(),
            None => return ,
        };
        let ghost given = content@;
        for i in 0..changes.len()
            invariant
                content@ == changed_all(given, changes@.take(i as int)),
        {
            assert(changes@.take(i + 1).drop_last() =~= changes@.take(i as int));
            match changes[i].range {
                Some(range) => {
                    apply_change(&mut content, range, changes[i].text.as_str());
                },
                None => {
                    content = changes[i].text.clone();
                },
            }
        }
        assert(changes@.take(changes@.len() as int) =~= changes@);
        self.open(uri, content);
    }

    /// Closes a document.
    pub fn close(&mut self, uri: &str)
        ensures
            final(self)@ == old(self)@.remove(uri@),
    {
        self.documents.remove(uri);
        assert(self@ =~= old(self)@.remove(uri@));
    }

    /// The text of a document, where it is open.
    pub fn get(&self, uri: &str) -> (r: Option<&String>)
        ensures
            match r {
                Some(s) => self@.dom().contains(uri@) && s@ == self@[uri@],
                None => !self@.dom().contains(uri@),
            },
    {
        self.documents.get(uri)
    }
}

/// A change of a document changes no other one.
pub proof fn change_is_local(
    documents: Map<Seq<char>, Seq<char>>,
    uri: Seq<char>,
    changes: Seq<TextChange>,
    other: Seq<char>,
)
    requires
        documents.dom().contains(uri),
        uri != other,
    ensures
        ({
            let after = documents.insert(uri, changed_all(documents[uri], changes));
            &&& after.dom().contains(other) == documents.dom().contains(other)
            &&& documents.dom().contains(other) ==> after[other] == documents[other]
        }),
{
}

/// What comes before a change of the whole text does not count.
pub proof fn whole_change_forgets(s: Seq<char>, before: Seq<TextChange>, whole: TextChange)
    requires
        whole.range is None,
    ensures
        changed_all(s, before.push(whole)) == whole.text@,
{
    assert(before.push(whole).drop_last() =~= before);
}


// ---------------------------------------------------------------------------
// What a change does

/// A change of a part puts its text, which may be empty, between what was before the part and what
/// was after it, and keeps both; so the text grows by the new part and shrinks by the old one.
pub proof fn change_replaces_its_range(s: Seq<char>, change: TextChange, range: Range)
    requires
        change.range == Some(range),
        range.start.line < range.end.line || (range.start.line == range.end.line
            && range.start.character <= range.end.character),
    ensures
        ({
            let from = char_index(s, range.start);
            let to = char_index(s, range.end);
            let new = changed(s, change);
            &&& 0 <= from <= to <= s.len()
            &&& new.len() == s.len() - (to - from) + change.text@.len()
            &&& new.take(from) == s.take(from)
            &&& new.subrange(from, from + change.text@.len()) == change.text@
            &&& new.skip(from + change.text@.len()) == s.skip(to)
        }),
{
    edit_keeps_the_rest(s, range, change.text@);
}

/// Changes are made one after the other: those of two rounds give what all of them at once give.
pub proof fn rounds_of_changes_add_up(s: Seq<char>, a: Seq<TextChange>, b: Seq<TextChange>)
    ensures
        changed_all(s, a + b) == changed_all(changed_all(s, a), b),
    decreases b.len(),
{
    if b.len() == 0 {
        assert(a + b =~= a);
    } else {
        rounds_of_changes_add_up(s, a, b.drop_last());
        assert((a + b).drop_last() =~= a + b.drop_last());
    }
}

/// One change alone is that change, and none at all leaves the text as it is.
pub proof fn single_change_is_made(s: Seq<char>, change: TextChange)
    ensures
        changed_all(s, seq![change]) == changed(s, change),
        changed_all(s, Seq::empty()) == s,
        change.range is None ==> changed(s, change) == change.text@,
{
    let none = Seq::<TextChange>::empty();
    assert(seq![change].drop_last() =~= none);
    assert(changed_all(s, none) == s);
    assert(changed_all(s, seq![change]) == changed(
        changed_all(s, seq![change].drop_last()),
        seq![change].last(),
    ));
}

/// A change that is undone by another, of the same place, leaves the text as it was: what was typed
/// at a position is deleted again.
pub proof fn deletion_undoes_insertion(
    before: Seq<char>,
    new: Seq<char>,
    after: Seq<char>,
    insert: TextChange,
    delete: TextChange,
    from: Position,
    to: Position,
)
    requires
        insert.range == Some(Range { start: from, end: from }),
        insert.text@ == new,
        delete.range == Some(Range { start: from, end: to }),
        delete.text@.len() == 0,
        char_index(before + after, from) == before.len(),
        char_index(before + new + after, from) == before.len(),
        char_index(before + new + after, to) == before.len() + new.len(),
    ensures
        changed(before + after, insert) == before + new + after,
        changed(before + new + after, delete) == before + after,
{
    let s = before + after;
    let t = before + new + after;
    let n = before.len() as int;
    assert(s.take(n) =~= before);
    assert(s.skip(n) =~= after);
    assert(t.take(n) =~= before);
    assert(t.skip(n + new.len()) =~= after);
    assert(changed(s, insert) =~= t);
    assert(changed(t, delete) =~= s);
}

/// The number of line feeds in a text.
pub open spec fn line_feeds(s: Seq<char>) -> nat
    decreases s.len(),
{
    if s.len() == 0 {
        0
    } else {
        line_feeds(s.drop_last()) + (if s.last() == '\n' {
            1nat
        } else {
            0
        })
    }
}

/// The number of UTF-16 units of a text: two for each character beyond the basic plane, and one for
/// each other.
pub open spec fn units(s: Seq<char>) -> nat
    decreases s.len(),
{
    if s.len() == 0 {
        0
    } else {
        units(s.drop_last()) + (if s.last() as u32 >= 0x10000 {
            2nat
        } else {
            1
        })
    }
}

proof fn line_feeds_add_up(a: Seq<char>, b: Seq<char>)
    ensures
        line_feeds(a + b) == line_feeds(a) + line_feeds(b),
    decreases b.len(),
{
    if b.len() == 0 {
        assert(a + b =~= a);
    } else {
        line_feeds_add_up(a, b.drop_last());
        assert((a + b).drop_last() =~= a + b.drop_last());
    }
}

proof fn no_line_feeds(s: Seq<char>)
    requires
        forall|i: int| 0 <= i < s.len() ==> s[i] != '\n',
    ensures
        line_feeds(s) == 0,
    decreases s.len(),
{
    if s.len() > 0 {
        no_line_feeds(s.drop_last());
    }
}

/// A line begins at the beginning of the text or after a line feed, with as many line feeds before
/// it as its number says; and there is such a line exactly if there are so many line feeds.
pub proof fn lines_begin_after_line_feeds(s: Seq<char>, line: nat)
    ensures
        line_start(s, line) is Some <==> line <= line_feeds(s),
        line_start(s, line) matches Some(start) ==> 0 <= start <= s.len() && (start == 0 || s[start
            - 1] == '\n') && line_feeds(s.take(start)) == line,
    decreases line,
{
    if line == 0 {
        assert(s.take(0) =~= Seq::<char>::empty());
    } else {
        let before = (line - 1) as nat;
        lines_begin_after_line_feeds(s, before);
        match line_start(s, before) {
            Some(start) => {
                text::char_position_is_first(s, '\n', start);
                match text::char_from(s, '\n', start) {
                    Some(end) => {
                        let inner = s.subrange(start, end);
                        no_line_feeds(inner);
                        line_feeds_add_up(s.take(start), inner);
                        assert(s.take(end) =~= s.take(start) + inner);
                        assert(s.take(end + 1).drop_last() =~= s.take(end));
                        assert(line_feeds(s.take(end + 1)) == line);
                        line_feeds_add_up(s.take(end + 1), s.skip(end + 1));
                        assert(s.take(end + 1) + s.skip(end + 1) =~= s);
                    },
                    None => {
                        let rest = s.skip(start);
                        assert forall|i: int| 0 <= i < rest.len() implies rest[i] != '\n' by {
                            assert(rest[i] == s[start + i]);
                        }
                        no_line_feeds(rest);
                        line_feeds_add_up(s.take(start), rest);
                        assert(s.take(start) + rest =~= s);
                    },
                }
            },
            None => {},
        }
    }
}

proof fn column_counts_units(
    s: Seq<char>,
    start: int,
    at: int,
    character: nat,
    counted: nat,
)
    requires
        0 <= start <= at <= s.len(),
        counted == units(s.subrange(start, at)),
        forall|j: int| start <= j < at ==> units(#[trigger] s.subrange(start, j)) < character,
    ensures
        ({
            let end = at + column(s, at, character, counted);
            &&& at <= end <= s.len()
            &&& end == s.len() || s[end] == '\n' || units(s.subrange(start, end)) >= character
            &&& forall|j: int| start <= j < end ==> units(#[trigger] s.subrange(start, j))
                < character
        }),
    decreases s.len() - at,
{
    if !(at >= s.len() || counted >= character || s[at] == '\n') {
        assert(s.subrange(start, at + 1).drop_last() =~= s.subrange(start, at));
        assert forall|j: int| start <= j < at + 1 implies units(#[trigger] s.subrange(start, j))
            < character by {}
        column_counts_units(s, start, at + 1, character, counted + utf16_len(s[at]));
    }
}

/// A position lies at the first place of its line before which there are as many UTF-16 units as
/// its column says, or at the end of the line where there are not so many; beyond the last line it
/// is the end of the text.
pub proof fn positions_count_units(s: Seq<char>, p: Position)
    ensures
        match line_start(s, p.line as nat) {
            Some(start) => {
                let end = char_index(s, p);
                &&& start <= end <= s.len()
                &&& end == s.len() || s[end] == '\n' || units(s.subrange(start, end))
                    >= p.character
                &&& forall|j: int|
                    start <= j < end ==> units(#[trigger] s.subrange(start, j)) < p.character
                        && s[j] != '\n'
            },
            None => char_index(s, p) == s.len(),
        },
{
    lines_begin_after_line_feeds(s, p.line as nat);
    position_stays_in_line(s, p);
    match line_start(s, p.line as nat) {
        Some(start) => {
            assert(s.subrange(start, start) =~= Seq::<char>::empty());
            column_counts_units(s, start, start, p.character as nat, 0);
        },
        None => {},
    }
}

}
