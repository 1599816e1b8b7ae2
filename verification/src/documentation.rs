//! Documentation strings of Lisp, made readable as Markdown.

use crate::text;
use crate::text_laws;
use vstd::prelude::*;
use vstd::string::*;
use vstd::utf8::*;

verus! {

// ---------------------------------------------------------------------------
// Lisp syntax in running text

/// What `regex::Regex::replace` makes of a text, with the regular expression
/// `pattern` and the replacement `to`; nothing where the pattern is not valid.
pub uninterp spec fn first_match_replaced(
    pattern: Seq<char>,
    s: Seq<char>,
    to: Seq<char>,
) -> Option<Seq<char>>;

/// What `regex::Regex::replace_all` makes of a text, with the regular expression
/// `pattern` and the replacement `to`; nothing where the pattern is not valid.
pub uninterp spec fn matches_replaced(
    pattern: Seq<char>,
    s: Seq<char>,
    to: Seq<char>,
) -> Option<Seq<char>>;

/// `regex::Regex::new` and `regex::Regex::replace`: the result is a function of the
/// pattern, the text and the replacement. Nothing else is said of it.
#[verifier::external_body]
fn replace_first_match(pattern: &str, s: &str, to: &str) -> (r: Option<String>)
    ensures
        text::text_opt(r) == first_match_replaced(pattern@, s@, to@),
{
    match regex::Regex::new(pattern) {
        Ok(re) => Some(re.replace(s, to).into_owned()),
        Err(_) => None,
    }
}

/// `regex::Regex::new` and `regex::Regex::replace_all`: the result is a function of
/// the pattern, the text and the replacement. Nothing else is said of it.
#[verifier::external_body]
fn replace_matches(pattern: &str, s: &str, to: &str) -> (r: Option<String>)
    ensures
        text::text_opt(r) == matches_replaced(pattern@, s@, to@),
{
    match regex::Regex::new(pattern) {
        Ok(re) => Some(re.replace_all(s, to).into_owned()),
        Err(_) => None,
    }
}

/// The first text, where there is one, or else the second.
pub open spec fn or_else(o: Option<Seq<char>>, s: Seq<char>) -> Seq<char> {
    match o {
        Some(r) => r,
        None => s,
    }
}

/// The text with the description of a lambda list, where it announces one, as a
/// block of code.
pub open spec fn with_lambda_list(s: Seq<char>) -> Seq<char> {
    if text::has_part(s, "The complete syntax of a lambda-list is:"@) {
        or_else(
            first_match_replaced(
                r"(?s)The complete syntax of a lambda-list is:\s*(.+?\*\]\))\s+The\s+"@,
                s,
                "The complete syntax of a lambda-list is:\n\n```lisp\n$1\n```\n\nThe "@,
            ),
            s,
        )
    } else {
        s
    }
}

/// The text with a break between the end of a lambda list and the next sentence.
pub open spec fn with_breaks(s: Seq<char>) -> Seq<char> {
    or_else(matches_replaced(r"(?s)(\*\]\))\s+(The )"@, s, "$1\n\n$2"@), s)
}

/// The text with what stands for Lisp code, such as `{var}*`, `[init]` or `&rest`,
/// marked as code.
pub open spec fn with_code(s: Seq<char>) -> Seq<char> {
    or_else(matches_replaced(r"(\{[^}]+\}\*?|\[[^\]]+\]|&[a-z]+)"@, s, "`$1`"@), s)
}

/// The text with its Lisp syntax marked.
pub open spec fn inline_formatted(s: Seq<char>) -> Seq<char> {
    with_code(with_breaks(with_lambda_list(s)))
}

/// The first text, where there is one, or else the second.
pub fn replaced_or_kept(o: Option<String>, s: String) -> (r: String)
    ensures
        r@ == or_else(text::text_opt(o), s@),
{
    match o {
        Some(x) => x,
        None => s,
    }
}

/// Marks the Lisp syntax in a text.
pub fn format_inline_syntax(s: &str) -> (r: String)
    ensures
        r@ == inline_formatted(s@),
{
    let mut result = s.to_string();
    if text::contains(s, "The complete syntax of a lambda-list is:") {
        let replaced = replace_first_match(
            r"(?s)The complete syntax of a lambda-list is:\s*(.+?\*\]\))\s+The\s+",
            s,
            "The complete syntax of a lambda-list is:\n\n```lisp\n$1\n```\n\nThe ",
        );
        result = replaced_or_kept(replaced, result);
    }
    let broken = replace_matches(r"(?s)(\*\]\))\s+(The )", result.as_str(), "$1\n\n$2");
    result = replaced_or_kept(broken, result);
    let marked = replace_matches(
        r"(\{[^}]+\}\*?|\[[^\]]+\]|&[a-z]+)",
        result.as_str(),
        "`$1`",
    );
    replaced_or_kept(marked, result)
}

// ---------------------------------------------------------------------------
// Lines

/// What a line is.
#[derive(Debug, Clone)]
pub enum Line {
    /// The header of a section, with what is before and after it.
    Header { before: String, header: String, after: String },
    /// A line without text.
    Blank,
    /// A directive of `format`.
    Directive(String),
    /// A Lisp form.
    Form(String),
    /// Anything else.
    Plain(String),
}

/// What a line is.
pub enum LineView {
    Header { before: Seq<char>, header: Seq<char>, after: Seq<char> },
    Blank,
    Directive(Seq<char>),
    Form(Seq<char>),
    Plain(Seq<char>),
}

impl View for Line {
    type V = LineView;

    open spec fn view(&self) -> LineView {
        match self {
            Line::Header { before, header, after } => LineView::Header {
                before: before@,
                header: header@,
                after: after@,
            },
            Line::Blank => LineView::Blank,
            Line::Directive(s) => LineView::Directive(s@),
            Line::Form(s) => LineView::Form(s@),
            Line::Plain(s) => LineView::Plain(s@),
        }
    }
}

/// The headers of sections, in the order in which they are looked for.
pub open spec fn headers() -> Seq<Seq<char>> {
    seq!["Valid Options:"@, "Options:"@, "Syntax:"@, "Examples:"@, "Description:"@]
}

/// The line split at the first of the headers, from the one with this number on, that
/// occurs in it.
pub open spec fn header_from(line: Seq<char>, from: int) -> Option<LineView>
    decreases headers().len() - from,
{
    if from < 0 || from >= headers().len() {
        None
    } else {
        match text::position_of(line, headers()[from]) {
            Some(i) => Some(
                LineView::Header {
                    before: line.take(i),
                    header: headers()[from],
                    after: text::trimmed(line.skip(i + headers()[from].len())),
                },
            ),
            None => header_from(line, from + 1),
        }
    }
}

/// What a line without white space around it is.
pub open spec fn line_of(line: Seq<char>) -> LineView {
    match header_from(line, 0) {
        Some(h) => h,
        None => if line.len() == 0 {
            LineView::Blank
        } else if text::has_prefix(line, "~"@) && encode_utf8(line).len() < 50 {
            LineView::Directive(line)
        } else if text::has_prefix(line, "("@) && (text::has_suffix(line, ")"@)
            || text::has_suffix(line, ")*"@)) {
            LineView::Form(line)
        } else {
            LineView::Plain(line)
        },
    }
}

/// A line in Markdown, where `before` and `after` are what is before and after a
/// header, with their Lisp syntax marked.
pub open spec fn line_text(line: LineView, before: Seq<char>, after: Seq<char>) -> Seq<char> {
    match line {
        LineView::Header { before: b, header, after: a } => (if b.len() > 0 {
            before + " "@
        } else {
            Seq::empty()
        }) + "**"@ + header + "**"@ + (if a.len() == 0 {
            Seq::empty()
        } else if text::has_prefix(a, "("@) {
            " `"@ + a + "`"@
        } else {
            " "@ + after
        }) + "\n\n"@,
        LineView::Blank => "\n"@,
        LineView::Directive(s) => "- `"@ + s + "`\n"@,
        LineView::Form(s) => "- `"@ + s + "`\n"@,
        LineView::Plain(s) => s + "\n"@,
    }
}

/// A line in Markdown.
pub open spec fn formatted_line(line: Seq<char>) -> Seq<char> {
    let l = line_of(text::trimmed(line));
    match l {
        LineView::Header { before, header, after } => line_text(
            l,
            inline_formatted(before),
            inline_formatted(after),
        ),
        _ => line_text(l, Seq::empty(), Seq::empty()),
    }
}

fn header_at(i: usize) -> (r: String)
    requires
        i < 5,
    ensures
        r@ == headers()[i as int],
{
    match i {
        0 => "Valid Options:".to_string(),
        1 => "Options:".to_string(),
        2 => "Syntax:".to_string(),
        3 => "Examples:".to_string(),
        _ => "Description:".to_string(),
    }
}

/// What a line without white space around it is.
pub fn classify_line(line: &str) -> (r: Line)
    ensures
        r@ == line_of(line@),
{
    let mut i: usize = 0;
    while i < 5
        invariant
            i <= 5,
            header_from(line@, 0) == header_from(line@, i as int),
        decreases 5 - i,
    {
        let header = header_at(i);
        if let Some(at) = text::find(line, header.as_str()) {
            let n: usize = text::chars_of(header.as_str()).len();
            let after = text::trim(text::tail(line, at + n).as_str());
            return Line::Header { before: text::head(line, at), header, after };
        }
        i = i + 1;
    }
    if line.is_empty() {
        return Line::Blank;
    }
    if text::starts_with(line, "~") && text::byte_len(line) < 50 {
        return Line::Directive(line.to_string());
    }
    if text::starts_with(line, "(") && (text::ends_with(line, ")") || text::ends_with(line, ")*")) {
        return Line::Form(line.to_string());
    }
    Line::Plain(line.to_string())
}

/// A line in Markdown, where `before` and `after` are what is before and after a
/// header, with their Lisp syntax marked.
pub fn render_line(line: &Line, before: &str, after: &str) -> (r: String)
    ensures
        r@ == line_text(line@, before@, after@),
{
    let mut out = String::new();
    match line {
        Line::Header { before: b, header, after: a } => {
            if !b.as_str().is_empty() {
                out.append(before);
                out.append(" ");
            }
            out.append("**");
            out.append(header.as_str());
            out.append("**");
            if !a.as_str().is_empty() {
                if text::starts_with(a.as_str(), "(") {
                    out.append(" `");
                    out.append(a.as_str());
                    out.append("`");
                } else {
                    out.append(" ");
                    out.append(after);
                }
            }
            out.append("\n\n");
        },
        Line::Blank => {
            out.append("\n");
        },
        Line::Directive(s) => {
            out.append("- `");
            out.append(s.as_str());
            out.append("`\n");
        },
        Line::Form(s) => {
            out.append("- `");
            out.append(s.as_str());
            out.append("`\n");
        },
        Line::Plain(s) => {
            out.append(s.as_str());
            out.append("\n");
        },
    }
    assert(out@ =~= line_text(line@, before@, after@));
    out
}

/// A line in Markdown.
pub fn format_line(line: &str) -> (r: String)
    ensures
        r@ == formatted_line(line@),
{
    let shape = classify_line(text::trim(line).as_str());
    match &shape {
        Line::Header { before, header, after } => {
            let b = format_inline_syntax(before.as_str());
            let a = format_inline_syntax(after.as_str());
            render_line(&shape, b.as_str(), a.as_str())
        },
        _ => {
            let none = String::new();
            assert(none@ =~= Seq::<char>::empty());
            render_line(&shape, none.as_str(), none.as_str())
        },
    }
}

// ---------------------------------------------------------------------------
// Whole strings

/// The text without the line breaks that come after two line breaks.
pub open spec fn collapsed(s: Seq<char>) -> Seq<char>
    decreases s.len(),
{
    if s.len() == 0 {
        Seq::empty()
    } else {
        let before = collapsed(s.drop_last());
        if s.last() == '\n' && before.len() >= 2 && before.last() == '\n' && before[before.len()
            - 2] == '\n' {
            before
        } else {
            before.push(s.last())
        }
    }
}

/// No three line breaks follow each other in a collapsed text.
pub proof fn collapsed_has_no_gaps(s: Seq<char>)
    ensures
        forall|i: int|
            0 <= i && i + 2 < collapsed(s).len() ==> !(#[trigger] collapsed(s)[i] == '\n'
                && collapsed(s)[i + 1] == '\n' && collapsed(s)[i + 2] == '\n'),
    decreases s.len(),
{
    if s.len() > 0 {
        collapsed_has_no_gaps(s.drop_last());
        let before = collapsed(s.drop_last());
        let all = collapsed(s);
        assert forall|i: int| 0 <= i && i + 2 < all.len() implies !(#[trigger] all[i] == '\n'
            && all[i + 1] == '\n' && all[i + 2] == '\n') by {
            if i + 2 < before.len() {
                assert(before[i] == all[i]);
            }
        }
    }
}

/// A text in which no three line breaks follow each other stays as it is.
pub proof fn collapsed_keeps_the_rest(s: Seq<char>)
    requires
        forall|i: int|
            0 <= i && i + 2 < s.len() ==> !(#[trigger] s[i] == '\n' && s[i + 1] == '\n' && s[i + 2]
                == '\n'),
    ensures
        collapsed(s) == s,
    decreases s.len(),
{
    if s.len() > 0 {
        let before = s.drop_last();
        assert forall|i: int| 0 <= i && i + 2 < before.len() implies !(#[trigger] before[i] == '\n'
            && before[i + 1] == '\n' && before[i + 2] == '\n') by {
            assert(s[i] == before[i]);
        }
        collapsed_keeps_the_rest(before);
        if s.len() >= 3 {
            let n = s.len() - 3;
            assert(!(s[n] == '\n' && s[n + 1] == '\n' && s[n + 2] == '\n'));
        }
        assert(before.push(s.last()) =~= s);
    } else {
        assert(collapsed(s) =~= s);
    }
}

/// The lines in Markdown, one after the other.
pub open spec fn formatted_lines(lines: Seq<Seq<char>>) -> Seq<char>
    decreases lines.len(),
{
    if lines.len() == 0 {
        Seq::empty()
    } else {
        formatted_lines(lines.drop_last()) + formatted_line(lines.last())
    }
}

/// A documentation string in Markdown.
pub open spec fn formatted(doc: Seq<char>) -> Seq<char> {
    text::trimmed(
        collapsed(
            formatted_lines(
                text::pieces(inline_formatted(text::replaced(doc, "~~"@, "~"@)), '\n'),
            ),
        ),
    )
}

/// Takes out the line breaks that come after two line breaks, and the white space
/// around the text.
pub fn tidy(s: &str) -> (r: String)
    ensures
        r@ == text::trimmed(collapsed(s@)),
{
    let x = text::chars_of(s);
    let mut out: Vec<char> = Vec::new();
    for i in 0..x.len()
        invariant
            x@ == s@,
            out@ == collapsed(s@.take(i as int)),
    {
        assert(s@.take(i + 1).drop_last() =~= s@.take(i as int));
        let n: usize = out.len();
        if !(x[i] == '\n' && n >= 2 && out[n - 1] == '\n' && out[n - 2] == '\n') {
            out.push(x[i]);
        }
    }
    assert(s@.take(x@.len() as int) =~= s@);
    text::trim(text::text_of(out.as_slice()).as_str())
}

/// Makes Markdown of a documentation string.
pub fn format_documentation(doc: &str) -> (r: String)
    ensures
        r@ == formatted(doc@),
{
    proof {
        reveal_strlit("~~");
    }
    let content = format_inline_syntax(text::replace(doc, "~~", "~").as_str());
    let lines = text::split(content.as_str(), '\n');
    let ghost all = text::texts(lines@);
    let mut result = String::new();
    assert(result@ =~= formatted_lines(all.take(0)));
    for i in 0..lines.len()
        invariant
            all == text::texts(lines@),
            result@ == formatted_lines(all.take(i as int)),
    {
        assert(all.take(i + 1).drop_last() =~= all.take(i as int));
        result.append(format_line(lines[i].as_str()).as_str());
    }
    assert(all.take(lines@.len() as int) =~= all);
    tidy(result.as_str())
}


// ---------------------------------------------------------------------------
// What becomes of a line

/// No header of a section occurs in a line.
pub open spec fn has_no_header(line: Seq<char>) -> bool {
    !text::has_part(line, "Valid Options:"@) && !text::has_part(line, "Options:"@)
        && !text::has_part(line, "Syntax:"@) && !text::has_part(line, "Examples:"@)
        && !text::has_part(line, "Description:"@)
}

/// A line is a header exactly if one of the headers occurs in it; it is then split around that
/// header, and nothing of it is lost but white space after the header.
pub proof fn headers_split_lines(line: Seq<char>)
    ensures
        (line_of(line) is Header) == !has_no_header(line),
        line_of(line) matches LineView::Header { before, header, after } ==> headers().contains(
            header,
        ) && text::has_part(line, header) && (exists|rest: Seq<char>|
            line == before + header + rest && after == #[trigger] text::trimmed(rest)),
{
    let h = headers();
    assert(h.len() == 5);
    header_is_found(line, 0);
    assert(h[0] == "Valid Options:"@ && h[1] == "Options:"@ && h[2] == "Syntax:"@ && h[3]
        == "Examples:"@ && h[4] == "Description:"@);
    match header_from(line, 0) {
        Some(_) => {},
        None => {},
    }
}

proof fn header_is_found(line: Seq<char>, from: int)
    requires
        0 <= from <= 5,
    ensures
        match header_from(line, from) {
            Some(LineView::Header { before, header, after }) => (exists|i: int|
                from <= i < 5 && header == #[trigger] headers()[i]) && text::has_part(line, header)
                && headers().contains(header) && (exists|rest: Seq<char>|
                line == before + header + rest && after == #[trigger] text::trimmed(rest)),
            Some(_) => false,
            None => forall|i: int| from <= i < 5 ==> !text::has_part(line, #[trigger] headers()[i]),
        },
    decreases 5 - from,
{
    if from < 5 {
        let h = headers()[from];
        match text::position_of(line, h) {
            Some(i) => {
                text::position_is_first(line, h, 0);
                let rest = line.skip(i + h.len());
                assert(line.subrange(i, i + h.len()) == h);
                assert(line =~= line.take(i) + h + rest);
                assert(text::trimmed(rest) == text::trimmed(line.skip(i + headers()[from].len())));
                assert(headers().contains(h));
            },
            None => {
                header_is_found(line, from + 1);
            },
        }
    }
}

/// The header `Valid Options:` is not taken for `Options:`.
pub proof fn valid_options_come_first(before: Seq<char>, rest: Seq<char>)
    ensures
        line_of(before + "Valid Options:"@ + rest) matches LineView::Header {
            before: b,
            header,
            after,
        } && header == "Valid Options:"@,
{
    let line = before + "Valid Options:"@ + rest;
    let h = "Valid Options:"@;
    let n = before.len() as int;
    assert(line.subrange(n, n + h.len()) =~= h);
    assert(text::occurs_at(line, h, n));
    text::position_is_first(line, h, 0);
    assert(headers()[0] == h);
}

/// A header is shown in bold on its own, with what is before and after it, of which Lisp syntax is
/// marked; a form after it is shown as code.
pub proof fn headers_are_shown(before: Seq<char>, header: Seq<char>, after: Seq<char>)
    ensures
        ({
            let l = LineView::Header { before, header, after };
            let b = inline_formatted(before);
            let a = inline_formatted(after);
            let shown = line_text(l, b, a);
            &&& before.len() == 0 && after.len() == 0 ==> shown == "**"@ + header + "**\n\n"@
            &&& before.len() > 0 && after.len() == 0 ==> shown == b + " **"@ + header + "**\n\n"@
            &&& before.len() == 0 && after.len() > 0 && after[0] == '(' ==> shown == "**"@ + header
                + "** `"@ + after + "`\n\n"@
            &&& before.len() == 0 && after.len() > 0 && after[0] != '(' ==> shown == "**"@ + header
                + "** "@ + a + "\n\n"@
        }),
{
    reveal_strlit("**\n\n");
    reveal_strlit("**");
    reveal_strlit("\n\n");
    reveal_strlit(" **");
    reveal_strlit(" ");
    reveal_strlit("** `");
    reveal_strlit(" `");
    reveal_strlit("`\n\n");
    reveal_strlit("`");
    reveal_strlit("** ");
    reveal_strlit("(");
    assert("**\n\n"@ =~= "**"@ + "\n\n"@);
    assert(" **"@ =~= " "@ + "**"@);
    assert("** `"@ =~= "**"@ + " `"@);
    assert("`\n\n"@ =~= "`"@ + "\n\n"@);
    assert("** "@ =~= "**"@ + " "@);
    let l = LineView::Header { before, header, after };
    let b = inline_formatted(before);
    let a = inline_formatted(after);
    let shown = line_text(l, b, a);
    if after.len() > 0 {
        assert(after.take(1)[0] == after[0]);
        if after[0] == '(' {
            assert(after.take(1) =~= "("@);
        }
    }
    if before.len() == 0 && after.len() == 0 {
        assert(shown =~= "**"@ + header + "**\n\n"@);
    } else if after.len() == 0 {
        assert(shown =~= b + " **"@ + header + "**\n\n"@);
    } else if before.len() == 0 && after[0] == '(' {
        assert(shown =~= "**"@ + header + "** `"@ + after + "`\n\n"@);
    } else if before.len() == 0 {
        assert(shown =~= "**"@ + header + "** "@ + a + "\n\n"@);
    }
}

/// Without a header, a form in parentheses and a short line that begins with a tilde become items of
/// code, an empty line stays one, and any other line keeps its text without the white space around
/// it.
pub proof fn other_lines_are_shown(line: Seq<char>)
    requires
        has_no_header(text::trimmed(line)),
    ensures
        ({
            let t = text::trimmed(line);
            let is_form = t.len() > 0 && t[0] == '(' && (t.last() == ')' || (t.len() > 1 && t.last()
                == '*' && t[t.len() - 2] == ')'));
            let is_directive = t.len() > 0 && t[0] == '~' && encode_utf8(t).len() < 50;
            formatted_line(line) == (if t.len() == 0 {
                "\n"@
            } else if is_form || is_directive {
                "- `"@ + t + "`\n"@
            } else {
                t + "\n"@
            })
        }),
{
    reveal_strlit("~");
    reveal_strlit("(");
    reveal_strlit(")");
    reveal_strlit(")*");
    let t = text::trimmed(line);
    headers_split_lines(t);
    assert(header_from(t, 0) is None) by {
        header_is_found(t, 0);
        match header_from(t, 0) {
            Some(LineView::Header { before, header, after }) => {
                assert(line_of(t) is Header);
            },
            _ => {},
        }
    }
    if t.len() > 0 {
        assert(t.take(1)[0] == t[0]);
        if t[0] == '~' {
            assert(t.take(1) =~= "~"@);
        }
        if t[0] == '(' {
            assert(t.take(1) =~= "("@);
        }
        assert(t.skip(t.len() - 1)[0] == t.last());
        if t.last() == ')' {
            assert(t.skip(t.len() - 1) =~= ")"@);
        }
        if t.len() > 1 {
            assert(t.skip(t.len() - 2)[0] == t[t.len() - 2]);
            assert(t.skip(t.len() - 2)[1] == t.last());
            if t.last() == '*' && t[t.len() - 2] == ')' {
                assert(t.skip(t.len() - 2) =~= ")*"@);
            }
        }
    }
}

/// The lines are shown one after the other, each by itself.
pub proof fn lines_are_shown_one_by_one(a: Seq<Seq<char>>, b: Seq<Seq<char>>)
    ensures
        formatted_lines(a + b) == formatted_lines(a) + formatted_lines(b),
        forall|line: Seq<char>| formatted_lines(#[trigger] seq![line]) == formatted_line(line),
    decreases b.len(),
{
    assert forall|line: Seq<char>| formatted_lines(#[trigger] seq![line]) == formatted_line(
        line,
    ) by {
        let none = Seq::<Seq<char>>::empty();
        assert(seq![line].drop_last() =~= none);
        assert(formatted_lines(none) =~= Seq::<char>::empty());
        assert(formatted_lines(seq![line]) == formatted_lines(seq![line].drop_last())
            + formatted_line(seq![line].last()));
        assert(formatted_lines(seq![line]) =~= formatted_line(line));
    }
    if b.len() == 0 {
        assert(a + b =~= a);
        assert(formatted_lines(a) + Seq::<char>::empty() =~= formatted_lines(a));
    } else {
        lines_are_shown_one_by_one(a, b.drop_last());
        assert((a + b).drop_last() =~= a + b.drop_last());
        assert(formatted_lines(a + b) =~= formatted_lines(a) + formatted_lines(b));
    }
}

/// Of a documentation string without doubled tildes that Lisp syntax leaves as it is, the lines are
/// shown, without gaps of more than one empty line and without white space around the whole.
pub proof fn plain_documentation_is_shown(doc: Seq<char>)
    requires
        forall|i: int| 0 <= i ==> !#[trigger] text::occurs_at(doc, "~~"@, i),
        inline_formatted(doc) == doc,
    ensures
        formatted(doc) == text::trimmed(collapsed(formatted_lines(text::pieces(doc, '\n')))),
{
    reveal_strlit("~~");
    text_laws::nothing_to_replace(doc, "~~"@, "~"@);
}

/// A doubled tilde means a single one: nothing else tells the two documentation strings apart.
pub proof fn doubled_tildes_are_single(doc: Seq<char>, other: Seq<char>)
    requires
        text::replaced(doc, "~~"@, "~"@) == text::replaced(other, "~~"@, "~"@),
    ensures
        formatted(doc) == formatted(other),
{
}


/// Lisp syntax is marked in three steps: the description of a lambda list, where one is announced,
/// then the break after one, and then each piece of code. A step whose pattern is not valid is left
/// out.
pub proof fn syntax_is_marked_in_steps(s: Seq<char>, a: Seq<char>, b: Seq<char>, c: Seq<char>)
    requires
        text::has_part(s, "The complete syntax of a lambda-list is:"@) ==> first_match_replaced(
            r"(?s)The complete syntax of a lambda-list is:\s*(.+?\*\]\))\s+The\s+"@,
            s,
            "The complete syntax of a lambda-list is:\n\n```lisp\n$1\n```\n\nThe "@,
        ) == Some(a),
        !text::has_part(s, "The complete syntax of a lambda-list is:"@) ==> a == s,
        matches_replaced(r"(?s)(\*\]\))\s+(The )"@, a, "$1\n\n$2"@) == Some(b),
        matches_replaced(r"(\{[^}]+\}\*?|\[[^\]]+\]|&[a-z]+)"@, b, "`$1`"@) == Some(c),
    ensures
        inline_formatted(s) == c,
{
}

/// The headers are those of the usual sections.
pub proof fn headers_are_known(h: Seq<char>)
    ensures
        headers().contains(h) <==> h == "Valid Options:"@ || h == "Options:"@ || h == "Syntax:"@ || h
            == "Examples:"@ || h == "Description:"@,
{
    let all = headers();
    assert(all[0] == "Valid Options:"@ && all[1] == "Options:"@ && all[2] == "Syntax:"@ && all[3]
        == "Examples:"@ && all[4] == "Description:"@);
    assert(all.len() == 5);
    if all.contains(h) {
        let i = choose|i: int| 0 <= i < all.len() && all[i] == h;
        assert(i == 0 || i == 1 || i == 2 || i == 3 || i == 4);
    }
}

}
