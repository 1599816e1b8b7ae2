//! How a completion is shown in a list: its text, the parts of it that are
//! highlighted, and the part that the user's input is matched with.

use crate::config;
use crate::text;
use vstd::prelude::*;
use vstd::string::*;
use vstd::utf8::*;

verus! {

/// What a completion stands for, as far as it is highlighted.
#[derive(Debug, Clone, Copy, PartialEq, Eq, Structural)]
pub enum LabelKind {
    Function,
    Method,
    Variable,
    Constant,
    Module,
    Other,
}

/// A part of a label, with the name of its highlighting.
#[derive(Debug, Clone)]
pub struct LabelSpan {
    pub text: String,
    pub highlight: Option<String>,
}

/// What a part of a label holds: its text, and the name of its highlighting.
pub type SpanView = (Seq<char>, Option<Seq<char>>);

impl View for LabelSpan {
    type V = SpanView;

    open spec fn view(&self) -> SpanView {
        (self.text@, text::text_opt(self.highlight))
    }
}

/// A label: its text, its parts, and how many bytes from its beginning the user's
/// input is matched with.
#[derive(Debug, Clone)]
pub struct CodeLabel {
    pub code: String,
    pub spans: Vec<LabelSpan>,
    pub filter_end: usize,
}

/// What each of the parts holds.
pub open spec fn span_views(v: Seq<LabelSpan>) -> Seq<SpanView> {
    v.map_values(|s: LabelSpan| s@)
}

/// The texts of the parts, one after the other.
pub open spec fn flat(spans: Seq<SpanView>) -> Seq<char>
    decreases spans.len(),
{
    if spans.len() == 0 {
        Seq::empty()
    } else {
        flat(spans.drop_last()) + spans.last().0
    }
}

/// The package and the name in a label such as `[PACKAGE] name`. A label that does not
/// begin with a bracketed package is a name.
pub open spec fn label_parts(label: Seq<char>) -> (Seq<char>, Seq<char>) {
    if text::has_prefix(label, "["@) {
        match text::char_position(label, ']') {
            Some(i) => (label.subrange(1, i), text::trimmed(label.skip(i + 1))),
            None => (Seq::empty(), label),
        }
    } else {
        (Seq::empty(), label)
    }
}

/// The parts of a label that show the package.
pub open spec fn package_spans(package: Seq<char>, name: Seq<char>) -> Seq<SpanView> {
    if package.len() == 0 {
        Seq::empty()
    } else if name.len() == 0 {
        seq![("["@, None), (package, Some("constant"@)), ("]"@, None)]
    } else {
        seq![("["@, None), (package, Some("constant"@)), ("]"@, None), (" "@, None)]
    }
}

/// How a name is highlighted.
pub open spec fn name_highlight(kind: Option<LabelKind>) -> Option<Seq<char>> {
    match kind {
        Some(LabelKind::Function) => Some("function"@),
        Some(LabelKind::Method) => Some("function"@),
        Some(LabelKind::Variable) => Some("variable"@),
        Some(LabelKind::Constant) => Some("variable"@),
        Some(LabelKind::Module) => Some("constant"@),
        _ => None,
    }
}

/// The part of a label that shows the name.
pub open spec fn name_spans(name: Seq<char>, kind: Option<LabelKind>) -> Seq<SpanView> {
    if name.len() == 0 {
        Seq::empty()
    } else {
        seq![(name, name_highlight(kind))]
    }
}

/// The parts of a label that show the detail: a kind, and parameters in parentheses
/// where there are any. What follows the closing parenthesis is not shown, nor are
/// parameters that no parenthesis closes.
pub open spec fn detail_spans(detail: Seq<char>) -> Seq<SpanView> {
    match text::char_position(detail, '(') {
        Some(p) => {
            let head: Seq<SpanView> = seq![
                (text::trimmed_end(detail.take(p)), Some("keyword"@)),
                (" "@, None),
                ("("@, Some("constant"@)),
            ];
            match text::char_position(detail.skip(p), ')') {
                Some(q) => head + seq![
                    (detail.skip(p).subrange(1, q), None),
                    (")"@, Some("constant"@)),
                ],
                None => head,
            }
        },
        None => seq![(detail, Some("keyword"@))],
    }
}

/// The space between the name and the detail, where there is a detail.
pub open spec fn gap_spans(detail: Seq<char>) -> Seq<SpanView> {
    if detail.len() == 0 {
        Seq::empty()
    } else {
        seq![(" "@, None)]
    }
}

/// The parts of the label of a completion.
pub open spec fn label_spans(
    label: Seq<char>,
    detail: Seq<char>,
    kind: Option<LabelKind>,
) -> Seq<SpanView> {
    let (package, name) = label_parts(label);
    package_spans(package, name) + name_spans(name, kind) + gap_spans(detail) + detail_spans(detail)
}

/// The text whose length is that of the part that the user's input is matched with.
pub open spec fn filter_text(label: Seq<char>) -> Seq<char> {
    let (package, name) = label_parts(label);
    if package.len() == 0 {
        name
    } else {
        "["@ + package + "] "@ + name
    }
}

/// Where the label has a name, its text begins with what the user's input is matched
/// with.
pub proof fn label_begins_with_filter(
    label: Seq<char>,
    detail: Seq<char>,
    kind: Option<LabelKind>,
)
    requires
        label_parts(label).1.len() > 0,
    ensures
        text::has_prefix(flat(label_spans(label, detail, kind)), filter_text(label)),
{
    let (package, name) = label_parts(label);
    let head = package_spans(package, name) + name_spans(name, kind);
    let all = label_spans(label, detail, kind);
    assert(all =~= head + (gap_spans(detail) + detail_spans(detail)));
    flat_concat(head, gap_spans(detail) + detail_spans(detail));
    flat_concat(package_spans(package, name), name_spans(name, kind));
    reveal_with_fuel(flat, 5);
    assert(name_spans(name, kind).drop_last() =~= Seq::<SpanView>::empty());
    assert(flat(name_spans(name, kind)) =~= name);
    if package.len() > 0 {
        let s = package_spans(package, name);
        assert(s.drop_last().drop_last().drop_last().drop_last() =~= Seq::<SpanView>::empty());
        assert(s.last() == s[3] && s.drop_last().last() == s[2]);
        assert(s.drop_last().drop_last().last() == s[1]);
        assert(s.drop_last().drop_last().drop_last().last() == s[0]);
        assert(flat(s) =~= "["@ + package + "]"@ + " "@);
        reveal_strlit("] ");
        reveal_strlit("]");
        reveal_strlit(" ");
        assert("] "@ =~= "]"@ + " "@);
        assert(flat(head) =~= filter_text(label));
    } else {
        assert(flat(head) =~= filter_text(label));
    }
    let n = filter_text(label).len() as int;
    assert(flat(all).take(n) =~= filter_text(label));
}

/// A label made of a package and a name is split into them again, where the package has no
/// closing bracket and the name no white space around it.
pub proof fn label_is_split_again(package: Seq<char>, name: Seq<char>)
    requires
        !package.contains(']'),
        text::trimmed(name) == name,
    ensures
        label_parts("["@ + package + "] "@ + name) == (package, name),
{
    reveal_strlit("[");
    reveal_strlit("] ");
    let label = "["@ + package + "] "@ + name;
    let n = package.len() as int;
    assert(label.take(1) =~= "["@);
    assert(label[n + 1] == ']');
    assert forall|j: int| 0 <= j < n + 1 implies label[j] != ']' by {
        if j > 0 {
            assert(label[j] == package[j - 1]);
        }
    }
    text::char_position_is_first(label, ']', 0);
    assert(text::char_position(label, ']') == Some(n + 1));
    assert(label.subrange(1, n + 1) =~= package);
    let rest = label.skip(n + 2);
    assert(rest.skip(1) =~= name);
    assert(rest[0] == ' ');
    assert(text::trimmed_start(rest) == text::trimmed_start(name));
}

/// The text of parts is that of the first ones and that of the others.
pub proof fn flat_concat(a: Seq<SpanView>, b: Seq<SpanView>)
    ensures
        flat(a + b) == flat(a) + flat(b),
    decreases b.len(),
{
    if b.len() == 0 {
        assert(a + b =~= a);
        assert(flat(a) + flat(b) =~= flat(a));
    } else {
        flat_concat(a, b.drop_last());
        assert((a + b).drop_last() =~= a + b.drop_last());
        assert(flat(a + b) =~= flat(a) + flat(b));
    }
}

fn push_span(label: &mut CodeLabel, part: &str, highlight: Option<&str>)
    requires
        old(label).code@ == flat(span_views(old(label).spans@)),
    ensures
        final(label).code@ == flat(span_views(final(label).spans@)),
        span_views(final(label).spans@) == span_views(old(label).spans@).push(
            (part@, config::str_opt(highlight)),
        ),
        final(label).filter_end == old(label).filter_end,
{
    let ghost before = label.spans@;
    let highlight = match highlight {
        Some(h) => Some(h.to_string()),
        None => None,
    };
    label.code.append(part);
    label.spans.push(LabelSpan { text: part.to_string(), highlight });
    assert(span_views(label.spans@) =~= span_views(before).push(
        (part@, text::text_opt(highlight)),
    ));
    assert(span_views(label.spans@).drop_last() =~= span_views(before));
}

fn split_label(label: &str) -> (r: (String, String))
    ensures
        (r.0@, r.1@) == label_parts(label@),
{
    proof {
        reveal_strlit("[");
    }
    if text::starts_with(label, "[") {
        if let Some(i) = text::find_char(label, ']') {
            proof {
                assert(label@.take(1)[0] == '[');
                text::char_position_is_first(label@, ']', 0);
            }
            return (
                text::part(label, 1, i),
                text::trim(text::tail(label, i + 1).as_str()),
            );
        }
    }
    let none = String::new();
    assert(none@ =~= Seq::<char>::empty());
    (none, label.to_string())
}

fn push_detail(label: &mut CodeLabel, detail: &str)
    requires
        old(label).code@ == flat(span_views(old(label).spans@)),
    ensures
        final(label).code@ == flat(span_views(final(label).spans@)),
        span_views(final(label).spans@) == span_views(old(label).spans@) + detail_spans(detail@),
        final(label).filter_end == old(label).filter_end,
{
    let ghost before = span_views(label.spans@);
    match text::find_char(detail, '(') {
        Some(p) => {
            let kind = text::trim_end(text::head(detail, p).as_str());
            let params = text::tail(detail, p);
            push_span(label, kind.as_str(), Some("keyword"));
            push_span(label, " ", None);
            push_span(label, "(", Some("constant"));
            if let Some(q) = text::find_char(params.as_str(), ')') {
                proof {
                    text::char_position_is_first(detail@, '(', 0);
                    text::char_position_is_first(params@, ')', 0);
                }
                push_span(label, text::part(params.as_str(), 1, q).as_str(), None);
                push_span(label, ")", Some("constant"));
            }
        },
        None => {
            push_span(label, detail, Some("keyword"));
        },
    }
    assert(span_views(label.spans@) =~= before + detail_spans(detail@));
}

/// The label of a completion. Its text is that of its parts, and the user's input is
/// matched with the package and the name.
pub fn label_for_completion(label: &str, detail: Option<&str>, kind: Option<LabelKind>) -> (r:
    CodeLabel)
    ensures
        ({
            let detail = match detail {
                Some(d) => d@,
                None => Seq::empty(),
            };
            &&& span_views(r.spans@) == label_spans(label@, detail, kind)
            &&& r.code@ == flat(label_spans(label@, detail, kind))
        }),
        r.filter_end == encode_utf8(filter_text(label@)).len(),
{
    let empty = String::new();
    assert(empty@ =~= Seq::<char>::empty());
    let detail = match detail {
        Some(d) => d,
        None => empty.as_str(),
    };
    let (package, name) = split_label(label);
    let mut filter = String::new();
    if !package.as_str().is_empty() {
        filter.append("[");
        filter.append(package.as_str());
        filter.append("] ");
    }
    filter.append(name.as_str());
    assert(filter@ =~= filter_text(label@));
    let mut out = CodeLabel {
        code: String::new(),
        spans: Vec::new(),
        filter_end: text::byte_len(filter.as_str()),
    };
    assert(out.code@ =~= flat(span_views(out.spans@)));
    if !package.as_str().is_empty() {
        push_span(&mut out, "[", None);
        push_span(&mut out, package.as_str(), Some("constant"));
        push_span(&mut out, "]", None);
        if !name.as_str().is_empty() {
            push_span(&mut out, " ", None);
        }
    }
    assert(span_views(out.spans@) =~= package_spans(package@, name@));
    if !name.as_str().is_empty() {
        let highlight = match kind {
            Some(LabelKind::Function) | Some(LabelKind::Method) => Some("function"),
            Some(LabelKind::Variable) | Some(LabelKind::Constant) => Some("variable"),
            Some(LabelKind::Module) => Some("constant"),
            _ => None,
        };
        push_span(&mut out, name.as_str(), highlight);
    }
    assert(span_views(out.spans@) =~= package_spans(package@, name@) + name_spans(name@, kind));
    if !detail.is_empty() {
        push_span(&mut out, " ", None);
    }
    assert(span_views(out.spans@) =~= package_spans(package@, name@) + name_spans(name@, kind)
        + gap_spans(detail@));
    push_detail(&mut out, detail);
    out
}


/// The label of a completion with a package, a name, a kind and parameters shows all four, in this
/// order; the package and the parentheses are highlighted as constants, the kind as a keyword, and
/// the name by what it stands for. What follows the parameters is not shown.
pub proof fn full_label_is_shown(
    package: Seq<char>,
    name: Seq<char>,
    word: Seq<char>,
    params: Seq<char>,
    rest: Seq<char>,
    kind: Option<LabelKind>,
)
    requires
        package.len() > 0 && !package.contains(']'),
        name.len() > 0 && text::trimmed(name) == name,
        word.len() > 0 && !word.contains('(') && !text::is_space(word.last()),
        !params.contains(')'),
    ensures
        ({
            let label = "["@ + package + "] "@ + name;
            let detail = word + " ("@ + params + ")"@ + rest;
            let spans = label_spans(label, detail, kind);
            &&& flat(spans) == "["@ + package + "] "@ + name + " "@ + word + " ("@ + params + ")"@
            &&& spans.contains((package, Some("constant"@)))
            &&& spans.contains((word, Some("keyword"@)))
            &&& spans.contains(("("@, Some("constant"@)))
            &&& spans.contains((")"@, Some("constant"@)))
            &&& spans.contains((params, None))
            &&& (kind == Some(LabelKind::Function) || kind == Some(LabelKind::Method))
                ==> spans.contains((name, Some("function"@)))
            &&& (kind == Some(LabelKind::Variable) || kind == Some(LabelKind::Constant))
                ==> spans.contains((name, Some("variable"@)))
            &&& kind == Some(LabelKind::Module) ==> spans.contains((name, Some("constant"@)))
            &&& (kind is None || kind == Some(LabelKind::Other)) ==> spans.contains((name, None))
        }),
{
    reveal_strlit(" (");
    reveal_strlit("(");
    reveal_strlit(")");
    reveal_strlit(" ");
    reveal_strlit("] ");
    reveal_strlit("]");
    reveal_strlit("[");
    let label = "["@ + package + "] "@ + name;
    let detail = word + " ("@ + params + ")"@ + rest;
    label_is_split_again(package, name);
    detail_is_split(word, params, rest);
    let spans = label_spans(label, detail, kind);
    let all: Seq<SpanView> = seq![
        ("["@, None),
        (package, Some("constant"@)),
        ("]"@, None),
        (" "@, None),
        (name, name_highlight(kind)),
        (" "@, None),
        (word, Some("keyword"@)),
        (" "@, None),
        ("("@, Some("constant"@)),
        (params, None),
        (")"@, Some("constant"@)),
    ];
    assert(detail.len() > 0);
    assert(spans =~= all);
    flat_is_read(all);
    assert("] "@ =~= "]"@ + " "@);
    assert(" ("@ =~= " "@ + "("@);
    assert(flat(all) =~= "["@ + package + "] "@ + name + " "@ + word + " ("@ + params + ")"@);
    assert(spans[1] == (package, Some("constant"@)));
    assert(spans[4] == (name, name_highlight(kind)));
    assert(spans[6] == (word, Some("keyword"@)));
    assert(spans[8] == ("("@, Some("constant"@)));
    assert(spans[9] == (params, None::<Seq<char>>));
    assert(spans[10] == (")"@, Some("constant"@)));
}

proof fn flat_is_read(a: Seq<SpanView>)
    requires
        a.len() == 11,
    ensures
        flat(a) == a[0].0 + a[1].0 + a[2].0 + a[3].0 + a[4].0 + a[5].0 + a[6].0 + a[7].0 + a[8].0
            + a[9].0 + a[10].0,
{
    flat_of_beginning(a, 0);
    flat_of_beginning(a, 1);
    flat_of_beginning(a, 2);
    flat_of_beginning(a, 3);
    flat_of_beginning(a, 4);
    flat_of_beginning(a, 5);
    flat_of_beginning(a, 6);
    flat_of_beginning(a, 7);
    flat_of_beginning(a, 8);
    flat_of_beginning(a, 9);
    flat_of_beginning(a, 10);
    assert(a.take(11) =~= a);
    assert(flat(a.take(1)) =~= a[0].0);
}

proof fn flat_of_beginning(a: Seq<SpanView>, n: int)
    requires
        0 <= n < a.len(),
    ensures
        flat(a.take(n + 1)) == flat(a.take(n)) + a[n].0,
        n == 0 ==> flat(a.take(n)) == Seq::<char>::empty(),
{
    assert(a.take(n + 1).drop_last() =~= a.take(n));
}

proof fn detail_is_split(word: Seq<char>, params: Seq<char>, rest: Seq<char>)
    requires
        word.len() > 0 && !word.contains('(') && !text::is_space(word.last()),
        !params.contains(')'),
    ensures
        detail_spans(word + " ("@ + params + ")"@ + rest) == seq![
            (word, Some("keyword"@)),
            (" "@, None),
            ("("@, Some("constant"@)),
            (params, None),
            (")"@, Some("constant"@)),
        ],
{
    reveal_strlit(" (");
    reveal_strlit(")");
    let detail = word + " ("@ + params + ")"@ + rest;
    let n = word.len() as int;
    assert forall|i: int| 0 <= i < n + 1 implies detail[i] != '(' by {
        if i < n {
            assert(word.contains(word[i]));
        }
    }
    assert(detail[n + 1] == '(');
    text::char_position_is_first(detail, '(', 0);
    assert(text::char_position(detail, '(') == Some(n + 1));
    let head = detail.take(n + 1);
    assert(head =~= word.push(' '));
    assert(head.drop_last() =~= word);
    assert(text::is_space(' '));
    assert(text::trimmed_end(word) == word);
    assert(text::trimmed_end(head) == word);
    let list = detail.skip(n + 1);
    let m = params.len() as int;
    assert forall|i: int| 0 <= i < m + 1 implies list[i] != ')' by {
        if i > 0 {
            assert(list[i] == params[i - 1]);
            assert(params.contains(params[i - 1]));
        }
    }
    assert(list[m + 1] == ')');
    text::char_position_is_first(list, ')', 0);
    assert(text::char_position(list, ')') == Some(m + 1));
    assert(list.subrange(1, m + 1) =~= params);
    assert(detail_spans(detail) =~= seq![
        (word, Some("keyword"@)),
        (" "@, None),
        ("("@, Some("constant"@)),
        (params, None),
        (")"@, Some("constant"@)),
    ]);
}

/// A label without a package is a name, and a detail without parameters a keyword: both are shown
/// as they are, with a space between them.
pub proof fn plain_label_is_shown(name: Seq<char>, detail: Seq<char>, kind: Option<LabelKind>)
    requires
        name.len() > 0 && name[0] != '[',
        detail.len() > 0 && !detail.contains('('),
    ensures
        flat(label_spans(name, detail, kind)) == name + " "@ + detail,
        label_spans(name, detail, kind).contains((detail, Some("keyword"@))),
        filter_text(name) == name,
{
    reveal_strlit("[");
    assert(name.take(1)[0] != "["@[0]);
    assert(label_parts(name).0 =~= Seq::<char>::empty());
    text::char_position_is_first(detail, '(', 0);
    assert forall|i: int| 0 <= i < detail.len() implies detail[i] != '(' by {
        assert(detail.contains(detail[i]));
    }
    let spans = label_spans(name, detail, kind);
    let all: Seq<SpanView> = seq![
        (name, name_highlight(kind)),
        (" "@, None),
        (detail, Some("keyword"@)),
    ];
    assert(spans =~= all);
    assert(spans[2] == (detail, Some("keyword"@)));
    flat_of_beginning(all, 0);
    flat_of_beginning(all, 1);
    flat_of_beginning(all, 2);
    assert(all.take(3) =~= all);
    assert(flat(all) =~= name + " "@ + detail);
}

}
