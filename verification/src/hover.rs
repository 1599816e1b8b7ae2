//! What is shown of a symbol under the pointer.

use crate::config;
use crate::documentation;
use crate::protocol;
use crate::protocol::{ReplRequest, ResponseData, ResponseDataView, SymbolInfo, SymbolInfoView};
use crate::text;
use vstd::prelude::*;
use vstd::string::*;

verus! {

/// The lines that show the first `n` parameters.
pub open spec fn parameter_lines(types: Seq<(Seq<char>, Option<Seq<char>>)>, n: int) -> Seq<char>
    decreases n,
{
    if n <= 0 {
        Seq::empty()
    } else {
        parameter_lines(types, n - 1) + (match types[n - 1].1 {
            Some(kind) => "- `"@ + types[n - 1].0 + "`: `"@ + kind + "`\n"@,
            None => "- `"@ + types[n - 1].0 + "`\n"@,
        })
    }
}

/// The section that shows the parameters, where there are any.
pub open spec fn parameter_section(types: Option<Seq<(Seq<char>, Option<Seq<char>>)>>) -> Seq<char> {
    match types {
        Some(t) => if t.len() > 0 {
            "**Parameters:**\n"@ + parameter_lines(t, t.len() as int) + "\n"@
        } else {
            Seq::empty()
        },
        None => Seq::empty(),
    }
}

/// The section that shows the source, where there is one.
pub open spec fn source_section(source: Option<Seq<char>>) -> Seq<char> {
    match source {
        Some(s) => "```lisp\n"@ + s + "\n```\n\n"@,
        None => Seq::empty(),
    }
}

/// What is shown of a symbol, in Markdown, where `doc` is its documentation in Markdown.
pub open spec fn symbol_markdown(info: SymbolInfoView, doc: Option<Seq<char>>) -> Seq<char> {
    "**"@ + info.symbol + "** _"@ + info.kind + "_\n\n"@ + "Package: `"@ + info.package + "`\n\n"@
        + parameter_section(info.param_types) + source_section(info.source) + (match doc {
        Some(d) => d,
        None => Seq::empty(),
    })
}

/// The documentation of a symbol, in Markdown.
pub open spec fn symbol_documentation(info: SymbolInfoView) -> Option<Seq<char>> {
    match info.doc {
        Some(d) => Some(documentation::formatted(d)),
        None => None,
    }
}

fn push_parameters(out: &mut String, types: &Vec<(String, Option<String>)>)
    ensures
        final(out)@ == old(out)@ + parameter_section(
            Some(protocol::params_view(types@)),
        ),
{
    let ghost all = protocol::params_view(types@);
    assert(all.len() == types@.len());
    if types.len() > 0 {
        out.append("**Parameters:**\n");
        let ghost head = out@;
        assert(out@ =~= head + parameter_lines(all, 0));
        for i in 0..types.len()
            invariant
                all == protocol::params_view(types@),
                out@ == head + parameter_lines(all, i as int),
        {
            let ghost before = out@;
            assert(all[i as int] == (types@[i as int].0@, text::text_opt(types@[i as int].1)));
            out.append("- `");
            out.append(types[i].0.as_str());
            match &types[i].1 {
                Some(kind) => {
                    out.append("`: `");
                    out.append(kind.as_str());
                },
                None => {},
            }
            out.append("`\n");
            assert(out@ =~= head + parameter_lines(all, i + 1));
        }
        out.append("\n");
    }
    assert(out@ =~= old(out)@ + parameter_section(Some(all)));
}

/// What is shown of a symbol, in Markdown, where `doc` is its documentation in Markdown.
pub fn render_symbol(info: &SymbolInfo, doc: Option<&str>) -> (r: String)
    ensures
        r@ == symbol_markdown(info@, config::str_opt(doc)),
{
    let mut out = "**".to_string();
    out.append(info.symbol.as_str());
    out.append("** _");
    out.append(info.kind.as_str());
    out.append("_\n\n");
    out.append("Package: `");
    out.append(info.package.as_str());
    out.append("`\n\n");
    if let Some(types) = &info.param_types {
        push_parameters(&mut out, types);
    }
    if let Some(source) = &info.source {
        out.append("```lisp\n");
        out.append(source.as_str());
        out.append("\n```\n\n");
    }
    if let Some(d) = doc {
        out.append(d);
    }
    assert(out@ =~= symbol_markdown(info@, config::str_opt(doc)));
    out
}

/// What is shown of a symbol, in Markdown.
pub fn symbol_hover(info: &SymbolInfo) -> (r: String)
    ensures
        r@ == symbol_markdown(info@, symbol_documentation(info@)),
{
    match &info.doc {
        Some(d) => {
            let formatted = documentation::format_documentation(d.as_str());
            render_symbol(info, Some(formatted.as_str()))
        },
        None => render_symbol(info, None),
    }
}

/// What is shown of a symbol that the REPL does not know, from the form around it.
pub open spec fn buffer_markdown(symbol: Seq<char>, form: Option<Seq<char>>) -> Option<Seq<char>> {
    match form {
        Some(f) => if text::trimmed(f).len() == 0 {
            None
        } else {
            Some(
                "**"@ + symbol
                    + "** _buffer_\n\nNot loaded in the REPL. Select this whole form, then `repl: run` (Ctrl+Shift+Enter).\n\n```lisp\n"@
                    + text::trimmed(f) + "\n```\n"@,
            )
        },
        None => None,
    }
}

/// What is shown of a symbol that the REPL does not know, from the form around it.
pub fn hover_from_buffer(symbol: &str, form: Option<&str>) -> (r: Option<String>)
    ensures
        text::text_opt(r) == buffer_markdown(symbol@, config::str_opt(form)),
{
    let form = match form {
        Some(f) => text::trim(f),
        None => return None,
    };
    if form.as_str().is_empty() {
        return None;
    }
    let mut out = "**".to_string();
    out.append(symbol);
    out.append(
        "** _buffer_\n\nNot loaded in the REPL. Select this whole form, then `repl: run` (Ctrl+Shift+Enter).\n\n```lisp\n",
    );
    out.append(form.as_str());
    out.append("\n```\n");
    Some(out)
}

/// The question to the REPL about a symbol.
pub fn symbol_request(symbol: &str, package: Option<String>) -> (r: ReplRequest)
    ensures
        r matches ReplRequest::SymbolInfo { id, symbol: s, package: p } && id@.len() == 0 && s@
            == symbol@ && p == package,
{
    ReplRequest::SymbolInfo { id: String::new(), symbol: symbol.to_string(), package }
}

/// What is shown, for a reply of the REPL or none, where `known` is what is shown of a
/// symbol that the reply describes: without a reply, and for an error, what the buffer
/// gives; nothing for other replies.
pub open spec fn hover_answer(
    reply: Option<ResponseDataView>,
    known: Option<Seq<char>>,
    symbol: Seq<char>,
    form: Option<Seq<char>>,
) -> Option<Seq<char>> {
    match reply {
        Some(ResponseDataView::SymbolInfo(_)) => known,
        Some(ResponseDataView::Error { error }) => buffer_markdown(symbol, form),
        Some(_) => None,
        None => buffer_markdown(symbol, form),
    }
}

/// What is shown of the symbol that a reply describes.
pub open spec fn known_markdown(reply: Option<ResponseDataView>) -> Option<Seq<char>> {
    match reply {
        Some(ResponseDataView::SymbolInfo(info)) => Some(
            symbol_markdown(info, symbol_documentation(info)),
        ),
        _ => None,
    }
}

/// What a reply holds, where there is one.
pub open spec fn reply_view(reply: Option<&ResponseData>) -> Option<ResponseDataView> {
    match reply {
        Some(data) => Some(data@),
        None => None,
    }
}

/// What is shown of a symbol, for a reply of the REPL or none. `form` is the form around
/// the symbol in the buffer.
pub fn hover(reply: Option<&ResponseData>, symbol: &str, form: Option<&str>) -> (r: Option<String>)
    ensures
        text::text_opt(r) == hover_answer(
            reply_view(reply),
            known_markdown(reply_view(reply)),
            symbol@,
            config::str_opt(form),
        ),
{
    match reply {
        Some(ResponseData::SymbolInfo(info)) => Some(symbol_hover(info)),
        Some(ResponseData::Error { error }) => hover_from_buffer(symbol, form),
        Some(_) => None,
        None => hover_from_buffer(symbol, form),
    }
}


// ---------------------------------------------------------------------------
// What a hover shows

/// What is shown of the symbol that a reply describes ends in its documentation in Markdown,
/// whatever the symbol is.
pub proof fn hover_ends_with_documentation(
    info: SymbolInfoView,
    doc: Seq<char>,
    symbol: Seq<char>,
    form: Option<Seq<char>>,
)
    requires
        info.doc == Some(doc),
    ensures
        ({
            let reply = Some(ResponseDataView::SymbolInfo(info));
            let shown = hover_answer(reply, known_markdown(reply), symbol, form);
            shown is Some && text::has_suffix(shown->0, documentation::formatted(doc))
        }),
{
    let shown = symbol_markdown(info, symbol_documentation(info));
    let d = documentation::formatted(doc);
    assert(shown.skip(shown.len() - d.len()) =~= d);
}

/// What is shown of a symbol, for the reply that describes it.
pub open spec fn shown_of(info: SymbolInfoView) -> Seq<char> {
    known_markdown(Some(ResponseDataView::SymbolInfo(info)))->0
}

/// Symbols that differ in their kind alone are shown alike but for the kind, which comes after the
/// name.
pub proof fn kind_is_shown_once(info: SymbolInfoView, kind: Seq<char>)
    ensures
        exists|rest: Seq<char>|
            shown_of(info) == "**"@ + info.symbol + "** _"@ + info.kind + "_\n\n"@ + rest
                && shown_of(SymbolInfoView { kind, ..info }) == "**"@ + info.symbol + "** _"@ + kind
                + #[trigger] ("_\n\n"@ + rest),
{
    let rest = "Package: `"@ + info.package + "`\n\n"@ + parameter_section(info.param_types)
        + source_section(info.source) + (match symbol_documentation(info) {
        Some(d) => d,
        None => Seq::empty(),
    });
    assert(shown_of(info) =~= "**"@ + info.symbol + "** _"@ + info.kind + "_\n\n"@ + rest);
    assert(shown_of(SymbolInfoView { kind, ..info }) =~= "**"@ + info.symbol + "** _"@ + kind + (
    "_\n\n"@ + rest));
}

/// Of a symbol with nothing but a name, a kind and a package, these are shown.
pub proof fn bare_symbol_is_shown(info: SymbolInfoView)
    requires
        info.source is None && info.doc is None && info.param_types is None,
    ensures
        shown_of(info) == "**"@ + info.symbol + "** _"@ + info.kind + "_\n\nPackage: `"@
            + info.package + "`\n\n"@,
{
    reveal_strlit("_\n\nPackage: `");
    reveal_strlit("_\n\n");
    reveal_strlit("Package: `");
    assert("_\n\nPackage: `"@ =~= "_\n\n"@ + "Package: `"@);
    assert(shown_of(info) =~= "**"@ + info.symbol + "** _"@ + info.kind + "_\n\nPackage: `"@
        + info.package + "`\n\n"@);
}

/// The source is shown as a block of code, before the documentation; without it the rest stays the
/// same.
pub proof fn source_is_shown(info: SymbolInfoView, source: Seq<char>)
    ensures
        ({
            let without = shown_of(SymbolInfoView { source: None, ..info });
            let with_source = shown_of(SymbolInfoView { source: Some(source), ..info });
            let tail = match info.doc {
                Some(d) => documentation::formatted(d),
                None => Seq::empty(),
            };
            &&& text::has_suffix(without, tail)
            &&& with_source == without.take(without.len() - tail.len()) + ("```lisp\n"@ + source
                + "\n```\n\n"@) + tail
        }),
{
    let bare = SymbolInfoView { source: None, ..info };
    let full = SymbolInfoView { source: Some(source), ..info };
    let head = "**"@ + info.symbol + "** _"@ + info.kind + "_\n\n"@ + "Package: `"@ + info.package
        + "`\n\n"@ + parameter_section(info.param_types);
    let tail = match info.doc {
        Some(d) => documentation::formatted(d),
        None => Seq::empty(),
    };
    assert(shown_of(bare) =~= head + tail);
    assert((head + tail).skip(head.len() as int) =~= tail);
    assert((head + tail).take(head.len() as int) =~= head);
    assert(shown_of(full) =~= head + ("```lisp\n"@ + source + "\n```\n\n"@) + tail);
}

/// The parameters are shown before the source, one line for each, with its type where it has one;
/// without any there is no such section.
pub proof fn parameters_are_shown(
    info: SymbolInfoView,
    types: Seq<(Seq<char>, Option<Seq<char>>)>,
    name: Seq<char>,
    kind: Option<Seq<char>>,
)
    ensures
        ({
            let all = types.push((name, kind));
            let line = "- `"@ + name + "`"@ + (match kind {
                Some(k) => ": `"@ + k + "`"@,
                None => Seq::empty(),
            }) + "\n"@;
            &&& parameter_lines(all, all.len() as int) == parameter_lines(types, types.len() as int)
                + line
            &&& parameter_section(Some(all)) == "**Parameters:**\n"@ + parameter_lines(
                all,
                all.len() as int,
            ) + "\n"@
            &&& shown_of(SymbolInfoView { param_types: Some(Seq::empty()), ..info }) == shown_of(
                SymbolInfoView { param_types: None, ..info },
            )
            &&& exists|head: Seq<char>, tail: Seq<char>|
                shown_of(SymbolInfoView { param_types: None, ..info }) == #[trigger] (head + tail)
                    && shown_of(SymbolInfoView { param_types: Some(all), ..info }) == head
                    + parameter_section(Some(all)) + tail
        }),
{
    reveal_strlit("`: `");
    reveal_strlit("`\n");
    reveal_strlit("`");
    reveal_strlit(": `");
    reveal_strlit("\n");
    assert("`: `"@ =~= "`"@ + ": `"@);
    assert("`\n"@ =~= "`"@ + "\n"@);
    let all = types.push((name, kind));
    let n = types.len() as int;
    lines_of_beginning(types, all, n);
    let line = "- `"@ + name + "`"@ + (match kind {
        Some(k) => ": `"@ + k + "`"@,
        None => Seq::empty(),
    }) + "\n"@;
    assert(all[n] == (name, kind));
    assert(parameter_lines(all, n + 1) =~= parameter_lines(types, n) + line);
    let head = "**"@ + info.symbol + "** _"@ + info.kind + "_\n\n"@ + "Package: `"@ + info.package
        + "`\n\n"@;
    let tail = source_section(info.source) + (match info.doc {
        Some(d) => documentation::formatted(d),
        None => Seq::empty(),
    });
    assert(shown_of(SymbolInfoView { param_types: None, ..info }) =~= head + tail);
    assert(shown_of(SymbolInfoView { param_types: Some(Seq::empty()), ..info }) =~= head + tail);
    assert(shown_of(SymbolInfoView { param_types: Some(all), ..info }) =~= head
        + parameter_section(Some(all)) + tail);
}

proof fn lines_of_beginning(
    a: Seq<(Seq<char>, Option<Seq<char>>)>,
    b: Seq<(Seq<char>, Option<Seq<char>>)>,
    n: int,
)
    requires
        n <= a.len(),
        n <= b.len(),
        forall|i: int| 0 <= i < n ==> a[i] == b[i],
    ensures
        parameter_lines(a, n) == parameter_lines(b, n),
    decreases n,
{
    if n > 0 {
        lines_of_beginning(a, b, n - 1);
    }
}

/// A symbol that the REPL does not know, or cannot be asked about, is shown from the form around it,
/// without the white space around that; other replies show nothing.
pub proof fn unknown_symbol_is_shown_from_buffer(
    reply: Option<ResponseDataView>,
    symbol: Seq<char>,
    form: Seq<char>,
)
    requires
        !(reply matches Some(ResponseDataView::SymbolInfo(_))),
    ensures
        ({
            let shown = hover_answer(reply, known_markdown(reply), symbol, Some(form));
            let asked = reply is None || reply->0 is Error;
            &&& shown is Some == (asked && text::trimmed(form).len() > 0)
            &&& shown is Some ==> text::has_prefix(shown->0, "**"@ + symbol + "** _buffer_\n\n"@)
                && text::has_suffix(
                shown->0,
                "\n\n```lisp\n"@ + text::trimmed(form) + "\n```\n"@,
            )
            &&& hover_answer(reply, known_markdown(reply), symbol, None) is None
        }),
{
    reveal_strlit("** _buffer_\n\n");
    reveal_strlit("\n\n```lisp\n");
    reveal_strlit("**");
    reveal_strlit(
        "** _buffer_\n\nNot loaded in the REPL. Select this whole form, then `repl: run` (Ctrl+Shift+Enter).\n\n```lisp\n",
    );
    let middle = "** _buffer_\n\nNot loaded in the REPL. Select this whole form, then `repl: run` (Ctrl+Shift+Enter).\n\n```lisp\n"@;
    assert(middle.take("** _buffer_\n\n"@.len() as int) =~= "** _buffer_\n\n"@);
    assert(middle.skip(middle.len() - "\n\n```lisp\n"@.len()) =~= "\n\n```lisp\n"@);
    if text::trimmed(form).len() > 0 {
        let shown = buffer_markdown(symbol, Some(form))->0;
        let p = "**"@ + symbol + "** _buffer_\n\n"@;
        let q = "\n\n```lisp\n"@ + text::trimmed(form) + "\n```\n"@;
        assert(shown == "**"@ + symbol + middle + text::trimmed(form) + "\n```\n"@);
        assert(shown.take(p.len() as int) =~= p) by {
            assert forall|i: int| 0 <= i < p.len() implies shown[i] == p[i] by {
                if i >= 2 + symbol.len() {
                    assert(shown[i] == middle[i - 2 - symbol.len()]);
                    assert(middle.take("** _buffer_\n\n"@.len() as int)[i - 2 - symbol.len()]
                        == middle[i - 2 - symbol.len()]);
                }
            }
        }
        let cut = middle.len() - "\n\n```lisp\n"@.len();
        assert(shown =~= ("**"@ + symbol + middle.take(cut)) + (middle.skip(cut) + text::trimmed(
            form,
        ) + "\n```\n"@));
        assert(shown.skip(shown.len() - q.len()) =~= q);
    }
}

}
