//! What the completions hold, told by the symbols that they stand for.

use crate::completion;
use crate::completion::{ItemKind, ItemView, QueryView};
use crate::document::Position;
use crate::label;
use crate::protocol::{ResponseDataView, SymbolInfoView};
use crate::snippet;
use crate::text;
use crate::text_laws;
use vstd::prelude::*;
use vstd::string::*;
use vstd::utf8::*;

verus! {

// ---------------------------------------------------------------------------
// What is inserted

/// What is inserted for a symbol without a snippet ends in the symbol's name in lower case.
pub proof fn inserted_text_ends_in_name(info: SymbolInfoView, number: nat, query: QueryView)
    requires
        !completion::symbol_item(info, number, query).is_snippet,
    ensures
        text::has_suffix(
            completion::symbol_item(info, number, query).new_text,
            text::lowercased(info.symbol),
        ),
{
    let item = completion::symbol_item(info, number, query);
    let name = text::lowercased(info.symbol);
    assert(item.new_text.skip(item.new_text.len() - name.len()) =~= name);
}

/// Where no parenthesis stands before what was typed, just the name is inserted, after a colon for
/// a keyword; it is also what the input is matched with, and no snippet.
pub proof fn name_is_inserted_outside_calls(info: SymbolInfoView, number: nat, query: QueryView)
    requires
        !query.inside_paren,
    ensures
        ({
            let item = completion::symbol_item(info, number, query);
            let name = text::lowercased(info.symbol);
            &&& !item.is_snippet
            &&& item.new_text == item.filter_text
            &&& text::uppercased(info.package) != "KEYWORD"@ ==> item.new_text == name
            &&& text::uppercased(info.package) == "KEYWORD"@ ==> item.new_text == ":"@ + name
        }),
{
}

/// After a parenthesis, where no package was typed, the package is inserted before the symbol with
/// two colons, unless its symbols can be written without it.
pub proof fn package_is_inserted_in_calls(info: SymbolInfoView, number: nat, query: QueryView)
    requires
        query.inside_paren,
        text::uppercased(info.package) != "KEYWORD"@,
    ensures
        ({
            let item = completion::symbol_item(info, number, query);
            let bare = completion::symbol_item(
                info,
                number,
                QueryView { package: Some(info.package), ..query },
            );
            let system = info.package == "COMMON-LISP"@ || info.package == "COMMON-LISP-USER"@
                || info.package == "CL"@ || info.package == "KEYWORD"@;
            &&& query.package is Some || system ==> item.new_text == bare.new_text
            &&& query.package is None && !system ==> item.new_text == text::lowercased(info.package)
                + "::"@ + bare.new_text
            &&& !bare.is_snippet ==> bare.new_text == text::lowercased(info.symbol)
            &&& bare.is_snippet ==> text::has_prefix(bare.new_text, text::lowercased(info.symbol))
        }),
{
    let bare = completion::symbol_item(
        info,
        number,
        QueryView { package: Some(info.package), ..query },
    );
    if bare.is_snippet {
        snippet_begins_with_name(info.symbol, info.source->0, true, info.param_types);
    }
}

/// A function or a macro with a parameter list is offered as a snippet after a parenthesis, and
/// nothing else is.
pub proof fn functions_are_snippets(info: SymbolInfoView, number: nat, query: QueryView)
    ensures
        completion::symbol_item(info, number, query).is_snippet == (query.inside_paren && (info.kind
            == "function"@ || info.kind == "macro"@) && info.source is Some
            && snippet::parameter_list(info.source->0) is Some),
{
}

// ---------------------------------------------------------------------------
// What is shown

/// A label shows the package in brackets and what the input is matched with, and is split into
/// them again where it is drawn.
pub proof fn label_shows_package_and_name(info: SymbolInfoView, number: nat, query: QueryView)
    ensures
        ({
            let item = completion::symbol_item(info, number, query);
            &&& item.label == "["@ + text::lowercased(info.package) + "] "@ + item.filter_text
            &&& text::has_suffix(item.filter_text, text::lowercased(info.symbol))
            &&& item.filter_text.len() <= text::lowercased(info.symbol).len() + 1
            &&& !text::lowercased(info.package).contains(']') && text::trimmed(item.filter_text)
                == item.filter_text ==> label::label_parts(item.label) == (
                text::lowercased(info.package),
                item.filter_text,
            )
        }),
{
    let item = completion::symbol_item(info, number, query);
    let name = text::lowercased(info.symbol);
    reveal_strlit(":");
    assert(item.filter_text.skip(item.filter_text.len() - name.len()) =~= name);
    if !text::lowercased(info.package).contains(']') && text::trimmed(item.filter_text)
        == item.filter_text {
        label::label_is_split_again(text::lowercased(info.package), item.filter_text);
    }
}

/// The documentation is that of the symbol, as it is, and what is replaced is what was typed; the
/// symbols are numbered as they come.
pub proof fn item_keeps_what_is_known(info: SymbolInfoView, number: nat, query: QueryView)
    ensures
        ({
            let item = completion::symbol_item(info, number, query);
            &&& item.documentation == info.doc
            &&& item.range == query.range
            &&& text::has_suffix(item.sort_text, text::lowercased(info.symbol))
            &&& text::has_prefix(item.detail, info.kind)
            &&& number < 100_000_000 ==> item.sort_text.len() == 8 + text::lowercased(
                info.symbol,
            ).len()
        }),
{
    let item = completion::symbol_item(info, number, query);
    let name = text::lowercased(info.symbol);
    assert(item.sort_text.skip(item.sort_text.len() - name.len()) =~= name);
    assert(item.detail.take(info.kind.len() as int) =~= info.kind);
    if number < 100_000_000 {
        completion::padded_number_width(number);
    }
}

/// What a symbol is offered as depends on its kind alone.
pub proof fn kinds_are_told_apart(info: SymbolInfoView, number: nat, query: QueryView)
    ensures
        ({
            let kind = completion::symbol_item(info, number, query).kind;
            &&& (info.kind == "function"@ || info.kind == "macro"@) <==> kind == ItemKind::Function
            &&& (info.kind == "variable"@ || info.kind == "constant"@) <==> kind
                == ItemKind::Variable
            &&& info.kind == "class"@ <==> kind == ItemKind::Class
            &&& info.kind == "package"@ <==> kind == ItemKind::Module
        }),
{
    reveal_strlit("function");
    reveal_strlit("macro");
    reveal_strlit("variable");
    reveal_strlit("constant");
    reveal_strlit("class");
    reveal_strlit("package");
    assert("function"@.len() == 8 && "macro"@.len() == 5 && "variable"@.len() == 8
        && "constant"@.len() == 8 && "class"@.len() == 5 && "package"@.len() == 7);
    assert("function"@[0] == 'f' && "variable"@[0] == 'v' && "constant"@[0] == 'c');
    assert("macro"@[0] == 'm' && "class"@[0] == 'c');
}

/// Without types the detail shows the kind and the parameter list of the source, from its
/// parenthesis to the next one that closes; without such a list, the kind alone.
pub proof fn detail_shows_parameters(
    info: SymbolInfoView,
    head: Seq<char>,
    params: Seq<char>,
    rest: Seq<char>,
)
    requires
        info.source == Some("("@ + head + "("@ + params + ")"@ + rest),
        !head.contains('('),
        !params.contains(')'),
        info.param_types is None || info.param_types->0.len() == 0,
    ensures
        completion::detail(info) == info.kind + " ("@ + params + ")"@,
{
    reveal_strlit("(");
    reveal_strlit(")");
    reveal_strlit(" ");
    reveal_strlit(" (");
    let source = info.source->0;
    text::char_position_is_first(source, '(', 0);
    assert(source[0] == '(');
    assert(text::char_position(source, '(') == Some(0int));
    let inner = source.skip(1);
    let n = head.len() as int;
    assert forall|i: int| 0 <= i < n implies inner[i] != '(' by {
        assert(inner[i] == head[i]);
        assert(head.contains(head[i]));
    }
    assert(inner[n] == '(');
    text::char_position_is_first(inner, '(', 0);
    assert(text::char_position(inner, '(') == Some(n));
    let list = source.skip(1 + n);
    let m = params.len() as int;
    assert forall|i: int| 0 <= i < m + 1 implies list[i] != ')' by {
        if i > 0 {
            assert(list[i] == params[i - 1]);
            assert(params.contains(params[i - 1]));
        }
    }
    assert(list[m + 1] == ')');
    text::char_position_is_first(list, ')', 0);
    assert(text::char_position(list, ')') == Some(m + 1));
    assert(list.take(m + 2) =~= "("@ + params + ")"@);
    assert(info.kind + " "@ + ("("@ + params + ")"@) =~= info.kind + " ("@ + params + ")"@);
}

/// With types the detail shows each parameter in lower case, after a colon its type.
pub proof fn detail_shows_types(
    info: SymbolInfoView,
    name: Seq<char>,
    kind: Option<Seq<char>>,
)
    requires
        info.source is Some,
        completion::shown_parameters(info.source->0) is Some,
        info.param_types == Some(seq![(name, kind)]),
    ensures
        completion::detail(info) == info.kind + " ("@ + (match kind {
            Some(k) => text::lowercased(name) + ":"@ + text::lowercased(k),
            None => text::lowercased(name),
        }) + ")"@,
{
    let shown = completion::typed_parameters(seq![(name, kind)]);
    assert(shown.len() == 1);
}

// ---------------------------------------------------------------------------
// Which completions there are

/// A package is offered exactly if it is that of one of the symbols and begins with what was typed,
/// in upper or lower case.
pub proof fn packages_fit(symbols: Seq<SymbolInfoView>, prefix: Seq<char>, n: int, p: Seq<char>)
    requires
        0 <= n <= symbols.len(),
    ensures
        completion::packages(symbols, prefix, n).contains(p) == (text::has_prefix(
            text::uppercased(p),
            text::uppercased(prefix),
        ) && exists|i: int| 0 <= i < n && (#[trigger] symbols[i]).package == p),
    decreases n,
{
    if n > 0 {
        packages_fit(symbols, prefix, n - 1, p);
        let before = completion::packages(symbols, prefix, n - 1);
        let q = symbols[n - 1].package;
        let all = completion::packages(symbols, prefix, n);
        if all != before {
            assert(all == before.push(q));
            if all.contains(p) && !before.contains(p) {
                assert(p == q);
            }
            if before.contains(p) {
                let k = choose|k: int| 0 <= k < before.len() && before[k] == p;
                assert(all[k] == p);
            }
            assert(all[before.len() as int] == q);
        }
        if exists|i: int| 0 <= i < n && (#[trigger] symbols[i]).package == p {
            let i = choose|i: int| 0 <= i < n && (#[trigger] symbols[i]).package == p;
            if i == n - 1 {
                if all == before && text::has_prefix(text::uppercased(p), text::uppercased(prefix)) {
                    assert(before.contains(q));
                }
            } else {
                assert(symbols[i].package == p);
            }
        }
    }
}

/// A symbol is offered exactly if it belongs to the package that was named, or none was: its
/// package has that name in upper or lower case, and `KEYWORD` where the name is empty.
pub proof fn symbols_fit(
    symbols: Seq<SymbolInfoView>,
    package: Option<Seq<char>>,
    n: int,
    info: SymbolInfoView,
)
    requires
        0 <= n <= symbols.len(),
    ensures
        completion::belonging(symbols, package, n).contains(info) == ((match package {
            None => true,
            Some(p) => p.len() == 0 && text::same_ignoring_case(info.package, "KEYWORD"@) || p.len()
                > 0 && text::same_ignoring_case(info.package, p),
        }) && exists|i: int| 0 <= i < n && #[trigger] symbols[i] == info),
    decreases n,
{
    if n > 0 {
        symbols_fit(symbols, package, n - 1, info);
        let before = completion::belonging(symbols, package, n - 1);
        let all = completion::belonging(symbols, package, n);
        let last = symbols[n - 1];
        if completion::belongs(last, package) {
            assert(all == before.push(last));
            assert(all[before.len() as int] == last);
            if before.contains(info) {
                let k = choose|k: int| 0 <= k < before.len() && before[k] == info;
                assert(all[k] == info);
            }
            if all.contains(info) && info != last {
                let k = choose|k: int| 0 <= k < all.len() && all[k] == info;
                assert(before[k] == info);
            }
        }
        if exists|i: int| 0 <= i < n && #[trigger] symbols[i] == info {
            let i = choose|i: int| 0 <= i < n && #[trigger] symbols[i] == info;
            if i < n - 1 {
                assert(symbols[i] == info);
            }
        }
    }
}

/// The symbols of two replies, one after the other, are offered one after the other: each symbol is
/// kept or left out by itself, and the order stays.
pub proof fn symbols_are_kept_one_by_one(
    a: Seq<SymbolInfoView>,
    b: Seq<SymbolInfoView>,
    package: Option<Seq<char>>,
)
    ensures
        completion::belonging(a + b, package, (a + b).len() as int) == completion::belonging(
            a,
            package,
            a.len() as int,
        ) + completion::belonging(b, package, b.len() as int),
    decreases b.len(),
{
    let n = (a + b).len() as int;
    if b.len() == 0 {
        assert(a + b =~= a);
        assert(completion::belonging(a, package, a.len() as int) + Seq::<SymbolInfoView>::empty()
            =~= completion::belonging(a, package, a.len() as int));
    } else {
        let c = b.drop_last();
        symbols_are_kept_one_by_one(a, c, package);
        assert((a + b).drop_last() =~= a + c);
        beginning_decides(a + b, a + c, package, n - 1);
        beginning_decides(b, c, package, b.len() - 1);
        assert((a + b)[n - 1] == b.last());
        if completion::belongs(b.last(), package) {
            let x = completion::belonging(a, package, a.len() as int);
            let y = completion::belonging(c, package, c.len() as int);
            assert((x + y).push(b.last()) =~= x + y.push(b.last()));
        }
    }
}

proof fn beginning_decides(
    a: Seq<SymbolInfoView>,
    b: Seq<SymbolInfoView>,
    package: Option<Seq<char>>,
    n: int,
)
    requires
        n <= a.len(),
        n <= b.len(),
        forall|i: int| 0 <= i < n ==> a[i] == b[i],
    ensures
        completion::belonging(a, package, n) == completion::belonging(b, package, n),
    decreases n,
{
    if n > 0 {
        beginning_decides(a, b, package, n - 1);
    }
}

/// The packages come first, and only where none was named; after them comes one completion for each
/// symbol that is offered, in order, with its name.
pub proof fn one_completion_for_each(symbols: Seq<SymbolInfoView>, query: QueryView, k: int)
    ensures
        ({
            let n = symbols.len() as int;
            let all = completion::items(symbols, query);
            let offered = completion::belonging(symbols, query.package, n);
            let first = if query.package is None {
                completion::packages(symbols, query.prefix, n).len() as int
            } else {
                0
            };
            &&& all.len() == first + offered.len()
            &&& 0 <= k < first ==> all[k].kind == ItemKind::Module && all[k].detail == "package"@
                && all[k].filter_text == text::lowercased(
                completion::packages(symbols, query.prefix, n)[k],
            ) && all[k].new_text == all[k].filter_text + ":"@ && all[k].label == "["@
                + all[k].filter_text + "]"@ && all[k].range == query.range
                && all[k].documentation is None && !all[k].is_snippet
            &&& 0 <= k < offered.len() ==> all[first + k].documentation == offered[k].doc
                && text::has_suffix(all[first + k].label, text::lowercased(offered[k].symbol))
                && all[first + k] == completion::symbol_item(offered[k], k as nat, query)
        }),
{
    let n = symbols.len() as int;
    let offered = completion::belonging(symbols, query.package, n);
    if 0 <= k < offered.len() {
        let item = completion::symbol_item(offered[k], k as nat, query);
        let name = text::lowercased(offered[k].symbol);
        assert(item.label.skip(item.label.len() - name.len()) =~= name);
    }
}

/// Without a reply there is no answer; a reply that lists no symbols is answered with no
/// completions; and one that lists them with theirs.
pub proof fn answers_follow_replies(reply: Option<ResponseDataView>, query: QueryView)
    ensures
        completion::completion_answer(reply, query) is None <==> reply is None,
        reply is Some && !(reply->0 is SymbolList) ==> completion::completion_answer(reply, query)
            == Some(Seq::<ItemView>::empty()),
        reply matches Some(ResponseDataView::SymbolList { symbols }) ==> (
        completion::completion_answer(reply, query) matches Some(v) && v == completion::items(
            symbols,
            query,
        )),
{
}

// ---------------------------------------------------------------------------
// What is replaced

/// A completion replaces what was typed up to the cursor: the symbol after the colons where a
/// package was typed, and everything otherwise.
pub proof fn typed_symbol_is_replaced(package: Seq<char>, symbol: Seq<char>)
    requires
        package.len() > 0,
        !package.contains(':'),
        !symbol.contains(':'),
    ensures
        completion::replaced_part(package + ":"@ + symbol) == symbol,
        completion::replaced_part(package + "::"@ + symbol) == symbol,
        completion::replaced_part(":"@ + symbol) == ":"@ + symbol,
        completion::replaced_part(symbol) == symbol,
{
    reveal_strlit(":");
    reveal_strlit("::");
    colons_are_found(package, symbol);
    colons_are_found(Seq::empty(), symbol);
    let empty = Seq::<char>::empty();
    assert(empty + ":"@ + symbol =~= ":"@ + symbol);
    let one = package + ":"@ + symbol;
    let two = package + "::"@ + symbol;
    let n = package.len() as int;
    assert(one.skip(n + 1) =~= symbol);
    assert(two.skip(n + 2) =~= symbol);
}

proof fn colons_are_found(package: Seq<char>, symbol: Seq<char>)
    requires
        !package.contains(':'),
        !symbol.contains(':'),
    ensures
        ({
            let n = package.len() as int;
            let one = package + ":"@ + symbol;
            let two = package + "::"@ + symbol;
            &&& completion::qualified(one) == (Some(package), Some(symbol), true)
            &&& completion::qualified(two) == (Some(package), Some(symbol), false)
            &&& completion::qualified(symbol) == (None::<Seq<char>>, None::<Seq<char>>, false)
            &&& text::last_position_of(one, "::"@) is None
            &&& text::last_position_of(one, ":"@) == Some(n)
            &&& text::last_position_of(two, "::"@) == Some(n)
        }),
{
    reveal_strlit(":");
    reveal_strlit("::");
    let n = package.len() as int;
    let one = package + ":"@ + symbol;
    let two = package + "::"@ + symbol;
    assert forall|i: int| 0 <= i < one.len() implies (#[trigger] one[i] == ':') == (i == n) by {
        if i < n {
            assert(package.contains(package[i]));
        } else if i > n {
            assert(symbol.contains(symbol[i - n - 1]));
        }
    }
    assert forall|i: int| 0 <= i < two.len() implies (#[trigger] two[i] == ':') == (i == n || i == n
        + 1) by {
        if i < n {
            assert(package.contains(package[i]));
        } else if i > n + 1 {
            assert(symbol.contains(symbol[i - n - 2]));
        }
    }
    assert forall|i: int| 0 <= i < symbol.len() implies symbol[i] != ':' by {
        assert(symbol.contains(symbol[i]));
    }
    assert forall|i: int| #[trigger] text::occurs_at(one, ":"@, i) == (i == n) by {
        if 0 <= i < one.len() {
            assert(one.subrange(i, i + 1)[0] == one[i]);
            if i == n {
                assert(one.subrange(i, i + 1) =~= ":"@);
            }
        }
    }
    assert forall|i: int| !#[trigger] text::occurs_at(one, "::"@, i) by {
        if text::occurs_at(one, "::"@, i) {
            assert(one.subrange(i, i + 2)[0] == one[i]);
            assert(one.subrange(i, i + 2)[1] == one[i + 1]);
        }
    }
    assert forall|i: int| !#[trigger] text::occurs_at(symbol, "::"@, i) by {
        if text::occurs_at(symbol, "::"@, i) {
            assert(symbol.subrange(i, i + 2)[0] == symbol[i]);
        }
    }
    assert forall|i: int| #[trigger] text::occurs_at(two, "::"@, i) == (i == n) by {
        if 0 <= i && i + 2 <= two.len() {
            assert(two.subrange(i, i + 2)[0] == two[i]);
            assert(two.subrange(i, i + 2)[1] == two[i + 1]);
            if i == n {
                assert(two.subrange(i, i + 2) =~= "::"@);
            }
        }
    }
    assert(text::occurs_at(one, ":"@, n));
    assert(text::occurs_at(two, "::"@, n));
    text::position_is_first(one, "::"@, 0);
    text::position_is_first(two, "::"@, 0);
    text::position_is_first(symbol, "::"@, 0);
    text::char_position_is_first(one, ':', 0);
    text::char_position_is_first(symbol, ':', 0);
    text::last_position_is_last(one, "::"@, one.len() as int);
    text::last_position_is_last(one, ":"@, one.len() as int);
    text::last_position_is_last(two, "::"@, two.len() as int);
    assert(one[n] == ':');
    assert(one.take(n) =~= package);
    assert(one.skip(n + 1) =~= symbol);
    assert(two.take(n) =~= package);
    assert(two.skip(n + 2) =~= symbol);
}

/// What is replaced ends at the cursor, on its line, and is as long as the part that was typed.
pub proof fn replaced_range_ends_at_cursor(position: Position, prefix: Seq<char>)
    requires
        completion::range_fits(position, prefix),
    ensures
        ({
            let range = completion::replaced_range(position, prefix);
            &&& range.end == position
            &&& range.start.line == position.line
            &&& range.start.character + encode_utf8(completion::replaced_part(prefix)).len()
                == position.character
        }),
{
}

/// The bytes of a beginning of a text are its characters.
proof fn beginning_is_found(a: Seq<char>, b: Seq<char>)
    ensures
        text::chars_in_bytes(a + b, encode_utf8(a).len() as int) == Some(a.len() as int),
    decreases a.len(),
{
    if a.len() > 0 {
        let s = a + b;
        assert(s.skip(1) =~= a.skip(1) + b);
        assert(a.drop_first() =~= a.skip(1));
        beginning_is_found(a.skip(1), b);
        char_is_scalar(a[0]);
        assert(encode_scalar(a[0] as u32).len() > 0);
        assert(encode_utf8(a) =~= encode_scalar(a[0] as u32) + encode_utf8(a.skip(1)));
    }
}

proof fn spaces_are_trimmed(x: Seq<char>, spaces: Seq<char>)
    requires
        forall|i: int| 0 <= i < spaces.len() ==> text::is_space(#[trigger] spaces[i]),
    ensures
        text::trimmed_end(x + spaces) == text::trimmed_end(x),
    decreases spaces.len(),
{
    let all = x + spaces;
    if spaces.len() > 0 {
        assert(text::is_space(spaces[spaces.len() - 1]));
        assert(all.last() == spaces.last());
        assert(all.drop_last() =~= x + spaces.drop_last());
        spaces_are_trimmed(x, spaces.drop_last());
    } else {
        assert(all =~= x);
    }
}

/// A call is recognised by the last character, apart from white space, before what was typed: it
/// must be an opening parenthesis.
pub proof fn calls_are_recognised(
    content: Seq<char>,
    position: Position,
    before: Seq<char>,
    c: char,
    spaces: Seq<char>,
    prefix: Seq<char>,
    rest: Seq<char>,
)
    requires
        position.line < text::text_lines(content).len(),
        text::text_lines(content)[position.line as int] == before.push(c) + spaces + prefix + rest,
        !text::is_space(c),
        forall|i: int| 0 <= i < spaces.len() ==> text::is_space(#[trigger] spaces[i]),
        position.character == encode_utf8(before.push(c) + spaces).len() + encode_utf8(
            prefix,
        ).len(),
    ensures
        completion::cursor_fits(content, position, prefix),
        completion::after_paren(content, position, prefix) == (c == '('),
{
    reveal_strlit("(");
    let line = text::text_lines(content)[position.line as int];
    let head = before.push(c) + spaces;
    assert(line =~= head + (prefix + rest));
    beginning_is_found(head, prefix + rest);
    assert(line.take(head.len() as int) =~= head);
    spaces_are_trimmed(before.push(c), spaces);
    let t = text::trimmed_end(head);
    assert(t == before.push(c));
    assert(t.skip(t.len() - 1) =~= seq![c]);
    if c == '(' {
        assert(t.skip(t.len() - 1) =~= "("@);
    } else {
        assert(t.skip(t.len() - 1)[0] != "("@[0]);
    }
}

/// At the beginning of a line, or beyond the last one, nothing is called.
pub proof fn nothing_is_called_at_line_start(
    content: Seq<char>,
    position: Position,
    spaces: Seq<char>,
    prefix: Seq<char>,
    rest: Seq<char>,
)
    requires
        position.line < text::text_lines(content).len() ==> text::text_lines(
            content,
        )[position.line as int] == spaces + prefix + rest,
        forall|i: int| 0 <= i < spaces.len() ==> text::is_space(#[trigger] spaces[i]),
        position.character == encode_utf8(spaces).len() + encode_utf8(prefix).len(),
    ensures
        !completion::after_paren(content, position, prefix),
{
    reveal_strlit("(");
    if position.line < text::text_lines(content).len() {
        let line = text::text_lines(content)[position.line as int];
        assert(line =~= spaces + (prefix + rest));
        beginning_is_found(spaces, prefix + rest);
        assert(line.take(spaces.len() as int) =~= spaces);
        let empty = Seq::<char>::empty();
        spaces_are_trimmed(empty, spaces);
        assert(empty + spaces =~= spaces);
        assert(text::trimmed_end(spaces).len() == 0);
    }
}

// ---------------------------------------------------------------------------
// Snippets

/// A snippet begins with the name of the function in lower case.
pub proof fn snippet_begins_with_name(
    symbol: Seq<char>,
    source: Seq<char>,
    inside_paren: bool,
    types: Option<Seq<(Seq<char>, Option<Seq<char>>)>>,
)
    requires
        snippet::parameter_list(source) is Some,
    ensures
        snippet::function_snippet(symbol, source, inside_paren, types) is Some,
        text::has_prefix(
            snippet::function_snippet(symbol, source, inside_paren, types)->0,
            text::lowercased(symbol),
        ),
{
    let r = snippet::function_snippet(symbol, source, inside_paren, types)->0;
    let name = text::lowercased(symbol);
    assert(r.take(name.len() as int) =~= name);
}


/// The parameter list of a function is what stands between the parentheses after its name.
pub proof fn parameters_follow_the_name(
    keyword: Seq<char>,
    name: Seq<char>,
    params: Seq<char>,
    rest: Seq<char>,
)
    requires
        keyword.len() > 0 && name.len() > 0,
        forall|i: int| 0 <= i < keyword.len() ==> !text::is_space(#[trigger] keyword[i])
            && keyword[i] != '(',
        forall|i: int| 0 <= i < name.len() ==> !text::is_space(#[trigger] name[i]) && name[i]
            != '(',
        !params.contains(')'),
        rest.len() > 0 && !text::is_space(rest.last()),
    ensures
        snippet::parameter_list(
            "("@ + keyword + " "@ + name + " ("@ + params + ")"@ + rest,
        ) == Some(params),
{
    reveal_strlit("(");
    reveal_strlit(" ");
    reveal_strlit(" (");
    reveal_strlit(")");
    let s = "("@ + keyword + " "@ + name + " ("@ + params + ")"@ + rest;
    assert(s[0] == '(' && !text::is_space('('));
    assert(s.last() == rest.last());
    text::words_are_not_trimmed(s);
    text::char_position_is_first(s, '(', 0);
    assert(text::char_position(s, '(') == Some(0int));
    let body = s.skip(1);
    let k = keyword.len() as int;
    let m = name.len() as int;
    assert forall|i: int| 0 <= i < k implies body[i] == keyword[i] by {}
    assert(body[k] == ' ');
    assert forall|i: int| 0 <= i < m implies #[trigger] body[k + 1 + i] == name[i] by {}
    assert(body[k + 1 + m] == ' ' && body[k + 2 + m] == '(');
    assert(body =~= keyword + (" "@ + name + " ("@ + params + ")"@ + rest));
    two_words(body, k);
    let open = k + m + 2;
    assert forall|i: int| 0 <= i < open implies body[i] != '(' by {
        if i < k {
            assert(body[i] == keyword[i]);
        } else if k < i < k + 1 + m {
            assert(body[k + 1 + (i - k - 1)] == name[i - k - 1]);
        }
    }
    text::char_position_is_first(body, '(', 0);
    assert(text::char_position(body, '(') == Some(open));
    let list = body.skip(open + 1);
    let n = params.len() as int;
    assert forall|i: int| 0 <= i < n implies list[i] != ')' by {
        assert(list[i] == params[i]);
        assert(params.contains(params[i]));
    }
    assert(list[n] == ')');
    text::char_position_is_first(list, ')', 0);
    assert(text::char_position(list, ')') == Some(n));
    assert(list.take(n) =~= params);
}

/// A text with something on both sides of white space has at least two words.
proof fn two_words(s: Seq<char>, k: int)
    requires
        0 < k,
        k + 1 < s.len(),
        forall|i: int| 0 <= i < k ==> !text::is_space(#[trigger] s[i]),
        text::is_space(s[k]),
        !text::is_space(s[k + 1]),
    ensures
        text::words(s).len() >= 2,
{
    assert(!text::is_space(s[0]));
    first_word_ends(s, k);
    let rest = s.skip(k);
    assert(rest[0] == s[k]);
    assert(rest.skip(1)[0] == s[k + 1]);
    assert(text::trimmed_start(rest) == text::trimmed_start(rest.skip(1)));
    assert(text::trimmed_start(rest.skip(1)) == rest.skip(1));
    text::word_len_bound(rest.skip(1));
    let t = rest.skip(1);
    text::word_len_bound(t.skip(1));
    assert(text::word_len(t) > 0);
    assert(text::trimmed_start(s) == s);
    assert(text::words(rest).len() >= 1);
    assert(text::words(s).len() == 1 + text::words(rest).len());
}

proof fn first_word_ends(s: Seq<char>, k: int)
    requires
        0 <= k < s.len(),
        forall|i: int| 0 <= i < k ==> !text::is_space(#[trigger] s[i]),
        text::is_space(s[k]),
    ensures
        text::word_len(s) == k,
    decreases s.len(),
{
    if k > 0 {
        assert(!text::is_space(s[0]));
        let t = s.skip(1);
        assert forall|i: int| 0 <= i < k - 1 implies !text::is_space(#[trigger] t[i]) by {
            assert(t[i] == s[i + 1]);
        }
        assert(t[k - 1] == s[k]);
        first_word_ends(t, k - 1);
    } else {
        assert(s[0] == s[k]);
    }
}

/// Inside a parenthesis the snippet is the one outside, and then the parenthesis that closes the
/// call.
pub proof fn snippets_close_calls(
    symbol: Seq<char>,
    list: Seq<char>,
    types: Option<Seq<(Seq<char>, Option<Seq<char>>)>>,
)
    ensures
        ({
            let inside = snippet::call_snippet(symbol, list, true, types);
            let outside = snippet::call_snippet(symbol, list, false, types);
            &&& text::has_suffix(inside, "$0)"@)
            &&& inside == outside + ")"@ || (outside == text::lowercased(symbol) && inside
                == outside + "$0)"@)
        }),
{
    reveal_strlit("$0)");
    reveal_strlit("$0");
    reveal_strlit(")");
    let inside = snippet::call_snippet(symbol, list, true, types);
    let outside = snippet::call_snippet(symbol, list, false, types);
    assert("$0)"@ =~= "$0"@ + ")"@);
    assert(inside.skip(inside.len() - 3) =~= "$0)"@);
    if !(inside =~= outside + "$0)"@) {
        assert(inside =~= outside + ")"@);
    }
}

/// A placeholder shows its number and the parameter's name in lower case; quotes go around it for
/// a string, and the keyword before it where the parameter is given by keyword.
pub proof fn placeholders_are_built(number: nat, name: Seq<char>, by_key: bool, quoted: bool)
    ensures
        ({
            let plain = "${"@ + text::decimal(number) + ":"@ + text::lowercased(name) + "}"@;
            let value = if quoted {
                "\""@ + plain + "\""@
            } else {
                plain
            };
            snippet::placeholder(number, name, by_key, quoted) == (if by_key {
                " :"@ + text::lowercased(name) + " "@ + value
            } else {
                " "@ + value
            })
        }),
{
    let plain = "${"@ + text::decimal(number) + ":"@ + text::lowercased(name) + "}"@;
    let value = if quoted {
        "\""@ + plain + "\""@
    } else {
        plain
    };
    assert(snippet::placeholder(number, name, by_key, quoted) =~= (if by_key {
        " :"@ + text::lowercased(name) + " "@ + value
    } else {
        " "@ + value
    }));
}

/// One more parameter adds one more placeholder, with the next number, and changes no other.
pub proof fn parameters_are_numbered(
    params: Seq<(Seq<char>, bool)>,
    types: Option<Seq<(Seq<char>, Option<Seq<char>>)>>,
    name: Seq<char>,
    by_key: bool,
)
    ensures
        ({
            let n = params.len() as int;
            snippet::placeholders(params.push((name, by_key)), types, n + 1)
                == snippet::placeholders(params, types, n) + snippet::placeholder(
                (n + 1) as nat,
                name,
                by_key,
                snippet::is_string(types, name),
            )
        }),
{
    let n = params.len() as int;
    placeholders_of_beginning(params, params.push((name, by_key)), types, n);
}

proof fn placeholders_of_beginning(
    a: Seq<(Seq<char>, bool)>,
    b: Seq<(Seq<char>, bool)>,
    types: Option<Seq<(Seq<char>, Option<Seq<char>>)>>,
    n: int,
)
    requires
        n <= a.len(),
        n <= b.len(),
        forall|i: int| 0 <= i < n ==> a[i] == b[i],
    ensures
        snippet::placeholders(a, types, n) == snippet::placeholders(b, types, n),
    decreases n,
{
    if n > 0 {
        placeholders_of_beginning(a, b, types, n - 1);
    }
}

/// A word is a parameter exactly if it does not begin with `&`; it is given by keyword exactly if
/// `&key` comes before it.
pub proof fn words_are_parameters(words: Seq<Seq<char>>, n: int, word: Seq<char>, by_key: bool)
    requires
        0 <= n <= words.len(),
    ensures
        snippet::parameters(words, n).contains((word, by_key)) == exists|i: int|
            0 <= i < n && #[trigger] words[i] == word && !(word.len() > 0 && word[0] == '&')
                && by_key == exists|j: int|
                0 <= j < i && text::same_ignoring_case(#[trigger] words[j], "&key"@),
    decreases n,
{
    reveal_strlit("&");
    if n > 0 {
        words_are_parameters(words, n - 1, word, by_key);
        let before = snippet::parameters(words, n - 1);
        let all = snippet::parameters(words, n);
        let last = words[n - 1];
        key_comes_before(words, n - 1);
        assert(snippet::is_marker(last) == (last.len() > 0 && last[0] == '&')) by {
            if last.len() > 0 {
                assert(last.take(1)[0] == last[0]);
                if last[0] == '&' {
                    assert(last.take(1) =~= "&"@);
                }
            }
        }
        if !snippet::is_marker(last) {
            let new = (last, snippet::after_key(words, n - 1));
            assert(all == before.push(new));
            assert(all[before.len() as int] == new);
            if before.contains((word, by_key)) {
                let k = choose|k: int| 0 <= k < before.len() && before[k] == (word, by_key);
                assert(all[k] == (word, by_key));
            }
            if all.contains((word, by_key)) && new != (word, by_key) {
                let k = choose|k: int| 0 <= k < all.len() && all[k] == (word, by_key);
                assert(before[k] == (word, by_key));
            }
            if new == (word, by_key) {
                assert(words[n - 1] == word);
            }
        }
    }
}

proof fn key_comes_before(words: Seq<Seq<char>>, n: int)
    requires
        0 <= n <= words.len(),
    ensures
        snippet::after_key(words, n) == exists|j: int|
            0 <= j < n && text::same_ignoring_case(#[trigger] words[j], "&key"@),
    decreases n,
{
    if n > 0 {
        key_comes_before(words, n - 1);
        if text::same_ignoring_case(words[n - 1], "&key"@) {
            assert(0 <= n - 1 < n);
        }
    }
}

/// A parameter is put in quotes exactly if its type is known and is one of strings.
pub proof fn strings_are_quoted(name: Seq<char>, other: Seq<char>, kind: Option<Seq<char>>)
    ensures
        snippet::is_string(None, name) == false,
        snippet::is_string(Some(seq![(other, kind)]), name) == (text::same_ignoring_case(other, name)
            && kind is Some && text::has_part(text::uppercased(kind->0), "STRING"@)),
{
    let types = seq![(other, kind)];
    assert(types[0] == (other, kind));
    assert(snippet::type_from(types, name, 1) is None);
}

/// A type that begins with `STRING` or `SIMPLE-STRING`, in capitals, is one of strings.
pub proof fn string_types_are_known(rest: Seq<char>)
    ensures
        text::has_part("STRING"@ + rest, "STRING"@),
        text::has_part("SIMPLE-STRING"@ + rest, "STRING"@),
{
    reveal_strlit("STRING");
    reveal_strlit("SIMPLE-STRING");
    let a = "STRING"@ + rest;
    let b = "SIMPLE-STRING"@ + rest;
    text::position_is_first(a, "STRING"@, 0);
    text::position_is_first(b, "STRING"@, 0);
    assert(a.subrange(0, 6) =~= "STRING"@);
    assert(b.subrange(7, 13) =~= "STRING"@);
    assert(text::occurs_at(a, "STRING"@, 0));
    assert(text::occurs_at(b, "STRING"@, 7));
}


/// A function without parameters, or with `NIL` for them, is called without placeholders.
pub proof fn empty_calls_have_no_placeholders(
    symbol: Seq<char>,
    list: Seq<char>,
    types: Option<Seq<(Seq<char>, Option<Seq<char>>)>>,
)
    requires
        text::trimmed(list).len() == 0 || text::uppercased(text::trimmed(list)) == "NIL"@,
    ensures
        snippet::call_snippet(symbol, list, true, types) == text::lowercased(symbol) + "$0)"@,
        snippet::call_snippet(symbol, list, false, types) == text::lowercased(symbol),
{
}

/// A function with one parameter is called with one placeholder after its name.
pub proof fn calls_have_placeholders(symbol: Seq<char>, param: Seq<char>)
    requires
        param.len() > 0,
        forall|i: int| 0 <= i < param.len() ==> !text::is_space(#[trigger] param[i]),
        param[0] != '&',
        text::uppercased(param) != "NIL"@,
    ensures
        snippet::call_snippet(symbol, param, true, None) == text::lowercased(symbol) + " ${1:"@
            + text::lowercased(param) + "}$0)"@,
{
    reveal_strlit("&");
    reveal_strlit(" ${1:");
    reveal_strlit("}$0)");
    reveal_strlit(" ");
    reveal_strlit("${");
    reveal_strlit(":");
    reveal_strlit("}");
    reveal_strlit("$0)");
    let empty = Seq::<char>::empty();
    assert(!text::is_space(param[0]) && !text::is_space(param[param.len() - 1]));
    text::words_are_not_trimmed(param);
    text_laws::words_are_cut(empty, param, ' ', empty);
    assert(empty + param =~= param);
    let words = text::words(param);
    assert(words =~= seq![param]);
    if snippet::is_marker(param) {
        assert(param.take(1)[0] == param[0]);
    }
    let params = snippet::parameters(words, 1);
    assert(snippet::parameters(words, 0) =~= Seq::<(Seq<char>, bool)>::empty());
    assert(!snippet::after_key(words, 0));
    assert(params =~= seq![(param, false)]);
    placeholders_are_built(1, param, false, false);
    assert(text::decimal(1) =~= seq!['1']);
    assert(snippet::placeholders(params, None, 0) =~= empty);
    let lower = text::lowercased(param);
    assert(" "@ + ("${"@ + text::decimal(1) + ":"@ + lower + "}"@) + "$0)"@ =~= " ${1:"@ + lower
        + "}$0)"@);
    assert(snippet::placeholders(params, None, 1) =~= snippet::placeholder(1, param, false, false));
    assert(snippet::call_snippet(symbol, param, true, None) =~= text::lowercased(symbol) + " ${1:"@
        + lower + "}$0)"@);
}

}
