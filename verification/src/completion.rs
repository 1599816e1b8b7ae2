//! Completions: what the REPL is asked for at a place in a document, and the list that
//! is made of its reply.

use crate::document::{Position, Range};
use crate::protocol;
use crate::protocol::{
    ReplRequest, ResponseData, ResponseDataView, SymbolInfo, SymbolInfoView,
};
use crate::snippet;
use crate::text;
use vstd::prelude::*;
use vstd::string::*;
use vstd::utf8::*;

verus! {

// ---------------------------------------------------------------------------
// What is asked

/// A prefix with a package before it: the package, the beginning of the symbol, and
/// whether only external symbols are meant. A single colon means external symbols, two
/// mean all.
pub open spec fn qualified(prefix: Seq<char>) -> (Option<Seq<char>>, Option<Seq<char>>, bool) {
    match text::position_of(prefix, "::"@) {
        Some(i) => (Some(prefix.take(i)), Some(prefix.skip(i + 2)), false),
        None => match text::char_position(prefix, ':') {
            Some(i) => (Some(prefix.take(i)), Some(prefix.skip(i + 1)), true),
            None => (None, None, false),
        },
    }
}

/// Splits a prefix with a package before it.
pub fn parse_fqn_prefix(prefix: &str) -> (r: (Option<String>, Option<String>, bool))
    ensures
        (text::text_opt(r.0), text::text_opt(r.1), r.2) == qualified(prefix@),
{
    proof {
        reveal_strlit("::");
    }
    match text::find(prefix, "::") {
        Some(i) => (Some(text::head(prefix, i)), Some(text::tail(prefix, i + 2)), false),
        None => match text::find_char(prefix, ':') {
            Some(i) => (Some(text::head(prefix, i)), Some(text::tail(prefix, i + 1)), true),
            None => (None, None, false),
        },
    }
}

/// The column, in bytes, at which the prefix before the cursor begins.
pub open spec fn prefix_column(position: Position, prefix: Seq<char>) -> int {
    if encode_utf8(prefix).len() <= position.character {
        position.character - encode_utf8(prefix).len()
    } else {
        0
    }
}

/// Whether the prefix begins between two characters of its line.
pub open spec fn cursor_fits(content: Seq<char>, position: Position, prefix: Seq<char>) -> bool {
    let lines = text::text_lines(content);
    position.line < lines.len() ==> text::chars_in_bytes(
        lines[position.line as int],
        prefix_column(position, prefix),
    ) is Some
}

/// Whether an opening parenthesis stands before the prefix.
pub open spec fn after_paren(content: Seq<char>, position: Position, prefix: Seq<char>) -> bool {
    let lines = text::text_lines(content);
    position.line < lines.len() && {
        let line = lines[position.line as int];
        let k = text::chars_in_bytes(line, prefix_column(position, prefix))->0;
        text::has_suffix(text::trimmed_end(line.take(k)), "("@)
    }
}

/// The part of the prefix that a completion replaces: what follows the last colons where
/// a package is named, and all of it otherwise.
pub open spec fn replaced_part(prefix: Seq<char>) -> Seq<char> {
    match qualified(prefix).0 {
        Some(package) => if package.len() > 0 {
            match text::last_position_of(prefix, "::"@) {
                Some(i) => prefix.skip(i + 2),
                None => match text::last_position_of(prefix, ":"@) {
                    Some(i) => prefix.skip(i + 1),
                    None => prefix,
                },
            }
        } else {
            prefix
        },
        None => prefix,
    }
}

/// Whether the part that a completion replaces begins on the line of the cursor.
pub open spec fn range_fits(position: Position, prefix: Seq<char>) -> bool {
    encode_utf8(replaced_part(prefix)).len() <= position.character
}

/// What a completion replaces.
pub open spec fn replaced_range(position: Position, prefix: Seq<char>) -> Range {
    Range {
        start: Position {
            line: position.line,
            character: (position.character - encode_utf8(replaced_part(prefix)).len()) as u32,
        },
        end: position,
    }
}

/// What has to be known of a place in a document before the REPL is asked.
#[derive(Debug, Clone)]
pub struct CompletionQuery {
    /// What was typed.
    pub prefix: String,
    /// The package that was named, if any. It is empty before a keyword.
    pub package: Option<String>,
    /// Whether an opening parenthesis stands before what was typed.
    pub inside_paren: bool,
    /// What a completion replaces.
    pub range: Range,
}

/// What is known of a place.
pub struct QueryView {
    pub prefix: Seq<char>,
    pub package: Option<Seq<char>>,
    pub inside_paren: bool,
    pub range: Range,
}

impl View for CompletionQuery {
    type V = QueryView;

    open spec fn view(&self) -> QueryView {
        QueryView {
            prefix: self.prefix@,
            package: text::text_opt(self.package),
            inside_paren: self.inside_paren,
            range: self.range,
        }
    }
}

/// What is known of a place before which `prefix` was typed.
pub open spec fn query(content: Seq<char>, position: Position, prefix: Seq<char>) -> QueryView {
    QueryView {
        prefix,
        package: qualified(prefix).0,
        inside_paren: after_paren(content, position, prefix),
        range: replaced_range(position, prefix),
    }
}

fn column_of(position: Position, prefix: &str) -> (r: usize)
    ensures
        r == prefix_column(position, prefix@),
{
    let n: usize = text::byte_len(prefix);
    let at: usize = position.character as usize;
    if n <= at {
        at - n
    } else {
        0
    }
}

fn part_to_replace(prefix: &str, package: &Option<String>) -> (r: String)
    requires
        text::text_opt(*package) == qualified(prefix@).0,
    ensures
        r@ == replaced_part(prefix@),
{
    proof {
        reveal_strlit("::");
        reveal_strlit(":");
    }
    let named = match package {
        Some(p) => !p.as_str().is_empty(),
        None => false,
    };
    if !named {
        return prefix.to_string();
    }
    match text::rfind(prefix, "::") {
        Some(i) => text::tail(prefix, i + 2),
        None => match text::rfind(prefix, ":") {
            Some(i) => text::tail(prefix, i + 1),
            None => prefix.to_string(),
        },
    }
}

/// Whether completions can be offered at a place before which `prefix` was typed: it
/// begins between two characters of its line, and what is replaced begins on that line.
pub fn place_fits(content: &str, position: Position, prefix: &str) -> (r: bool)
    ensures
        r == (cursor_fits(content@, position, prefix@) && range_fits(position, prefix@)),
{
    let (package, _, _) = parse_fqn_prefix(prefix);
    let part = part_to_replace(prefix, &package);
    if text::byte_len(part.as_str()) > position.character as usize {
        return false;
    }
    let lines = text::lines(content);
    let at: usize = position.line as usize;
    assert(text::texts(lines@).len() == lines@.len());
    if at < lines.len() {
        assert(text::texts(lines@)[at as int] == lines@[at as int]@);
        text::char_count_of_bytes(lines[at].as_str(), column_of(position, prefix)).is_some()
    } else {
        true
    }
}

/// Finds out what has to be known of a place before which `prefix` was typed.
pub fn completion_query(content: &str, position: Position, prefix: &str) -> (r: CompletionQuery)
    requires
        cursor_fits(content@, position, prefix@),
        range_fits(position, prefix@),
    ensures
        r@ == query(content@, position, prefix@),
{
    let lines = text::lines(content);
    let at: usize = position.line as usize;
    assert(text::texts(lines@).len() == lines@.len());
    let inside_paren = if at < lines.len() {
        let line = lines[at].as_str();
        assert(text::texts(lines@)[at as int] == line@);
        match text::char_count_of_bytes(line, column_of(position, prefix)) {
            Some(k) => {
                let before = text::head(line, k);
                text::ends_with(text::trim_end(before.as_str()).as_str(), "(")
            },
            None => false,
        }
    } else {
        false
    };
    let (package, _, _) = parse_fqn_prefix(prefix);
    let part = part_to_replace(prefix, &package);
    let width: u32 = text::byte_len(part.as_str()) as u32;
    let start = Position { line: position.line, character: position.character - width };
    CompletionQuery {
        prefix: prefix.to_string(),
        package,
        inside_paren,
        range: Range { start, end: position },
    }
}

/// The symbols that the REPL is asked for: those that begin with what was typed after
/// the package, in the package that was named, or of all packages where none was.
pub fn completion_request(query: &CompletionQuery) -> (r: ReplRequest)
    ensures
        r matches ReplRequest::ListSymbols { id, prefix, package } && id@.len() == 0
            && text::text_opt(prefix) == Some(
            match qualified(query@.prefix).1 {
                Some(symbol) => symbol,
                None => query@.prefix,
            },
        ) && text::text_opt(package) == (match query@.package {
            Some(p) => if p.len() == 0 {
                Some("KEYWORD"@)
            } else {
                Some(p)
            },
            None => None,
        }),
{
    let (_, symbol, _) = parse_fqn_prefix(query.prefix.as_str());
    let prefix = match symbol {
        Some(s) => s,
        None => query.prefix.clone(),
    };
    let package = match &query.package {
        Some(p) => if p.as_str().is_empty() {
            Some("KEYWORD".to_string())
        } else {
            Some(p.clone())
        },
        None => None,
    };
    ReplRequest::ListSymbols { id: String::new(), prefix: Some(prefix), package }
}

/// What the REPL is asked for is what the prefix splits into.
pub proof fn request_splits_prefix(prefix: Seq<char>)
    ensures
        protocol::completion_prefix(prefix) == (
            match qualified(prefix).0 {
                Some(p) => if p.len() == 0 {
                    Some("KEYWORD"@)
                } else {
                    Some(p)
                },
                None => None,
            },
            match qualified(prefix).1 {
                Some(symbol) => symbol,
                None => prefix,
            },
        ),
{
    reveal_strlit("::");
    text::position_is_first(prefix, "::"@, 0);
    text::char_position_is_first(prefix, ':', 0);
}

// ---------------------------------------------------------------------------
// What is offered

/// What a completion stands for.
#[derive(Debug, Clone, Copy, PartialEq, Eq, Structural)]
pub enum ItemKind {
    Function,
    Variable,
    Class,
    Module,
    Text,
}

/// A completion.
#[derive(Debug, Clone)]
pub struct CompletionItem {
    pub label: String,
    pub kind: ItemKind,
    pub detail: String,
    /// Markdown.
    pub documentation: Option<String>,
    /// What the user's input is matched with.
    pub filter_text: String,
    /// What is replaced.
    pub range: Range,
    /// What it is replaced by.
    pub new_text: String,
    /// Whether the new text is a snippet.
    pub is_snippet: bool,
    /// What the completions are ordered by.
    pub sort_text: String,
}

/// What a completion holds.
pub struct ItemView {
    pub label: Seq<char>,
    pub kind: ItemKind,
    pub detail: Seq<char>,
    pub documentation: Option<Seq<char>>,
    pub filter_text: Seq<char>,
    pub range: Range,
    pub new_text: Seq<char>,
    pub is_snippet: bool,
    pub sort_text: Seq<char>,
}

impl View for CompletionItem {
    type V = ItemView;

    open spec fn view(&self) -> ItemView {
        ItemView {
            label: self.label@,
            kind: self.kind,
            detail: self.detail@,
            documentation: text::text_opt(self.documentation),
            filter_text: self.filter_text@,
            range: self.range,
            new_text: self.new_text@,
            is_snippet: self.is_snippet,
            sort_text: self.sort_text@,
        }
    }
}

/// What each of the completions holds.
pub open spec fn item_views(v: Seq<CompletionItem>) -> Seq<ItemView> {
    v.map_values(|i: CompletionItem| i@)
}

/// The packages of the first `n` symbols that begin with what was typed, in upper or
/// lower case, each once, in order.
pub open spec fn packages(symbols: Seq<SymbolInfoView>, prefix: Seq<char>, n: int) -> Seq<Seq<char>>
    decreases n,
{
    if n <= 0 {
        Seq::empty()
    } else {
        let before = packages(symbols, prefix, n - 1);
        let package = symbols[n - 1].package;
        if !before.contains(package) && text::has_prefix(
            text::uppercased(package),
            text::uppercased(prefix),
        ) {
            before.push(package)
        } else {
            before
        }
    }
}

/// The completion for a package. It ends in one colon, after which a second one may be
/// typed.
pub open spec fn package_item(package: Seq<char>, range: Range) -> ItemView {
    let lower = text::lowercased(package);
    ItemView {
        label: "["@ + lower + "]"@,
        kind: ItemKind::Module,
        detail: "package"@,
        documentation: None,
        filter_text: lower,
        range,
        new_text: lower + ":"@,
        is_snippet: false,
        sort_text: "1"@ + lower,
    }
}

/// The completions for packages.
pub open spec fn package_items(packages: Seq<Seq<char>>, range: Range) -> Seq<ItemView> {
    packages.map_values(|p: Seq<char>| package_item(p, range))
}

/// Whether a symbol belongs to the package that was named.
pub open spec fn belongs(info: SymbolInfoView, package: Option<Seq<char>>) -> bool {
    match package {
        Some(p) => text::same_ignoring_case(
            info.package,
            if p.len() == 0 {
                "KEYWORD"@
            } else {
                p
            },
        ),
        None => true,
    }
}

/// The symbols among the first `n` that belong to the package that was named.
pub open spec fn belonging(
    symbols: Seq<SymbolInfoView>,
    package: Option<Seq<char>>,
    n: int,
) -> Seq<SymbolInfoView>
    decreases n,
{
    if n <= 0 {
        Seq::empty()
    } else if belongs(symbols[n - 1], package) {
        belonging(symbols, package, n - 1).push(symbols[n - 1])
    } else {
        belonging(symbols, package, n - 1)
    }
}

/// What a symbol of this kind is offered as.
pub open spec fn item_kind(kind: Seq<char>) -> ItemKind {
    if kind == "function"@ || kind == "macro"@ {
        ItemKind::Function
    } else if kind == "variable"@ || kind == "constant"@ {
        ItemKind::Variable
    } else if kind == "class"@ {
        ItemKind::Class
    } else if kind == "package"@ {
        ItemKind::Module
    } else {
        ItemKind::Text
    }
}

/// Whether the symbols of a package can be written without it.
pub open spec fn is_system_package(package: Seq<char>) -> bool {
    package == "COMMON-LISP"@ || package == "COMMON-LISP-USER"@ || package == "CL"@ || package
        == "KEYWORD"@
}

/// Whether a symbol is a keyword.
pub open spec fn is_keyword(info: SymbolInfoView) -> bool {
    text::uppercased(info.package) == "KEYWORD"@
}

/// The snippet for a symbol, where it is a function or a macro with a parameter list and
/// stands after a parenthesis.
pub open spec fn item_snippet(info: SymbolInfoView, inside_paren: bool) -> Option<Seq<char>> {
    if inside_paren && (info.kind == "function"@ || info.kind == "macro"@) && info.source is Some {
        snippet::function_snippet(info.symbol, info.source->0, inside_paren, info.param_types)
    } else {
        None
    }
}

/// What is inserted for a symbol: the snippet or the name, after the package where that is
/// needed, and after a colon for a keyword.
pub open spec fn new_text(
    info: SymbolInfoView,
    inside_paren: bool,
    package: Option<Seq<char>>,
) -> Seq<char> {
    let name = match item_snippet(info, inside_paren) {
        Some(s) => s,
        None => text::lowercased(info.symbol),
    };
    let full = if inside_paren && package is None && !is_system_package(info.package) {
        text::lowercased(info.package) + "::"@ + name
    } else {
        name
    };
    if is_keyword(info) {
        ":"@ + full
    } else {
        full
    }
}

/// The parameter list in the source of a function, with its parentheses.
pub open spec fn shown_parameters(source: Seq<char>) -> Option<Seq<char>> {
    match text::char_position(source, '(') {
        Some(p) => match text::char_position(source.skip(p + 1), '(') {
            Some(q) => {
                let list = source.skip(p + 1 + q);
                match text::char_position(list, ')') {
                    Some(end) => Some(list.take(end + 1)),
                    None => None,
                }
            },
            None => None,
        },
        None => None,
    }
}

/// The parameters with their types, where these are known.
pub open spec fn typed_parameters(types: Seq<(Seq<char>, Option<Seq<char>>)>) -> Seq<Seq<char>> {
    types.map_values(
        |p: (Seq<char>, Option<Seq<char>>)|
            match p.1 {
                Some(kind) => text::lowercased(p.0) + ":"@ + text::lowercased(kind),
                None => text::lowercased(p.0),
            },
    )
}

/// The kind of a symbol, and its parameters where its source gives them.
pub open spec fn detail(info: SymbolInfoView) -> Seq<char> {
    if info.source is Some && shown_parameters(info.source->0) is Some {
        match info.param_types {
            Some(types) => if types.len() > 0 {
                info.kind + " ("@ + text::joined(typed_parameters(types), " "@) + ")"@
            } else {
                info.kind + " "@ + shown_parameters(info.source->0)->0
            },
            None => info.kind + " "@ + shown_parameters(info.source->0)->0,
        }
    } else {
        info.kind
    }
}

/// The text by which the symbol with this number is ordered.
pub open spec fn sort_text(number: nat, symbol: Seq<char>) -> Seq<char> {
    text::zero_padded(text::decimal(number), 8) + text::lowercased(symbol)
}

/// The completion for a symbol, the one with this number of those that are offered.
pub open spec fn symbol_item(info: SymbolInfoView, number: nat, query: QueryView) -> ItemView {
    let shown = if is_keyword(info) {
        ":"@ + text::lowercased(info.symbol)
    } else {
        text::lowercased(info.symbol)
    };
    ItemView {
        label: "["@ + text::lowercased(info.package) + "] "@ + shown,
        kind: item_kind(info.kind),
        detail: detail(info),
        documentation: info.doc,
        filter_text: shown,
        range: query.range,
        new_text: new_text(info, query.inside_paren, query.package),
        is_snippet: item_snippet(info, query.inside_paren) is Some,
        sort_text: sort_text(number, info.symbol),
    }
}

/// The completions for symbols, in their order.
pub open spec fn symbol_items(symbols: Seq<SymbolInfoView>, query: QueryView) -> Seq<ItemView> {
    Seq::new(symbols.len(), |i: int| symbol_item(symbols[i], i as nat, query))
}

/// The completions: the packages, where none was named, and then the symbols.
pub open spec fn items(symbols: Seq<SymbolInfoView>, query: QueryView) -> Seq<ItemView> {
    let n = symbols.len() as int;
    (if query.package is None {
        package_items(packages(symbols, query.prefix, n), query.range)
    } else {
        Seq::empty()
    }) + symbol_items(belonging(symbols, query.package, n), query)
}

// ---------------------------------------------------------------------------
// The order of the completions

proof fn padded_digits(n: nat, w: nat)
    requires
        w > 0,
    ensures
        n >= 10 ==> text::zero_padded(text::decimal(n), w) == text::zero_padded(
            text::decimal(n / 10),
            (w - 1) as nat,
        ).push(text::digit(n % 10)),
        n < 10 ==> text::zero_padded(text::decimal(n), w) == Seq::new((w - 1) as nat, |i: int| '0').push(
            text::digit(n),
        ),
{
    let d = text::decimal(n);
    if n < 10 {
        assert(text::zero_padded(d, w) =~= Seq::new((w - 1) as nat, |i: int| '0').push(
            text::digit(n),
        ));
    } else {
        let e = text::decimal(n / 10);
        assert(d =~= e.push(text::digit(n % 10)));
        assert(text::zero_padded(d, w) =~= text::zero_padded(e, (w - 1) as nat).push(
            text::digit(n % 10),
        ));
    }
}

/// The smaller of two numbers, padded to the same width, differs first in a smaller
/// digit.
proof fn padded_order(a: nat, b: nat, w: nat, limit: nat)
    requires
        a < b < limit,
        limit == vstd::arithmetic::power::pow(10, w),
    ensures
        text::zero_padded(text::decimal(a), w).len() == w,
        text::zero_padded(text::decimal(b), w).len() == w,
        exists|i: int|
            0 <= i < w && #[trigger] text::zero_padded(text::decimal(a), w).take(i)
                == text::zero_padded(text::decimal(b), w).take(i) && text::zero_padded(
                text::decimal(a),
                w,
            )[i] < text::zero_padded(text::decimal(b), w)[i],
    decreases w,
{
    padded_width(a, w);
    padded_width(b, w);
    let x = text::zero_padded(text::decimal(a), w);
    let y = text::zero_padded(text::decimal(b), w);
    vstd::arithmetic::power::lemma_pow0(10);
    assert(w > 0);
    vstd::arithmetic::power::lemma_pow_adds(10, 1, (w - 1) as nat);
    vstd::arithmetic::power::lemma_pow1(10);
    let rest = vstd::arithmetic::power::pow(10, (w - 1) as nat);
    assert(limit == 10 * rest);
    let v = (w - 1) as nat;
    if v > 0 {
        padded_split(a, w);
        padded_split(b, w);
    }
    let p = text::zero_padded(text::decimal(a / 10), v);
    let q = text::zero_padded(text::decimal(b / 10), v);
    if v == 0 {
        assert(rest == 1);
        assert(a < 10 && b < 10);
        padded_digits(a, w);
        padded_digits(b, w);
        assert(x.take(0) =~= y.take(0));
        assert(x[0] < y[0]);
    } else if a / 10 == b / 10 {
        padded_width(a / 10, v);
        assert(x.take(v as int) =~= p);
        assert(y.take(v as int) =~= q);
        assert(x[v as int] < y[v as int]);
    } else {
        padded_order(a / 10, b / 10, v, rest as nat);
        let i = choose|i: int| 0 <= i < v && #[trigger] p.take(i) == q.take(i) && p[i] < q[i];
        assert(x.take(i) =~= p.take(i));
        assert(y.take(i) =~= q.take(i));
        assert(x[i] < y[i]);
    }
}

proof fn padded_split(n: nat, w: nat)
    requires
        w > 1,
    ensures
        text::zero_padded(text::decimal(n), w) == text::zero_padded(
            text::decimal(n / 10),
            (w - 1) as nat,
        ).push(text::digit(n % 10)),
{
    padded_digits(n, w);
    if n < 10 {
        padded_digits(0, (w - 1) as nat);
        assert(n / 10 == 0);
        assert(text::digit(0) == '0');
        assert(Seq::new((w - 1) as nat, |i: int| '0') =~= Seq::new((w - 2) as nat, |i: int| '0').push(
            '0',
        ));
    }
}

proof fn padded_width(n: nat, w: nat)
    requires
        n < vstd::arithmetic::power::pow(10, w),
    ensures
        text::zero_padded(text::decimal(n), w).len() == w || w == 0,
        text::decimal(n).len() <= w || w == 0,
    decreases w,
{
    if w > 1 {
        vstd::arithmetic::power::lemma_pow_adds(10, 1, (w - 1) as nat);
        vstd::arithmetic::power::lemma_pow1(10);
        if n >= 10 {
            padded_width(n / 10, (w - 1) as nat);
        }
    } else if w == 1 {
        vstd::arithmetic::power::lemma_pow1(10);
    }
}

/// A number of up to eight digits is padded to eight.
pub proof fn padded_number_width(n: nat)
    requires
        n < 100_000_000,
    ensures
        text::zero_padded(text::decimal(n), 8).len() == 8,
{
    assert(vstd::arithmetic::power::pow(10, 8) == 100_000_000) by {
        reveal_with_fuel(vstd::arithmetic::power::pow, 9);
    }
    padded_width(n, 8);
}

/// Ordered by their texts, the symbols keep the order in which the REPL gave them.
pub proof fn symbols_keep_order(i: nat, j: nat, a: Seq<char>, b: Seq<char>)
    requires
        i < j < 100_000_000,
    ensures
        text::precedes(sort_text(i, a), sort_text(j, b)),
{
    assert(vstd::arithmetic::power::pow(10, 8) == 100_000_000) by {
        reveal_with_fuel(vstd::arithmetic::power::pow, 9);
    }
    padded_order(i, j, 8, 100_000_000);
    let x = text::zero_padded(text::decimal(i), 8);
    let y = text::zero_padded(text::decimal(j), 8);
    let k = choose|k: int| 0 <= k < 8 && #[trigger] x.take(k) == y.take(k) && x[k] < y[k];
    assert(sort_text(i, a).take(k) =~= x.take(k));
    assert(sort_text(j, b).take(k) =~= y.take(k));
    text::precedes_at(sort_text(i, a), sort_text(j, b), k);
}

/// Ordered by their texts, packages come after symbols.
pub proof fn packages_come_last(i: nat, symbol: Seq<char>, package: Seq<char>, range: Range)
    requires
        i < 10_000_000,
    ensures
        text::precedes(sort_text(i, symbol), package_item(package, range).sort_text),
{
    assert(vstd::arithmetic::power::pow(10, 7) == 10_000_000) by {
        reveal_with_fuel(vstd::arithmetic::power::pow, 8);
    }
    padded_width(i, 7);
    let d = text::decimal(i);
    assert(text::zero_padded(d, 8)[0] == '0');
    reveal_strlit("1");
    let x = sort_text(i, symbol);
    let y = package_item(package, range).sort_text;
    assert(x[0] == '0');
    assert(y[0] == '1');
    assert(x.take(0) =~= y.take(0));
    text::precedes_at(x, y, 0);
}


// ---------------------------------------------------------------------------
// Making the list

/// Whether the texts hold this one.
fn holds_text(v: &Vec<String>, s: &str) -> (r: bool)
    ensures
        r == text::texts(v@).contains(s@),
{
    let ghost all = text::texts(v@);
    for i in 0..v.len()
        invariant
            all == text::texts(v@),
            forall|j: int| 0 <= j < i ==> all[j] != s@,
    {
        assert(all[i as int] == v@[i as int]@);
        if text::same_text(v[i].as_str(), s) {
            return true;
        }
    }
    false
}

/// The packages of the symbols that begin with what was typed, each once.
pub fn matching_packages(symbols: &Vec<SymbolInfo>, prefix: &str) -> (r: Vec<String>)
    ensures
        text::texts(r@) == packages(
            protocol::symbols_view(symbols@),
            prefix@,
            symbols@.len() as int,
        ),
{
    let ghost all = protocol::symbols_view(symbols@);
    let upper = text::to_uppercase(prefix);
    let mut out: Vec<String> = Vec::new();
    assert(text::texts(out@) =~= packages(all, prefix@, 0));
    for i in 0..symbols.len()
        invariant
            all == protocol::symbols_view(symbols@),
            upper@ == text::uppercased(prefix@),
            text::texts(out@) == packages(all, prefix@, i as int),
    {
        let ghost before = out@;
        assert(all[i as int] == symbols@[i as int]@);
        let package = symbols[i].package.as_str();
        if !holds_text(&out, package) && text::starts_with(
            text::to_uppercase(package).as_str(),
            upper.as_str(),
        ) {
            out.push(package.to_string());
            assert(text::texts(out@) =~= text::texts(before).push(package@));
        }
    }
    out
}

/// The completion for a package.
pub fn package_completion(package: &str, range: Range) -> (r: CompletionItem)
    ensures
        r@ == package_item(package@, range),
{
    let lower = text::to_lowercase(package);
    let mut label = "[".to_string();
    label.append(lower.as_str());
    label.append("]");
    let mut new_text = lower.clone();
    new_text.append(":");
    let mut sort_text = "1".to_string();
    sort_text.append(lower.as_str());
    CompletionItem {
        label,
        kind: ItemKind::Module,
        detail: "package".to_string(),
        documentation: None,
        filter_text: lower,
        range,
        new_text,
        is_snippet: false,
        sort_text,
    }
}

fn belongs_to(info: &SymbolInfo, package: &Option<String>) -> (r: bool)
    ensures
        r == belongs(info@, text::text_opt(*package)),
{
    match package {
        Some(p) => {
            if p.as_str().is_empty() {
                text::eq_ignore_ascii_case(info.package.as_str(), "KEYWORD")
            } else {
                text::eq_ignore_ascii_case(info.package.as_str(), p.as_str())
            }
        },
        None => true,
    }
}

fn kind_of(kind: &str) -> (r: ItemKind)
    ensures
        r == item_kind(kind@),
{
    if text::same_text(kind, "function") || text::same_text(kind, "macro") {
        ItemKind::Function
    } else if text::same_text(kind, "variable") || text::same_text(kind, "constant") {
        ItemKind::Variable
    } else if text::same_text(kind, "class") {
        ItemKind::Class
    } else if text::same_text(kind, "package") {
        ItemKind::Module
    } else {
        ItemKind::Text
    }
}

fn needs_no_package(package: &str) -> (r: bool)
    ensures
        r == is_system_package(package@),
{
    text::same_text(package, "COMMON-LISP") || text::same_text(package, "COMMON-LISP-USER")
        || text::same_text(package, "CL") || text::same_text(package, "KEYWORD")
}

fn keyword(info: &SymbolInfo) -> (r: bool)
    ensures
        r == is_keyword(info@),
{
    text::same_text(text::to_uppercase(info.package.as_str()).as_str(), "KEYWORD")
}

fn snippet_of(info: &SymbolInfo, inside_paren: bool) -> (r: Option<String>)
    ensures
        text::text_opt(r) == item_snippet(info@, inside_paren),
{
    if !(inside_paren && (text::same_text(info.kind.as_str(), "function") || text::same_text(
        info.kind.as_str(),
        "macro",
    ))) {
        return None;
    }
    match &info.source {
        Some(source) => snippet::create_function_snippet(
            info.symbol.as_str(),
            source.as_str(),
            inside_paren,
            info.param_types.as_ref(),
        ),
        None => None,
    }
}

/// The parameter list in the source of a function, with its parentheses.
pub fn parameters_to_show(source: &str) -> (r: Option<String>)
    ensures
        text::text_opt(r) == shown_parameters(source@),
{
    let p: usize = match text::find_char(source, '(') {
        Some(i) => i,
        None => return None,
    };
    let inner = text::tail(source, p + 1);
    let q: usize = match text::find_char(inner.as_str(), '(') {
        Some(i) => i,
        None => return None,
    };
    let list = text::tail(inner.as_str(), q);
    assert(list@ =~= source@.skip(p + 1 + q));
    match text::find_char(list.as_str(), ')') {
        Some(end) => Some(text::head(list.as_str(), end + 1)),
        None => None,
    }
}

/// The parameters with their types, where these are known.
pub fn parameters_with_types(types: &Vec<(String, Option<String>)>) -> (r: Vec<String>)
    ensures
        text::texts(r@) == typed_parameters(protocol::params_view(types@)),
{
    let ghost all = typed_parameters(protocol::params_view(types@));
    let mut out: Vec<String> = Vec::new();
    assert(text::texts(out@) =~= all.take(0));
    for i in 0..types.len()
        invariant
            all == typed_parameters(protocol::params_view(types@)),
            text::texts(out@) == all.take(i as int),
    {
        let ghost before = out@;
        assert(protocol::params_view(types@)[i as int] == (
            types@[i as int].0@,
            text::text_opt(types@[i as int].1),
        ));
        let mut shown = text::to_lowercase(types[i].0.as_str());
        if let Some(kind) = &types[i].1 {
            shown.append(":");
            shown.append(text::to_lowercase(kind.as_str()).as_str());
        }
        assert(shown@ =~= all[i as int]);
        out.push(shown);
        assert(text::texts(out@) =~= text::texts(before).push(all[i as int]));
        assert(text::texts(out@) =~= all.take(i + 1));
    }
    assert(all.take(types@.len() as int) =~= all);
    out
}

fn detail_of(info: &SymbolInfo) -> (r: String)
    ensures
        r@ == detail(info@),
{
    let shown = match &info.source {
        Some(source) => parameters_to_show(source.as_str()),
        None => None,
    };
    let mut out = info.kind.clone();
    if let Some(list) = shown {
        match &info.param_types {
            Some(types) => {
                assert(protocol::params_view(types@).len() == types@.len());
                if types.len() > 0 {
                    out.append(" (");
                    out.append(text::join(&parameters_with_types(types), " ").as_str());
                    out.append(")");
                } else {
                    out.append(" ");
                    out.append(list.as_str());
                }
            },
            None => {
                out.append(" ");
                out.append(list.as_str());
            },
        }
    }
    out
}

/// The completion for a symbol, the one with this number of those that are offered.
pub fn symbol_completion(info: &SymbolInfo, number: u64, query: &CompletionQuery) -> (r:
    CompletionItem)
    ensures
        r@ == symbol_item(info@, number as nat, query@),
{
    let is_key = keyword(info);
    let symbol = text::to_lowercase(info.symbol.as_str());
    let package = text::to_lowercase(info.package.as_str());

    let snippet = snippet_of(info, query.inside_paren);
    let is_snippet = snippet.is_some();
    let name = match snippet {
        Some(s) => s,
        None => symbol.clone(),
    };
    let mut new_text = String::new();
    if is_key {
        new_text.append(":");
    }
    if query.inside_paren && query.package.is_none() && !needs_no_package(info.package.as_str()) {
        new_text.append(package.as_str());
        new_text.append("::");
    }
    new_text.append(name.as_str());
    assert(new_text@ =~= self::new_text(info@, query.inside_paren, query@.package));

    let mut shown = String::new();
    if is_key {
        shown.append(":");
    }
    shown.append(symbol.as_str());
    let mut label = "[".to_string();
    label.append(package.as_str());
    label.append("] ");
    label.append(shown.as_str());
    assert(shown@ =~= symbol_item(info@, number as nat, query@).filter_text);

    let mut sort_text = text::padded_number(number);
    sort_text.append(symbol.as_str());
    let documentation = match &info.doc {
        Some(d) => Some(d.clone()),
        None => None,
    };
    CompletionItem {
        label,
        kind: kind_of(info.kind.as_str()),
        detail: detail_of(info),
        documentation,
        filter_text: shown,
        range: query.range,
        new_text,
        is_snippet,
        sort_text,
    }
}

/// The completions that the symbols of a reply give.
pub fn completion_items(symbols: &Vec<SymbolInfo>, query: &CompletionQuery) -> (r: Vec<
    CompletionItem,
>)
    ensures
        item_views(r@) == items(protocol::symbols_view(symbols@), query@),
{
    let ghost all = protocol::symbols_view(symbols@);
    let ghost q = query@;
    let mut out: Vec<CompletionItem> = Vec::new();
    let ghost mut first = Seq::<ItemView>::empty();
    if query.package.is_none() {
        let names = matching_packages(symbols, query.prefix.as_str());
        let ghost offered = package_items(text::texts(names@), q.range);
        assert(item_views(out@) =~= offered.take(0));
        for i in 0..names.len()
            invariant
                q == query@,
                offered == package_items(text::texts(names@), q.range),
                item_views(out@) == offered.take(i as int),
        {
            let ghost before = out@;
            assert(text::texts(names@)[i as int] == names@[i as int]@);
            let item = package_completion(names[i].as_str(), query.range);
            let ghost new = item@;
            out.push(item);
            assert(item_views(out@) =~= item_views(before).push(new));
            assert(item_views(out@) =~= offered.take(i + 1));
        }
        proof {
            assert(offered.take(names@.len() as int) =~= offered);
            first = offered;
        }
    }
    let mut number: u64 = 0;
    assert(item_views(out@) =~= first + symbol_items(belonging(all, q.package, 0), q));
    for i in 0..symbols.len()
        invariant
            q == query@,
            all == protocol::symbols_view(symbols@),
            number <= i,
            number == belonging(all, q.package, i as int).len(),
            item_views(out@) == first + symbol_items(belonging(all, q.package, i as int), q),
    {
        let ghost before = out@;
        assert(all[i as int] == symbols@[i as int]@);
        if belongs_to(&symbols[i], &query.package) {
            let item = symbol_completion(&symbols[i], number, query);
            let ghost new = item@;
            out.push(item);
            number = number + 1;
            assert(item_views(out@) =~= item_views(before).push(new));
            assert(symbol_items(belonging(all, q.package, i + 1), q) =~= symbol_items(
                belonging(all, q.package, i as int),
                q,
            ).push(new));
            assert(item_views(out@) =~= first + symbol_items(
                belonging(all, q.package, i + 1),
                q,
            ));
        }
    }
    out
}

/// What is answered to the editor, for a reply of the REPL or none: nothing without a
/// reply, and no completions where the reply lists no symbols.
pub open spec fn completion_answer(
    reply: Option<ResponseDataView>,
    query: QueryView,
) -> Option<Seq<ItemView>> {
    match reply {
        Some(ResponseDataView::SymbolList { symbols }) => Some(items(symbols, query)),
        Some(_) => Some(Seq::empty()),
        None => None,
    }
}

/// What is answered to the editor, for a reply of the REPL or none.
pub fn completion(reply: Option<&ResponseData>, query: &CompletionQuery) -> (r: Option<
    Vec<CompletionItem>,
>)
    ensures
        (match r {
            Some(v) => Some(item_views(v@)),
            None => None,
        }) == completion_answer(
            match reply {
                Some(data) => Some(data@),
                None => None,
            },
            query@,
        ),
{
    match reply {
        Some(ResponseData::SymbolList { symbols }) => Some(completion_items(symbols, query)),
        Some(_) => {
            let none: Vec<CompletionItem> = Vec::new();
            assert(item_views(none@) =~= Seq::<ItemView>::empty());
            Some(none)
        },
        None => None,
    }
}

/// Where no package was named, every symbol is offered.
pub proof fn all_symbols_are_offered(symbols: Seq<SymbolInfoView>, n: int)
    requires
        0 <= n <= symbols.len(),
    ensures
        belonging(symbols, None, n) == symbols.take(n),
    decreases n,
{
    if n > 0 {
        all_symbols_are_offered(symbols, n - 1);
        assert(symbols.take(n) =~= symbols.take(n - 1).push(symbols[n - 1]));
    } else {
        assert(symbols.take(0) =~= Seq::<SymbolInfoView>::empty());
    }
}

/// No package is offered twice.
pub proof fn packages_are_distinct(symbols: Seq<SymbolInfoView>, prefix: Seq<char>, n: int)
    requires
        0 <= n <= symbols.len(),
    ensures
        packages(symbols, prefix, n).no_duplicates(),
    decreases n,
{
    if n > 0 {
        packages_are_distinct(symbols, prefix, n - 1);
    }
}

}
