//! The requests that the master REPL takes and the replies that it gives, both
//! as s-expressions.

use vstd::prelude::*;
use vstd::string::*;
use crate::json;
use crate::json::JsonView;
use crate::sexp;
use crate::sexp::{List, ListView, Sexp, SexpView};
use crate::table::Table;
use crate::text;

verus! {

/// A request to the master REPL.
#[derive(Debug, Clone)]
pub enum ReplRequest {
    SymbolInfo { id: String, symbol: String, package: Option<String> },
    ListSymbols { id: String, prefix: Option<String>, package: Option<String> },
    Eval { id: String, code: String, package: Option<String>, file_path: Option<String> },
    LoadFile { id: String, path: String },
    SetCurrentFile { id: String, path: String, contents: Option<String> },
    Ping { id: String },
}

// ---------------------------------------------------------------------------
// Lisp strings

/// `s` with a backslash before each backslash and each double quote.
pub open spec fn escaped(s: Seq<char>) -> Seq<char>
    decreases s.len(),
{
    if s.len() == 0 {
        Seq::empty()
    } else if s[0] == '\\' || s[0] == '"' {
        seq!['\\', s[0]] + escaped(s.skip(1))
    } else {
        seq![s[0]] + escaped(s.skip(1))
    }
}

/// `s` with each backslash taken out and the character after it kept as it is.
pub open spec fn unescaped(s: Seq<char>) -> Seq<char>
    decreases s.len(),
{
    if s.len() == 0 {
        Seq::empty()
    } else if s[0] == '\\' {
        if s.len() == 1 {
            Seq::empty()
        } else {
            seq![s[1]] + unescaped(s.skip(2))
        }
    } else {
        seq![s[0]] + unescaped(s.skip(1))
    }
}

/// `s` as a Lisp string.
pub open spec fn quoted(s: Seq<char>) -> Seq<char> {
    "\""@ + escaped(s) + "\""@
}

/// `s` with a backslash before each backslash and each double quote.
pub fn escape_lisp_string(s: &str) -> (r: String)
    ensures
        r@ == escaped(s@),
{
    let x = text::chars_of(s);
    let mut out = String::new();
    assert(s@.skip(0) == s@);
    for i in 0..x.len()
        invariant
            x@ == s@,
            out@ + escaped(s@.skip(i as int)) == escaped(s@),
    {
        let c: char = x[i];
        let ghost before = out@;
        let ghost rest = escaped(s@.skip(i + 1));
        assert(s@.skip(i as int).skip(1) == s@.skip(i + 1));
        if c == '\\' || c == '"' {
            out.push('\\');
            out.push(c);
            assert(out@ + rest == before + (seq!['\\', c] + rest));
        } else {
            out.push(c);
            assert(out@ + rest == before + (seq![c] + rest));
        }
    }
    assert(s@.skip(x@.len() as int) == Seq::<char>::empty());
    out
}

/// `s` with each backslash taken out and the character after it kept as it is.
pub fn unescape_lisp_string(s: &str) -> (r: String)
    ensures
        r@ == unescaped(s@),
{
    let x = text::chars_of(s);
    let mut out = String::new();
    let mut i: usize = 0;
    assert(s@.skip(0) == s@);
    while i < x.len()
        invariant
            x@ == s@,
            i <= x@.len(),
            out@ + unescaped(s@.skip(i as int)) == unescaped(s@),
        decreases x@.len() - i,
    {
        let ghost before = out@;
        let ghost here = s@.skip(i as int);
        if x[i] == '\\' {
            if i + 1 == x.len() {
                assert(out@ + Seq::<char>::empty() == out@);
                return out;
            }
            let ghost rest = unescaped(s@.skip(i + 2));
            assert(here.skip(2) == s@.skip(i + 2));
            out.push(x[i + 1]);
            assert(out@ + rest == before + (seq![x@[i + 1]] + rest));
            i = i + 2;
        } else {
            let ghost rest = unescaped(s@.skip(i + 1));
            assert(here.skip(1) == s@.skip(i + 1));
            out.push(x[i]);
            assert(out@ + rest == before + (seq![x@[i as int]] + rest));
            i = i + 1;
        }
    }
    assert(s@.skip(i as int) == Seq::<char>::empty());
    out
}

/// `s` as a Lisp string.
pub fn lisp_string(s: &str) -> (r: String)
    ensures
        r@ == quoted(s@),
{
    let mut out = "\"".to_string();
    out.append(escape_lisp_string(s).as_str());
    out.append("\"");
    out
}

/// Taking the escapes out of an escaped text gives the text back.
pub proof fn unescape_undoes_escape(s: Seq<char>)
    ensures
        unescaped(escaped(s)) == s,
    decreases s.len(),
{
    if s.len() > 0 {
        let rest = escaped(s.skip(1));
        unescape_undoes_escape(s.skip(1));
        let e = escaped(s);
        if s[0] == '\\' || s[0] == '"' {
            assert(e.skip(2) == rest);
            assert(unescaped(e) == seq![s[0]] + unescaped(rest));
        } else {
            assert(e.skip(1) == rest);
            assert(unescaped(e) == seq![s[0]] + unescaped(rest));
        }
        assert(seq![s[0]] + s.skip(1) == s);
    }
}

// ---------------------------------------------------------------------------
// Requests

/// A field of a request: its key and its value as a Lisp string.
pub open spec fn field(key: Seq<char>, value: Seq<char>) -> Seq<char> {
    key + " "@ + quoted(value)
}

/// The field with this key where there is a value, and none where there is not.
pub open spec fn optional_field(key: Seq<char>, value: Option<String>) -> Seq<Seq<char>> {
    match value {
        Some(v) => seq![field(key, v@)],
        None => Seq::empty(),
    }
}

impl ReplRequest {
    /// The id of the request.
    pub open spec fn id_string(&self) -> String {
        match self {
            ReplRequest::SymbolInfo { id, .. } => *id,
            ReplRequest::ListSymbols { id, .. } => *id,
            ReplRequest::Eval { id, .. } => *id,
            ReplRequest::LoadFile { id, .. } => *id,
            ReplRequest::SetCurrentFile { id, .. } => *id,
            ReplRequest::Ping { id } => *id,
        }
    }

    /// The request with another id.
    pub open spec fn with_id(self, new: String) -> ReplRequest {
        match self {
            ReplRequest::SymbolInfo { id, symbol, package } => ReplRequest::SymbolInfo {
                id: new,
                symbol,
                package,
            },
            ReplRequest::ListSymbols { id, prefix, package } => ReplRequest::ListSymbols {
                id: new,
                prefix,
                package,
            },
            ReplRequest::Eval { id, code, package, file_path } => ReplRequest::Eval {
                id: new,
                code,
                package,
                file_path,
            },
            ReplRequest::LoadFile { id, path } => ReplRequest::LoadFile { id: new, path },
            ReplRequest::SetCurrentFile { id, path, contents } => ReplRequest::SetCurrentFile {
                id: new,
                path,
                contents,
            },
            ReplRequest::Ping { id } => ReplRequest::Ping { id: new },
        }
    }

    /// The fields of the request in the order in which they are sent.
    pub open spec fn fields(&self) -> Seq<Seq<char>> {
        match self {
            ReplRequest::SymbolInfo { id, symbol, package } => seq![
                field(":type"@, "symbol-info"@),
                field(":id"@, id@),
                field(":symbol"@, symbol@),
            ] + optional_field(":package"@, *package),
            ReplRequest::ListSymbols { id, prefix, package } => seq![
                field(":type"@, "list-symbols"@),
                field(":id"@, id@),
            ] + optional_field(":prefix"@, *prefix) + optional_field(":package"@, *package),
            ReplRequest::Eval { id, code, package, file_path } => seq![
                field(":type"@, "eval"@),
                field(":id"@, id@),
                field(":code"@, code@),
            ] + optional_field(":package"@, *package) + optional_field(":file-path"@, *file_path),
            ReplRequest::LoadFile { id, path } => seq![
                field(":type"@, "load-file"@),
                field(":id"@, id@),
                field(":path"@, path@),
            ],
            ReplRequest::SetCurrentFile { id, path, contents } => seq![
                field(":type"@, "set-current-file"@),
                field(":id"@, id@),
                field(":path"@, path@),
            ] + optional_field(":contents"@, *contents),
            ReplRequest::Ping { id } => seq![field(":type"@, "ping"@), field(":id"@, id@)],
        }
    }

    /// The request as it is sent: a list of its fields.
    pub open spec fn sexp_text(&self) -> Seq<char> {
        "("@ + text::joined(self.fields(), " "@) + ")"@
    }

    /// The id of the request.
    pub fn id(&self) -> (r: &str)
        ensures
            r@ == self.id_string()@,
    {
        match self {
            ReplRequest::SymbolInfo { id, .. }
            | ReplRequest::ListSymbols { id, .. }
            | ReplRequest::Eval { id, .. }
            | ReplRequest::LoadFile { id, .. }
            | ReplRequest::SetCurrentFile { id, .. }
            | ReplRequest::Ping { id } => id.as_str(),
        }
    }

    /// The id of the request, to be changed.
    pub fn id_mut(&mut self) -> (r: &mut String)
        ensures
            *r == old(self).id_string(),
            *final(self) == old(self).with_id(*final(r)),
    {
        match self {
            ReplRequest::SymbolInfo { id, .. } => id,
            ReplRequest::ListSymbols { id, .. } => id,
            ReplRequest::Eval { id, .. } => id,
            ReplRequest::LoadFile { id, .. } => id,
            ReplRequest::SetCurrentFile { id, .. } => id,
            ReplRequest::Ping { id } => id,
        }
    }

    /// The request as it is sent.
    pub fn to_sexp(&self) -> (r: String)
        ensures
            r@ == self.sexp_text(),
    {
        let mut parts: Vec<String> = Vec::new();
        match self {
            ReplRequest::SymbolInfo { id, symbol, package } => {
                push_field(&mut parts, ":type", "symbol-info");
                push_field(&mut parts, ":id", id.as_str());
                push_field(&mut parts, ":symbol", symbol.as_str());
                push_optional(&mut parts, ":package", package);
            },
            ReplRequest::ListSymbols { id, prefix, package } => {
                push_field(&mut parts, ":type", "list-symbols");
                push_field(&mut parts, ":id", id.as_str());
                push_optional(&mut parts, ":prefix", prefix);
                push_optional(&mut parts, ":package", package);
            },
            ReplRequest::Eval { id, code, package, file_path } => {
                push_field(&mut parts, ":type", "eval");
                push_field(&mut parts, ":id", id.as_str());
                push_field(&mut parts, ":code", code.as_str());
                push_optional(&mut parts, ":package", package);
                push_optional(&mut parts, ":file-path", file_path);
            },
            ReplRequest::LoadFile { id, path } => {
                push_field(&mut parts, ":type", "load-file");
                push_field(&mut parts, ":id", id.as_str());
                push_field(&mut parts, ":path", path.as_str());
            },
            ReplRequest::SetCurrentFile { id, path, contents } => {
                push_field(&mut parts, ":type", "set-current-file");
                push_field(&mut parts, ":id", id.as_str());
                push_field(&mut parts, ":path", path.as_str());
                push_optional(&mut parts, ":contents", contents);
            },
            ReplRequest::Ping { id } => {
                push_field(&mut parts, ":type", "ping");
                push_field(&mut parts, ":id", id.as_str());
            },
        }
        assert(text::texts(parts@) =~= self.fields());
        let mut out = "(".to_string();
        out.append(text::join(&parts, " ").as_str());
        out.append(")");
        out
    }
}

fn push_field(parts: &mut Vec<String>, key: &str, value: &str)
    ensures
        text::texts(final(parts)@) == text::texts(old(parts)@).push(field(key@, value@)),
{
    let mut f = key.to_string();
    f.append(" ");
    f.append(lisp_string(value).as_str());
    parts.push(f);
    assert(text::texts(parts@) =~= text::texts(old(parts)@).push(field(key@, value@)));
}

fn push_optional(parts: &mut Vec<String>, key: &str, value: &Option<String>)
    ensures
        text::texts(final(parts)@) == text::texts(old(parts)@) + optional_field(key@, *value),
{
    match value {
        Some(v) => {
            push_field(parts, key, v.as_str());
        },
        None => {},
    }
    assert(text::texts(parts@) =~= text::texts(old(parts)@) + optional_field(key@, *value));
}


/// Splits a typed completion prefix into a package and the beginning of a symbol:
/// at the first `::`, or else at the first `:`. No package before the colons
/// means the package `KEYWORD`; no colon means no package.
pub open spec fn completion_prefix(prefix: Seq<char>) -> (Option<Seq<char>>, Seq<char>) {
    match text::position_of(prefix, "::"@) {
        Some(i) => (
            Some(if i == 0 { "KEYWORD"@ } else { prefix.take(i) }),
            prefix.skip(i + 2),
        ),
        None => match text::char_position(prefix, ':') {
            Some(i) => (
                Some(if i == 0 { "KEYWORD"@ } else { prefix.take(i) }),
                prefix.skip(i + 1),
            ),
            None => (None, prefix),
        },
    }
}

/// Splits a typed completion prefix into a package and the beginning of a symbol.
/// `pkg:foo` and `pkg::foo` give the package `pkg`; `:foo` gives `KEYWORD`.
pub fn parse_lisp_completion_prefix(prefix: &str) -> (r: (Option<String>, String))
    ensures
        text::text_opt(r.0) == completion_prefix(prefix@).0,
        r.1@ == completion_prefix(prefix@).1,
{
    proof {
        reveal_strlit("::");
    }
    match text::find(prefix, "::") {
        Some(i) => {
            let rest = text::tail(prefix, i + 2);
            if i == 0 {
                (Some("KEYWORD".to_string()), rest)
            } else {
                (Some(text::head(prefix, i)), rest)
            }
        },
        None => match text::find_char(prefix, ':') {
            Some(i) => {
                let rest = text::tail(prefix, i + 1);
                if i == 0 {
                    (Some("KEYWORD".to_string()), rest)
                } else {
                    (Some(text::head(prefix, i)), rest)
                }
            },
            None => (None, prefix.to_string()),
        },
    }
}

// ---------------------------------------------------------------------------
// Replies

/// What the REPL knows of a symbol.
#[derive(Debug, Clone)]
pub struct SymbolInfo {
    pub symbol: String,
    pub package: String,
    pub kind: String,
    pub source: Option<String>,
    pub doc: Option<String>,
    pub param_types: Option<Vec<(String, Option<String>)>>,
    pub source_file: Option<String>,
    pub source_line: Option<u32>,
    pub source_character: Option<u32>,
}

/// What a symbol's description holds.
pub struct SymbolInfoView {
    pub symbol: Seq<char>,
    pub package: Seq<char>,
    pub kind: Seq<char>,
    pub source: Option<Seq<char>>,
    pub doc: Option<Seq<char>>,
    pub param_types: Option<Seq<(Seq<char>, Option<Seq<char>>)>>,
    pub source_file: Option<Seq<char>>,
    pub source_line: Option<u32>,
    pub source_character: Option<u32>,
}

/// The names and types that a list of parameters holds.
pub open spec fn params_view(v: Seq<(String, Option<String>)>) -> Seq<
    (Seq<char>, Option<Seq<char>>),
> {
    v.map_values(|p: (String, Option<String>)| (p.0@, text::text_opt(p.1)))
}

/// The names and types of an optional list of parameters.
pub open spec fn params_opt(o: Option<Vec<(String, Option<String>)>>) -> Option<
    Seq<(Seq<char>, Option<Seq<char>>)>,
> {
    match o {
        Some(v) => Some(params_view(v@)),
        None => None,
    }
}

impl View for SymbolInfo {
    type V = SymbolInfoView;

    open spec fn view(&self) -> SymbolInfoView {
        SymbolInfoView {
            symbol: self.symbol@,
            package: self.package@,
            kind: self.kind@,
            source: text::text_opt(self.source),
            doc: text::text_opt(self.doc),
            param_types: params_opt(self.param_types),
            source_file: text::text_opt(self.source_file),
            source_line: self.source_line,
            source_character: self.source_character,
        }
    }
}

/// Something to be shown: its representations by media type, and metadata where there
/// is any.
#[derive(Debug)]
pub struct DisplayData {
    pub data: Table<String>,
    pub metadata: Option<serde_json::Value>,
}

/// What something to be shown holds.
pub struct DisplayDataView {
    pub data: Map<Seq<char>, Seq<char>>,
    pub metadata: Option<JsonView>,
}

impl View for DisplayData {
    type V = DisplayDataView;

    open spec fn view(&self) -> DisplayDataView {
        DisplayDataView {
            data: self.data@.map_values(|s: String| s@),
            metadata: match self.metadata {
                Some(v) => Some(json::held(v)),
                None => None,
            },
        }
    }
}

/// What a reply says.
#[derive(Debug)]
pub enum ResponseData {
    SymbolInfo(SymbolInfo),
    SymbolList { symbols: Vec<SymbolInfo> },
    EvalResult {
        output: String,
        values: Vec<String>,
        error: Option<String>,
        traceback: Option<String>,
        displays: Option<Vec<DisplayData>>,
    },
    LoadResult { output: String, error: Option<String> },
    Error { error: String },
    Pong,
}

/// What the data of a reply holds.
pub enum ResponseDataView {
    SymbolInfo(SymbolInfoView),
    SymbolList { symbols: Seq<SymbolInfoView> },
    EvalResult {
        output: Seq<char>,
        values: Seq<Seq<char>>,
        error: Option<Seq<char>>,
        traceback: Option<Seq<char>>,
        displays: Option<Seq<DisplayDataView>>,
    },
    LoadResult { output: Seq<char>, error: Option<Seq<char>> },
    Error { error: Seq<char> },
    Pong,
}

/// What each of the symbols' descriptions holds.
pub open spec fn symbols_view(v: Seq<SymbolInfo>) -> Seq<SymbolInfoView> {
    v.map_values(|s: SymbolInfo| s@)
}

/// What each of the things to be shown holds.
pub open spec fn displays_view(v: Seq<DisplayData>) -> Seq<DisplayDataView> {
    v.map_values(|d: DisplayData| d@)
}

/// What each of the things to be shown holds, where there are any.
pub open spec fn displays_opt(o: Option<Vec<DisplayData>>) -> Option<Seq<DisplayDataView>> {
    match o {
        Some(v) => Some(displays_view(v@)),
        None => None,
    }
}

impl View for ResponseData {
    type V = ResponseDataView;

    open spec fn view(&self) -> ResponseDataView {
        match self {
            ResponseData::SymbolInfo(info) => ResponseDataView::SymbolInfo(info@),
            ResponseData::SymbolList { symbols } => ResponseDataView::SymbolList {
                symbols: symbols_view(symbols@),
            },
            ResponseData::EvalResult { output, values, error, traceback, displays } =>
                ResponseDataView::EvalResult {
                output: output@,
                values: text::texts(values@),
                error: text::text_opt(*error),
                traceback: text::text_opt(*traceback),
                displays: displays_opt(*displays),
            },
            ResponseData::LoadResult { output, error } => ResponseDataView::LoadResult {
                output: output@,
                error: text::text_opt(*error),
            },
            ResponseData::Error { error } => ResponseDataView::Error { error: error@ },
            ResponseData::Pong => ResponseDataView::Pong,
        }
    }
}

/// A reply of the master REPL.
#[derive(Debug)]
pub struct ReplResponse {
    pub id: String,
    pub data: ResponseData,
}

/// What a reply holds.
pub struct ReplResponseView {
    pub id: Seq<char>,
    pub data: ResponseDataView,
}

impl View for ReplResponse {
    type V = ReplResponseView;

    open spec fn view(&self) -> ReplResponseView {
        ReplResponseView { id: self.id@, data: self.data@ }
    }
}

/// Why a reply could not be understood.
#[derive(Debug, Clone, PartialEq, Eq)]
pub enum ResponseError {
    /// The text is no s-expression that can be read, for this reason.
    Syntax(String),
    /// The s-expression is no property list.
    NotAList,
    /// None of these keys of the property list tells what the reply is.
    UnknownFormat(Vec<String>),
}

/// What an error of a reply holds. The keys are in no order.
pub enum ResponseErrorView {
    Syntax(Seq<char>),
    NotAList,
    UnknownFormat(Set<Seq<char>>),
}

impl View for ResponseError {
    type V = ResponseErrorView;

    open spec fn view(&self) -> ResponseErrorView {
        match self {
            ResponseError::Syntax(reason) => ResponseErrorView::Syntax(reason@),
            ResponseError::NotAList => ResponseErrorView::NotAList,
            ResponseError::UnknownFormat(keys) => ResponseErrorView::UnknownFormat(
                text::texts(keys@).to_set(),
            ),
        }
    }
}

/// The message about a reply with these keys, as they are printed.
pub open spec fn unknown_format_text(printed: Seq<Seq<char>>) -> Seq<char> {
    "Unknown response format: ["@ + text::joined(printed, ", "@) + "]"@
}

/// The message about a reply with these keys, as they are printed.
pub fn unknown_format_message(printed: &Vec<String>) -> (r: String)
    ensures
        r@ == unknown_format_text(text::texts(printed@)),
{
    let mut out = "Unknown response format: [".to_string();
    out.append(text::join(printed, ", ").as_str());
    out.append("]");
    out
}

/// Each of the texts as it is printed for a programmer.
pub open spec fn debug_texts(v: Seq<Seq<char>>) -> Seq<Seq<char>> {
    v.map_values(|s: Seq<char>| text::debug_text(s))
}

fn debug_all(v: &Vec<String>) -> (r: Vec<String>)
    ensures
        text::texts(r@) == debug_texts(text::texts(v@)),
{
    let mut out: Vec<String> = Vec::new();
    let ghost all = debug_texts(text::texts(v@));
    for i in 0..v.len()
        invariant
            all == debug_texts(text::texts(v@)),
            out@.len() == i,
            forall|j: int| 0 <= j < i ==> (#[trigger] out@[j])@ == all[j],
    {
        assert(text::texts(v@)[i as int] == v@[i as int]@);
        out.push(text::debug(v[i].as_str()));
    }
    assert(text::texts(out@) =~= all);
    out
}

impl ResponseError {
    /// The message for the log.
    pub open spec fn text(&self) -> Seq<char> {
        match self {
            ResponseError::Syntax(reason) => "Failed to parse s-expression: "@ + reason@,
            ResponseError::NotAList => "Expected a property list"@,
            ResponseError::UnknownFormat(keys) => unknown_format_text(
                debug_texts(text::texts(keys@)),
            ),
        }
    }

    /// The message for the log.
    pub fn message(&self) -> (r: String)
        ensures
            r@ == self.text(),
    {
        match self {
            ResponseError::Syntax(reason) => {
                let mut out = "Failed to parse s-expression: ".to_string();
                out.append(reason.as_str());
                out
            },
            ResponseError::NotAList => "Expected a property list".to_string(),
            ResponseError::UnknownFormat(keys) => unknown_format_message(&debug_all(keys)),
        }
    }
}

// ---------------------------------------------------------------------------
// Reading replies

/// `s` without the colons at its beginning.
pub open spec fn without_colons(s: Seq<char>) -> Seq<char>
    decreases s.len(),
{
    if s.len() > 0 && s[0] == ':' {
        without_colons(s.skip(1))
    } else {
        s
    }
}

/// The key that an item of a property list stands for: the name of a keyword, or
/// of a symbol without the colons before it, in upper case.
pub open spec fn key_of(v: SexpView) -> Option<Seq<char>> {
    match v {
        SexpView::Keyword(s) => Some(text::uppercased(s)),
        SexpView::Symbol(s) => Some(text::uppercased(without_colons(s))),
        _ => None,
    }
}

/// The items of a list that ends in the empty list.
pub open spec fn items_of(v: SexpView) -> Option<Seq<SexpView>> {
    match v {
        SexpView::Null => Some(Seq::empty()),
        SexpView::List(l) => if l.dotted is None {
            Some(seq![*l.first] + l.others)
        } else {
            None
        },
        _ => None,
    }
}

/// The first `n` pairs of a property list as a map: each key with the item after
/// it, the last one where a key occurs again. A pair without a key does not count.
pub open spec fn pairs_map(items: Seq<SexpView>, n: nat) -> Map<Seq<char>, SexpView>
    decreases n,
{
    if n == 0 {
        Map::empty()
    } else {
        let before = pairs_map(items, (n - 1) as nat);
        match key_of(items[2 * n - 2]) {
            Some(key) => before.insert(key, items[2 * n - 1]),
            None => before,
        }
    }
}

/// The map that a property list stands for.
pub open spec fn plist(v: SexpView) -> Option<Map<Seq<char>, SexpView>> {
    match items_of(v) {
        Some(items) => Some(pairs_map(items, items.len() / 2)),
        None => None,
    }
}

/// The text that a value stands for; none for the values that mean nothing.
pub open spec fn value_text(v: SexpView) -> Option<Seq<char>> {
    match v {
        SexpView::Nil => None,
        SexpView::Null => None,
        SexpView::Symbol(s) => if text::same_ignoring_case(s, "nil"@) {
            None
        } else if text::same_ignoring_case(s, "t"@) {
            Some("T"@)
        } else {
            Some(s)
        },
        SexpView::Text(s) => Some(unescaped(s)),
        SexpView::Number(s) => Some(s),
        SexpView::Bool(b) => Some(if b { "T"@ } else { "#f"@ }),
        SexpView::Keyword(s) => Some("#:"@ + s),
        SexpView::Opaque(s) => Some(s),
        SexpView::List(l) => Some(l.text),
    }
}

/// The text that what follows the first item of a list stands for.
pub open spec fn rest_text(l: ListView) -> Option<Seq<char>> {
    if l.others.len() > 0 {
        Some(l.rest)
    } else {
        match l.dotted {
            Some(v) => value_text(*v),
            None => None,
        }
    }
}

/// The texts that the values stand for, without those that mean nothing.
pub open spec fn value_texts(items: Seq<SexpView>) -> Seq<Seq<char>>
    decreases items.len(),
{
    if items.len() == 0 {
        Seq::empty()
    } else {
        let before = value_texts(items.drop_last());
        match value_text(items.last()) {
            Some(s) => before.push(s),
            None => before,
        }
    }
}

/// The texts of a list of values; none where the value is no list.
pub open spec fn text_list(v: SexpView) -> Seq<Seq<char>> {
    match items_of(v) {
        Some(items) => value_texts(items),
        None => Seq::empty(),
    }
}

/// The text of the value of a key.
pub open spec fn text_at(m: Map<Seq<char>, SexpView>, key: Seq<char>) -> Option<Seq<char>> {
    if m.dom().contains(key) {
        value_text(m[key])
    } else {
        None
    }
}

/// A text, or the empty text where there is none.
pub open spec fn or_empty(o: Option<Seq<char>>) -> Seq<char> {
    match o {
        Some(s) => s,
        None => Seq::empty(),
    }
}

/// A text, where there is one that is not empty.
pub open spec fn non_empty(o: Option<Seq<char>>) -> Option<Seq<char>> {
    match o {
        Some(s) => if s.len() > 0 { o } else { None },
        None => None,
    }
}

/// The number that a text denotes, where there is a text that denotes one.
pub open spec fn number_at(o: Option<Seq<char>>) -> Option<u32> {
    match o {
        Some(s) => text::u32_value(s),
        None => None,
    }
}

/// The type of a parameter: a text that is neither empty nor `NIL`.
pub open spec fn type_of(o: Option<Seq<char>>) -> Option<Seq<char>> {
    match o {
        Some(s) => if s == "NIL"@ || s.len() == 0 { None } else { o },
        None => None,
    }
}

/// The parameters and their types that a list of pairs names.
pub open spec fn params(items: Seq<SexpView>) -> Seq<(Seq<char>, Option<Seq<char>>)>
    decreases items.len(),
{
    if items.len() == 0 {
        Seq::empty()
    } else {
        let before = params(items.drop_last());
        match items.last() {
            SexpView::List(l) => match value_text(*l.first) {
                Some(name) => before.push((name, type_of(rest_text(l)))),
                None => before,
            },
            _ => before,
        }
    }
}

/// The parameters and their types that a value names.
pub open spec fn param_types(v: SexpView) -> Option<Seq<(Seq<char>, Option<Seq<char>>)>> {
    if v is Nil {
        Some(Seq::empty())
    } else {
        match items_of(v) {
            Some(items) => Some(params(items)),
            None => None,
        }
    }
}

/// The description of a symbol that a property list gives.
pub open spec fn symbol_info(m: Map<Seq<char>, SexpView>) -> SymbolInfoView {
    SymbolInfoView {
        symbol: or_empty(text_at(m, "SYMBOL"@)),
        package: or_empty(text_at(m, "PACKAGE"@)),
        kind: or_empty(text_at(m, "KIND"@)),
        source: text_at(m, "SOURCE"@),
        doc: text_at(m, "DOC"@),
        param_types: if m.dom().contains("PARAM-TYPES"@) {
            param_types(m["PARAM-TYPES"@])
        } else {
            None
        },
        source_file: text_at(m, "SOURCE-FILE"@),
        source_line: number_at(text_at(m, "SOURCE-LINE"@)),
        source_character: number_at(text_at(m, "SOURCE-CHARACTER"@)),
    }
}

/// The descriptions that the property lists among the items give.
pub open spec fn symbol_infos(items: Seq<SexpView>) -> Seq<SymbolInfoView>
    decreases items.len(),
{
    if items.len() == 0 {
        Seq::empty()
    } else {
        let before = symbol_infos(items.drop_last());
        match plist(items.last()) {
            Some(m) => before.push(symbol_info(m)),
            None => before,
        }
    }
}

/// The descriptions in a list of property lists; none where the value is no list.
pub open spec fn symbol_list(v: SexpView) -> Seq<SymbolInfoView> {
    match items_of(v) {
        Some(items) => symbol_infos(items),
        None => Seq::empty(),
    }
}

/// The map that the pairs among the items stand for: the text of each first item
/// with the text of what follows it, where both are texts and the second is not
/// `NIL`, the last one where a text occurs again.
pub open spec fn pairs_texts(items: Seq<SexpView>) -> Map<Seq<char>, Seq<char>>
    decreases items.len(),
{
    if items.len() == 0 {
        Map::empty()
    } else {
        let before = pairs_texts(items.drop_last());
        match items.last() {
            SexpView::List(l) => match (value_text(*l.first), rest_text(l)) {
                (Some(key), Some(value)) => if value == "NIL"@ {
                    before
                } else {
                    before.insert(key, value)
                },
                _ => before,
            },
            _ => before,
        }
    }
}

/// The map that an association list stands for; empty where the value is no list.
pub open spec fn alist(v: SexpView) -> Map<Seq<char>, Seq<char>> {
    match items_of(v) {
        Some(items) => pairs_texts(items),
        None => Map::empty(),
    }
}

/// What is to be shown according to the property lists among the items.
pub open spec fn display_items(items: Seq<SexpView>) -> Seq<DisplayDataView>
    decreases items.len(),
{
    if items.len() == 0 {
        Seq::empty()
    } else {
        let before = display_items(items.drop_last());
        match plist(items.last()) {
            Some(m) => if m.dom().contains("DATA"@) {
                before.push(DisplayDataView { data: alist(m["DATA"@]), metadata: None })
            } else {
                before
            },
            None => before,
        }
    }
}

/// What is to be shown according to a value, where that is anything.
pub open spec fn displays(v: SexpView) -> Option<Seq<DisplayDataView>> {
    match items_of(v) {
        Some(items) => if display_items(items).len() == 0 {
            None
        } else {
            Some(display_items(items))
        },
        None => None,
    }
}

/// The data of the reply that a property list gives; none where no key tells what
/// the reply is.
pub open spec fn response_data(m: Map<Seq<char>, SexpView>) -> Option<ResponseDataView> {
    if m.dom().contains("PONG"@) || m.dom().contains("OK"@) {
        Some(ResponseDataView::Pong)
    } else if text_at(m, "ERROR"@) is Some && !m.dom().contains("OUTPUT"@) {
        Some(ResponseDataView::Error { error: text_at(m, "ERROR"@)->0 })
    } else if m.dom().contains("SYMBOL"@) {
        Some(ResponseDataView::SymbolInfo(symbol_info(m)))
    } else if m.dom().contains("SYMBOLS"@) {
        Some(ResponseDataView::SymbolList { symbols: symbol_list(m["SYMBOLS"@]) })
    } else if m.dom().contains("OUTPUT"@) || m.dom().contains("VALUES"@) {
        Some(
            ResponseDataView::EvalResult {
                output: or_empty(text_at(m, "OUTPUT"@)),
                values: if m.dom().contains("VALUES"@) {
                    text_list(m["VALUES"@])
                } else {
                    Seq::empty()
                },
                error: non_empty(text_at(m, "ERROR"@)),
                traceback: non_empty(text_at(m, "TRACEBACK"@)),
                displays: if m.dom().contains("DISPLAYS"@) {
                    displays(m["DISPLAYS"@])
                } else {
                    None
                },
            },
        )
    } else {
        None
    }
}

/// The reply that a property list gives to the request with the id `expected`.
pub open spec fn response_of(m: Map<Seq<char>, SexpView>, expected: Seq<char>) -> Result<
    ReplResponseView,
    ResponseErrorView,
> {
    let id = match text_at(m, "ID"@) {
        Some(id) => id,
        None => expected,
    };
    match response_data(m) {
        Some(data) => Ok(ReplResponseView { id, data }),
        None => Err(ResponseErrorView::UnknownFormat(m.dom())),
    }
}

/// The reply that an s-expression gives to the request with the id `expected`.
pub open spec fn response_of_value(v: SexpView, expected: Seq<char>) -> Result<
    ReplResponseView,
    ResponseErrorView,
> {
    match plist(v) {
        Some(m) => response_of(m, expected),
        None => Err(ResponseErrorView::NotAList),
    }
}

/// The reply that a text gives, once it is read as an s-expression.
pub open spec fn response_of_parsed(p: Result<SexpView, Seq<char>>, expected: Seq<char>) -> Result<
    ReplResponseView,
    ResponseErrorView,
> {
    match p {
        Ok(v) => response_of_value(v, expected),
        Err(reason) => Err(ResponseErrorView::Syntax(reason)),
    }
}

/// What the outcome of reading a reply holds.
pub open spec fn outcome_view(r: Result<ReplResponse, ResponseError>) -> Result<
    ReplResponseView,
    ResponseErrorView,
> {
    match r {
        Ok(response) => Ok(response@),
        Err(e) => Err(e@),
    }
}

/// What each of the s-expressions holds.
pub open spec fn ref_views(v: Seq<&Sexp>) -> Seq<SexpView> {
    v.map_values(|s: &Sexp| s@)
}

/// What each value of a table holds.
pub open spec fn table_views(t: Map<Seq<char>, &Sexp>) -> Map<Seq<char>, SexpView> {
    t.map_values(|s: &Sexp| s@)
}

/// The key that an item of a property list stands for.
pub fn keyword_name(value: &Sexp) -> (r: Option<String>)
    ensures
        text::text_opt(r) == key_of(value@),
{
    match value {
        Sexp::Keyword(s) => Some(text::to_uppercase(s.as_str())),
        Sexp::Symbol(s) => {
            let name = s.as_str();
            let x = text::chars_of(name);
            let mut i: usize = 0;
            assert(name@.skip(0) == name@);
            while i < x.len() && x[i] == ':'
                invariant
                    x@ == name@,
                    i <= x@.len(),
                    without_colons(name@) == without_colons(name@.skip(i as int)),
                decreases x@.len() - i,
            {
                assert(name@.skip(i as int).skip(1) == name@.skip(i + 1));
                i = i + 1;
            }
            Some(text::to_uppercase(text::tail(name, i).as_str()))
        },
        _ => None,
    }
}

/// The items of a list that ends in the empty list.
pub fn list_items<'a>(value: &'a Sexp) -> (r: Option<Vec<&'a Sexp>>)
    ensures
        match r {
            Some(v) => items_of(value@) == Some(ref_views(v@)),
            None => items_of(value@) is None,
        },
{
    match value {
        Sexp::Null => {
            let v: Vec<&Sexp> = Vec::new();
            assert(ref_views(v@) =~= Seq::<SexpView>::empty());
            Some(v)
        },
        Sexp::List(l) => {
            if l.dotted.is_some() {
                return None;
            }
            let mut v: Vec<&Sexp> = Vec::new();
            v.push(&*l.first);
            for i in 0..l.others.len()
                invariant
                    v@.len() == i + 1,
                    v@[0] == *l.first,
                    forall|j: int| 0 <= j < i ==> *(#[trigger] v@[j + 1]) == l.others@[j],
            {
                v.push(&l.others[i]);
            }
            assert(ref_views(v@) =~= seq![l.first@] + sexp::views(l.others@)) by {
                assert forall|j: int| 0 <= j < v@.len() implies #[trigger] ref_views(v@)[j] == (seq![
                    l.first@,
                ] + sexp::views(l.others@))[j] by {
                    if j > 0 {
                        assert(*v@[(j - 1) + 1] == l.others@[j - 1]);
                    }
                }
            }
            Some(v)
        },
        _ => None,
    }
}

/// The table that a property list stands for.
pub fn plist_map<'a>(value: &'a Sexp) -> (r: Option<Table<&'a Sexp>>)
    ensures
        match r {
            Some(t) => plist(value@) == Some(table_views(t@)),
            None => plist(value@) is None,
        },
{
    let items = match list_items(value) {
        Some(v) => v,
        None => return None,
    };
    let mut map: Table<&'a Sexp> = Table::new();
    let n: usize = items.len() / 2;
    assert(table_views(map@) =~= Map::<Seq<char>, SexpView>::empty());
    for i in 0..n
        invariant
            n == items.len() / 2,
            table_views(map@) == pairs_map(ref_views(items@), i as nat),
    {
        let ghost before = map@;
        match keyword_name(items[2 * i]) {
            Some(key) => {
                let ghost k = key@;
                map.insert(key, items[2 * i + 1]);
                assert(table_views(map@) =~= table_views(before).insert(
                    k,
                    items@[2 * i + 1]@,
                ));
            },
            None => {},
        }
    }
    Some(map)
}

/// The text that a value stands for.
pub fn value_as_string(value: &Sexp) -> (r: Option<String>)
    ensures
        text::text_opt(r) == value_text(value@),
{
    match value {
        Sexp::Nil => None,
        Sexp::Null => None,
        Sexp::Symbol(s) => {
            if text::eq_ignore_ascii_case(s.as_str(), "nil") {
                None
            } else if text::eq_ignore_ascii_case(s.as_str(), "t") {
                Some("T".to_string())
            } else {
                Some(s.clone())
            }
        },
        Sexp::Text(s) => Some(unescape_lisp_string(s.as_str())),
        Sexp::Number(s) => Some(s.clone()),
        Sexp::Bool(b) => {
            if *b {
                Some("T".to_string())
            } else {
                Some("#f".to_string())
            }
        },
        Sexp::Keyword(s) => {
            let mut out = "#:".to_string();
            out.append(s.as_str());
            Some(out)
        },
        Sexp::Opaque(s) => Some(s.clone()),
        Sexp::List(l) => Some(l.text.clone()),
    }
}

/// The text that what follows the first item of a list stands for.
pub fn rest_as_string(list: &List) -> (r: Option<String>)
    ensures
        text::text_opt(r) == rest_text(list@),
{
    if list.others.len() > 0 {
        return Some(list.rest.clone());
    }
    match &list.dotted {
        Some(v) => value_as_string(v),
        None => None,
    }
}

/// The texts of a list of values.
pub fn value_as_string_list(value: &Sexp) -> (r: Vec<String>)
    ensures
        text::texts(r@) == text_list(value@),
{
    let mut out: Vec<String> = Vec::new();
    assert(text::texts(out@) =~= Seq::<Seq<char>>::empty());
    if let Some(items) = list_items(value) {
        let ghost all = ref_views(items@);
        for i in 0..items.len()
            invariant
                all == ref_views(items@),
                text::texts(out@) == value_texts(all.take(i as int)),
        {
            let ghost before = out@;
            assert(all.take(i + 1).drop_last() == all.take(i as int));
            if let Some(s) = value_as_string(items[i]) {
                let ghost new = s@;
                out.push(s);
                assert(text::texts(out@) =~= text::texts(before).push(new));
            }
        }
        assert(all.take(items@.len() as int) == all);
    }
    out
}

/// The text of the value of a key.
pub fn text_field(map: &Table<&Sexp>, key: &str) -> (r: Option<String>)
    ensures
        text::text_opt(r) == text_at(table_views(map@), key@),
{
    match map.get(key) {
        Some(v) => value_as_string(v),
        None => None,
    }
}

fn string_or_empty(o: Option<String>) -> (r: String)
    ensures
        r@ == or_empty(text::text_opt(o)),
{
    match o {
        Some(s) => s,
        None => String::new(),
    }
}

fn drop_empty(o: Option<String>) -> (r: Option<String>)
    ensures
        text::text_opt(r) == non_empty(text::text_opt(o)),
{
    match o {
        Some(s) => if s.as_str().is_empty() {
            None
        } else {
            Some(s)
        },
        None => None,
    }
}

fn number_field(map: &Table<&Sexp>, key: &str) -> (r: Option<u32>)
    ensures
        r == number_at(text_at(table_views(map@), key@)),
{
    match text_field(map, key) {
        Some(s) => text::parse_u32(s.as_str()),
        None => None,
    }
}

/// The parameters and their types that a value names.
pub fn parse_param_types(value: &Sexp) -> (r: Option<Vec<(String, Option<String>)>>)
    ensures
        params_opt(r) == param_types(value@),
{
    let mut out: Vec<(String, Option<String>)> = Vec::new();
    assert(params_view(out@) =~= Seq::<(Seq<char>, Option<Seq<char>>)>::empty());
    if let Sexp::Nil = value {
        return Some(out);
    }
    let items = match list_items(value) {
        Some(v) => v,
        None => return None,
    };
    let ghost all = ref_views(items@);
    for i in 0..items.len()
        invariant
            all == ref_views(items@),
            params_view(out@) == params(all.take(i as int)),
    {
        let ghost before = out@;
        assert(all.take(i + 1).drop_last() == all.take(i as int));
        if let Sexp::List(l) = items[i] {
            let name = value_as_string(&*l.first);
            let kind = match rest_as_string(l) {
                Some(s) => if text::same_text(s.as_str(), "NIL") || s.as_str().is_empty() {
                    None
                } else {
                    Some(s)
                },
                None => None,
            };
            if let Some(name) = name {
                let ghost pair = (name@, text::text_opt(kind));
                out.push((name, kind));
                assert(params_view(out@) =~= params_view(before).push(pair));
            }
        }
    }
    assert(all.take(items@.len() as int) == all);
    Some(out)
}

/// The description of a symbol that a property list gives.
pub fn symbol_from_map(map: &Table<&Sexp>) -> (r: SymbolInfo)
    ensures
        r@ == symbol_info(table_views(map@)),
{
    let param_types = match map.get("PARAM-TYPES") {
        Some(v) => parse_param_types(v),
        None => None,
    };
    SymbolInfo {
        symbol: string_or_empty(text_field(map, "SYMBOL")),
        package: string_or_empty(text_field(map, "PACKAGE")),
        kind: string_or_empty(text_field(map, "KIND")),
        source: text_field(map, "SOURCE"),
        doc: text_field(map, "DOC"),
        param_types,
        source_file: text_field(map, "SOURCE-FILE"),
        source_line: number_field(map, "SOURCE-LINE"),
        source_character: number_field(map, "SOURCE-CHARACTER"),
    }
}

/// The descriptions in a list of property lists.
pub fn extract_symbol_list(value: &Sexp) -> (r: Vec<SymbolInfo>)
    ensures
        symbols_view(r@) == symbol_list(value@),
{
    let mut out: Vec<SymbolInfo> = Vec::new();
    assert(symbols_view(out@) =~= Seq::<SymbolInfoView>::empty());
    if let Some(items) = list_items(value) {
        let ghost all = ref_views(items@);
        for i in 0..items.len()
            invariant
                all == ref_views(items@),
                symbols_view(out@) == symbol_infos(all.take(i as int)),
        {
            let ghost before = out@;
            assert(all.take(i + 1).drop_last() == all.take(i as int));
            if let Some(map) = plist_map(items[i]) {
                let info = symbol_from_map(&map);
                let ghost new = info@;
                out.push(info);
                assert(symbols_view(out@) =~= symbols_view(before).push(new));
            }
        }
        assert(all.take(items@.len() as int) == all);
    }
    out
}

/// The table that an association list stands for.
pub fn parse_alist(value: &Sexp) -> (r: Table<String>)
    ensures
        r@.map_values(|s: String| s@) == alist(value@),
{
    let mut map: Table<String> = Table::new();
    assert(map@.map_values(|s: String| s@) =~= Map::<Seq<char>, Seq<char>>::empty());
    if let Some(items) = list_items(value) {
        let ghost all = ref_views(items@);
        for i in 0..items.len()
            invariant
                all == ref_views(items@),
                map@.map_values(|s: String| s@) == pairs_texts(all.take(i as int)),
        {
            let ghost before = map@;
            assert(all.take(i + 1).drop_last() == all.take(i as int));
            if let Sexp::List(l) = items[i] {
                if let Some(key) = value_as_string(&*l.first) {
                    if let Some(text) = rest_as_string(l) {
                        if !text::same_text(text.as_str(), "NIL") {
                            let ghost k = key@;
                            let ghost t = text@;
                            map.insert(key, text);
                            assert(map@.map_values(|s: String| s@) =~= before.map_values(
                                |s: String| s@,
                            ).insert(k, t));
                        }
                    }
                }
            }
        }
        assert(all.take(items@.len() as int) == all);
    }
    map
}

/// What is to be shown according to a value.
pub fn extract_displays(value: &Sexp) -> (r: Option<Vec<DisplayData>>)
    ensures
        displays_opt(r) == displays(value@),
{
    let items = match list_items(value) {
        Some(v) => v,
        None => return None,
    };
    let mut out: Vec<DisplayData> = Vec::new();
    assert(displays_view(out@) =~= Seq::<DisplayDataView>::empty());
    let ghost all = ref_views(items@);
    for i in 0..items.len()
        invariant
            all == ref_views(items@),
            displays_view(out@) == display_items(all.take(i as int)),
    {
        let ghost before = out@;
        assert(all.take(i + 1).drop_last() == all.take(i as int));
        if let Some(map) = plist_map(items[i]) {
            if let Some(data) = map.get("DATA") {
                let d = DisplayData { data: parse_alist(data), metadata: None };
                let ghost new = d@;
                out.push(d);
                assert(displays_view(out@) =~= displays_view(before).push(new));
            }
        }
    }
    assert(all.take(items@.len() as int) == all);
    if out.len() == 0 {
        None
    } else {
        Some(out)
    }
}

/// The data of the reply that a property list gives.
pub fn data_from_map(map: &Table<&Sexp>) -> (r: Option<ResponseData>)
    ensures
        match r {
            Some(d) => response_data(table_views(map@)) == Some(d@),
            None => response_data(table_views(map@)) is None,
        },
{
    if map.contains_key("PONG") || map.contains_key("OK") {
        return Some(ResponseData::Pong);
    }
    if let Some(error) = text_field(map, "ERROR") {
        if !map.contains_key("OUTPUT") {
            return Some(ResponseData::Error { error });
        }
    }
    if map.contains_key("SYMBOL") {
        return Some(ResponseData::SymbolInfo(symbol_from_map(map)));
    }
    if let Some(v) = map.get("SYMBOLS") {
        return Some(ResponseData::SymbolList { symbols: extract_symbol_list(v) });
    }
    if map.contains_key("OUTPUT") || map.contains_key("VALUES") {
        let values = match map.get("VALUES") {
            Some(v) => value_as_string_list(v),
            None => Vec::new(),
        };
        assert(!map@.dom().contains("VALUES"@) ==> text::texts(values@) =~= Seq::<
            Seq<char>,
        >::empty());
        let displays = match map.get("DISPLAYS") {
            Some(v) => extract_displays(v),
            None => None,
        };
        return Some(
            ResponseData::EvalResult {
                output: string_or_empty(text_field(map, "OUTPUT")),
                values,
                error: drop_empty(text_field(map, "ERROR")),
                traceback: drop_empty(text_field(map, "TRACEBACK")),
                displays,
            },
        );
    }
    None
}

impl ReplResponse {
    /// The reply that a property list gives to the request with the id `expected_id`.
    pub fn from_map(map: &Table<&Sexp>, expected_id: &str) -> (r: Result<
        ReplResponse,
        ResponseError,
    >)
        ensures
            outcome_view(r) == response_of(table_views(map@), expected_id@),
    {
        let id = match text_field(map, "ID") {
            Some(id) => id,
            None => expected_id.to_string(),
        };
        match data_from_map(map) {
            Some(data) => Ok(ReplResponse { id, data }),
            None => {
                let keys = map.keys();
                assert(table_views(map@).dom() =~= map@.dom());
                Err(ResponseError::UnknownFormat(keys))
            },
        }
    }

    /// The reply that an s-expression gives to the request with the id `expected_id`.
    pub fn from_value(value: &Sexp, expected_id: &str) -> (r: Result<ReplResponse, ResponseError>)
        ensures
            outcome_view(r) == response_of_value(value@, expected_id@),
    {
        match plist_map(value) {
            Some(map) => Self::from_map(&map, expected_id),
            None => Err(ResponseError::NotAList),
        }
    }

    /// The reply that a text gives to the request with the id `expected_id`.
    pub fn from_sexp(sexp: &str, expected_id: &str) -> (r: Result<ReplResponse, ResponseError>)
        ensures
            outcome_view(r) == response_of_parsed(sexp::read_from(sexp@), expected_id@),
    {
        match sexp::parse(sexp) {
            Ok(value) => Self::from_value(&value, expected_id),
            Err(reason) => Err(ResponseError::Syntax(reason)),
        }
    }
}

}
