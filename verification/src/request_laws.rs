//! What a request to the master REPL says, as it is written.

use crate::protocol;
use crate::protocol::ReplRequest;
use crate::text;
use crate::tokens;
use vstd::prelude::*;
use vstd::string::*;

verus! {

/// A text in quotes is one string, whatever the text holds and whatever follows it: no quote in
/// it closes the string.
pub proof fn quoted_text_is_one_string(s: Seq<char>, rest: Seq<char>)
    ensures
        protocol::quoted(s).len() >= 2,
        protocol::quoted(s)[0] == '"',
        tokens::string_end(protocol::quoted(s) + rest, 1) == protocol::quoted(s).len(),
        protocol::unescaped(protocol::quoted(s).subrange(1, protocol::quoted(s).len() - 1)) == s,
{
    reveal_strlit("\"");
    let q = protocol::quoted(s);
    let e = protocol::escaped(s);
    assert(q.subrange(1, q.len() - 1) =~= e);
    protocol::unescape_undoes_escape(s);
    string_goes_on(seq!['"'], s, seq!['"'] + rest);
    assert(seq!['"'] + e + (seq!['"'] + rest) =~= q + rest);
    assert((q + rest)[1 + e.len() as int] == '"');
}

proof fn string_goes_on(before: Seq<char>, s: Seq<char>, after: Seq<char>)
    ensures
        tokens::string_end(before + protocol::escaped(s) + after, before.len() as int)
            == tokens::string_end(
            before + protocol::escaped(s) + after,
            before.len() + protocol::escaped(s).len() as int,
        ),
    decreases s.len(),
{
    let all = before + protocol::escaped(s) + after;
    if s.len() > 0 {
        let rest = protocol::escaped(s.skip(1));
        let n = before.len() as int;
        if s[0] == '\\' || s[0] == '"' {
            let head = before.push('\\').push(s[0]);
            assert(protocol::escaped(s) =~= seq!['\\', s[0]] + rest);
            assert(all =~= head + rest + after);
            string_goes_on(head, s.skip(1), after);
            assert(all[n] == '\\');
        } else {
            let head = before.push(s[0]);
            assert(protocol::escaped(s) =~= seq![s[0]] + rest);
            assert(all =~= head + rest + after);
            string_goes_on(head, s.skip(1), after);
            assert(all[n] == s[0]);
        }
    }
}

/// An optional part of a request: a space, its key, and its value in quotes.
pub open spec fn part(key: Seq<char>, value: Option<Seq<char>>) -> Seq<char> {
    match value {
        Some(v) => " "@ + key + " "@ + protocol::quoted(v),
        None => Seq::empty(),
    }
}

/// A request as it is written: its type, its id, and its parts in order, in parentheses.
pub open spec fn request_with(kind: Seq<char>, id: Seq<char>, parts: Seq<char>) -> Seq<char> {
    "(:type "@ + protocol::quoted(kind) + " :id "@ + protocol::quoted(id) + parts + ")"@
}

/// Every request is written with its own type and its own parts, each under its own key.
pub proof fn requests_are_written(request: ReplRequest)
    ensures
        request.sexp_text() == (match request {
            ReplRequest::SymbolInfo { id, symbol, package } => request_with(
                "symbol-info"@,
                id@,
                part(":symbol"@, Some(symbol@)) + part(":package"@, text::text_opt(package)),
            ),
            ReplRequest::ListSymbols { id, prefix, package } => request_with(
                "list-symbols"@,
                id@,
                part(":prefix"@, text::text_opt(prefix)) + part(
                    ":package"@,
                    text::text_opt(package),
                ),
            ),
            ReplRequest::Eval { id, code, package, file_path } => request_with(
                "eval"@,
                id@,
                part(":code"@, Some(code@)) + part(":package"@, text::text_opt(package)) + part(
                    ":file-path"@,
                    text::text_opt(file_path),
                ),
            ),
            ReplRequest::LoadFile { id, path } => request_with(
                "load-file"@,
                id@,
                part(":path"@, Some(path@)),
            ),
            ReplRequest::SetCurrentFile { id, path, contents } => request_with(
                "set-current-file"@,
                id@,
                part(":path"@, Some(path@)) + part(":contents"@, text::text_opt(contents)),
            ),
            ReplRequest::Ping { id } => request_with("ping"@, id@, Seq::empty()),
        }),
{
    match request {
        ReplRequest::SymbolInfo { .. } => {
            symbol_info_is_written(request);
        },
        ReplRequest::ListSymbols { .. } => {
            list_symbols_is_written(request);
        },
        ReplRequest::Eval { .. } => {
            eval_is_written(request);
        },
        ReplRequest::LoadFile { .. } => {
            load_file_is_written(request);
        },
        ReplRequest::SetCurrentFile { .. } => {
            set_current_file_is_written(request);
        },
        ReplRequest::Ping { .. } => {
            ping_is_written(request);
        },
    }
}

proof fn symbol_info_is_written(request: ReplRequest)
    requires
        request is SymbolInfo,
    ensures
        request.sexp_text() == (match request {
            ReplRequest::SymbolInfo { id, symbol, package } => request_with(
            "symbol-info"@,
            id@,
            part(":symbol"@, Some(symbol@)) + part(":package"@, text::text_opt(package)),
        ),
            _ => request.sexp_text(),
        }),
{
    match request {
        ReplRequest::SymbolInfo { id, symbol, package } => {
            let v = beginning("symbol-info"@, id@);
            add_part(v, ":symbol"@, symbol);
            add_optional(v.push(protocol::field(":symbol"@, symbol@)), ":package"@, package);
            assert(v.push(protocol::field(":symbol"@, symbol@)) + protocol::optional_field(
                ":package"@,
                package,
            ) =~= request.fields());
            let parts = part(":symbol"@, Some(symbol@)) + part(":package"@, text::text_opt(package));
            assert(text::joined(request.fields(), " "@) =~= text::joined(v, " "@) + parts);
            assembled(request.fields(), "symbol-info"@, id@, parts);
        },
        _ => {},
    }
}

proof fn list_symbols_is_written(request: ReplRequest)
    requires
        request is ListSymbols,
    ensures
        request.sexp_text() == (match request {
            ReplRequest::ListSymbols { id, prefix, package } => request_with(
            "list-symbols"@,
            id@,
            part(":prefix"@, text::text_opt(prefix)) + part(
                ":package"@,
                text::text_opt(package),
            ),
        ),
            _ => request.sexp_text(),
        }),
{
    match request {
        ReplRequest::ListSymbols { id, prefix, package } => {
            let v = beginning("list-symbols"@, id@);
            add_optional(v, ":prefix"@, prefix);
            let w = v + protocol::optional_field(":prefix"@, prefix);
            add_optional(w, ":package"@, package);
            assert(w + protocol::optional_field(":package"@, package) =~= request.fields());
            let parts = part(":prefix"@, text::text_opt(prefix)) + part(
                ":package"@,
                text::text_opt(package),
            );
            assert(text::joined(request.fields(), " "@) =~= text::joined(v, " "@) + parts);
            assembled(request.fields(), "list-symbols"@, id@, parts);
        },
        _ => {},
    }
}

proof fn eval_is_written(request: ReplRequest)
    requires
        request is Eval,
    ensures
        request.sexp_text() == (match request {
            ReplRequest::Eval { id, code, package, file_path } => request_with(
            "eval"@,
            id@,
            part(":code"@, Some(code@)) + part(":package"@, text::text_opt(package)) + part(
                ":file-path"@,
                text::text_opt(file_path),
            ),
        ),
            _ => request.sexp_text(),
        }),
{
    match request {
        ReplRequest::Eval { id, code, package, file_path } => {
            let v = beginning("eval"@, id@);
            add_part(v, ":code"@, code);
            let w = v.push(protocol::field(":code"@, code@));
            add_optional(w, ":package"@, package);
            let x = w + protocol::optional_field(":package"@, package);
            add_optional(x, ":file-path"@, file_path);
            assert(x + protocol::optional_field(":file-path"@, file_path) =~= request.fields());
            let parts = part(":code"@, Some(code@)) + part(":package"@, text::text_opt(package))
                + part(":file-path"@, text::text_opt(file_path));
            assert(text::joined(request.fields(), " "@) =~= text::joined(v, " "@) + parts);
            assembled(request.fields(), "eval"@, id@, parts);
        },
        _ => {},
    }
}

proof fn load_file_is_written(request: ReplRequest)
    requires
        request is LoadFile,
    ensures
        request.sexp_text() == (match request {
            ReplRequest::LoadFile { id, path } => request_with(
            "load-file"@,
            id@,
            part(":path"@, Some(path@)),
        ),
            _ => request.sexp_text(),
        }),
{
    match request {
        ReplRequest::LoadFile { id, path } => {
            let v = beginning("load-file"@, id@);
            add_part(v, ":path"@, path);
            assert(v.push(protocol::field(":path"@, path@)) =~= request.fields());
            assembled(request.fields(), "load-file"@, id@, part(":path"@, Some(path@)));
        },
        _ => {},
    }
}

proof fn set_current_file_is_written(request: ReplRequest)
    requires
        request is SetCurrentFile,
    ensures
        request.sexp_text() == (match request {
            ReplRequest::SetCurrentFile { id, path, contents } => request_with(
            "set-current-file"@,
            id@,
            part(":path"@, Some(path@)) + part(":contents"@, text::text_opt(contents)),
        ),
            _ => request.sexp_text(),
        }),
{
    match request {
        ReplRequest::SetCurrentFile { id, path, contents } => {
            let v = beginning("set-current-file"@, id@);
            add_part(v, ":path"@, path);
            let w = v.push(protocol::field(":path"@, path@));
            add_optional(w, ":contents"@, contents);
            assert(w + protocol::optional_field(":contents"@, contents) =~= request.fields());
            let parts = part(":path"@, Some(path@)) + part(":contents"@, text::text_opt(contents));
            assert(text::joined(request.fields(), " "@) =~= text::joined(v, " "@) + parts);
            assembled(request.fields(), "set-current-file"@, id@, parts);
        },
        _ => {},
    }
}

proof fn ping_is_written(request: ReplRequest)
    requires
        request is Ping,
    ensures
        request.sexp_text() == (match request {
            ReplRequest::Ping { id } => request_with("ping"@, id@, Seq::empty()),
            _ => request.sexp_text(),
        }),
{
    match request {
        ReplRequest::Ping { id } => {
            let v = beginning("ping"@, id@);
            assert(v =~= request.fields());
            assert(text::joined(v, " "@) + Seq::<char>::empty() =~= text::joined(v, " "@));
            assembled(request.fields(), "ping"@, id@, Seq::empty());
        },
        _ => {},
    }
}

proof fn assembled(fields: Seq<Seq<char>>, kind: Seq<char>, id: Seq<char>, parts: Seq<char>)
    requires
        text::joined(fields, " "@) == text::joined(beginning(kind, id), " "@) + parts,
    ensures
        "("@ + text::joined(fields, " "@) + ")"@ == request_with(kind, id, parts),
{
    reveal_strlit("(:type ");
    reveal_strlit("(");
    reveal_strlit(":type");
    reveal_strlit(" ");
    reveal_strlit(" :id ");
    reveal_strlit(":id");
    assert("(:type "@ =~= "("@ + ":type"@ + " "@);
    assert(" :id "@ =~= " "@ + ":id"@ + " "@);
    let v = beginning(kind, id);
    assert(v.drop_last().len() == 1);
    assert(text::joined(v.drop_last(), " "@) == v[0]);
    assert("("@ + text::joined(v, " "@) =~= "(:type "@ + protocol::quoted(kind) + " :id "@
        + protocol::quoted(id));
    assert("("@ + text::joined(fields, " "@) + ")"@ =~= request_with(kind, id, parts));
}

spec fn beginning(kind: Seq<char>, id: Seq<char>) -> Seq<Seq<char>> {
    seq![protocol::field(":type"@, kind), protocol::field(":id"@, id)]
}

proof fn add_part(v: Seq<Seq<char>>, key: Seq<char>, value: String)
    requires
        v.len() > 0,
    ensures
        text::joined(v.push(protocol::field(key, value@)), " "@) == text::joined(v, " "@) + part(
            key,
            Some(value@),
        ),
{
    let w = v.push(protocol::field(key, value@));
    assert(w.drop_last() =~= v);
    assert(text::joined(w, " "@) =~= text::joined(v, " "@) + part(key, Some(value@)));
}

proof fn add_optional(v: Seq<Seq<char>>, key: Seq<char>, value: Option<String>)
    requires
        v.len() > 0,
    ensures
        text::joined(v + protocol::optional_field(key, value), " "@) == text::joined(v, " "@)
            + part(key, text::text_opt(value)),
{
    match value {
        Some(s) => {
            assert(v + protocol::optional_field(key, value) =~= v.push(protocol::field(key, s@)));
            add_part(v, key, s);
        },
        None => {
            assert(v + protocol::optional_field(key, value) =~= v);
            assert(text::joined(v, " "@) + part(key, None) =~= text::joined(v, " "@));
        },
    }
}

/// A prefix with a package and one or two colons is split at the colons; without a package it is
/// that of a keyword; without colons there is no package.
pub proof fn prefixes_are_split(package: Seq<char>, symbol: Seq<char>)
    requires
        !package.contains(':'),
        !symbol.contains(':'),
    ensures
        ({
            let named = Some(if package.len() == 0 {
                "KEYWORD"@
            } else {
                package
            });
            &&& protocol::completion_prefix(package + ":"@ + symbol) == (named, symbol)
            &&& protocol::completion_prefix(package + "::"@ + symbol) == (named, symbol)
            &&& protocol::completion_prefix(symbol) == (None::<Seq<char>>, symbol)
        }),
{
    reveal_strlit(":");
    reveal_strlit("::");
    let n = package.len() as int;
    let one = package + ":"@ + symbol;
    let two = package + "::"@ + symbol;
    assert forall|i: int| 0 <= i < one.len() implies (one[i] == ':') == (i == n) by {
        if i < n {
            assert(package.contains(package[i]));
        } else if i > n {
            assert(symbol.contains(symbol[i - n - 1]));
        }
    }
    assert forall|i: int| 0 <= i < two.len() implies (two[i] == ':') == (i == n || i == n + 1) by {
        if i < n {
            assert(package.contains(package[i]));
        } else if i > n + 1 {
            assert(symbol.contains(symbol[i - n - 2]));
        }
    }
    assert forall|i: int| 0 <= i < symbol.len() implies symbol[i] != ':' by {
        assert(symbol.contains(symbol[i]));
    }
    no_double_colon(one, n);
    no_double_colon(symbol, -1);
    text::position_is_first(one, "::"@, 0);
    text::position_is_first(two, "::"@, 0);
    text::position_is_first(symbol, "::"@, 0);
    text::char_position_is_first(one, ':', 0);
    text::char_position_is_first(symbol, ':', 0);
    assert(two.subrange(n, n + 2) =~= "::"@);
    assert(text::occurs_at(two, "::"@, n));
    match text::position_of(two, "::"@) {
        Some(i) => {
            assert(two.subrange(i, i + 2)[0] == two[i]);
            assert(two.subrange(i, i + 2)[1] == two[i + 1]);
            assert(i == n);
        },
        None => {},
    }
    assert(one[n] == ':');
    assert(one.take(n) =~= package);
    assert(one.skip(n + 1) =~= symbol);
    assert(two.take(n) =~= package);
    assert(two.skip(n + 2) =~= symbol);
}

/// Where there is a colon at most at `n`, there are no two.
proof fn no_double_colon(s: Seq<char>, n: int)
    requires
        forall|i: int| 0 <= i < s.len() && s[i] == ':' ==> i == n,
    ensures
        forall|i: int| !text::occurs_at(s, "::"@, i),
{
    reveal_strlit("::");
    assert forall|i: int| !text::occurs_at(s, "::"@, i) by {
        if text::occurs_at(s, "::"@, i) {
            assert(s.subrange(i, i + 2)[0] == s[i]);
            assert(s.subrange(i, i + 2)[1] == s[i + 1]);
        }
    }
}


/// What a string holds is no number: a text in quotes can always be read.
pub proof fn strings_hold_no_numbers(s: Seq<char>)
    ensures
        tokens::exponents_fit(protocol::quoted(s)),
{
    let q = protocol::quoted(s);
    let empty = Seq::<char>::empty();
    quoted_text_is_one_string(s, empty);
    assert(q + empty =~= q);
    assert(q[0] == '"');
}

}
