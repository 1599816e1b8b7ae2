//! Snippets for calls of Lisp functions: the name of the function and a placeholder for
//! each parameter.

use crate::protocol;
use crate::text;
use vstd::prelude::*;
use vstd::string::*;

verus! {

/// The parameter list in the source of a function, such as `(defun foo (x y) ...)`,
/// without its parentheses: what stands between the first parenthesis after the one
/// that opens the source and the next one that closes.
pub open spec fn parameter_list(source: Seq<char>) -> Option<Seq<char>> {
    let s = text::trimmed(source);
    match text::char_position(s, '(') {
        Some(start) => {
            let body = s.skip(start + 1);
            if text::words(body).len() < 2 {
                None
            } else {
                match text::char_position(body, '(') {
                    Some(open) => {
                        let list = body.skip(open + 1);
                        match text::char_position(list, ')') {
                            Some(close) => Some(list.take(close)),
                            None => None,
                        }
                    },
                    None => None,
                }
            }
        },
        None => None,
    }
}

/// Whether a word of a parameter list is a lambda list keyword, such as `&rest`.
pub open spec fn is_marker(word: Seq<char>) -> bool {
    text::has_prefix(word, "&"@)
}

/// Whether `&key` is among the first `n` words.
pub open spec fn after_key(words: Seq<Seq<char>>, n: int) -> bool
    decreases n,
{
    n > 0 && (after_key(words, n - 1) || text::same_ignoring_case(words[n - 1], "&key"@))
}

/// The parameters among the first `n` words, each with whether it is given by keyword.
pub open spec fn parameters(words: Seq<Seq<char>>, n: int) -> Seq<(Seq<char>, bool)>
    decreases n,
{
    if n <= 0 {
        Seq::empty()
    } else if is_marker(words[n - 1]) {
        parameters(words, n - 1)
    } else {
        parameters(words, n - 1).push((words[n - 1], after_key(words, n - 1)))
    }
}

/// The type of the first parameter from `from` on that has this name, in upper or lower
/// case.
pub open spec fn type_from(
    types: Seq<(Seq<char>, Option<Seq<char>>)>,
    name: Seq<char>,
    from: int,
) -> Option<Seq<char>>
    decreases types.len() - from,
{
    if from < 0 || from >= types.len() {
        None
    } else if text::same_ignoring_case(types[from].0, name) {
        types[from].1
    } else {
        type_from(types, name, from + 1)
    }
}

/// Whether a parameter is known to be a string.
pub open spec fn is_string(
    types: Option<Seq<(Seq<char>, Option<Seq<char>>)>>,
    name: Seq<char>,
) -> bool {
    match types {
        Some(t) => match type_from(t, name, 0) {
            Some(kind) => text::has_part(text::uppercased(kind), "STRING"@),
            None => false,
        },
        None => false,
    }
}

/// The placeholder with this number for a parameter: after its keyword where it is given
/// by keyword, and in quotes where it is a string.
pub open spec fn placeholder(number: nat, name: Seq<char>, by_key: bool, quoted: bool) -> Seq<char> {
    let lower = text::lowercased(name);
    let quote = if quoted {
        "\""@
    } else {
        Seq::empty()
    };
    (if by_key {
        " :"@ + lower + " "@
    } else {
        " "@
    }) + quote + "${"@ + text::decimal(number) + ":"@ + lower + "}"@ + quote
}

/// The placeholders for the first `n` parameters.
pub open spec fn placeholders(
    params: Seq<(Seq<char>, bool)>,
    types: Option<Seq<(Seq<char>, Option<Seq<char>>)>>,
    n: int,
) -> Seq<char>
    decreases n,
{
    if n <= 0 {
        Seq::empty()
    } else {
        placeholders(params, types, n - 1) + placeholder(
            n as nat,
            params[n - 1].0,
            params[n - 1].1,
            is_string(types, params[n - 1].0),
        )
    }
}

/// The snippet for a call of a function with the parameters in the text `list`. Inside a
/// parenthesis it closes it.
pub open spec fn call_snippet(
    symbol: Seq<char>,
    list: Seq<char>,
    inside_paren: bool,
    types: Option<Seq<(Seq<char>, Option<Seq<char>>)>>,
) -> Seq<char> {
    let lower = text::lowercased(symbol);
    let words = text::words(list);
    let params = parameters(words, words.len() as int);
    if text::trimmed(list).len() == 0 || text::uppercased(text::trimmed(list)) == "NIL"@
        || params.len() == 0 {
        if inside_paren {
            lower + "$0)"@
        } else {
            lower
        }
    } else {
        lower + placeholders(params, types, params.len() as int) + (if inside_paren {
            "$0)"@
        } else {
            "$0"@
        })
    }
}

/// The snippet for a call of a function with this source, where that has a parameter
/// list.
pub open spec fn function_snippet(
    symbol: Seq<char>,
    source: Seq<char>,
    inside_paren: bool,
    types: Option<Seq<(Seq<char>, Option<Seq<char>>)>>,
) -> Option<Seq<char>> {
    match parameter_list(source) {
        Some(list) => Some(call_snippet(symbol, list, inside_paren, types)),
        None => None,
    }
}

/// The parameter list in the source of a function.
pub fn find_parameter_list(source: &str) -> (r: Option<String>)
    ensures
        text::text_opt(r) == parameter_list(source@),
{
    let s = text::trim(source);
    let start: usize = match text::find_char(s.as_str(), '(') {
        Some(i) => i,
        None => return None,
    };
    let body = text::tail(s.as_str(), start + 1);
    let words = text::split_whitespace(body.as_str());
    assert(text::texts(words@).len() == words@.len());
    if words.len() < 2 {
        return None;
    }
    let open: usize = match text::find_char(body.as_str(), '(') {
        Some(i) => i,
        None => return None,
    };
    let list = text::tail(body.as_str(), open + 1);
    match text::find_char(list.as_str(), ')') {
        Some(close) => Some(text::head(list.as_str(), close)),
        None => None,
    }
}

/// What each of the parameters holds.
pub open spec fn param_views(v: Seq<(String, bool)>) -> Seq<(Seq<char>, bool)> {
    v.map_values(|p: (String, bool)| (p.0@, p.1))
}

/// The parameters in a parameter list, each with whether it is given by keyword.
pub fn parse_parameters(list: &str) -> (r: Vec<(String, bool)>)
    ensures
        param_views(r@) == parameters(text::words(list@), text::words(list@).len() as int),
{
    let tokens = text::split_whitespace(list);
    let ghost words = text::texts(tokens@);
    let mut out: Vec<(String, bool)> = Vec::new();
    let mut by_key = false;
    assert(param_views(out@) =~= parameters(words, 0));
    for i in 0..tokens.len()
        invariant
            words == text::texts(tokens@),
            by_key == after_key(words, i as int),
            param_views(out@) == parameters(words, i as int),
    {
        let ghost before = out@;
        assert(words[i as int] == tokens@[i as int]@);
        if text::starts_with(tokens[i].as_str(), "&") {
            if text::eq_ignore_ascii_case(tokens[i].as_str(), "&key") {
                by_key = true;
            }
        } else {
            out.push((tokens[i].clone(), by_key));
            assert(param_views(out@) =~= param_views(before).push(
                (words[i as int], by_key),
            ));
            proof {
                key_is_marker(words[i as int]);
            }
        }
    }
    out
}

/// `&key` is a lambda list keyword.
proof fn key_is_marker(word: Seq<char>)
    ensures
        text::same_ignoring_case(word, "&key"@) ==> is_marker(word),
{
    reveal_strlit("&key");
    reveal_strlit("&");
    if text::same_ignoring_case(word, "&key"@) {
        let a = word.map_values(|c: char| text::ascii_lower(c));
        let b = "&key"@.map_values(|c: char| text::ascii_lower(c));
        assert(a.len() == word.len() && b.len() == 4);
        assert(a[0] == b[0]);
        assert(text::ascii_lower(word[0]) == '&');
        assert(word[0] == '&');
        assert(word.take(1) =~= "&"@);
    }
}

/// Whether a parameter is known to be a string.
pub fn needs_quotes(types: Option<&Vec<(String, Option<String>)>>, name: &str) -> (r: bool)
    ensures
        r == is_string(
            match types {
                Some(v) => Some(protocol::params_view(v@)),
                None => None,
            },
            name@,
        ),
{
    let known = match types {
        Some(t) => t,
        None => return false,
    };
    let ghost all = protocol::params_view(known@);
    let mut i: usize = 0;
    while i < known.len()
        invariant
            types == Some(known),
            all == protocol::params_view(known@),
            i <= known@.len(),
            type_from(all, name@, 0) == type_from(all, name@, i as int),
        decreases known@.len() - i,
    {
        assert(all[i as int] == (known@[i as int].0@, text::text_opt(known@[i as int].1)));
        if text::eq_ignore_ascii_case(known[i].0.as_str(), name) {
            assert(type_from(all, name@, 0) == text::text_opt(known@[i as int].1));
            return match &known[i].1 {
                Some(kind) => {
                    let upper = text::to_uppercase(kind.as_str());
                    text::contains(upper.as_str(), "STRING")
                },
                None => false,
            };
        }
        i = i + 1;
    }
    false
}

/// The placeholder with this number for a parameter.
pub fn placeholder_text(number: u64, name: &str, by_key: bool, quoted: bool) -> (r: String)
    ensures
        r@ == placeholder(number as nat, name@, by_key, quoted),
{
    let lower = text::to_lowercase(name);
    let mut out = String::new();
    if by_key {
        out.append(" :");
        out.append(lower.as_str());
        out.append(" ");
    } else {
        out.append(" ");
    }
    if quoted {
        out.append("\"");
    }
    out.append("${");
    out.append(text::number_text(number).as_str());
    out.append(":");
    out.append(lower.as_str());
    out.append("}");
    if quoted {
        out.append("\"");
    }
    assert(out@ =~= placeholder(number as nat, name@, by_key, quoted));
    out
}

/// The snippet for a call of the function `symbol` with this source. Inside a parenthesis
/// it closes it. The types of parameters, where they are known, say which of them are
/// strings.
pub fn create_function_snippet(
    symbol: &str,
    source: &str,
    inside_paren: bool,
    param_types: Option<&Vec<(String, Option<String>)>>,
) -> (r: Option<String>)
    ensures
        text::text_opt(r) == function_snippet(
            symbol@,
            source@,
            inside_paren,
            match param_types {
                Some(v) => Some(protocol::params_view(v@)),
                None => None,
            },
        ),
{
    let ghost types = match param_types {
        Some(v) => Some(protocol::params_view(v@)),
        None => None,
    };
    let list = match find_parameter_list(source) {
        Some(l) => l,
        None => return None,
    };
    let inner = text::trim(list.as_str());
    let params = parse_parameters(list.as_str());
    let ghost views = param_views(params@);
    let mut snippet = text::to_lowercase(symbol);
    if inner.as_str().is_empty() || text::same_text(
        text::to_uppercase(inner.as_str()).as_str(),
        "NIL",
    ) || params.len() == 0 {
        if inside_paren {
            snippet.append("$0)");
        }
        return Some(snippet);
    }
    let ghost lower = snippet@;
    assert(snippet@ =~= lower + placeholders(views, types, 0));
    for i in 0..params.len()
        invariant
            views == param_views(params@),
            types == (match param_types {
                Some(v) => Some(protocol::params_view(v@)),
                None => None,
            }),
            snippet@ == lower + placeholders(views, types, i as int),
    {
        assert(views[i as int] == (params@[i as int].0@, params@[i as int].1));
        let quotes = needs_quotes(param_types, params[i].0.as_str());
        let next = placeholder_text(i as u64 + 1, params[i].0.as_str(), params[i].1, quotes);
        snippet.append(next.as_str());
        assert(snippet@ =~= lower + placeholders(views, types, i + 1));
    }
    if inside_paren {
        snippet.append("$0)");
    } else {
        snippet.append("$0");
    }
    assert(snippet@ =~= call_snippet(symbol@, list@, inside_paren, types));
    Some(snippet)
}

}
