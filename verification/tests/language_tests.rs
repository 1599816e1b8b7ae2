use zed_cl::completion::{
    completion, completion_items, completion_query, completion_request, matching_packages,
    parse_fqn_prefix, place_fits, CompletionQuery, ItemKind,
};
use zed_cl::definition::{
    find_definition, goto_definition, goto_step, is_system_lisp_path, Finding, Goto, Location,
    SourcePlace,
};
use zed_cl::document::{Position, Range};
use zed_cl::documentation::{
    classify_line, format_documentation, format_inline_syntax, format_line, render_line, tidy, Line,
};
use zed_cl::hover::{hover, hover_from_buffer, render_symbol};
use zed_cl::protocol::{ReplRequest, ResponseData, SymbolInfo};
use zed_cl::snippet::{create_function_snippet, find_parameter_list, parse_parameters};

fn at(line: u32, character: u32) -> Position {
    Position { line, character }
}

fn symbol(name: &str, package: &str, kind: &str, source: Option<&str>) -> SymbolInfo {
    SymbolInfo {
        symbol: name.to_string(),
        package: package.to_string(),
        kind: kind.to_string(),
        source: source.map(|s| s.to_string()),
        doc: None,
        param_types: None,
        source_file: None,
        source_line: None,
        source_character: None,
    }
}

// Documentation

#[test]
fn lisp_syntax_is_marked() {
    assert_eq!(
        format_inline_syntax("Binds {var}* and [init] with &rest."),
        "Binds `{var}*` and `[init]` with `&rest`."
    );
    assert_eq!(format_inline_syntax("plain"), "plain");
    assert_eq!(format_inline_syntax("x *]) The next"), "x *])\n\nThe next");
    assert_eq!(
        format_inline_syntax("The complete syntax of a lambda-list is: (a *]) The end"),
        "The complete syntax of a lambda-list is:\n\n```lisp\n(a *])\n```\n\nThe end"
    );
}

#[test]
fn lines_are_told_apart() {
    match classify_line("See Valid Options: (a)") {
        Line::Header { before, header, after } => {
            assert_eq!(before, "See ");
            assert_eq!(header, "Valid Options:");
            assert_eq!(after, "(a)");
        }
        other => panic!("unexpected {other:?}"),
    }
    assert!(matches!(classify_line("Options:"), Line::Header { header, .. } if header == "Options:"));
    assert!(matches!(classify_line(""), Line::Blank));
    assert!(matches!(classify_line("~A prints"), Line::Directive(_)));
    let long = format!("~{}", "a".repeat(49));
    assert!(matches!(classify_line(&long), Line::Plain(_)));
    assert!(matches!(classify_line("(a b)*"), Line::Form(_)));
    assert!(matches!(classify_line("(a b) c"), Line::Plain(_)));
}

#[test]
fn lines_become_markdown() {
    let header = classify_line("a Syntax: b");
    assert_eq!(render_line(&header, "X", "Y"), "X **Syntax:** Y\n\n");
    let form = classify_line("Syntax: (b)");
    assert_eq!(render_line(&form, "X", "Y"), "**Syntax:** `(b)`\n\n");
    assert_eq!(format_line("  ~% newline "), "- `~% newline`\n");
    assert_eq!(format_line(" (f x) "), "- `(f x)`\n");
    assert_eq!(format_line("\t"), "\n");
    assert_eq!(format_line("text"), "text\n");
}

#[test]
fn gaps_are_closed() {
    assert_eq!(tidy("\na\n\n\n\n\nb\n\nc\n"), "a\n\nb\n\nc");
    assert_eq!(tidy("\n\n\n"), "");
}

#[test]
fn documentation_becomes_markdown() {
    assert_eq!(
        format_documentation("Opens.\n\n\n\nOptions: {k}\n~~A\n(open x)"),
        "Opens.\n\n**Options:** ``{k}``\n\n- `~A`\n- `(open x)`"
    );
}

// Snippets

#[test]
fn parameter_lists_are_found() {
    assert_eq!(find_parameter_list(" (defun foo (x y) z)").unwrap(), "x y");
    assert_eq!(find_parameter_list("(defun foo)"), None);
    assert_eq!(find_parameter_list("foo"), None);
    assert_eq!(find_parameter_list("(x)"), None);
    assert_eq!(find_parameter_list("(defun foo (x"), None);
    assert_eq!(
        parse_parameters("a &optional b &KEY c &aux d"),
        vec![
            ("a".to_string(), false),
            ("b".to_string(), false),
            ("c".to_string(), true),
            ("d".to_string(), true),
        ]
    );
}

#[test]
fn snippets_have_placeholders() {
    let source = "(defun FOO (NAME &key COUNT) ...)";
    let types = vec![
        ("name".to_string(), Some("simple-string".to_string())),
        ("COUNT".to_string(), None),
    ];
    assert_eq!(
        create_function_snippet("FOO", source, true, Some(&types)).unwrap(),
        "foo \"${1:name}\" :count ${2:count}$0)"
    );
    assert_eq!(
        create_function_snippet("FOO", source, false, None).unwrap(),
        "foo ${1:name} :count ${2:count}$0"
    );
    let keyed = vec![("count".to_string(), Some("STRING".to_string()))];
    assert_eq!(
        create_function_snippet("FOO", source, false, Some(&keyed)).unwrap(),
        "foo ${1:name} :count \"${2:count}\"$0"
    );
}

#[test]
fn snippets_without_parameters() {
    assert_eq!(create_function_snippet("F", "(defun f ())", true, None).unwrap(), "f$0)");
    assert_eq!(create_function_snippet("F", "(defun f ( nil ))", false, None).unwrap(), "f");
    assert_eq!(create_function_snippet("F", "(defun f (&rest))", true, None).unwrap(), "f$0)");
    assert_eq!(create_function_snippet("F", "(defun)", true, None), None);
}

// Completion

#[test]
fn prefixes_are_split() {
    assert_eq!(
        parse_fqn_prefix("MY-APP:GET-"),
        (Some("MY-APP".to_string()), Some("GET-".to_string()), true)
    );
    assert_eq!(
        parse_fqn_prefix("UTILS::FOO"),
        (Some("UTILS".to_string()), Some("FOO".to_string()), false)
    );
    assert_eq!(parse_fqn_prefix("BAR"), (None, None, false));
}

#[test]
fn queries_know_their_place() {
    let q = completion_query("(ma", at(0, 3), "ma");
    assert!(q.inside_paren);
    assert_eq!(q.package, None);
    assert_eq!(q.range, Range { start: at(0, 1), end: at(0, 3) });
    match completion_request(&q) {
        ReplRequest::ListSymbols { id, prefix, package } => {
            assert_eq!(id, "");
            assert_eq!(prefix.as_deref(), Some("ma"));
            assert_eq!(package, None);
        }
        other => panic!("unexpected {other:?}"),
    }
    let q = completion_query("x\n ( app::ma", at(1, 10), "app::ma");
    assert!(q.inside_paren);
    assert_eq!(q.package.as_deref(), Some("app"));
    assert_eq!(q.range, Range { start: at(1, 8), end: at(1, 10) });
    let q = completion_query("a :ke", at(0, 5), ":ke");
    assert!(!q.inside_paren);
    assert_eq!(q.range.start, at(0, 2));
    match completion_request(&q) {
        ReplRequest::ListSymbols { prefix, package, .. } => {
            assert_eq!(prefix.as_deref(), Some("ke"));
            assert_eq!(package.as_deref(), Some("KEYWORD"));
        }
        other => panic!("unexpected {other:?}"),
    }
    let q = completion_query("", at(4, 0), "");
    assert!(!q.inside_paren);
}

#[test]
fn places_inside_characters_do_not_fit() {
    assert!(place_fits("(ma", at(0, 3), "ma"));
    assert!(!place_fits("\u{e9}", at(0, 1), ""));
    assert!(!place_fits("a", at(0, 5), "a"));
    assert!(!place_fits("a", at(0, 0), "a"));
    assert!(place_fits("a", at(7, 1), "a"));
}

fn query(prefix: &str, package: Option<&str>, inside_paren: bool) -> CompletionQuery {
    CompletionQuery {
        prefix: prefix.to_string(),
        package: package.map(|p| p.to_string()),
        inside_paren,
        range: Range { start: at(0, 0), end: at(0, 1) },
    }
}

#[test]
fn packages_are_offered_once() {
    let symbols = vec![
        symbol("A", "MY-APP", "function", None),
        symbol("B", "my-lib", "function", None),
        symbol("C", "MY-APP", "function", None),
        symbol("D", "OTHER", "function", None),
    ];
    assert_eq!(matching_packages(&symbols, "my"), vec!["MY-APP", "my-lib"]);
    let items = completion_items(&symbols, &query("my", None, false));
    assert_eq!(items.len(), 6);
    assert_eq!(items[0].label, "[my-app]");
    assert_eq!(items[0].new_text, "my-app:");
    assert_eq!(items[0].sort_text, "1my-app");
    assert_eq!(items[0].kind, ItemKind::Module);
    assert_eq!(items[0].detail, "package");
    assert_eq!(items[0].filter_text, "my-app");
    assert_eq!(items[5].label, "[other] d");
    assert_eq!(items[5].sort_text, "00000003d");
}

#[test]
fn symbols_are_offered_with_their_package() {
    let mut map = symbol("MAP-IT", "MY-APP", "function", Some("(defun map-it (f) ...)"));
    map.doc = Some("Maps.".to_string());
    let items = completion_items(&vec![map], &query("zz", None, true));
    let item = &items[0];
    assert_eq!(item.label, "[my-app] map-it");
    assert_eq!(item.new_text, "my-app::map-it ${1:f}$0)");
    assert!(item.is_snippet);
    assert_eq!(item.detail, "function (f)");
    assert_eq!(item.documentation.as_deref(), Some("Maps."));
    assert_eq!(item.filter_text, "map-it");
    assert_eq!(item.kind, ItemKind::Function);
    let car = symbol("CAR", "COMMON-LISP", "function", None);
    let item = &completion_items(&vec![car], &query("zz", None, true))[0];
    assert_eq!(item.new_text, "car");
    assert!(!item.is_snippet);
    assert_eq!(item.detail, "function");
}

#[test]
fn only_symbols_of_the_named_package_are_offered() {
    let symbols = vec![
        symbol("A", "Lib", "variable", None),
        symbol("B", "KEYWORD", "constant", None),
        symbol("C", "LIB", "class", None),
    ];
    let items = completion_items(&symbols, &query("lib:", Some("lib"), true));
    assert_eq!(items.len(), 2);
    assert_eq!(items[0].new_text, "a");
    assert_eq!(items[0].kind, ItemKind::Variable);
    assert_eq!(items[1].sort_text, "00000001c");
    assert_eq!(items[1].kind, ItemKind::Class);
    let items = completion_items(&symbols, &query(":", Some(""), false));
    assert_eq!(items.len(), 1);
    assert_eq!(items[0].label, "[keyword] :b");
    assert_eq!(items[0].new_text, ":b");
    assert_eq!(items[0].filter_text, ":b");
}

#[test]
fn details_show_types() {
    let mut info = symbol("F", "P", "function", Some("(defun f (a b) x)"));
    info.param_types = Some(vec![
        ("A".to_string(), Some("FIXNUM".to_string())),
        ("B".to_string(), None),
    ]);
    let item = &completion_items(&vec![info], &query("zz", Some("P"), false))[0];
    assert_eq!(item.detail, "function (a:fixnum b)");
    let mut bare = symbol("F", "P", "macro", Some("(defmacro f (a b) x)"));
    bare.param_types = Some(vec![]);
    let item = &completion_items(&vec![bare], &query("zz", Some("P"), false))[0];
    assert_eq!(item.detail, "macro (a b)");
}

#[test]
fn completions_keep_their_order() {
    let symbols: Vec<SymbolInfo> =
        (0..12).map(|i| symbol(&format!("S{}", 99 - i), "P", "function", None)).collect();
    let items = completion_items(&symbols, &query("p", None, false));
    let sorted: Vec<String> = items.iter().skip(1).map(|i| i.sort_text.clone()).collect();
    let mut again = sorted.clone();
    again.sort();
    assert_eq!(sorted, again);
    assert!(items[0].sort_text > sorted[11]);
}

#[test]
fn replies_decide_what_is_offered() {
    let q = query("x", None, false);
    assert!(completion(None, &q).is_none());
    assert!(completion(Some(&ResponseData::Pong), &q).unwrap().is_empty());
    let list = ResponseData::SymbolList { symbols: vec![symbol("X", "P", "package", None)] };
    assert_eq!(completion(Some(&list), &q).unwrap()[0].kind, ItemKind::Module);
}

// Hover

#[test]
fn symbols_are_described() {
    let mut info = symbol("CAR", "CL", "function", Some("(car list)"));
    info.param_types = Some(vec![
        ("list".to_string(), Some("LIST".to_string())),
        ("x".to_string(), None),
    ]);
    assert_eq!(
        render_symbol(&info, Some("Doc.")),
        "**CAR** _function_\n\nPackage: `CL`\n\n**Parameters:**\n- `list`: `LIST`\n- `x`\n\n```lisp\n(car list)\n```\n\nDoc."
    );
    info.param_types = Some(vec![]);
    info.source = None;
    assert_eq!(render_symbol(&info, None), "**CAR** _function_\n\nPackage: `CL`\n\n");
}

#[test]
fn unknown_symbols_are_shown_from_the_buffer() {
    let error = ResponseData::Error { error: "?".to_string() };
    let expected = "**f** _buffer_\n\nNot loaded in the REPL. Select this whole form, then `repl: run` (Ctrl+Shift+Enter).\n\n```lisp\n(f)\n```\n";
    assert_eq!(hover(Some(&error), "f", Some(" (f) ")).unwrap(), expected);
    assert_eq!(hover(None, "f", Some("(f)")).unwrap(), expected);
    assert_eq!(hover_from_buffer("f", Some("  ")), None);
    assert_eq!(hover_from_buffer("f", None), None);
    assert_eq!(hover(Some(&ResponseData::Pong), "f", Some("(f)")), None);
    let mut info = symbol("F", "P", "function", None);
    info.doc = Some("~~x".to_string());
    let shown = hover(Some(&ResponseData::SymbolInfo(info)), "f", None).unwrap();
    assert_eq!(shown, "**F** _function_\n\nPackage: `P`\n\n- `~x`");
}

// Definitions

fn place(uri: &str) -> Location {
    Location { uri: uri.to_string(), range: Range { start: at(1, 2), end: at(1, 2) } }
}

#[test]
fn definitions_are_looked_up_in_order() {
    let none = || Finding::Found(None);
    let g = goto_definition(None);
    assert!(matches!(g, Goto::UserSymbol));
    let g = goto_step("f", None, g, none());
    assert!(matches!(&g, Goto::System { package, .. } if package == "COMMON-LISP"));
    let g = goto_step("f", None, g, none());
    assert!(matches!(&g, Goto::System { package, .. } if package == "SB-IMPL"));
    let g = goto_step("f", None, g, none());
    assert!(matches!(g, Goto::Local));
    let g = goto_step(
        "f",
        None,
        g,
        Finding::Definitions { uri: Some("file:///a".to_string()), definitions: vec![] },
    );
    assert!(matches!(&g, Goto::Repl(ReplRequest::SymbolInfo { symbol, package: None, .. }) if symbol == "f"));
    let mut info = symbol("F", "P", "function", None);
    info.source_file = Some("/src/f.lisp".to_string());
    info.source_line = Some(3);
    let g = goto_step("f", None, g, Finding::Reply(Some(ResponseData::SymbolInfo(info))));
    match &g {
        Goto::External { file, place } => {
            assert_eq!(file, "/src/f.lisp");
            assert_eq!(*place, SourcePlace::At(at(2, 0)));
        }
        other => panic!("unexpected {other:?}"),
    }
    let g = goto_step("f", None, g, none());
    assert!(matches!(&g, Goto::SourceFile(file) if file == "/src/f.lisp"));
    let g = goto_step(
        "f",
        None,
        g,
        Finding::Definitions {
            uri: Some("file:///src/f.lisp".to_string()),
            definitions: vec![("G".to_string(), at(0, 0)), ("F".to_string(), at(7, 1))],
        },
    );
    match g {
        Goto::Stopped(Some(location)) => assert_eq!(location.range.start, at(7, 1)),
        other => panic!("unexpected {other:?}"),
    }
}

#[test]
fn the_first_place_counts() {
    let g = goto_definition(Some("P"));
    assert!(matches!(&g, Goto::UserPackage(p) if p == "P"));
    let g = goto_step("f", Some("P"), g, Finding::Found(Some(place("file:///x"))));
    assert!(matches!(g, Goto::Stopped(Some(l)) if l.uri == "file:///x"));
    let g = goto_step("f", Some("P"), Goto::UserSymbol, Finding::Found(None));
    assert!(matches!(&g, Goto::System { package, .. } if package == "P"));
    let g = goto_step("f", Some("P"), g, Finding::Found(None));
    assert!(matches!(g, Goto::Local));
}

#[test]
fn files_of_the_system_are_not_searched() {
    assert!(is_system_lisp_path("/usr/lib/sbcl/x"));
    assert!(is_system_lisp_path("C:\\sbcl\\x"));
    assert!(!is_system_lisp_path("/home/u/x.lisp"));
    let mut info = symbol("F", "P", "function", None);
    info.source_file = Some("/usr/share/sbcl/f.lisp".to_string());
    let request = ReplRequest::Ping { id: String::new() };
    let g = goto_step(
        "f",
        None,
        Goto::Repl(request),
        Finding::Reply(Some(ResponseData::SymbolInfo(info))),
    );
    assert!(matches!(g, Goto::Stopped(None)));
    let g = goto_step(
        "f",
        None,
        Goto::Repl(ReplRequest::Ping { id: String::new() }),
        Finding::Reply(Some(ResponseData::Pong)),
    );
    assert!(matches!(g, Goto::Stopped(None)));
    assert_eq!(find_definition(&vec![("Ab".to_string(), at(1, 1))], "aB"), Some(at(1, 1)));
    assert_eq!(find_definition(&vec![], "a"), None);
}
