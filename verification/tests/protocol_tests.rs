use zed_cl::protocol::{
    escape_lisp_string, lisp_string, parse_lisp_completion_prefix, unescape_lisp_string,
    ReplRequest, ReplResponse, ResponseData, ResponseError,
};
use zed_cl::sexp::{parse, Sexp};
use zed_cl::tokens::has_fitting_exponents;

#[test]
fn parses_eval_result() {
    let sexp = r#"(:ID "1" :OUTPUT "hi" :VALUES ("3") :ERROR NIL)"#;
    let response = ReplResponse::from_sexp(sexp, "1").unwrap();
    match response.data {
        ResponseData::EvalResult { output, values, error, .. } => {
            assert_eq!(output, "hi");
            assert_eq!(values, vec!["3"]);
            assert!(error.is_none());
        }
        other => panic!("unexpected {:?}", other),
    }
}

#[test]
fn parses_ping() {
    let sexp = r#"(:ID "p" :PONG T)"#;
    let response = ReplResponse::from_sexp(sexp, "p").unwrap();
    assert!(matches!(response.data, ResponseData::Pong));
}

#[test]
fn escapes_windows_paths_and_quotes() {
    let request = ReplRequest::LoadFile {
        id: "1".into(),
        path: r#"C:\Users\a\"file\".lisp"#.into(),
    };
    let sexp = request.to_sexp();
    assert!(sexp.contains(r#"C:\\Users\\a\\\"file\\\".lisp"#));
}

#[test]
fn list_symbols_includes_package() {
    let request = ReplRequest::ListSymbols {
        id: "1".into(),
        prefix: Some("MAP".into()),
        package: Some("MY-APP".into()),
    };
    let sexp = request.to_sexp();
    assert!(sexp.contains(":prefix \"MAP\""));
    assert!(sexp.contains(":package \"MY-APP\""));
}

#[test]
fn parse_completion_prefix_splits_qualifiers() {
    assert_eq!(
        parse_lisp_completion_prefix("my-app:map"),
        (Some("my-app".into()), "map".into())
    );
    assert_eq!(
        parse_lisp_completion_prefix("utils::foo"),
        (Some("utils".into()), "foo".into())
    );
    assert_eq!(
        parse_lisp_completion_prefix(":kw"),
        (Some("KEYWORD".into()), "kw".into())
    );
    assert_eq!(parse_lisp_completion_prefix("bar"), (None, "bar".into()));
}

#[test]
fn nil_source_location_fields_are_omitted() {
    let sexp = r#"(:ID "1" :SYMBOL "FOO" :KIND "function" :PACKAGE "CL-USER" :SOURCE-FILE "/tmp/a.lisp" :SOURCE-LINE NIL :SOURCE-CHARACTER NIL)"#;
    let response = ReplResponse::from_sexp(sexp, "1").unwrap();
    match response.data {
        ResponseData::SymbolInfo(info) => {
            assert_eq!(info.source_file.as_deref(), Some("/tmp/a.lisp"));
            assert_eq!(info.source_line, None);
            assert_eq!(info.source_character, None);
        }
        other => panic!("unexpected {other:?}"),
    }
}

#[test]
fn requests_are_written_exactly() {
    let info = ReplRequest::SymbolInfo {
        id: "a".into(),
        symbol: "car".into(),
        package: Some("CL".into()),
    };
    assert_eq!(
        info.to_sexp(),
        r#"(:type "symbol-info" :id "a" :symbol "car" :package "CL")"#
    );
    let bare = ReplRequest::SymbolInfo { id: "a".into(), symbol: "car".into(), package: None };
    assert_eq!(bare.to_sexp(), r#"(:type "symbol-info" :id "a" :symbol "car")"#);
    let eval = ReplRequest::Eval {
        id: "e".into(),
        code: "(+ 1 2)".into(),
        package: None,
        file_path: Some("/a".into()),
    };
    assert_eq!(
        eval.to_sexp(),
        r#"(:type "eval" :id "e" :code "(+ 1 2)" :file-path "/a")"#
    );
    let ping = ReplRequest::Ping { id: "p".into() };
    assert_eq!(ping.to_sexp(), r#"(:type "ping" :id "p")"#);
    let file = ReplRequest::SetCurrentFile {
        id: "f".into(),
        path: "/x".into(),
        contents: Some("()".into()),
    };
    assert_eq!(
        file.to_sexp(),
        r#"(:type "set-current-file" :id "f" :path "/x" :contents "()")"#
    );
}

#[test]
fn ids_can_be_read_and_changed() {
    let mut request = ReplRequest::Ping { id: "p".into() };
    assert_eq!(request.id(), "p");
    *request.id_mut() = "q".to_string();
    assert_eq!(request.id(), "q");
}

#[test]
fn escapes_are_taken_out_again() {
    let s = "a\\b\"c\n\u{e9}";
    assert_eq!(escape_lisp_string(s), "a\\\\b\\\"c\n\u{e9}");
    assert_eq!(unescape_lisp_string(&escape_lisp_string(s)), s);
    assert_eq!(unescape_lisp_string("ab\\"), "ab");
    assert_eq!(lisp_string("x\"y"), "\"x\\\"y\"");
}

#[test]
fn errors_without_output_are_errors() {
    let response = ReplResponse::from_sexp(r#"(:ERROR "boom")"#, "7").unwrap();
    assert_eq!(response.id, "7");
    match response.data {
        ResponseData::Error { error } => assert_eq!(error, "boom"),
        other => panic!("unexpected {other:?}"),
    }
}

#[test]
fn errors_with_output_belong_to_a_result() {
    let sexp = r#"(:ID "2" :OUTPUT "" :VALUES () :ERROR "bad" :TRACEBACK "")"#;
    let response = ReplResponse::from_sexp(sexp, "1").unwrap();
    assert_eq!(response.id, "2");
    match response.data {
        ResponseData::EvalResult { output, values, error, traceback, displays } => {
            assert_eq!(output, "");
            assert!(values.is_empty());
            assert_eq!(error.as_deref(), Some("bad"));
            assert_eq!(traceback, None);
            assert!(displays.is_none());
        }
        other => panic!("unexpected {other:?}"),
    }
}

#[test]
fn unreadable_replies_are_refused() {
    let cut = ReplResponse::from_sexp("(", "1").unwrap_err();
    assert!(matches!(&cut, ResponseError::Syntax(reason) if reason.contains("EOF")));
    assert!(cut.message().starts_with("Failed to parse s-expression: EOF"));
    assert_eq!(ReplResponse::from_sexp("42", "1").unwrap_err(), ResponseError::NotAList);
    assert_eq!(
        ReplResponse::from_sexp("(:ID \"1\" :WHAT 3)", "1").unwrap_err(),
        ResponseError::UnknownFormat(vec!["ID".to_string(), "WHAT".to_string()])
    );
    let empty = ReplResponse::from_sexp("()", "1").unwrap_err();
    assert_eq!(empty, ResponseError::UnknownFormat(vec![]));
    assert_eq!(empty.message(), "Unknown response format: []");
    let keys = ResponseError::UnknownFormat(vec!["A\"".to_string(), "B".to_string()]);
    assert_eq!(keys.message(), "Unknown response format: [\"A\\\"\", \"B\"]");
    assert_eq!(ResponseError::NotAList.message(), "Expected a property list");
}

#[test]
fn symbol_lists_are_read() {
    let sexp = r#"(:ID "1" :SYMBOLS ((:SYMBOL "MAP" :PACKAGE "CL" :KIND "function" :PARAM-TYPES (("F" . "FUNCTION") ("L" . NIL)) :SOURCE-LINE 12) 5 (:SYMBOL "X" :PARAM-TYPES ())))"#;
    let response = ReplResponse::from_sexp(sexp, "1").unwrap();
    match response.data {
        ResponseData::SymbolList { symbols } => {
            assert_eq!(symbols.len(), 2);
            assert_eq!(symbols[0].symbol, "MAP");
            assert_eq!(symbols[0].package, "CL");
            assert_eq!(symbols[0].source_line, Some(12));
            assert_eq!(
                symbols[0].param_types,
                Some(vec![
                    ("F".to_string(), Some("FUNCTION".to_string())),
                    ("L".to_string(), None),
                ])
            );
            assert_eq!(symbols[1].symbol, "X");
            assert_eq!(symbols[1].kind, "");
            assert_eq!(symbols[1].param_types, Some(vec![]));
        }
        other => panic!("unexpected {other:?}"),
    }
}

#[test]
fn displays_are_read() {
    let sexp = r#"(:OUTPUT "o" :DISPLAYS ((:DATA (("text/plain" . "a") ("image/png" . "b") ("x" . "NIL"))) (:OTHER 1)))"#;
    let response = ReplResponse::from_sexp(sexp, "1").unwrap();
    match response.data {
        ResponseData::EvalResult { displays, .. } => {
            let displays = displays.unwrap();
            assert_eq!(displays.len(), 1);
            assert_eq!(displays[0].data.get("text/plain").unwrap(), "a");
            assert_eq!(displays[0].data.get("image/png").unwrap(), "b");
            assert!(displays[0].data.get("x").is_none());
            assert!(displays[0].metadata.is_none());
        }
        other => panic!("unexpected {other:?}"),
    }
}

#[test]
fn values_are_texts() {
    let sexp = r#"(:VALUES ("a\"b" 3 t nil foo #t #f 1.5 (1 2) #(1 2)))"#;
    let response = ReplResponse::from_sexp(sexp, "1").unwrap();
    match response.data {
        ResponseData::EvalResult { output, values, .. } => {
            assert_eq!(output, "");
            assert_eq!(
                values,
                vec!["a\"b", "3", "T", "foo", "T", "#f", "1.5", "(1 2)", "#(1 2)"]
            );
        }
        other => panic!("unexpected {other:?}"),
    }
}

#[test]
fn the_last_value_of_a_key_counts() {
    let response = ReplResponse::from_sexp("(:ID \"a\" :PONG t :id \"b\")", "c").unwrap();
    assert_eq!(response.id, "b");
}

#[test]
fn s_expressions_keep_their_shape() {
    match parse("(a . b)").unwrap() {
        Sexp::List(list) => {
            assert!(matches!(&*list.first, Sexp::Symbol(s) if s == "a"));
            assert!(list.others.is_empty());
            assert!(list.dotted.is_some());
            assert_eq!(list.text, "(a . b)");
        }
        other => panic!("unexpected {other:?}"),
    }
    assert!(matches!(parse("()").unwrap(), Sexp::Null));
    assert!(matches!(parse("\"x\"").unwrap(), Sexp::Text(s) if s == "x"));
    assert!(matches!(parse("#:key").unwrap(), Sexp::Keyword(s) if s == "key"));
    assert!(parse("(a").is_err());
}

#[test]
fn exponents_that_are_too_low_are_refused() {
    assert!(has_fitting_exponents("1.1e-2147483646"));
    assert!(!has_fitting_exponents("1.1e-2147483647"));
    assert!(!has_fitting_exponents("(a 0.12E-002147483646)"));
    assert!(has_fitting_exponents("1.1e-2147483648"));
    assert!(has_fitting_exponents("1e-2147483647 1.1e2147483647 x.e-2147483647 1.5"));
    let bad = "1.5e-2147483647";
    for text in [
        format!("(:A {bad})"),
        format!("+{bad}"),
        format!("(-{bad})"),
        format!("#d{bad}"),
        format!("#d-{bad}"),
        format!("#({bad})"),
        format!("#vu8({bad})"),
        format!("(a . {bad})"),
        format!("'{bad}"),
        format!(",@{bad}"),
        format!("#t{bad}"),
        format!("\"s\"{bad}"),
        format!("#\\\u{e9}{bad}"),
        format!("#\\a {bad}"),
        format!("(a ; c\n {bad})"),
        format!("#(.\"a {bad})"),
        format!("('.\"a {bad})"),
        format!("(\"a\\\"\" {bad})"),
        format!("(foo\"bar {bad})"),
        format!("({}{bad})", "0".repeat(30)),
    ] {
        assert!(!has_fitting_exponents(&text), "{text}");
    }
    for text in [
        format!("(:OUTPUT \"{bad}\")"),
        format!("(:OUTPUT \"a \\\" {bad}\")"),
        format!("(a ; {bad}\n)"),
        format!("(x{bad})"),
        format!(":{bad}"),
        format!("#:{bad}"),
        format!("(- {})", "1.5"),
        format!("(-x{bad})"),
        format!("#\\a{bad}"),
        format!("(a .\"{bad}\")"),
        format!("(a .x{bad})"),
        "(1.1e-2147483646 1.12345678901234567890123456789e-2147483620)".to_string(),
        "18446744073709551616.5e-2147483647".to_string(),
    ] {
        assert!(has_fitting_exponents(&text), "{text}");
    }
    match ReplResponse::from_sexp("(:OUTPUT \"1.5e-2147483647\")", "1").unwrap().data {
        ResponseData::EvalResult { output, .. } => assert_eq!(output, bad),
        other => panic!("unexpected {other:?}"),
    }
    assert_eq!(parse("1.1e-2147483647").unwrap_err(), "number out of range");
    assert!(matches!(parse("1.1e-2147483646").unwrap(), Sexp::Number(n) if n == "0"));
    assert!(matches!(parse("1.1e-2147483648").unwrap(), Sexp::Number(n) if n == "0"));
    assert_eq!(
        ReplResponse::from_sexp("(:OUTPUT 1.1e-2147483647)", "1").unwrap_err(),
        ResponseError::Syntax("number out of range".to_string())
    );
}
