use serde_json::Value;
use zed_cl::extension::{
    asset_name, binary_name, check_server_id, download_binaries, env_value, home_binary,
    language_server_command, local_binary, repl_source_names, unpacked_programs,
    versioned_binary, Architecture, Asset, CommonLispExtension, Download, DownloadAnswer, Locate,
    Os, Release,
};
use zed_cl::label::{label_for_completion, CodeLabel, LabelKind};

fn spans(label: &CodeLabel) -> Vec<(&str, Option<&str>)> {
    label.spans.iter().map(|s| (s.text.as_str(), s.highlight.as_deref())).collect()
}

#[test]
fn labels_show_package_name_and_parameters() {
    let label = label_for_completion(
        "[my-app] map-it",
        Some("function (f list) x"),
        Some(LabelKind::Function),
    );
    assert_eq!(label.code, "[my-app] map-it function (f list)");
    assert_eq!(
        spans(&label),
        vec![
            ("[", None),
            ("my-app", Some("constant")),
            ("]", None),
            (" ", None),
            ("map-it", Some("function")),
            (" ", None),
            ("function", Some("keyword")),
            (" ", None),
            ("(", Some("constant")),
            ("f list", None),
            (")", Some("constant")),
        ]
    );
    assert_eq!(label.filter_end, "[my-app] map-it".len());
    assert!(label.code.starts_with("[my-app] map-it"));
    let texts: String = label.spans.iter().map(|s| s.text.as_str()).collect();
    assert_eq!(texts, label.code);
}

#[test]
fn labels_without_parts() {
    let label = label_for_completion("x\u{e9}", None, None);
    assert_eq!(label.code, "x\u{e9}");
    assert_eq!(spans(&label), vec![("x\u{e9}", None), ("", Some("keyword"))]);
    assert_eq!(label.filter_end, 3);
    let label = label_for_completion("[p]", Some("package"), Some(LabelKind::Module));
    assert_eq!(label.code, "[p] package");
    assert_eq!(label.filter_end, 4);
    let label = label_for_completion("[open", Some("macro (a"), Some(LabelKind::Variable));
    assert_eq!(label.code, "[open macro (");
    assert_eq!(spans(&label)[0], ("[open", Some("variable")));
    let label = label_for_completion("k", None, Some(LabelKind::Module));
    assert_eq!(spans(&label)[0], ("k", Some("constant")));
}

#[test]
fn names_depend_on_the_system() {
    assert_eq!(binary_name(Os::Windows, "a"), "a.exe");
    assert_eq!(binary_name(Os::Mac, "a"), "a");
    assert_eq!(asset_name(Os::Mac, Architecture::Aarch64), "zed-cl-macos-aarch64.zip");
    assert_eq!(asset_name(Os::Linux, Architecture::X8664), "zed-cl-linux-x86_64.zip");
    assert_eq!(asset_name(Os::Windows, Architecture::X86), "zed-cl-windows-x86.zip");
    assert_eq!(local_binary(Os::Linux, "z"), vec!["bin/z", "z"]);
    assert_eq!(
        unpacked_programs(Os::Windows, "d"),
        vec!["d/zed-cl-lsp.exe", "d/zed-cl-kernel.exe", "d/zed-cl-index.exe", "d/zed-cl-repl.exe"]
    );
    assert_eq!(repl_source_names().len(), 8);
}

#[test]
fn the_latest_version_is_chosen() {
    let dirs: Vec<String> = ["zed-cl-0.1", "other", "zed-cl-0.3", "zed-cl-0.2", "zed-cl-0.9"]
        .iter()
        .map(|s| s.to_string())
        .collect();
    let holds = vec![true, true, true, true, false];
    assert_eq!(
        versioned_binary(Os::Linux, "zed-cl-lsp", &dirs, &holds).unwrap(),
        "./zed-cl-0.3/zed-cl-lsp"
    );
    assert_eq!(versioned_binary(Os::Linux, "x", &dirs, &vec![false; 5]), None);
    let nested = vec!["zed-cl-1-a".to_string(), "zed-cl-1".to_string()];
    assert_eq!(
        versioned_binary(Os::Linux, "x", &nested, &vec![true, true]).unwrap(),
        "./zed-cl-1-a/x"
    );
}

fn env() -> Vec<(String, String)> {
    vec![
        ("Path".to_string(), "/bin".to_string()),
        ("HOME".to_string(), "/h".to_string()),
        ("home".to_string(), "/other".to_string()),
    ]
}

#[test]
fn variables_are_found_in_any_case() {
    assert_eq!(env_value(&env(), "PATH").unwrap(), "/bin");
    assert_eq!(env_value(&env(), "home").unwrap(), "/h");
    assert_eq!(env_value(&env(), "APPDATA"), None);
    assert_eq!(home_binary(Os::Linux, &env(), "z").unwrap(), "/h/.zed-cl/bin/z");
    let windows = vec![("UserProfile".to_string(), "C:\\u".to_string())];
    assert_eq!(home_binary(Os::Windows, &windows, "z").unwrap(), "C:\\u/.zed-cl/bin/z.exe");
    assert_eq!(home_binary(Os::Linux, &vec![], "z"), None);
}

fn release() -> Release {
    Release {
        version: "1.2".to_string(),
        assets: vec![
            Asset { name: "other.zip".to_string(), download_url: "u0".to_string() },
            Asset { name: "zed-cl-linux-x86.zip".to_string(), download_url: "u1".to_string() },
        ],
    }
}

fn next(at: Download, answer: DownloadAnswer) -> Download {
    download_binaries(Os::Linux, Architecture::X86, at, answer)
}

#[test]
fn programs_are_downloaded_once() {
    let at = next(Download::FetchRelease, DownloadAnswer::Release(Ok(release())));
    match &at {
        Download::CreateDir(plan) => {
            assert_eq!(plan.dir, "zed-cl-1.2");
            assert_eq!(plan.url, "u1");
            assert_eq!(plan.lsp_path, "zed-cl-1.2/zed-cl-lsp");
        }
        other => panic!("unexpected {other:?}"),
    }
    let at = next(at, DownloadAnswer::Done(Ok(())));
    let at = next(at, DownloadAnswer::IsFile(false));
    assert!(matches!(at, Download::Fetch(_)));
    let at = next(at, DownloadAnswer::Done(Ok(())));
    assert!(matches!(at, Download::MakeExecutable(_)));
    let at = next(at, DownloadAnswer::Done(Err("ignored".to_string())));
    assert!(matches!(at, Download::Stopped(Ok(path)) if path == "zed-cl-1.2/zed-cl-lsp"));
    let at = next(Download::FetchRelease, DownloadAnswer::Release(Ok(release())));
    let at = next(at, DownloadAnswer::Done(Ok(())));
    let at = next(at, DownloadAnswer::IsFile(true));
    assert!(matches!(at, Download::Stopped(Ok(_))));
}

fn message(at: Download) -> String {
    match at {
        Download::Stopped(Err(m)) => m,
        other => panic!("unexpected {other:?}"),
    }
}

#[test]
fn downloads_fail_with_a_message() {
    assert_eq!(
        message(next(Download::FetchRelease, DownloadAnswer::Release(Err("e".to_string())))),
        "no GitHub release for etyurkin/zed-cl (e). Install zed-cl-lsp so it is on PATH."
    );
    assert_eq!(
        message(download_binaries(
            Os::Mac,
            Architecture::X86,
            Download::FetchRelease,
            DownloadAnswer::Release(Ok(release())),
        )),
        "No GitHub release asset named zed-cl-macos-x86.zip. Install zed-cl-lsp so it is on PATH, or build it with `make build`."
    );
    let at = next(Download::FetchRelease, DownloadAnswer::Release(Ok(release())));
    assert_eq!(
        message(next(at, DownloadAnswer::Done(Err("full".to_string())))),
        "failed to create zed-cl-1.2: full"
    );
    let at = next(Download::FetchRelease, DownloadAnswer::Release(Ok(release())));
    let at = next(at, DownloadAnswer::Done(Ok(())));
    let at = next(at, DownloadAnswer::IsFile(false));
    assert_eq!(
        message(next(at, DownloadAnswer::Done(Err("cut".to_string())))),
        "failed to download zed-cl-linux-x86.zip: cut"
    );
}

#[test]
fn the_server_is_looked_for_in_order() {
    let mut e = CommonLispExtension::new();
    let at = e.language_server_binary_path(Os::Linux);
    assert!(matches!(&at, Locate::Which(name) if name == "zed-cl-lsp"));
    let at = e.locate_step(Os::Linux, &env(), at, None);
    assert!(matches!(&at, Locate::Local(files) if files.len() == 2));
    let at = e.locate_step(Os::Linux, &env(), at, None);
    assert!(matches!(at, Locate::Versioned));
    let at = e.locate_step(Os::Linux, &env(), at, None);
    assert!(matches!(at, Locate::Download));
    let at = e.locate_step(Os::Linux, &env(), at, None);
    assert!(matches!(at, Locate::Stopped(Ok(path)) if path == "/h/.zed-cl/bin/zed-cl-lsp"));
    assert!(e.github_unavailable);
    let at = e.locate_step(Os::Linux, &vec![], Locate::Versioned, None);
    assert!(matches!(at, Locate::Stopped(Err(m)) if m.starts_with("zed-cl-lsp not found")));
    let at = e.locate_step(Os::Linux, &env(), Locate::Versioned, Some("./v/l".to_string()));
    assert!(matches!(at, Locate::Stopped(Ok(path)) if path == "./v/l"));
    assert_eq!(e.cached_lsp_path.as_deref(), Some("./v/l"));
    let at = e.locate_step(Os::Linux, &env(), Locate::Local(vec![]), None);
    assert!(matches!(at, Locate::CheckCached(path) if path == "./v/l"));
}

#[test]
fn commands_carry_the_environment() {
    let mut custom = serde_json::Map::new();
    custom.insert("ZZ".to_string(), Value::from("1"));
    custom.insert("AA".to_string(), Value::from("2"));
    custom.insert("NN".to_string(), Value::from(3));
    let mut settings = serde_json::Map::new();
    settings.insert("system_index".to_string(), Value::from("my.db"));
    settings.insert("env".to_string(), Value::Object(custom));
    let settings = Value::Object(settings);
    let command = language_server_command("/w", "lsp".to_string(), &env(), Some(&settings));
    assert_eq!(command.command, "lsp");
    assert!(command.args.is_empty());
    let got: Vec<(&str, &str)> =
        command.env.iter().map(|(k, v)| (k.as_str(), v.as_str())).collect();
    assert_eq!(
        got,
        vec![
            ("ZED_CL_EXTENSION_DIR", "/w"),
            ("RUST_LOG", "info"),
            ("PATH", "/bin"),
            ("HOME", "/h"),
            ("ZED_CL_SYSTEM_INDEX", "my.db"),
            ("AA", "2"),
            ("ZZ", "1"),
        ]
    );
    let command = language_server_command("/w", "lsp".to_string(), &vec![], None);
    assert_eq!(command.env.len(), 2);
    let odd = Value::from("text");
    let command = language_server_command("/w", "lsp".to_string(), &vec![], Some(&odd));
    assert_eq!(command.env.len(), 2);
}

#[test]
fn other_servers_are_refused() {
    assert_eq!(check_server_id("common-lisp"), Ok(()));
    assert_eq!(check_server_id("rust"), Err("Unknown language server: rust".to_string()));
}
