//! The description of the kernel by which Jupyter frontends find it.

use crate::config;
use crate::config::Platform;
use crate::json;
use crate::json::JsonView;
use crate::table::Table;
use crate::text;
use vstd::prelude::*;
use vstd::string::*;

verus! {

/// The name of a program's file.
pub open spec fn binary_file(platform: Platform, name: Seq<char>) -> Seq<char> {
    if platform == Platform::Windows {
        name + ".exe"@
    } else {
        name
    }
}

/// The name of a program's file.
pub fn binary_name(platform: Platform, name: &str) -> (r: String)
    ensures
        r@ == binary_file(platform, name@),
{
    let mut out = name.to_string();
    if platform == Platform::Windows {
        out.append(".exe");
    }
    out
}

/// The directory in which Jupyter keeps the data of a user.
pub open spec fn jupyter_path(
    platform: Platform,
    home: Option<Seq<char>>,
    appdata: Option<Seq<char>>,
    xdg_data_home: Option<Seq<char>>,
) -> Option<Seq<char>> {
    match platform {
        Platform::MacOs => match home {
            Some(h) => Some(
                config::path_below(
                    platform,
                    config::path_below(platform, h, "Library"@),
                    "Jupyter"@,
                ),
            ),
            None => None,
        },
        Platform::Windows => match appdata {
            Some(a) => Some(config::path_below(platform, a, "jupyter"@)),
            None => None,
        },
        Platform::Other => {
            let share = match xdg_data_home {
                Some(x) => x,
                None => config::path_below(
                    platform,
                    match home {
                        Some(h) => h,
                        None => Seq::empty(),
                    },
                    ".local/share"@,
                ),
            };
            Some(config::path_below(platform, share, "jupyter"@))
        },
    }
}

/// The directory of the kernel's description.
pub open spec fn kernels_path(
    platform: Platform,
    home: Option<Seq<char>>,
    appdata: Option<Seq<char>>,
    xdg_data_home: Option<Seq<char>>,
) -> Option<Seq<char>> {
    match jupyter_path(platform, home, appdata, xdg_data_home) {
        Some(base) => Some(
            config::path_below(
                platform,
                config::path_below(platform, base, "kernels"@),
                "commonlisp-zed"@,
            ),
        ),
        None => None,
    }
}

/// The directory of the kernel's description, from the environment.
pub fn kernels_dir(
    platform: Platform,
    home: Option<&str>,
    appdata: Option<&str>,
    xdg_data_home: Option<&str>,
) -> (r: Option<String>)
    ensures
        text::text_opt(r) == kernels_path(
            platform,
            config::str_opt(home),
            config::str_opt(appdata),
            config::str_opt(xdg_data_home),
        ),
{
    let base = match platform {
        Platform::MacOs => match home {
            Some(h) => config::join_path(
                platform,
                config::join_path(platform, h, "Library").as_str(),
                "Jupyter",
            ),
            None => return None,
        },
        Platform::Windows => match appdata {
            Some(a) => config::join_path(platform, a, "jupyter"),
            None => return None,
        },
        Platform::Other => {
            let share = match xdg_data_home {
                Some(x) => x.to_string(),
                None => match home {
                    Some(h) => config::join_path(platform, h, ".local/share"),
                    None => {
                        let none = String::new();
                        assert(none@ =~= Seq::<char>::empty());
                        config::join_path(platform, none.as_str(), ".local/share")
                    },
                },
            };
            config::join_path(platform, share.as_str(), "jupyter")
        },
    };
    let kernels = config::join_path(platform, base.as_str(), "kernels");
    Some(config::join_path(platform, kernels.as_str(), "commonlisp-zed"))
}

/// The place of the kernel beside the running program, in the directory `dir`.
pub open spec fn sibling_path(platform: Platform, dir: Seq<char>) -> Seq<char> {
    config::path_below(platform, dir, binary_file(platform, "zed-cl-kernel"@))
}

/// The place of the installed kernel.
pub open spec fn installed_path(platform: Platform, home: Option<Seq<char>>) -> Seq<char> {
    config::path_below(
        platform,
        config::path_below(platform, config::data_path(platform, home), "bin"@),
        binary_file(platform, "zed-cl-kernel"@),
    )
}

/// The place of the kernel beside the running program.
pub fn kernel_sibling(platform: Platform, exe_dir: &str) -> (r: String)
    ensures
        r@ == sibling_path(platform, exe_dir@),
{
    config::join_path(platform, exe_dir, binary_name(platform, "zed-cl-kernel").as_str())
}

/// The place of the installed kernel.
pub fn kernel_installed(platform: Platform, home: Option<&str>) -> (r: String)
    ensures
        r@ == installed_path(platform, config::str_opt(home)),
{
    let bin = config::join_path(platform, config::data_dir(platform, home).as_str(), "bin");
    config::join_path(platform, bin.as_str(), binary_name(platform, "zed-cl-kernel").as_str())
}

/// The kernel to use: the one beside the running program, whose directory is
/// `exe_dir`, or else the installed one, as far as they are files.
pub fn kernel_binary(
    platform: Platform,
    exe_dir: Option<&str>,
    sibling_is_file: bool,
    home: Option<&str>,
    installed_is_file: bool,
) -> (r: Option<String>)
    ensures
        text::text_opt(r) == (if exe_dir is Some && sibling_is_file {
            Some(sibling_path(platform, exe_dir->0@))
        } else if installed_is_file {
            Some(installed_path(platform, config::str_opt(home)))
        } else {
            None
        }),
{
    if let Some(dir) = exe_dir {
        if sibling_is_file {
            return Some(kernel_sibling(platform, dir));
        }
    }
    if installed_is_file {
        Some(kernel_installed(platform, home))
    } else {
        None
    }
}

/// The path with `/` in place of each `\`.
pub open spec fn forward_slashes(path: Seq<char>) -> Seq<char> {
    text::replaced(path, "\\"@, "/"@)
}

/// The environment `m` with the variable `key` as it is set in `vars`.
pub open spec fn with_variable(
    m: Map<Seq<char>, Seq<char>>,
    vars: Map<Seq<char>, String>,
    key: Seq<char>,
) -> Map<Seq<char>, Seq<char>> {
    if vars.dom().contains(key) {
        m.insert(key, vars[key]@)
    } else {
        m
    }
}

/// The environment that the kernel is given, which does not inherit one: the log
/// level, the extension's directory where it is known, and the variables by which
/// the kernel finds programs and the home directory.
pub open spec fn kernel_env(
    extension_dir: Option<Seq<char>>,
    vars: Map<Seq<char>, String>,
) -> Map<Seq<char>, Seq<char>> {
    let logging = Map::<Seq<char>, Seq<char>>::empty().insert("RUST_LOG"@, "info"@);
    let located = match extension_dir {
        Some(dir) => logging.insert("ZED_CL_EXTENSION_DIR"@, forward_slashes(dir)),
        None => logging,
    };
    let e1 = with_variable(located, vars, "PATH"@);
    let e2 = with_variable(e1, vars, "HOME"@);
    let e3 = with_variable(e2, vars, "USERPROFILE"@);
    let e4 = with_variable(e3, vars, "APPDATA"@);
    let e5 = with_variable(e4, vars, "HOMEDRIVE"@);
    with_variable(e5, vars, "HOMEPATH"@)
}

/// The description of the kernel.
pub open spec fn kernel_description(
    kernel: Seq<char>,
    extension_dir: Option<Seq<char>>,
    vars: Map<Seq<char>, String>,
) -> JsonView {
    JsonView::Object(
        Map::<Seq<char>, JsonView>::empty().insert(
            "display_name"@,
            JsonView::Text("Common Lisp (Zed)"@),
        ).insert("language"@, JsonView::Text("Common Lisp"@)).insert(
            "argv"@,
            JsonView::List(
                seq![
                    JsonView::Text(forward_slashes(kernel)),
                    JsonView::Text("{connection_file}"@),
                ],
            ),
        ).insert(
            "env"@,
            JsonView::Object(
                kernel_env(extension_dir, vars).map_values(|s: Seq<char>| JsonView::Text(s)),
            ),
        ).insert("interrupt_mode"@, JsonView::Text("message"@)).insert(
            "metadata"@,
            JsonView::Object(
                Map::<Seq<char>, JsonView>::empty().insert("debugger"@, JsonView::Bool(false)),
            ),
        ),
    )
}

/// What a table of JSON values holds.
pub open spec fn held_table(m: Map<Seq<char>, serde_json::Value>) -> Map<Seq<char>, JsonView> {
    m.map_values(|x: serde_json::Value| json::held(x))
}

fn put(fields: &mut Table<serde_json::Value>, key: &str, value: serde_json::Value)
    ensures
        held_table(final(fields)@) == held_table(old(fields)@).insert(key@, json::held(value)),
{
    fields.insert(key.to_string(), value);
    assert(held_table(fields@) =~= held_table(old(fields)@).insert(key@, json::held(value)));
}

/// The texts of an environment, as JSON.
pub open spec fn env_json(m: Map<Seq<char>, Seq<char>>) -> Map<Seq<char>, JsonView> {
    m.map_values(|s: Seq<char>| JsonView::Text(s))
}

fn put_variable(
    fields: &mut Table<serde_json::Value>,
    vars: &Table<String>,
    key: &str,
    Ghost(m): Ghost<Map<Seq<char>, Seq<char>>>,
)
    requires
        held_table(old(fields)@) == env_json(m),
    ensures
        held_table(final(fields)@) == env_json(with_variable(m, vars@, key@)),
{
    if let Some(value) = vars.get(key) {
        put(fields, key, json::json_text(value.clone()));
        assert(held_table(fields@) =~= env_json(with_variable(m, vars@, key@)));
    }
}

fn object(fields: Table<serde_json::Value>) -> (r: serde_json::Value)
    ensures
        json::held(r) == JsonView::Object(held_table(fields@)),
{
    json::json_object(fields.into_entries())
}

/// The description of the kernel at the path `kernel`, where `vars` is the
/// environment.
pub fn kernel_json(kernel: &str, extension_dir: Option<&str>, vars: &Table<String>) -> (r:
    serde_json::Value)
    ensures
        json::held(r) == kernel_description(kernel@, config::str_opt(extension_dir), vars@),
{
    proof {
        reveal_strlit("\\");
    }
    let ghost mut m = Map::<Seq<char>, Seq<char>>::empty();
    let mut env: Table<serde_json::Value> = Table::new();
    assert(held_table(env@) =~= env_json(m));
    put(&mut env, "RUST_LOG", json::json_text("info".to_string()));
    proof {
        m = m.insert("RUST_LOG"@, "info"@);
        assert(held_table(env@) =~= env_json(m));
    }
    if let Some(dir) = extension_dir {
        put(&mut env, "ZED_CL_EXTENSION_DIR", json::json_text(text::replace(dir, "\\", "/")));
        proof {
            m = m.insert("ZED_CL_EXTENSION_DIR"@, forward_slashes(dir@));
            assert(held_table(env@) =~= env_json(m));
        }
    }
    put_variable(&mut env, vars, "PATH", Ghost(m));
    let ghost m1 = with_variable(m, vars@, "PATH"@);
    put_variable(&mut env, vars, "HOME", Ghost(m1));
    let ghost m2 = with_variable(m1, vars@, "HOME"@);
    put_variable(&mut env, vars, "USERPROFILE", Ghost(m2));
    let ghost m3 = with_variable(m2, vars@, "USERPROFILE"@);
    put_variable(&mut env, vars, "APPDATA", Ghost(m3));
    let ghost m4 = with_variable(m3, vars@, "APPDATA"@);
    put_variable(&mut env, vars, "HOMEDRIVE", Ghost(m4));
    let ghost m5 = with_variable(m4, vars@, "HOMEDRIVE"@);
    put_variable(&mut env, vars, "HOMEPATH", Ghost(m5));

    let mut argv: Vec<serde_json::Value> = Vec::new();
    argv.push(json::json_text(text::replace(kernel, "\\", "/")));
    argv.push(json::json_text("{connection_file}".to_string()));
    assert(json::held_all(argv@) =~= seq![
        JsonView::Text(forward_slashes(kernel@)),
        JsonView::Text("{connection_file}"@),
    ]);

    let mut metadata: Table<serde_json::Value> = Table::new();
    let mut fields: Table<serde_json::Value> = Table::new();
    assert(held_table(metadata@) =~= Map::<Seq<char>, JsonView>::empty());
    assert(held_table(fields@) =~= Map::<Seq<char>, JsonView>::empty());
    put(&mut metadata, "debugger", json::json_bool(false));
    put(&mut fields, "display_name", json::json_text("Common Lisp (Zed)".to_string()));
    put(&mut fields, "language", json::json_text("Common Lisp".to_string()));
    put(&mut fields, "argv", json::json_list(argv));
    put(&mut fields, "env", object(env));
    put(&mut fields, "interrupt_mode", json::json_text("message".to_string()));
    put(&mut fields, "metadata", object(metadata));
    object(fields)
}

/// Why the kernel's description cannot be written.
#[derive(Debug, Clone, Copy, PartialEq, Eq, Structural)]
pub enum RegisterError {
    /// There is no directory for Jupyter's data.
    NoDataDirectory,
    /// There is no kernel.
    NoKernel,
    /// The description cannot be printed.
    NotPrintable,
}

impl RegisterError {
    /// The message for the user.
    pub open spec fn text(&self) -> Seq<char> {
        match self {
            RegisterError::NoDataDirectory => "no Jupyter data directory"@,
            RegisterError::NoKernel => "zed-cl-kernel not found next to zed-cl-lsp"@,
            RegisterError::NotPrintable => "kernel description cannot be printed"@,
        }
    }

    /// The message for the user.
    pub fn message(&self) -> (r: String)
        ensures
            r@ == self.text(),
    {
        match self {
            RegisterError::NoDataDirectory => "no Jupyter data directory".to_string(),
            RegisterError::NoKernel => "zed-cl-kernel not found next to zed-cl-lsp".to_string(),
            RegisterError::NotPrintable => "kernel description cannot be printed".to_string(),
        }
    }
}

/// A file that is to hold the kernel's description.
#[derive(Debug, Clone)]
pub struct Registration {
    pub dir: String,
    pub path: String,
    pub body: String,
}

/// Directory, path and contents of the file of the kernel's description, where
/// `printed` is the description as printed.
pub open spec fn registration(
    platform: Platform,
    dir: Option<Seq<char>>,
    kernel: Option<Seq<char>>,
    printed: Option<Seq<char>>,
) -> Result<(Seq<char>, Seq<char>, Seq<char>), RegisterError> {
    if dir is None {
        Err(RegisterError::NoDataDirectory)
    } else if kernel is None {
        Err(RegisterError::NoKernel)
    } else if printed is None {
        Err(RegisterError::NotPrintable)
    } else {
        Ok((dir->0, config::path_below(platform, dir->0, "kernel.json"@), printed->0))
    }
}

/// What the outcome of a registration holds.
pub open spec fn registration_view(r: Result<Registration, RegisterError>) -> Result<
    (Seq<char>, Seq<char>, Seq<char>),
    RegisterError,
> {
    match r {
        Ok(file) => Ok((file.dir@, file.path@, file.body@)),
        Err(e) => Err(e),
    }
}

/// The file that is to hold a description, in the directory `dir`, where `printed` is the
/// description as printed.
pub fn registration_file(platform: Platform, dir: String, printed: Option<String>) -> (r: Result<
    Registration,
    RegisterError,
>)
    ensures
        registration_view(r) == (match printed {
            Some(body) => Ok::<(Seq<char>, Seq<char>, Seq<char>), RegisterError>(
                (dir@, config::path_below(platform, dir@, "kernel.json"@), body@),
            ),
            None => Err(RegisterError::NotPrintable),
        }),
{
    match printed {
        Some(body) => {
            let path = config::join_path(platform, dir.as_str(), "kernel.json");
            Ok(Registration { dir, path, body })
        },
        None => Err(RegisterError::NotPrintable),
    }
}

/// The file that is to hold the kernel's description, in the directory `dir`, of the
/// kernel at the path `kernel`, where `vars` is the environment.
pub fn register(
    platform: Platform,
    dir: Option<String>,
    kernel: Option<String>,
    extension_dir: Option<&str>,
    vars: &Table<String>,
) -> (r: Result<Registration, RegisterError>)
    ensures
        registration_view(r) == registration(
            platform,
            text::text_opt(dir),
            text::text_opt(kernel),
            json::pretty(kernel_description(kernel->0@, config::str_opt(extension_dir), vars@)),
        ),
{
    let dir = match dir {
        Some(d) => d,
        None => return Err(RegisterError::NoDataDirectory),
    };
    let kernel = match kernel {
        Some(k) => k,
        None => return Err(RegisterError::NoKernel),
    };
    let printed = json::print_pretty(&kernel_json(kernel.as_str(), extension_dir, vars));
    registration_file(platform, dir, printed)
}

/// Whether a file that holds `existing` has to be written to hold `body`.
pub open spec fn write_needed(existing: Option<Seq<char>>, body: Seq<char>) -> bool {
    existing != Some(body)
}

/// A second registration, with nothing changed, leaves the file of the first alone.
pub proof fn unchanged_file_is_left_alone(
    platform: Platform,
    dir: Option<Seq<char>>,
    kernel: Option<Seq<char>>,
    printed: Option<Seq<char>>,
    first: (Seq<char>, Seq<char>, Seq<char>),
    second: (Seq<char>, Seq<char>, Seq<char>),
)
    requires
        registration(platform, dir, kernel, printed) == Ok::<
            (Seq<char>, Seq<char>, Seq<char>),
            RegisterError,
        >(first),
        registration(platform, dir, kernel, printed) == Ok::<
            (Seq<char>, Seq<char>, Seq<char>),
            RegisterError,
        >(second),
    ensures
        first.1 == second.1,
        !write_needed(Some(first.2), second.2),
{
}

impl Registration {
    /// Whether the file has to be written: not where it holds the description already.
    pub fn needs_write(&self, existing: Option<&str>) -> (r: bool)
        ensures
            r == write_needed(config::str_opt(existing), self.body@),
    {
        match existing {
            Some(s) => !text::same_text(s, self.body.as_str()),
            None => true,
        }
    }
}


// ---------------------------------------------------------------------------
// What the description holds

/// In a path with forward slashes each backslash is a slash, and all else stays.
pub proof fn slashes_go_forward(path: Seq<char>)
    ensures
        forward_slashes(path).len() == path.len(),
        forall|i: int|
            0 <= i < path.len() ==> #[trigger] forward_slashes(path)[i] == (if path[i] == '\\' {
                '/'
            } else {
                path[i]
            }),
    decreases path.len(),
{
    reveal_strlit("\\");
    reveal_strlit("/");
    if path.len() > 0 {
        let rest = path.skip(1);
        slashes_go_forward(rest);
        assert(path.take(1)[0] == path[0]);
        if path[0] == '\\' {
            assert(path.take(1) =~= "\\"@);
        }
        let f = forward_slashes(path);
        assert(f.len() == 1 + forward_slashes(rest).len());
        assert forall|i: int| 0 <= i < path.len() implies #[trigger] f[i] == (if path[i] == '\\' {
            '/'
        } else {
            path[i]
        }) by {
            if i > 0 {
                assert(f[i] == forward_slashes(rest)[i - 1]);
                assert(rest[i - 1] == path[i]);
            }
        }
    }
}

/// The kernel is run by the program with the connection file, is told the log level and the
/// extension's directory where it is known, is interrupted by messages, and has its names.
pub proof fn kernel_is_described(
    kernel: Seq<char>,
    extension_dir: Option<Seq<char>>,
    vars: Map<Seq<char>, String>,
)
    ensures
        kernel_description(kernel, extension_dir, vars) matches JsonView::Object(m)
            && m["argv"@] == JsonView::List(
            seq![
                JsonView::Text(forward_slashes(kernel)),
                JsonView::Text("{connection_file}"@),
            ],
        ) && m["interrupt_mode"@] == JsonView::Text("message"@) && m["language"@] == JsonView::Text(
            "Common Lisp"@,
        ) && m["display_name"@] == JsonView::Text("Common Lisp (Zed)"@) && (m["env"@] matches
            JsonView::Object(env) && env["RUST_LOG"@] == JsonView::Text("info"@) && (extension_dir
            is Some ==> env["ZED_CL_EXTENSION_DIR"@] == JsonView::Text(
            forward_slashes(extension_dir->0),
        )) && (extension_dir is None ==> !env.dom().contains("ZED_CL_EXTENSION_DIR"@))),
{
    names_differ();
    variables_differ();
    let m = kernel_description(kernel, extension_dir, vars)->Object_0;
    let env = kernel_env(extension_dir, vars);
    assert(m["env"@] == JsonView::Object(env.map_values(|s: Seq<char>| JsonView::Text(s))));
}

/// Each variable by which the kernel finds programs and the home directory is passed on as it is
/// set, and not where it is not.
pub proof fn variables_are_passed_on(
    extension_dir: Option<Seq<char>>,
    vars: Map<Seq<char>, String>,
    key: Seq<char>,
)
    requires
        key == "PATH"@ || key == "HOME"@ || key == "USERPROFILE"@ || key == "APPDATA"@ || key
            == "HOMEDRIVE"@ || key == "HOMEPATH"@,
    ensures
        kernel_env(extension_dir, vars).dom().contains(key) == vars.dom().contains(key),
        vars.dom().contains(key) ==> kernel_env(extension_dir, vars)[key] == vars[key]@,
{
    variables_differ();
}

/// No other variable reaches the kernel.
pub proof fn other_variables_are_kept_back(
    extension_dir: Option<Seq<char>>,
    vars: Map<Seq<char>, String>,
    key: Seq<char>,
)
    requires
        key != "PATH"@ && key != "HOME"@ && key != "USERPROFILE"@ && key != "APPDATA"@ && key
            != "HOMEDRIVE"@ && key != "HOMEPATH"@,
        key != "RUST_LOG"@ && key != "ZED_CL_EXTENSION_DIR"@,
    ensures
        !kernel_env(extension_dir, vars).dom().contains(key),
{
}

proof fn names_differ()
    ensures
        "display_name"@.len() == 12,
        "language"@.len() == 8,
        "argv"@.len() == 4,
        "env"@.len() == 3,
        "interrupt_mode"@.len() == 14,
        "metadata"@.len() == 8,
        "language"@[0] == 'l',
        "metadata"@[0] == 'm',
{
    reveal_strlit("display_name");
    reveal_strlit("language");
    reveal_strlit("argv");
    reveal_strlit("env");
    reveal_strlit("interrupt_mode");
    reveal_strlit("metadata");
}

proof fn variables_differ()
    ensures
        "RUST_LOG"@.len() == 8 && "RUST_LOG"@[0] == 'R',
        "ZED_CL_EXTENSION_DIR"@.len() == 20,
        "PATH"@.len() == 4 && "PATH"@[0] == 'P',
        "HOME"@.len() == 4 && "HOME"@[0] == 'H',
        "USERPROFILE"@.len() == 11,
        "APPDATA"@.len() == 7,
        "HOMEDRIVE"@.len() == 9,
        "HOMEPATH"@.len() == 8 && "HOMEPATH"@[0] == 'H',
{
    reveal_strlit("RUST_LOG");
    reveal_strlit("ZED_CL_EXTENSION_DIR");
    reveal_strlit("PATH");
    reveal_strlit("HOME");
    reveal_strlit("USERPROFILE");
    reveal_strlit("APPDATA");
    reveal_strlit("HOMEDRIVE");
    reveal_strlit("HOMEPATH");
}

/// The description lies where Jupyter looks for it on each system.
pub proof fn description_is_placed(home: Seq<char>, data: Seq<char>)
    requires
        home.len() > 0 && home.last() != '/',
        data.len() > 0 && data.last() != '/',
    ensures
        kernels_path(Platform::MacOs, Some(home), None, None) == Some(
            home + "/Library/Jupyter/kernels/commonlisp-zed"@,
        ),
        kernels_path(Platform::Other, Some(home), None, None) == Some(
            home + "/.local/share/jupyter/kernels/commonlisp-zed"@,
        ),
        kernels_path(Platform::Other, Some(home), None, Some(data)) == Some(
            data + "/jupyter/kernels/commonlisp-zed"@,
        ),
        kernels_path(Platform::MacOs, None, Some(data), Some(data)) is None,
        kernels_path(Platform::Windows, Some(home), None, Some(data)) is None,
{
    reveal_strlit("/");
    reveal_strlit("Library");
    reveal_strlit("Jupyter");
    reveal_strlit("jupyter");
    reveal_strlit("kernels");
    reveal_strlit("commonlisp-zed");
    reveal_strlit(".local/share");
    reveal_strlit("/Library/Jupyter/kernels/commonlisp-zed");
    reveal_strlit("/.local/share/jupyter/kernels/commonlisp-zed");
    reveal_strlit("/jupyter/kernels/commonlisp-zed");
    let a = home + "/"@ + "Library"@;
    assert(a.last() == 'y');
    let b = a + "/"@ + "Jupyter"@;
    assert(b.last() == 'r');
    let c = b + "/"@ + "kernels"@;
    assert(c.last() == 's');
    assert(c + "/"@ + "commonlisp-zed"@ =~= home + "/Library/Jupyter/kernels/commonlisp-zed"@);
    let d = home + "/"@ + ".local/share"@;
    assert(d.last() == 'e');
    let e = d + "/"@ + "jupyter"@;
    assert(e.last() == 'r');
    let f = e + "/"@ + "kernels"@;
    assert(f.last() == 's');
    assert(f + "/"@ + "commonlisp-zed"@ =~= home + "/.local/share/jupyter/kernels/commonlisp-zed"@);
    let g = data + "/"@ + "jupyter"@;
    assert(g.last() == 'r');
    let h = g + "/"@ + "kernels"@;
    assert(h.last() == 's');
    assert(h + "/"@ + "commonlisp-zed"@ =~= data + "/jupyter/kernels/commonlisp-zed"@);
}


/// The kernel beside the program has the program's directory, and the installed one lies with the
/// data; on Windows both have the suffix of programs.
pub proof fn kernels_are_placed(dir: Seq<char>, home: Seq<char>)
    requires
        dir.len() > 0 && dir.last() != '/',
        home.len() > 0 && home.last() != '/',
    ensures
        sibling_path(Platform::Other, dir) == dir + "/zed-cl-kernel"@,
        installed_path(Platform::Other, Some(home)) == home + "/.zed-cl/bin/zed-cl-kernel"@,
        binary_file(Platform::Windows, "zed-cl-kernel"@) == "zed-cl-kernel.exe"@,
{
    reveal_strlit("/");
    reveal_strlit("zed-cl-kernel");
    reveal_strlit("/zed-cl-kernel");
    reveal_strlit(".zed-cl");
    reveal_strlit("bin");
    reveal_strlit("/.zed-cl/bin/zed-cl-kernel");
    reveal_strlit(".exe");
    reveal_strlit("zed-cl-kernel.exe");
    assert(dir + "/"@ + "zed-cl-kernel"@ =~= dir + "/zed-cl-kernel"@);
    let a = home + "/"@ + ".zed-cl"@;
    assert(a.last() == 'l');
    let b = a + "/"@ + "bin"@;
    assert(b.last() == 'n');
    assert(b + "/"@ + "zed-cl-kernel"@ =~= home + "/.zed-cl/bin/zed-cl-kernel"@);
    assert("zed-cl-kernel"@ + ".exe"@ =~= "zed-cl-kernel.exe"@);
}

/// A registration succeeds exactly if there is a directory, a kernel and a printed description; the
/// file lies in the directory and holds the description.
pub proof fn registration_writes_the_description(
    dir: Option<Seq<char>>,
    kernel: Option<Seq<char>>,
    printed: Option<Seq<char>>,
)
    requires
        dir is Some ==> dir->0.len() > 0 && dir->0.last() != '/',
    ensures
        registration(Platform::Other, dir, kernel, printed) is Ok <==> dir is Some && kernel is Some
            && printed is Some,
        registration(Platform::Other, dir, kernel, printed) matches Ok((d, path, body)) ==> Some(d)
            == dir && path == d + "/kernel.json"@ && Some(body) == printed,
        dir is None ==> registration(Platform::Other, dir, kernel, printed) == Err::<
            (Seq<char>, Seq<char>, Seq<char>),
            RegisterError,
        >(RegisterError::NoDataDirectory),
{
    reveal_strlit("/");
    reveal_strlit("kernel.json");
    reveal_strlit("/kernel.json");
    if dir is Some {
        assert(dir->0 + "/"@ + "kernel.json"@ =~= dir->0 + "/kernel.json"@);
    }
}

}
