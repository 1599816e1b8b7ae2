//! What the editor's extension decides: which program is the language server, what
//! has to be downloaded, and with what environment the program is started.
//!
//! The extension runs in a sandbox in which paths are separated by `/` on every
//! system.

use crate::config;
use crate::config::Platform;
use crate::json;
use crate::json::JsonView;
use crate::text;
use vstd::prelude::*;
use vstd::string::*;

verus! {

/// The system that the editor runs on.
#[derive(Debug, Clone, Copy, PartialEq, Eq, Structural)]
pub enum Os {
    Mac,
    Linux,
    Windows,
}

/// The processor that the editor runs on.
#[derive(Debug, Clone, Copy, PartialEq, Eq, Structural)]
pub enum Architecture {
    Aarch64,
    X86,
    X8664,
}

/// The repository in which the programs are published.
pub const GITHUB_REPO: &'static str = "etyurkin/zed-cl";

/// The id of the language server.
pub const LANGUAGE_SERVER_ID: &'static str = "common-lisp";

// ---------------------------------------------------------------------------
// Names and paths

/// The name of a program's file.
pub open spec fn program_file(os: Os, name: Seq<char>) -> Seq<char> {
    if os == Os::Windows {
        name + ".exe"@
    } else {
        name
    }
}

/// The name of a program's file.
pub fn binary_name(os: Os, name: &str) -> (r: String)
    ensures
        r@ == program_file(os, name@),
{
    let mut out = name.to_string();
    if os == Os::Windows {
        out.append(".exe");
    }
    out
}

/// The name of the archive that holds the programs.
pub open spec fn asset_file(os: Os, arch: Architecture) -> Seq<char> {
    "zed-cl-"@ + (match os {
        Os::Mac => "macos"@,
        Os::Linux => "linux"@,
        Os::Windows => "windows"@,
    }) + "-"@ + (match arch {
        Architecture::Aarch64 => "aarch64"@,
        Architecture::X8664 => "x86_64"@,
        Architecture::X86 => "x86"@,
    }) + ".zip"@
}

/// The name of the archive that holds the programs.
pub fn asset_name(os: Os, arch: Architecture) -> (r: String)
    ensures
        r@ == asset_file(os, arch),
{
    let mut out = "zed-cl-".to_string();
    match os {
        Os::Mac => {
            out.append("macos");
        },
        Os::Linux => {
            out.append("linux");
        },
        Os::Windows => {
            out.append("windows");
        },
    }
    out.append("-");
    match arch {
        Architecture::Aarch64 => {
            out.append("aarch64");
        },
        Architecture::X8664 => {
            out.append("x86_64");
        },
        Architecture::X86 => {
            out.append("x86");
        },
    }
    out.append(".zip");
    out
}

/// The places of a program in the work directory, in the order in which they count.
pub fn local_binary(os: Os, name: &str) -> (r: Vec<String>)
    ensures
        text::texts(r@) == seq!["bin/"@ + program_file(os, name@), program_file(os, name@)],
{
    let file = binary_name(os, name);
    let mut in_bin = "bin/".to_string();
    in_bin.append(file.as_str());
    let mut out: Vec<String> = Vec::new();
    out.push(in_bin);
    out.push(file);
    assert(text::texts(out@) =~= seq![
        "bin/"@ + program_file(os, name@),
        program_file(os, name@),
    ]);
    out
}

/// The place of a program in a directory of the work directory.
pub open spec fn versioned_path(os: Os, dir: Seq<char>, name: Seq<char>) -> Seq<char> {
    "./"@ + dir + "/"@ + program_file(os, name)
}

/// The place of a program in a directory of the work directory.
pub fn versioned_place(os: Os, dir: &str, name: &str) -> (r: String)
    ensures
        r@ == versioned_path(os, dir@, name@),
{
    let mut out = "./".to_string();
    out.append(dir);
    out.append("/");
    out.append(binary_name(os, name).as_str());
    out
}

/// Whether the directory is one into which a version was downloaded, and holds the
/// program.
pub open spec fn holds_version(dirs: Seq<Seq<char>>, holds: Seq<bool>, i: int) -> bool {
    text::has_prefix(dirs[i], "zed-cl-"@) && holds[i]
}

/// The last, in the order of names, of the first `n` directories into which a version
/// was downloaded and which hold the program.
pub open spec fn latest_dir(dirs: Seq<Seq<char>>, holds: Seq<bool>, n: int) -> Option<Seq<char>>
    decreases n,
{
    if n <= 0 {
        None
    } else {
        let before = latest_dir(dirs, holds, n - 1);
        if holds_version(dirs, holds, n - 1) {
            match before {
                Some(best) => if text::precedes(best, dirs[n - 1]) {
                    Some(dirs[n - 1])
                } else {
                    before
                },
                None => Some(dirs[n - 1]),
            }
        } else {
            before
        }
    }
}

/// The directory that is chosen holds the program, and none that does comes after it.
pub proof fn latest_dir_is_latest(dirs: Seq<Seq<char>>, holds: Seq<bool>, n: int)
    requires
        0 <= n <= dirs.len(),
        dirs.len() == holds.len(),
    ensures
        match latest_dir(dirs, holds, n) {
            Some(best) => (exists|i: int|
                0 <= i < n && #[trigger] dirs[i] == best && holds_version(dirs, holds, i))
                && forall|i: int|
                0 <= i < n && #[trigger] holds_version(dirs, holds, i) ==> !text::precedes(
                    best,
                    dirs[i],
                ),
            None => forall|i: int| 0 <= i < n ==> !#[trigger] holds_version(dirs, holds, i),
        },
    decreases n,
{
    if n > 0 {
        latest_dir_is_latest(dirs, holds, n - 1);
        let last = dirs[n - 1];
        match latest_dir(dirs, holds, n) {
            Some(best) => {
                assert forall|i: int|
                    0 <= i < n && #[trigger] holds_version(dirs, holds, i) implies !text::precedes(
                    best,
                    dirs[i],
                ) by {
                    text::precedes_is_total(best, best);
                    if best == last && i < n - 1 {
                        match latest_dir(dirs, holds, n - 1) {
                            Some(old_best) => {
                                if text::precedes(last, dirs[i]) {
                                    if old_best != last {
                                        text::precedes_is_transitive(old_best, last, dirs[i]);
                                    }
                                }
                            },
                            None => {},
                        }
                    }
                }
                if latest_dir(dirs, holds, n - 1) != Some(best) {
                    assert(dirs[n - 1] == best && holds_version(dirs, holds, n - 1));
                }
            },
            None => {},
        }
    }
}

/// The program that was downloaded last: in the last, in the order of names, of the
/// directories of the work directory into which a version was downloaded. `holds` tells
/// of each of them whether it holds the program.
pub fn versioned_binary(os: Os, name: &str, dirs: &Vec<String>, holds: &Vec<bool>) -> (r: Option<
    String,
>)
    requires
        dirs@.len() == holds@.len(),
    ensures
        text::text_opt(r) == (match latest_dir(text::texts(dirs@), holds@, dirs@.len() as int) {
            Some(dir) => Some(versioned_path(os, dir, name@)),
            None => None,
        }),
{
    let mut best: Option<String> = None;
    for i in 0..dirs.len()
        invariant
            dirs@.len() == holds@.len(),
            text::text_opt(best) == latest_dir(text::texts(dirs@), holds@, i as int),
    {
        assert(text::texts(dirs@)[i as int] == dirs@[i as int]@);
        if text::starts_with(dirs[i].as_str(), "zed-cl-") && holds[i] {
            let replace = match &best {
                Some(b) => text::is_before(b.as_str(), dirs[i].as_str()),
                None => true,
            };
            if replace {
                best = Some(dirs[i].clone());
            }
        }
    }
    match best {
        Some(dir) => Some(versioned_place(os, dir.as_str(), name)),
        None => None,
    }
}

// ---------------------------------------------------------------------------
// Environment

/// What the variables of an environment hold.
pub open spec fn env_views(env: Seq<(String, String)>) -> Seq<(Seq<char>, Seq<char>)> {
    env.map_values(|p: (String, String)| (p.0@, p.1@))
}

/// The value of the first variable from `from` on whose name is `key`, in upper or
/// lower case.
pub open spec fn variable_from(
    env: Seq<(Seq<char>, Seq<char>)>,
    key: Seq<char>,
    from: int,
) -> Option<Seq<char>>
    decreases env.len() - from,
{
    if from < 0 || from >= env.len() {
        None
    } else if text::same_ignoring_case(env[from].0, key) {
        Some(env[from].1)
    } else {
        variable_from(env, key, from + 1)
    }
}

/// The value of the first variable whose name is `key`, in upper or lower case.
pub open spec fn variable(env: Seq<(Seq<char>, Seq<char>)>, key: Seq<char>) -> Option<Seq<char>> {
    variable_from(env, key, 0)
}

/// The value of the first variable whose name is `key`, in upper or lower case.
pub fn env_value(env: &Vec<(String, String)>, key: &str) -> (r: Option<String>)
    ensures
        text::text_opt(r) == variable(env_views(env@), key@),
{
    let mut i: usize = 0;
    while i < env.len()
        invariant
            i <= env@.len(),
            variable(env_views(env@), key@) == variable_from(env_views(env@), key@, i as int),
        decreases env@.len() - i,
    {
        assert(env_views(env@)[i as int] == (env@[i as int].0@, env@[i as int].1@));
        if text::eq_ignore_ascii_case(env[i].0.as_str(), key) {
            return Some(env[i].1.clone());
        }
        i = i + 1;
    }
    None
}

/// The place of a program below the home directory, where the environment names one.
pub open spec fn home_path(os: Os, env: Seq<(Seq<char>, Seq<char>)>, name: Seq<char>) -> Option<
    Seq<char>,
> {
    let home = match variable(env, "HOME"@) {
        Some(h) => Some(h),
        None => variable(env, "USERPROFILE"@),
    };
    match home {
        Some(h) => Some(
            config::path_below(
                Platform::Other,
                config::path_below(
                    Platform::Other,
                    config::path_below(Platform::Other, h, ".zed-cl"@),
                    "bin"@,
                ),
                program_file(os, name),
            ),
        ),
        None => None,
    }
}

/// The place of a program below the home directory. Whether it is there is not asked:
/// the sandbox cannot see it, but the editor can start it.
pub fn home_binary(os: Os, env: &Vec<(String, String)>, name: &str) -> (r: Option<String>)
    ensures
        text::text_opt(r) == home_path(os, env_views(env@), name@),
{
    let home = match env_value(env, "HOME") {
        Some(h) => h,
        None => match env_value(env, "USERPROFILE") {
            Some(h) => h,
            None => return None,
        },
    };
    let dir = config::join_path(Platform::Other, home.as_str(), ".zed-cl");
    let bin = config::join_path(Platform::Other, dir.as_str(), "bin");
    Some(config::join_path(Platform::Other, bin.as_str(), binary_name(os, name).as_str()))
}

// ---------------------------------------------------------------------------
// Downloading

/// A file of a release.
#[derive(Debug, Clone)]
pub struct Asset {
    pub name: String,
    pub download_url: String,
}

/// A release of the programs.
#[derive(Debug, Clone)]
pub struct Release {
    pub version: String,
    pub assets: Vec<Asset>,
}

/// The address of the first file from `from` on that has this name.
pub open spec fn asset_from(assets: Seq<Asset>, name: Seq<char>, from: int) -> Option<Seq<char>>
    decreases assets.len() - from,
{
    if from < 0 || from >= assets.len() {
        None
    } else if assets[from].name@ == name {
        Some(assets[from].download_url@)
    } else {
        asset_from(assets, name, from + 1)
    }
}

/// The address of the first file of this name.
pub fn find_asset(assets: &Vec<Asset>, name: &str) -> (r: Option<String>)
    ensures
        text::text_opt(r) == asset_from(assets@, name@, 0),
{
    let mut i: usize = 0;
    while i < assets.len()
        invariant
            i <= assets@.len(),
            asset_from(assets@, name@, 0) == asset_from(assets@, name@, i as int),
        decreases assets@.len() - i,
    {
        if text::same_text(assets[i].name.as_str(), name) {
            return Some(assets[i].download_url.clone());
        }
        i = i + 1;
    }
    None
}

/// What is to be downloaded: an address, the directory for the files, the name of the
/// archive, and the place of the language server in the directory.
#[derive(Debug, Clone)]
pub struct DownloadPlan {
    pub url: String,
    pub dir: String,
    pub asset: String,
    pub lsp_path: String,
}

/// What a plan for a download holds.
pub struct DownloadPlanView {
    pub url: Seq<char>,
    pub dir: Seq<char>,
    pub asset: Seq<char>,
    pub lsp_path: Seq<char>,
}

impl View for DownloadPlan {
    type V = DownloadPlanView;

    open spec fn view(&self) -> DownloadPlanView {
        DownloadPlanView {
            url: self.url@,
            dir: self.dir@,
            asset: self.asset@,
            lsp_path: self.lsp_path@,
        }
    }
}

/// Where a download stands: what has to be done next, or how it ended.
#[derive(Debug)]
pub enum Download {
    /// Ask for the latest release.
    FetchRelease,
    /// Create the directory.
    CreateDir(DownloadPlan),
    /// Find out whether the language server is there already.
    CheckFile(DownloadPlan),
    /// Download and unpack the archive.
    Fetch(DownloadPlan),
    /// Make the programs executable, as far as that works.
    MakeExecutable(DownloadPlan),
    /// The language server is at this path, or the message tells what failed.
    Stopped(Result<String, String>),
}

/// What the state of a download holds.
pub enum DownloadView {
    FetchRelease,
    CreateDir(DownloadPlanView),
    CheckFile(DownloadPlanView),
    Fetch(DownloadPlanView),
    MakeExecutable(DownloadPlanView),
    Stopped(Result<Seq<char>, Seq<char>>),
}

/// What a path or a message holds.
pub open spec fn result_view(r: Result<String, String>) -> Result<Seq<char>, Seq<char>> {
    match r {
        Ok(s) => Ok(s@),
        Err(s) => Err(s@),
    }
}

impl View for Download {
    type V = DownloadView;

    open spec fn view(&self) -> DownloadView {
        match self {
            Download::FetchRelease => DownloadView::FetchRelease,
            Download::CreateDir(p) => DownloadView::CreateDir(p@),
            Download::CheckFile(p) => DownloadView::CheckFile(p@),
            Download::Fetch(p) => DownloadView::Fetch(p@),
            Download::MakeExecutable(p) => DownloadView::MakeExecutable(p@),
            Download::Stopped(r) => DownloadView::Stopped(result_view(*r)),
        }
    }
}

/// What came of what had to be done: a release or a message, a success or a message,
/// or whether a file is there.
#[derive(Debug)]
pub enum DownloadAnswer {
    Release(Result<Release, String>),
    Done(Result<(), String>),
    IsFile(bool),
}

/// Whether an answer fits what had to be done.
pub open spec fn download_fits(at: DownloadView, answer: DownloadAnswer) -> bool {
    match at {
        DownloadView::FetchRelease => answer is Release,
        DownloadView::CreateDir(_) => answer is Done,
        DownloadView::CheckFile(_) => answer is IsFile,
        DownloadView::Fetch(_) => answer is Done,
        DownloadView::MakeExecutable(_) => answer is Done,
        DownloadView::Stopped(_) => false,
    }
}

/// How a download goes on.
pub open spec fn download_next(
    os: Os,
    arch: Architecture,
    at: DownloadView,
    answer: DownloadAnswer,
) -> DownloadView {
    match (at, answer) {
        (DownloadView::FetchRelease, DownloadAnswer::Release(Ok(release))) => {
            let asset = asset_file(os, arch);
            match asset_from(release.assets@, asset, 0) {
                Some(url) => {
                    let dir = "zed-cl-"@ + release.version@;
                    DownloadView::CreateDir(
                        DownloadPlanView {
                            url,
                            dir,
                            asset,
                            lsp_path: dir + "/"@ + program_file(os, "zed-cl-lsp"@),
                        },
                    )
                },
                None => DownloadView::Stopped(
                    Err(
                        "No GitHub release asset named "@ + asset
                            + ". Install zed-cl-lsp so it is on PATH, or build it with `make build`."@,
                    ),
                ),
            }
        },
        (DownloadView::FetchRelease, DownloadAnswer::Release(Err(e))) => DownloadView::Stopped(
            Err(
                "no GitHub release for etyurkin/zed-cl ("@ + e@
                    + "). Install zed-cl-lsp so it is on PATH."@,
            ),
        ),
        (DownloadView::CreateDir(plan), DownloadAnswer::Done(Ok(()))) => DownloadView::CheckFile(
            plan,
        ),
        (DownloadView::CreateDir(plan), DownloadAnswer::Done(Err(e))) => DownloadView::Stopped(
            Err("failed to create "@ + plan.dir + ": "@ + e@),
        ),
        (DownloadView::CheckFile(plan), DownloadAnswer::IsFile(there)) => if there {
            DownloadView::Stopped(Ok(plan.lsp_path))
        } else {
            DownloadView::Fetch(plan)
        },
        (DownloadView::Fetch(plan), DownloadAnswer::Done(Ok(()))) => DownloadView::MakeExecutable(
            plan,
        ),
        (DownloadView::Fetch(plan), DownloadAnswer::Done(Err(e))) => DownloadView::Stopped(
            Err("failed to download "@ + plan.asset + ": "@ + e@),
        ),
        (DownloadView::MakeExecutable(plan), _) => DownloadView::Stopped(Ok(plan.lsp_path)),
        _ => at,
    }
}

fn around(before: &str, middle: &str, after: &str) -> (r: String)
    ensures
        r@ == before@ + middle@ + after@,
{
    let mut out = before.to_string();
    out.append(middle);
    out.append(after);
    out
}

/// Goes on with a download once what had to be done is done.
pub fn download_binaries(os: Os, arch: Architecture, at: Download, answer: DownloadAnswer) -> (r:
    Download)
    requires
        download_fits(at@, answer),
    ensures
        r@ == download_next(os, arch, at@, answer),
{
    match (at, answer) {
        (Download::FetchRelease, DownloadAnswer::Release(Ok(release))) => {
            let asset = asset_name(os, arch);
            match find_asset(&release.assets, asset.as_str()) {
                Some(url) => {
                    let mut dir = "zed-cl-".to_string();
                    dir.append(release.version.as_str());
                    let lsp_path = around(
                        dir.as_str(),
                        "/",
                        binary_name(os, "zed-cl-lsp").as_str(),
                    );
                    Download::CreateDir(DownloadPlan { url, dir, asset, lsp_path })
                },
                None => Download::Stopped(
                    Err(
                        around(
                            "No GitHub release asset named ",
                            asset.as_str(),
                            ". Install zed-cl-lsp so it is on PATH, or build it with `make build`.",
                        ),
                    ),
                ),
            }
        },
        (Download::FetchRelease, DownloadAnswer::Release(Err(e))) => Download::Stopped(
            Err(
                around(
                    "no GitHub release for etyurkin/zed-cl (",
                    e.as_str(),
                    "). Install zed-cl-lsp so it is on PATH.",
                ),
            ),
        ),
        (Download::CreateDir(plan), DownloadAnswer::Done(Ok(()))) => Download::CheckFile(plan),
        (Download::CreateDir(plan), DownloadAnswer::Done(Err(e))) => {
            let mut message = around("failed to create ", plan.dir.as_str(), ": ");
            message.append(e.as_str());
            Download::Stopped(Err(message))
        },
        (Download::CheckFile(plan), DownloadAnswer::IsFile(there)) => {
            if there {
                Download::Stopped(Ok(plan.lsp_path))
            } else {
                Download::Fetch(plan)
            }
        },
        (Download::Fetch(plan), DownloadAnswer::Done(Ok(()))) => Download::MakeExecutable(plan),
        (Download::Fetch(plan), DownloadAnswer::Done(Err(e))) => {
            let mut message = around("failed to download ", plan.asset.as_str(), ": ");
            message.append(e.as_str());
            Download::Stopped(Err(message))
        },
        (Download::MakeExecutable(plan), _) => Download::Stopped(Ok(plan.lsp_path)),
        (at, _) => at,
    }
}

/// The programs of an archive that was unpacked in the directory `dir`.
pub fn unpacked_programs(os: Os, dir: &str) -> (r: Vec<String>)
    ensures
        text::texts(r@) == seq![
            dir@ + "/"@ + program_file(os, "zed-cl-lsp"@),
            dir@ + "/"@ + program_file(os, "zed-cl-kernel"@),
            dir@ + "/"@ + program_file(os, "zed-cl-index"@),
            dir@ + "/"@ + program_file(os, "zed-cl-repl"@),
        ],
{
    let mut out: Vec<String> = Vec::new();
    out.push(around(dir, "/", binary_name(os, "zed-cl-lsp").as_str()));
    out.push(around(dir, "/", binary_name(os, "zed-cl-kernel").as_str()));
    out.push(around(dir, "/", binary_name(os, "zed-cl-index").as_str()));
    out.push(around(dir, "/", binary_name(os, "zed-cl-repl").as_str()));
    assert(text::texts(out@) =~= seq![
        dir@ + "/"@ + program_file(os, "zed-cl-lsp"@),
        dir@ + "/"@ + program_file(os, "zed-cl-kernel"@),
        dir@ + "/"@ + program_file(os, "zed-cl-index"@),
        dir@ + "/"@ + program_file(os, "zed-cl-repl"@),
    ]);
    out
}

// ---------------------------------------------------------------------------
// Finding the language server

/// What the extension remembers: where the language server was, and that the release
/// could not be had.
#[derive(Debug)]
pub struct CommonLispExtension {
    pub cached_lsp_path: Option<String>,
    pub github_unavailable: bool,
}

/// What the extension remembers.
pub struct ExtensionView {
    pub cached_lsp_path: Option<Seq<char>>,
    pub github_unavailable: bool,
}

impl View for CommonLispExtension {
    type V = ExtensionView;

    open spec fn view(&self) -> ExtensionView {
        ExtensionView {
            cached_lsp_path: text::text_opt(self.cached_lsp_path),
            github_unavailable: self.github_unavailable,
        }
    }
}

/// Where the search for the language server stands: what has to be asked next, or what
/// was found.
#[derive(Debug)]
pub enum Locate {
    /// Look for the program of this name on the search path.
    Which(String),
    /// Find the first of these files that is there.
    Local(Vec<String>),
    /// Find out whether this file is still there.
    CheckCached(String),
    /// Find the program that was downloaded last.
    Versioned,
    /// Download the programs.
    Download,
    /// The program, or a message.
    Stopped(Result<String, String>),
}

/// What the state of the search holds.
pub enum LocateView {
    Which(Seq<char>),
    Local(Seq<Seq<char>>),
    CheckCached(Seq<char>),
    Versioned,
    Download,
    Stopped(Result<Seq<char>, Seq<char>>),
}

impl View for Locate {
    type V = LocateView;

    open spec fn view(&self) -> LocateView {
        match self {
            Locate::Which(s) => LocateView::Which(s@),
            Locate::Local(v) => LocateView::Local(text::texts(v@)),
            Locate::CheckCached(s) => LocateView::CheckCached(s@),
            Locate::Versioned => LocateView::Versioned,
            Locate::Download => LocateView::Download,
            Locate::Stopped(r) => LocateView::Stopped(result_view(*r)),
        }
    }
}

/// How the search goes on, where `found` is the path that came back, if any: for a file
/// that was asked for, its path where it is there; for a download, the path that it gave,
/// where it did not fail.
pub open spec fn locate_next(
    extension: ExtensionView,
    os: Os,
    env: Seq<(Seq<char>, Seq<char>)>,
    at: LocateView,
    found: Option<Seq<char>>,
) -> LocateView {
    let at_home = match home_path(os, env, "zed-cl-lsp"@) {
        Some(path) => LocateView::Stopped(Ok(path)),
        None => LocateView::Stopped(
            Err(
                "zed-cl-lsp not found on PATH or in the extension work directory, and it could not be downloaded from GitHub."@,
            ),
        ),
    };
    match (at, found) {
        (LocateView::Stopped(_), _) => at,
        (_, Some(path)) => LocateView::Stopped(Ok(path)),
        (LocateView::Which(_), None) => LocateView::Local(
            seq!["bin/"@ + program_file(os, "zed-cl-lsp"@), program_file(os, "zed-cl-lsp"@)],
        ),
        (LocateView::Local(_), None) => match extension.cached_lsp_path {
            Some(path) => LocateView::CheckCached(path),
            None => LocateView::Versioned,
        },
        (LocateView::CheckCached(_), None) => LocateView::Versioned,
        (LocateView::Versioned, None) => if extension.github_unavailable {
            at_home
        } else {
            LocateView::Download
        },
        (LocateView::Download, None) => at_home,
    }
}

/// What the extension remembers afterwards: a path that was downloaded, now or earlier,
/// and that a download failed.
pub open spec fn locate_remembers(
    extension: ExtensionView,
    at: LocateView,
    found: Option<Seq<char>>,
) -> ExtensionView {
    match (at, found) {
        (LocateView::Versioned, Some(path)) => ExtensionView {
            cached_lsp_path: Some(path),
            ..extension
        },
        (LocateView::Download, Some(path)) => ExtensionView {
            cached_lsp_path: Some(path),
            ..extension
        },
        (LocateView::Download, None) => ExtensionView { github_unavailable: true, ..extension },
        _ => extension,
    }
}

/// Once a download failed, none is tried again.
pub proof fn failed_download_is_not_repeated(
    extension: ExtensionView,
    os: Os,
    env: Seq<(Seq<char>, Seq<char>)>,
    at: LocateView,
    found: Option<Seq<char>>,
)
    requires
        extension.github_unavailable,
        !(at is Download),
    ensures
        !(locate_next(extension, os, env, at, found) is Download),
        locate_remembers(extension, at, found).github_unavailable,
{
}

/// How many things may still be asked before the search is over.
pub open spec fn locate_left(at: LocateView) -> nat {
    match at {
        LocateView::Which(_) => 5,
        LocateView::Local(_) => 4,
        LocateView::CheckCached(_) => 3,
        LocateView::Versioned => 2,
        LocateView::Download => 1,
        LocateView::Stopped(_) => 0,
    }
}

/// Every search is over after a few questions.
pub proof fn locate_stops(
    extension: ExtensionView,
    os: Os,
    env: Seq<(Seq<char>, Seq<char>)>,
    at: LocateView,
    found: Option<Seq<char>>,
)
    requires
        !(at is Stopped),
    ensures
        locate_left(locate_next(extension, os, env, at, found)) < locate_left(at),
{
}

impl CommonLispExtension {
    /// An extension that remembers nothing.
    pub fn new() -> (r: Self)
        ensures
            r@ == (ExtensionView { cached_lsp_path: None, github_unavailable: false }),
    {
        CommonLispExtension { cached_lsp_path: None, github_unavailable: false }
    }

    /// Begins to look for the language server.
    pub fn language_server_binary_path(&self, os: Os) -> (r: Locate)
        ensures
            r@ == LocateView::Which(program_file(os, "zed-cl-lsp"@)),
    {
        Locate::Which(binary_name(os, "zed-cl-lsp"))
    }

    /// Goes on with the search once what was asked is known: the path that came back, if
    /// any.
    pub fn locate_step(
        &mut self,
        os: Os,
        env: &Vec<(String, String)>,
        at: Locate,
        found: Option<String>,
    ) -> (r: Locate)
        ensures
            r@ == locate_next(old(self)@, os, env_views(env@), at@, text::text_opt(found)),
            final(self)@ == locate_remembers(old(self)@, at@, text::text_opt(found)),
    {
        match (at, found) {
            (Locate::Stopped(r), _) => Locate::Stopped(r),
            (at, Some(path)) => {
                match at {
                    Locate::Versioned => {
                        self.cached_lsp_path = Some(path.clone());
                    },
                    Locate::Download => {
                        self.cached_lsp_path = Some(path.clone());
                    },
                    _ => {},
                }
                Locate::Stopped(Ok(path))
            },
            (Locate::Which(_), None) => Locate::Local(local_binary(os, "zed-cl-lsp")),
            (Locate::Local(_), None) => match &self.cached_lsp_path {
                Some(path) => Locate::CheckCached(path.clone()),
                None => Locate::Versioned,
            },
            (Locate::CheckCached(_), None) => Locate::Versioned,
            (Locate::Versioned, None) => {
                if self.github_unavailable {
                    Self::at_home(os, env)
                } else {
                    Locate::Download
                }
            },
            (Locate::Download, None) => {
                self.github_unavailable = true;
                Self::at_home(os, env)
            },
        }
    }

    fn at_home(os: Os, env: &Vec<(String, String)>) -> (r: Locate)
        ensures
            r@ == (match home_path(os, env_views(env@), "zed-cl-lsp"@) {
                Some(path) => LocateView::Stopped(Ok(path)),
                None => LocateView::Stopped(
                    Err(
                        "zed-cl-lsp not found on PATH or in the extension work directory, and it could not be downloaded from GitHub."@,
                    ),
                ),
            }),
    {
        match home_binary(os, env, "zed-cl-lsp") {
            Some(path) => Locate::Stopped(Ok(path)),
            None => Locate::Stopped(
                Err(
                    "zed-cl-lsp not found on PATH or in the extension work directory, and it could not be downloaded from GitHub.".to_string(),
                ),
            ),
        }
    }
}

// ---------------------------------------------------------------------------
// Starting the language server

/// The files of the REPL that are written to the work directory.
pub fn repl_source_names() -> (r: Vec<String>)
    ensures
        text::texts(r@) == seq![
            "zed-cl.asd"@,
            "start-master-repl.lisp"@,
            "bootstrap.lisp"@,
            "compat.lisp"@,
            "config.lisp"@,
            "display.lisp"@,
            "socket-server.lisp"@,
            "master-repl.lisp"@,
        ],
{
    let mut out: Vec<String> = Vec::new();
    out.push("zed-cl.asd".to_string());
    out.push("start-master-repl.lisp".to_string());
    out.push("bootstrap.lisp".to_string());
    out.push("compat.lisp".to_string());
    out.push("config.lisp".to_string());
    out.push("display.lisp".to_string());
    out.push("socket-server.lisp".to_string());
    out.push("master-repl.lisp".to_string());
    assert(text::texts(out@) =~= seq![
        "zed-cl.asd"@,
        "start-master-repl.lisp"@,
        "bootstrap.lisp"@,
        "compat.lisp"@,
        "config.lisp"@,
        "display.lisp"@,
        "socket-server.lisp"@,
        "master-repl.lisp"@,
    ]);
    out
}

/// Refuses every language server but the one for Common Lisp.
pub fn check_server_id(id: &str) -> (r: Result<(), String>)
    ensures
        match r {
            Ok(()) => id@ == "common-lisp"@,
            Err(message) => id@ != "common-lisp"@ && message@ == "Unknown language server: "@ + id@,
        },
{
    if text::same_text(id, "common-lisp") {
        Ok(())
    } else {
        let mut message = "Unknown language server: ".to_string();
        message.append(id);
        Err(message)
    }
}

/// A variable of the user's environment, where it is set.
pub open spec fn passed_on(env: Seq<(Seq<char>, Seq<char>)>, key: Seq<char>) -> Seq<
    (Seq<char>, Seq<char>),
> {
    match variable(env, key) {
        Some(value) => seq![(key, value)],
        None => Seq::empty(),
    }
}

/// The environment of the language server, apart from what the settings add.
pub open spec fn server_env(work_dir: Seq<char>, env: Seq<(Seq<char>, Seq<char>)>) -> Seq<
    (Seq<char>, Seq<char>),
> {
    seq![("ZED_CL_EXTENSION_DIR"@, work_dir), ("RUST_LOG"@, "info"@)] + passed_on(env, "PATH"@)
        + passed_on(env, "HOME"@) + passed_on(env, "USERPROFILE"@) + passed_on(env, "APPDATA"@)
        + passed_on(env, "HOMEDRIVE"@) + passed_on(env, "HOMEPATH"@)
}

/// The value of a key of an object.
pub open spec fn setting(settings: Option<JsonView>, key: Seq<char>) -> Option<JsonView> {
    match settings {
        Some(JsonView::Object(m)) => if m.dom().contains(key) {
            Some(m[key])
        } else {
            None
        },
        _ => None,
    }
}

/// The variable by which the settings choose the system index, where they do.
pub open spec fn index_env(settings: Option<JsonView>) -> Seq<(Seq<char>, Seq<char>)> {
    match setting(settings, "system_index"@) {
        Some(JsonView::Text(s)) => seq![("ZED_CL_SYSTEM_INDEX"@, s)],
        _ => Seq::empty(),
    }
}

/// The first `n` entries whose values are texts.
pub open spec fn text_entries(v: Seq<(String, serde_json::Value)>, n: int) -> Seq<
    (Seq<char>, Seq<char>),
>
    decreases n,
{
    if n <= 0 {
        Seq::empty()
    } else {
        let before = text_entries(v, n - 1);
        match json::held(v[n - 1].1) {
            JsonView::Text(s) => before.push((v[n - 1].0@, s)),
            _ => before,
        }
    }
}

/// The variables that the settings add are those of their object `env` whose values
/// are texts, in the order of their names.
pub open spec fn is_custom_env(settings: Option<JsonView>, env: Seq<(Seq<char>, Seq<char>)>) -> bool {
    match setting(settings, "env"@) {
        Some(JsonView::Object(m)) => exists|v: Seq<(String, serde_json::Value)>| #[trigger]
            json::members(v, m) && env == text_entries(v, v.len() as int),
        _ => env.len() == 0,
    }
}

/// A program with its arguments and its environment.
#[derive(Debug, Clone)]
pub struct Command {
    pub command: String,
    pub args: Vec<String>,
    pub env: Vec<(String, String)>,
}

fn pass_on(env: &Vec<(String, String)>, key: &str, out: &mut Vec<(String, String)>)
    ensures
        env_views(final(out)@) == env_views(old(out)@) + passed_on(env_views(env@), key@),
{
    if let Some(value) = env_value(env, key) {
        out.push((key.to_string(), value));
    }
    assert(env_views(out@) =~= env_views(old(out)@) + passed_on(env_views(env@), key@));
}

/// Appends the entries whose values are texts.
pub fn push_text_entries(
    entries: &Vec<(String, serde_json::Value)>,
    out: &mut Vec<(String, String)>,
)
    ensures
        env_views(final(out)@) == env_views(old(out)@) + text_entries(
            entries@,
            entries@.len() as int,
        ),
{
    assert(env_views(out@) =~= env_views(old(out)@) + text_entries(entries@, 0));
    for i in 0..entries.len()
        invariant
            env_views(out@) == env_views(old(out)@) + text_entries(entries@, i as int),
    {
        let ghost before = env_views(out@);
        if let Some(s) = json::json_str(&entries[i].1) {
            out.push((entries[i].0.clone(), s.to_string()));
            assert(env_views(out@) =~= before.push((entries@[i as int].0@, s@)));
        }
        assert(env_views(out@) =~= env_views(old(out)@) + text_entries(entries@, i + 1));
    }
}

/// The command that starts the language server at the path `lsp_binary`, in the
/// directory `work_dir`, for a user with this environment and these settings.
pub fn language_server_command(
    work_dir: &str,
    lsp_binary: String,
    shell_env: &Vec<(String, String)>,
    settings: Option<&serde_json::Value>,
) -> (r: Command)
    ensures
        r.command@ == lsp_binary@,
        r.args@.len() == 0,
        ({
            let given = match settings {
                Some(v) => Some(json::held(*v)),
                None => None,
            };
            let fixed = server_env(work_dir@, env_views(shell_env@)) + index_env(given);
            &&& fixed.len() <= r.env@.len()
            &&& env_views(r.env@).take(fixed.len() as int) == fixed
            &&& is_custom_env(given, env_views(r.env@).skip(fixed.len() as int))
        }),
{
    let mut env: Vec<(String, String)> = Vec::new();
    env.push(("ZED_CL_EXTENSION_DIR".to_string(), work_dir.to_string()));
    env.push(("RUST_LOG".to_string(), "info".to_string()));
    assert(env_views(env@) =~= seq![("ZED_CL_EXTENSION_DIR"@, work_dir@), ("RUST_LOG"@, "info"@)]);
    pass_on(shell_env, "PATH", &mut env);
    pass_on(shell_env, "HOME", &mut env);
    pass_on(shell_env, "USERPROFILE", &mut env);
    pass_on(shell_env, "APPDATA", &mut env);
    pass_on(shell_env, "HOMEDRIVE", &mut env);
    pass_on(shell_env, "HOMEPATH", &mut env);
    let ghost given = match settings {
        Some(v) => Some(json::held(*v)),
        None => None,
    };
    let ghost fixed = server_env(work_dir@, env_views(shell_env@)) + index_env(given);
    if let Some(value) = settings {
        if let Some(index) = json::json_get(value, "system_index") {
            if let Some(s) = json::json_str(index) {
                env.push(("ZED_CL_SYSTEM_INDEX".to_string(), s.to_string()));
            }
        }
    }
    assert(env_views(env@) =~= fixed);
    let ghost mut added = Seq::<(Seq<char>, Seq<char>)>::empty();
    if let Some(value) = settings {
        if let Some(custom) = json::json_get(value, "env") {
            if let Some(entries) = json::json_members(custom) {
                push_text_entries(&entries, &mut env);
                proof {
                    added = text_entries(entries@, entries@.len() as int);
                    assert(is_custom_env(given, added));
                }
            }
        }
    }
    assert(is_custom_env(given, added));
    assert(env_views(env@) =~= fixed + added);
    assert(env_views(env@).take(fixed.len() as int) =~= fixed);
    assert(env_views(env@).skip(fixed.len() as int) =~= added);
    Command { command: lsp_binary, args: Vec::new(), env }
}


// ---------------------------------------------------------------------------
// What the decisions come to

/// The programs of each system and processor are in an archive of their own.
pub proof fn archives_are_named(os: Os, arch: Architecture)
    ensures
        os == Os::Mac && arch == Architecture::Aarch64 ==> asset_file(os, arch)
            == "zed-cl-macos-aarch64.zip"@,
        os == Os::Linux && arch == Architecture::X8664 ==> asset_file(os, arch)
            == "zed-cl-linux-x86_64.zip"@,
        os == Os::Windows && arch == Architecture::X86 ==> asset_file(os, arch)
            == "zed-cl-windows-x86.zip"@,
        forall|o: Os, a: Architecture|
            asset_file(os, arch) == #[trigger] asset_file(o, a) ==> os == o && arch == a,
{
    reveal_strlit("zed-cl-");
    reveal_strlit("macos");
    reveal_strlit("linux");
    reveal_strlit("windows");
    reveal_strlit("-");
    reveal_strlit("aarch64");
    reveal_strlit("x86_64");
    reveal_strlit("x86");
    reveal_strlit(".zip");
    reveal_strlit("zed-cl-macos-aarch64.zip");
    reveal_strlit("zed-cl-linux-x86_64.zip");
    reveal_strlit("zed-cl-windows-x86.zip");
    let s = asset_file(os, arch);
    if os == Os::Mac && arch == Architecture::Aarch64 {
        assert(s =~= "zed-cl-macos-aarch64.zip"@);
    }
    if os == Os::Linux && arch == Architecture::X8664 {
        assert(s =~= "zed-cl-linux-x86_64.zip"@);
    }
    if os == Os::Windows && arch == Architecture::X86 {
        assert(s =~= "zed-cl-windows-x86.zip"@);
    }
    assert forall|o: Os, a: Architecture| s == #[trigger] asset_file(o, a) implies os == o && arch
        == a by {
        let t = asset_file(o, a);
        let n: int = if os == Os::Windows {
            15
        } else {
            13
        };
        assert(s[7] == (match os {
            Os::Mac => 'm',
            Os::Linux => 'l',
            Os::Windows => 'w',
        }));
        assert(t[7] == (match o {
            Os::Mac => 'm',
            Os::Linux => 'l',
            Os::Windows => 'w',
        }));
        assert(os == o);
        assert(s[n] == (match arch {
            Architecture::Aarch64 => 'a',
            _ => 'x',
        }));
        assert(t[n] == (match a {
            Architecture::Aarch64 => 'a',
            _ => 'x',
        }));
        assert(s.len() == t.len());
    }
}

/// The archive of the system is taken from the release, and unpacked in a directory with the name of
/// the version, in which the language server is.
pub proof fn archive_is_planned(os: Os, arch: Architecture, release: Release, i: int)
    requires
        0 <= i < release.assets@.len(),
        release.assets@[i].name@ == asset_file(os, arch),
        forall|j: int|
            0 <= j < i ==> (#[trigger] release.assets@[j]).name@ != asset_file(os, arch),
    ensures
        download_next(
            os,
            arch,
            DownloadView::FetchRelease,
            DownloadAnswer::Release(Ok(release)),
        ) matches DownloadView::CreateDir(plan) && plan.url == release.assets@[i].download_url@
            && plan.dir == "zed-cl-"@ + release.version@ && plan.asset == asset_file(os, arch)
            && plan.lsp_path == plan.dir + "/"@ + (if os == Os::Windows {
            "zed-cl-lsp"@ + ".exe"@
        } else {
            "zed-cl-lsp"@
        }),
{
    asset_is_at(release.assets@, asset_file(os, arch), 0, i);
}

proof fn asset_is_at(assets: Seq<Asset>, name: Seq<char>, from: int, i: int)
    requires
        0 <= from <= i < assets.len(),
        assets[i].name@ == name,
        forall|j: int| from <= j < i ==> (#[trigger] assets[j]).name@ != name,
    ensures
        asset_from(assets, name, from) == Some(assets[i].download_url@),
    decreases i - from,
{
    if from < i {
        assert(assets[from].name@ != name);
        asset_is_at(assets, name, from + 1, i);
    }
}

/// A download goes through its steps in order, with the same plan, and ends with the path of the
/// language server; it fetches nothing where the server is there already.
pub proof fn download_goes_on_in_order(
    os: Os,
    arch: Architecture,
    plan: DownloadPlanView,
    done: DownloadAnswer,
    there: bool,
)
    requires
        done == DownloadAnswer::Done(Ok(())),
    ensures
        download_next(os, arch, DownloadView::CreateDir(plan), done) == DownloadView::CheckFile(plan),
        download_next(os, arch, DownloadView::CheckFile(plan), DownloadAnswer::IsFile(true))
            == DownloadView::Stopped(Ok(plan.lsp_path)),
        download_next(os, arch, DownloadView::CheckFile(plan), DownloadAnswer::IsFile(false))
            == DownloadView::Fetch(plan),
        download_next(os, arch, DownloadView::Fetch(plan), done) == DownloadView::MakeExecutable(
            plan,
        ),
        download_next(os, arch, DownloadView::MakeExecutable(plan), done) == DownloadView::Stopped(
            Ok(plan.lsp_path),
        ),
{
}

/// A step that fails ends the download with a message that ends in the reason.
pub proof fn failed_download_tells_why(
    os: Os,
    arch: Architecture,
    plan: DownloadPlanView,
    reason: String,
    at: DownloadView,
)
    requires
        at == DownloadView::CreateDir(plan) || at == DownloadView::Fetch(plan),
    ensures
        download_next(os, arch, at, DownloadAnswer::Done(Err(reason))) matches
            DownloadView::Stopped(Err(message)) && text::has_suffix(message, reason@),
        download_next(
            os,
            arch,
            DownloadView::FetchRelease,
            DownloadAnswer::Release(Err(reason)),
        ) matches DownloadView::Stopped(Err(message)) && message
            == "no GitHub release for etyurkin/zed-cl ("@ + reason@
            + "). Install zed-cl-lsp so it is on PATH."@,
{
    match download_next(os, arch, at, DownloadAnswer::Done(Err(reason))) {
        DownloadView::Stopped(Err(message)) => {
            assert(message.skip(message.len() - reason@.len()) =~= reason@);
        },
        _ => {},
    }
}

/// Whatever finds the language server first ends the search, with what it found.
pub proof fn found_server_ends_search(
    extension: ExtensionView,
    os: Os,
    env: Seq<(Seq<char>, Seq<char>)>,
    at: LocateView,
    path: Seq<char>,
)
    requires
        !(at is Stopped),
    ensures
        locate_next(extension, os, env, at, Some(path)) == LocateView::Stopped(Ok(path)),
{
}

/// Where nothing is found, the search goes on in order: on the search path, in the work directory,
/// where the server was before, where it was downloaded, with a download unless one failed, and then
/// below the home directory.
pub proof fn server_is_looked_for_in_order(
    extension: ExtensionView,
    os: Os,
    env: Seq<(Seq<char>, Seq<char>)>,
    name: Seq<char>,
    files: Seq<Seq<char>>,
)
    ensures
        locate_next(extension, os, env, LocateView::Which(name), None) matches LocateView::Local(
            places,
        ) && places.len() == 2 && places[0] == "bin/"@ + places[1],
        locate_next(extension, os, env, LocateView::Local(files), None) == (match
            extension.cached_lsp_path {
            Some(path) => LocateView::CheckCached(path),
            None => LocateView::Versioned,
        }),
        locate_next(extension, os, env, LocateView::CheckCached(name), None)
            == LocateView::Versioned,
        !extension.github_unavailable ==> locate_next(
            extension,
            os,
            env,
            LocateView::Versioned,
            None,
        ) == LocateView::Download,
        locate_remembers(extension, LocateView::Versioned, Some(name)).cached_lsp_path == Some(name),
        locate_remembers(extension, LocateView::Download, Some(name)).cached_lsp_path == Some(name),
        locate_remembers(extension, LocateView::Download, None).github_unavailable,
        locate_next(extension, os, env, LocateView::Download, None) is Stopped,
{
}

/// The first variable of a name counts, in upper or lower case.
pub proof fn first_variable_counts(
    env: Seq<(Seq<char>, Seq<char>)>,
    key: Seq<char>,
    i: int,
)
    requires
        0 <= i < env.len(),
        text::same_ignoring_case(env[i].0, key),
        forall|j: int| 0 <= j < i ==> !text::same_ignoring_case((#[trigger] env[j]).0, key),
    ensures
        variable(env, key) == Some(env[i].1),
{
    variable_is_at(env, key, 0, i);
}

proof fn variable_is_at(env: Seq<(Seq<char>, Seq<char>)>, key: Seq<char>, from: int, i: int)
    requires
        0 <= from <= i < env.len(),
        text::same_ignoring_case(env[i].0, key),
        forall|j: int| from <= j < i ==> !text::same_ignoring_case((#[trigger] env[j]).0, key),
    ensures
        variable_from(env, key, from) == Some(env[i].1),
    decreases i - from,
{
    if from < i {
        assert(!text::same_ignoring_case(env[from].0, key));
        variable_is_at(env, key, from + 1, i);
    }
}

/// A variable that is not set has no value.
pub proof fn missing_variable_has_no_value(
    env: Seq<(Seq<char>, Seq<char>)>,
    key: Seq<char>,
    from: int,
)
    requires
        0 <= from,
        forall|j: int|
            from <= j < env.len() ==> !text::same_ignoring_case((#[trigger] env[j]).0, key),
    ensures
        variable_from(env, key, from) is None,
    decreases env.len() - from,
{
    if from < env.len() {
        assert(!text::same_ignoring_case(env[from].0, key));
        missing_variable_has_no_value(env, key, from + 1);
    }
}

/// The language server is told where it works and what to log, and each variable that it needs as
/// the user has set it, under the usual name; it is told of no other.
pub proof fn server_is_told(work_dir: Seq<char>, env: Seq<(Seq<char>, Seq<char>)>, i: int)
    requires
        0 <= i < server_env(work_dir, env).len(),
    ensures
        server_env(work_dir, env)[0] == ("ZED_CL_EXTENSION_DIR"@, work_dir),
        server_env(work_dir, env)[1] == ("RUST_LOG"@, "info"@),
        i >= 2 ==> ({
            let (key, value) = server_env(work_dir, env)[i];
            &&& variable(env, key) == Some(value)
            &&& key == "PATH"@ || key == "HOME"@ || key == "USERPROFILE"@ || key == "APPDATA"@ || key
                == "HOMEDRIVE"@ || key == "HOMEPATH"@
        }),
        server_env(work_dir, env).len() == 2 + set_count(env, "PATH"@) + set_count(env, "HOME"@)
            + set_count(env, "USERPROFILE"@) + set_count(env, "APPDATA"@) + set_count(
            env,
            "HOMEDRIVE"@,
        ) + set_count(env, "HOMEPATH"@),
{
}

/// One for a variable that is set, and none for another.
pub open spec fn set_count(env: Seq<(Seq<char>, Seq<char>)>, key: Seq<char>) -> nat {
    if variable(env, key) is Some {
        1
    } else {
        0
    }
}

/// Below the home directory the server is in `.zed-cl/bin`; `HOME` comes before `USERPROFILE`.
pub proof fn home_server_is_placed(os: Os, env: Seq<(Seq<char>, Seq<char>)>, home: Seq<char>, name: Seq<char>)
    requires
        home.len() > 0 && home.last() != '/',
        variable(env, "HOME"@) == Some(home) || (variable(env, "HOME"@) is None && variable(
            env,
            "USERPROFILE"@,
        ) == Some(home)),
        os != Os::Windows,
    ensures
        home_path(os, env, name) == Some(home + "/.zed-cl/bin/"@ + name),
{
    reveal_strlit("/.zed-cl/bin/");
    reveal_strlit("/");
    reveal_strlit(".zed-cl");
    reveal_strlit("bin");
    let a = home + "/"@ + ".zed-cl"@;
    let b = a + "/"@ + "bin"@;
    assert(a.last() == 'l');
    assert(b.last() == 'n');
    assert(b + "/"@ + name =~= home + "/.zed-cl/bin/"@ + name);
}


/// The settings choose the index by a text under `system_index`, and by nothing else; where they
/// have no object `env`, they add no variable.
pub proof fn settings_choose_the_index(
    m: Map<Seq<char>, JsonView>,
    index: Seq<char>,
    env: Seq<(Seq<char>, Seq<char>)>,
)
    ensures
        m.dom().contains("system_index"@) && m["system_index"@] == JsonView::Text(index)
            ==> index_env(Some(JsonView::Object(m))) == seq![("ZED_CL_SYSTEM_INDEX"@, index)],
        !m.dom().contains("system_index"@) ==> index_env(Some(JsonView::Object(m))).len() == 0,
        index_env(None).len() == 0,
        !m.dom().contains("env"@) && is_custom_env(Some(JsonView::Object(m)), env) ==> env.len() == 0,
        is_custom_env(None, env) ==> env.len() == 0,
{
}

/// Every variable that the settings add is one of theirs, with its text; and each of theirs that is
/// a text is added.
pub proof fn settings_add_their_texts(v: Seq<(String, serde_json::Value)>, n: int, i: int)
    requires
        0 <= i < n <= v.len(),
    ensures
        json::held(v[i].1) matches JsonView::Text(s) ==> text_entries(v, n).contains((v[i].0@, s)),
        text_entries(v, n).len() <= n,
    decreases n,
{
    let before = text_entries(v, n - 1);
    let all = text_entries(v, n);
    if i < n - 1 {
        settings_add_their_texts(v, n - 1, i);
        match json::held(v[i].1) {
            JsonView::Text(s) => {
                let k = choose|k: int| 0 <= k < before.len() && before[k] == (v[i].0@, s);
                assert(all[k] == (v[i].0@, s));
            },
            _ => {},
        }
    } else {
        if n > 1 {
            settings_add_their_texts(v, n - 1, 0);
        }
        match json::held(v[i].1) {
            JsonView::Text(s) => {
                assert(all[before.len() as int] == (v[i].0@, s));
            },
            _ => {},
        }
    }
}

/// A program that was downloaded lies in the directory of its version.
pub proof fn downloaded_program_is_placed(dir: Seq<char>, name: Seq<char>)
    ensures
        versioned_path(Os::Linux, dir, name) == "./"@ + dir + "/"@ + name,
        versioned_path(Os::Mac, dir, name) == versioned_path(Os::Linux, dir, name),
        versioned_path(Os::Windows, dir, name) == versioned_path(Os::Linux, dir, name) + ".exe"@,
{
    assert(versioned_path(Os::Windows, dir, name) =~= versioned_path(Os::Linux, dir, name)
        + ".exe"@);
}

}
