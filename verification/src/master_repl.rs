//! The client of the master REPL: what it remembers between requests, and what it
//! decides while it connects, starts the REPL and sends a request. The decisions
//! are steps: each names what has to be done next, and the next one takes what came
//! of it.

use crate::config;
use crate::config::{Platform, Profile};
use crate::frame::{FrameError, FrameErrorView};
use crate::protocol;
use crate::protocol::{
    ReplRequest, ReplResponse, ReplResponseView, ResponseData, ResponseError,
    ResponseErrorView,
};
use crate::sexp;
use crate::text;
use vstd::prelude::*;
use vstd::string::*;

verus! {

/// How often a connection is tried.
pub const CONNECT_ATTEMPTS: u32 = 50;

/// How often a connection is tried while the REPL is being started.
pub const SPAWN_CONNECT_ATTEMPTS: u32 = 225;

/// The time between two tries, in milliseconds.
pub const CONNECT_RETRY_MILLIS: u64 = 200;

/// The time after which reading and writing give up, in seconds.
pub const IO_TIMEOUT_SECS: u64 = 30;

/// How often the lock on starting the REPL is tried.
pub const LOCK_ATTEMPTS: u32 = 3;

/// The path of the file that says where the master REPL of a profile listens.
pub fn connection_file_path(profile: &Profile, platform: Platform, home: Option<&str>) -> (r:
    String)
    ensures
        r@ == config::path_below(
            platform,
            config::data_path(platform, config::str_opt(home)),
            "repl-"@ + profile@.lisp_impl + ".json"@,
        ),
{
    profile.connection_file_path(platform, home)
}

// ---------------------------------------------------------------------------
// The lock on starting the REPL

/// The process that a lock file names: a number, with white space around it allowed.
pub fn lock_owner(content: &str) -> (r: Option<u32>)
    ensures
        r == text::u32_value(text::trimmed(content@)),
{
    text::parse_u32(text::trim(content).as_str())
}

/// The owner whose number a lock file holds is read back.
pub proof fn lock_owner_is_read_back(pid: u32)
    ensures
        text::u32_value(text::trimmed(text::decimal(pid as nat))) == Some(pid),
{
    let d = text::decimal(pid as nat);
    text::decimal_is_read_back(pid as nat);
    text::words_are_not_trimmed(d);
}

/// What came of creating the lock file.
#[derive(Debug, Clone, Copy, PartialEq, Eq, Structural)]
pub enum LockEvent {
    /// The file was created.
    Created,
    /// The file is there already; `owner_alive` tells whether it names a process that
    /// runs.
    Exists { owner_alive: bool },
    /// Something else went wrong.
    Failed,
}

/// What to do about the lock.
#[derive(Debug, Clone, Copy, PartialEq, Eq, Structural)]
pub enum LockStep {
    /// The lock is ours.
    Acquired,
    /// The lock cannot be had.
    Refused,
    /// Remove the file that nobody holds, and try to create it again.
    RemoveAndRetry,
    /// Remove the file that nobody holds; the lock cannot be had.
    RemoveAndGiveUp,
}

/// What to do about the lock once `tried` tries were made, the last of which ended
/// in `event`.
pub fn lock_step(tried: u32, event: LockEvent) -> (r: LockStep)
    ensures
        r == (match event {
            LockEvent::Created => LockStep::Acquired,
            LockEvent::Failed => LockStep::Refused,
            LockEvent::Exists { owner_alive } => if owner_alive {
                LockStep::Refused
            } else if tried < LOCK_ATTEMPTS {
                LockStep::RemoveAndRetry
            } else {
                LockStep::RemoveAndGiveUp
            },
        }),
{
    match event {
        LockEvent::Created => LockStep::Acquired,
        LockEvent::Failed => LockStep::Refused,
        LockEvent::Exists { owner_alive } => {
            if owner_alive {
                LockStep::Refused
            } else if tried < LOCK_ATTEMPTS {
                LockStep::RemoveAndRetry
            } else {
                LockStep::RemoveAndGiveUp
            }
        },
    }
}

// ---------------------------------------------------------------------------
// Paths and programs

/// The path with `~` or `~/` at its beginning replaced by the home directory, where
/// there is one.
pub open spec fn expanded(platform: Platform, path: Seq<char>, home: Option<Seq<char>>) -> Seq<
    char,
> {
    match home {
        Some(h) => if text::has_prefix(path, "~/"@) {
            config::path_from(platform, h, path.skip(2))
        } else if path == "~"@ {
            h
        } else {
            path
        },
        None => path,
    }
}

/// The path with `~` or `~/` at its beginning replaced by the home directory.
pub fn expand_tilde(platform: Platform, path: &str, home: Option<&str>) -> (r: String)
    ensures
        r@ == expanded(platform, path@, config::str_opt(home)),
{
    proof {
        reveal_strlit("~/");
    }
    let home = match home {
        Some(h) => h,
        None => return path.to_string(),
    };
    if !text::starts_with(path, "~/") {
        if text::same_text(path, "~") {
            return home.to_string();
        }
        return path.to_string();
    }
    config::resolve_path(platform, home, text::tail(path, 2).as_str())
}

/// The names under which a program may be found.
pub fn executable_names(name: &str) -> (r: Vec<String>)
    ensures
        text::texts(r@) == seq![name@, name@ + ".exe"@],
{
    let mut with_suffix = name.to_string();
    with_suffix.append(".exe");
    let mut out: Vec<String> = Vec::new();
    out.push(name.to_string());
    out.push(with_suffix);
    assert(text::texts(out@) =~= seq![name@, name@ + ".exe"@]);
    out
}

/// The directories, besides those of the search path, in which a Lisp may be
/// installed.
pub open spec fn install_dirs(platform: Platform, home: Option<Seq<char>>) -> Seq<Seq<char>> {
    let own = match home {
        Some(h) => seq![
            config::path_below(platform, h, ".local/bin"@),
            config::path_below(platform, h, "scoop/shims"@),
            config::path_below(platform, h, "scoop/apps/sbcl/current"@),
        ],
        None => Seq::empty(),
    };
    own + seq![
        "/opt/homebrew/bin"@,
        "/usr/local/bin"@,
        "/usr/bin"@,
        "C:\\Program Files\\Steel Bank Common Lisp"@,
        "C:\\Program Files (x86)\\Steel Bank Common Lisp"@,
    ]
}

/// The directories, besides those of the search path, in which a Lisp may be
/// installed.
pub fn extra_install_dirs(platform: Platform, home: Option<&str>) -> (r: Vec<String>)
    ensures
        text::texts(r@) == install_dirs(platform, config::str_opt(home)),
{
    let mut dirs: Vec<String> = Vec::new();
    if let Some(h) = home {
        dirs.push(config::join_path(platform, h, ".local/bin"));
        dirs.push(config::join_path(platform, h, "scoop/shims"));
        dirs.push(config::join_path(platform, h, "scoop/apps/sbcl/current"));
    }
    dirs.push("/opt/homebrew/bin".to_string());
    dirs.push("/usr/local/bin".to_string());
    dirs.push("/usr/bin".to_string());
    dirs.push("C:\\Program Files\\Steel Bank Common Lisp".to_string());
    dirs.push("C:\\Program Files (x86)\\Steel Bank Common Lisp".to_string());
    assert(text::texts(dirs@) =~= install_dirs(platform, config::str_opt(home)));
    dirs
}

/// The paths of a program in the directories, in the order in which they count: each
/// directory with each name of the program.
pub open spec fn program_paths(platform: Platform, dirs: Seq<Seq<char>>, name: Seq<char>) -> Seq<
    Seq<char>,
>
    decreases dirs.len(),
{
    if dirs.len() == 0 {
        Seq::empty()
    } else {
        program_paths(platform, dirs.drop_last(), name) + seq![
            config::path_below(platform, dirs.last(), name),
            config::path_below(platform, dirs.last(), name + ".exe"@),
        ]
    }
}

/// The places in which a program is looked for in the directory `dir`, in order:
/// directly in it, and then in each of its entries.
pub fn locate_in_dir(platform: Platform, dir: &str, entries: &Vec<String>, name: &str) -> (r: Vec<
    String,
>)
    ensures
        text::texts(r@) == program_paths(platform, seq![dir@] + text::texts(entries@), name@),
{
    let names = executable_names(name);
    let mut out: Vec<String> = Vec::new();
    let ghost all = seq![dir@] + text::texts(entries@);
    assert(text::texts(names@).len() == 2);
    assert(text::texts(names@)[0] == name@ && text::texts(names@)[1] == name@ + ".exe"@);
    out.push(config::join_path(platform, dir, names[0].as_str()));
    out.push(config::join_path(platform, dir, names[1].as_str()));
    proof {
        assert(all.take(1).drop_last() =~= Seq::<Seq<char>>::empty());
        assert(program_paths(platform, all.take(1).drop_last(), name@) =~= Seq::<
            Seq<char>,
        >::empty());
        assert(text::texts(out@) =~= program_paths(platform, all.take(1), name@));
    }
    for i in 0..entries.len()
        invariant
            all == seq![dir@] + text::texts(entries@),
            names@.len() == 2,
            names@[0]@ == name@,
            names@[1]@ == name@ + ".exe"@,
            text::texts(out@) == program_paths(platform, all.take(i + 1), name@),
    {
        let ghost before = out@;
        out.push(config::join_path(platform, entries[i].as_str(), names[0].as_str()));
        out.push(config::join_path(platform, entries[i].as_str(), names[1].as_str()));
        assert(all.take(i + 2).drop_last() =~= all.take(i + 1));
        assert(all.take(i + 2).last() == entries@[i as int]@);
        assert(text::texts(out@) =~= program_paths(platform, all.take(i + 2), name@));
    }
    assert(all.take(entries@.len() as int + 1) =~= all);
    out
}


// ---------------------------------------------------------------------------
// The client

/// What a client remembers between requests. The connection itself and the lock
/// file are kept by whoever carries the steps out.
#[derive(Debug)]
pub struct MasterReplClient {
    connected: bool,
    request_counter: u64,
    extension_dir: Option<String>,
    repl_starting: bool,
    lock_held: bool,
}

/// What a client remembers.
pub struct ClientView {
    /// There is a connection.
    pub connected: bool,
    /// The number of ids that were given out.
    pub request_counter: u64,
    /// Where the extension is installed.
    pub extension_dir: Option<Seq<char>>,
    /// The REPL is being started.
    pub repl_starting: bool,
    /// The lock on starting the REPL is held.
    pub lock_held: bool,
}

impl View for MasterReplClient {
    type V = ClientView;

    closed spec fn view(&self) -> ClientView {
        ClientView {
            connected: self.connected,
            request_counter: self.request_counter,
            extension_dir: text::text_opt(self.extension_dir),
            repl_starting: self.repl_starting,
            lock_held: self.lock_held,
        }
    }
}

/// What a client remembers at first.
pub open spec fn fresh(extension_dir: Option<Seq<char>>) -> ClientView {
    ClientView {
        connected: false,
        request_counter: 0,
        extension_dir,
        repl_starting: false,
        lock_held: false,
    }
}

/// Where the start of a REPL stands: what has to be done next, or why it stopped.
#[derive(Debug, Clone)]
pub enum Launch {
    /// Find out whether a REPL runs already.
    CheckAlive,
    /// Find the program of this name.
    FindExecutable(String),
    /// Find out whether the script exists.
    CheckScript(LaunchPlan),
    /// Take the lock on starting the REPL.
    AcquireLock(LaunchPlan),
    /// Create the log file.
    OpenLog(LaunchPlan),
    /// Open the log file a second time, for the REPL's other output.
    CopyLog(LaunchPlan),
    /// Start the program.
    Spawn(LaunchPlan),
    /// Nothing is left to do.
    Stopped(LaunchStop),
}

/// The program that is to be started: its path, its arguments before the script, the
/// script, and the log file.
#[derive(Debug, Clone)]
pub struct LaunchPlan {
    pub program: String,
    pub args: Vec<String>,
    pub script: String,
    pub log: String,
}

/// How the start of a REPL ended.
#[derive(Debug, Clone)]
pub enum LaunchStop {
    /// The REPL is being started already.
    AlreadyStarting,
    /// A REPL runs already.
    AlreadyRunning,
    /// Nobody said where the extension is installed.
    NoExtensionDir,
    /// The program was not found; the text names the Lisp.
    NoProgram(String),
    /// There is no support for a Lisp of this name.
    Unsupported(String),
    /// The script at this path is missing.
    NoScript(String),
    /// Another process is starting the REPL.
    LockTaken,
    /// The log file could not be created, for this reason. The lock has to be released.
    NoLog(String),
    /// The log file could not be opened twice, for this reason. The lock has to be released.
    NoLogCopy(String),
    /// The program could not be started, for this reason. The lock has to be released.
    NotSpawned(String),
    /// The program was started as this process, with this log file. The lock stays.
    Spawned { pid: u32, log: String },
}

/// What came of what had to be done.
#[derive(Debug)]
pub enum Answer {
    /// It was so, or it could be done, or not.
    Done(bool),
    /// The path that was found, if any.
    Found(Option<String>),
    /// Why it could not be done, if it could not.
    Tried(Option<String>),
    /// The process that was started, or why none was.
    Spawned(Result<u32, String>),
}

/// What a plan holds.
pub struct PlanView {
    pub program: Seq<char>,
    pub args: Seq<Seq<char>>,
    pub script: Seq<char>,
    pub log: Seq<char>,
}

/// What the state of a start holds.
pub enum LaunchView {
    CheckAlive,
    FindExecutable(Seq<char>),
    CheckScript(PlanView),
    AcquireLock(PlanView),
    OpenLog(PlanView),
    CopyLog(PlanView),
    Spawn(PlanView),
    Stopped(StopView),
}

/// What the end of a start holds.
pub enum StopView {
    AlreadyStarting,
    AlreadyRunning,
    NoExtensionDir,
    NoProgram(Seq<char>),
    Unsupported(Seq<char>),
    NoScript(Seq<char>),
    LockTaken,
    NoLog(Seq<char>),
    NoLogCopy(Seq<char>),
    NotSpawned(Seq<char>),
    Spawned { pid: u32, log: Seq<char> },
}

/// What an answer holds.
pub enum AnswerView {
    Done(bool),
    Found(Option<Seq<char>>),
    Tried(Option<Seq<char>>),
    Spawned(Result<u32, Seq<char>>),
}

impl View for LaunchPlan {
    type V = PlanView;

    open spec fn view(&self) -> PlanView {
        PlanView {
            program: self.program@,
            args: text::texts(self.args@),
            script: self.script@,
            log: self.log@,
        }
    }
}

impl View for LaunchStop {
    type V = StopView;

    open spec fn view(&self) -> StopView {
        match self {
            LaunchStop::AlreadyStarting => StopView::AlreadyStarting,
            LaunchStop::AlreadyRunning => StopView::AlreadyRunning,
            LaunchStop::NoExtensionDir => StopView::NoExtensionDir,
            LaunchStop::NoProgram(s) => StopView::NoProgram(s@),
            LaunchStop::Unsupported(s) => StopView::Unsupported(s@),
            LaunchStop::NoScript(s) => StopView::NoScript(s@),
            LaunchStop::LockTaken => StopView::LockTaken,
            LaunchStop::NoLog(s) => StopView::NoLog(s@),
            LaunchStop::NoLogCopy(s) => StopView::NoLogCopy(s@),
            LaunchStop::NotSpawned(s) => StopView::NotSpawned(s@),
            LaunchStop::Spawned { pid, log } => StopView::Spawned { pid: *pid, log: log@ },
        }
    }
}

impl View for Launch {
    type V = LaunchView;

    open spec fn view(&self) -> LaunchView {
        match self {
            Launch::CheckAlive => LaunchView::CheckAlive,
            Launch::FindExecutable(s) => LaunchView::FindExecutable(s@),
            Launch::CheckScript(p) => LaunchView::CheckScript(p@),
            Launch::AcquireLock(p) => LaunchView::AcquireLock(p@),
            Launch::OpenLog(p) => LaunchView::OpenLog(p@),
            Launch::CopyLog(p) => LaunchView::CopyLog(p@),
            Launch::Spawn(p) => LaunchView::Spawn(p@),
            Launch::Stopped(s) => LaunchView::Stopped(s@),
        }
    }
}

impl View for Answer {
    type V = AnswerView;

    open spec fn view(&self) -> AnswerView {
        match self {
            Answer::Done(b) => AnswerView::Done(*b),
            Answer::Found(o) => AnswerView::Found(text::text_opt(*o)),
            Answer::Tried(o) => AnswerView::Tried(text::text_opt(*o)),
            Answer::Spawned(Ok(pid)) => AnswerView::Spawned(Ok(*pid)),
            Answer::Spawned(Err(e)) => AnswerView::Spawned(Err(e@)),
        }
    }
}

/// Whether an answer fits what had to be done: a path, or none, where a program is
/// looked for; a reason, or none, for the log file; a process or a reason for the start;
/// yes or no otherwise; nothing fits once the start has stopped.
pub open spec fn fits(at: LaunchView, answer: AnswerView) -> bool {
    match at {
        LaunchView::FindExecutable(_) => answer is Found,
        LaunchView::OpenLog(_) => answer is Tried,
        LaunchView::CopyLog(_) => answer is Tried,
        LaunchView::Spawn(_) => answer is Spawned,
        LaunchView::Stopped(_) => false,
        _ => answer is Done,
    }
}

/// The log file of the REPL.
pub open spec fn repl_log(platform: Platform, home: Option<Seq<char>>) -> Seq<char> {
    config::path_below(
        platform,
        config::path_below(platform, config::data_path(platform, home), "logs"@),
        "master-repl.log"@,
    )
}

/// The script that makes a Lisp the master REPL, in the extension's directory.
pub open spec fn start_script(
    platform: Platform,
    extension_dir: Seq<char>,
    home: Option<Seq<char>>,
) -> Seq<char> {
    config::path_below(
        platform,
        config::path_below(platform, expanded(platform, extension_dir, home), "repl"@),
        "start-master-repl.lisp"@,
    )
}

/// The arguments before the script: none but `sbcl` and `ecl` is started.
pub open spec fn lisp_args(lisp_impl: Seq<char>) -> Seq<Seq<char>> {
    if lisp_impl == "sbcl"@ {
        seq!["--noinform"@, "--no-userinit"@, "--load"@]
    } else {
        seq!["-norc"@, "-load"@]
    }
}

/// How the start goes on, of a REPL of the implementation `lisp_impl`, for a user
/// whose home directory is `home`.
pub open spec fn launch_next(
    client: ClientView,
    at: LaunchView,
    answer: AnswerView,
    platform: Platform,
    home: Option<Seq<char>>,
    lisp_impl: Seq<char>,
) -> LaunchView {
    let yes = answer == AnswerView::Done(true);
    match at {
        LaunchView::CheckAlive => if yes {
            LaunchView::Stopped(StopView::AlreadyRunning)
        } else if client.extension_dir is None {
            LaunchView::Stopped(StopView::NoExtensionDir)
        } else if lisp_impl == "sbcl"@ || lisp_impl == "ecl"@ {
            LaunchView::FindExecutable(lisp_impl)
        } else {
            LaunchView::Stopped(StopView::Unsupported(lisp_impl))
        },
        LaunchView::FindExecutable(name) => match answer {
            AnswerView::Found(Some(program)) => LaunchView::CheckScript(
                PlanView {
                    program,
                    args: lisp_args(name),
                    script: start_script(platform, client.extension_dir->0, home),
                    log: repl_log(platform, home),
                },
            ),
            _ => LaunchView::Stopped(StopView::NoProgram(name)),
        },
        LaunchView::CheckScript(plan) => if yes {
            LaunchView::AcquireLock(plan)
        } else {
            LaunchView::Stopped(StopView::NoScript(plan.script))
        },
        LaunchView::AcquireLock(plan) => if yes {
            LaunchView::OpenLog(plan)
        } else {
            LaunchView::Stopped(StopView::LockTaken)
        },
        LaunchView::OpenLog(plan) => match answer {
            AnswerView::Tried(Some(reason)) => LaunchView::Stopped(StopView::NoLog(reason)),
            _ => LaunchView::CopyLog(plan),
        },
        LaunchView::CopyLog(plan) => match answer {
            AnswerView::Tried(Some(reason)) => LaunchView::Stopped(StopView::NoLogCopy(reason)),
            _ => LaunchView::Spawn(plan),
        },
        LaunchView::Spawn(plan) => match answer {
            AnswerView::Spawned(Ok(pid)) => LaunchView::Stopped(
                StopView::Spawned { pid, log: plan.log },
            ),
            AnswerView::Spawned(Err(reason)) => LaunchView::Stopped(StopView::NotSpawned(reason)),
            _ => at,
        },
        LaunchView::Stopped(_) => at,
    }
}

/// What the client remembers once the start stands at `at`: that the REPL is being
/// started, until the start stops short of that; that the lock is held, once the
/// program was started.
pub open spec fn launch_client(client: ClientView, at: LaunchView) -> ClientView {
    match at {
        LaunchView::Stopped(StopView::Spawned { .. }) => ClientView { lock_held: true, ..client },
        LaunchView::Stopped(_) => ClientView { repl_starting: false, ..client },
        _ => client,
    }
}

/// While a start goes on, the client remembers it and holds no lock; once it has
/// stopped, the client remembers a start, and holds the lock, exactly where the
/// program was started.
pub open spec fn launch_tracked(client: ClientView, at: LaunchView) -> bool {
    match at {
        LaunchView::Stopped(StopView::AlreadyStarting) => client.repl_starting,
        LaunchView::Stopped(StopView::Spawned { .. }) => client.repl_starting && client.lock_held,
        LaunchView::Stopped(_) => !client.repl_starting && !client.lock_held,
        LaunchView::FindExecutable(_) => client.repl_starting && !client.lock_held
            && client.extension_dir is Some,
        _ => client.repl_starting && !client.lock_held,
    }
}

/// However a start goes on, the client keeps track of it.
pub proof fn launch_stays_tracked(
    client: ClientView,
    at: LaunchView,
    answer: AnswerView,
    platform: Platform,
    home: Option<Seq<char>>,
    lisp_impl: Seq<char>,
)
    requires
        launch_tracked(client, at),
        fits(at, answer),
    ensures
        launch_tracked(
            launch_client(client, launch_next(client, at, answer, platform, home, lisp_impl)),
            launch_next(client, at, answer, platform, home, lisp_impl),
        ),
{
}

/// How many things are still to be done, at most, before a start stops.
pub open spec fn launch_left(at: LaunchView) -> nat {
    match at {
        LaunchView::CheckAlive => 7,
        LaunchView::FindExecutable(_) => 6,
        LaunchView::CheckScript(_) => 5,
        LaunchView::AcquireLock(_) => 4,
        LaunchView::OpenLog(_) => 3,
        LaunchView::CopyLog(_) => 2,
        LaunchView::Spawn(_) => 1,
        LaunchView::Stopped(_) => 0,
    }
}

/// Every start stops: with each answer fewer things are left to do.
pub proof fn launch_stops(
    client: ClientView,
    at: LaunchView,
    answer: AnswerView,
    platform: Platform,
    home: Option<Seq<char>>,
    lisp_impl: Seq<char>,
)
    requires
        fits(at, answer),
    ensures
        launch_left(launch_next(client, at, answer, platform, home, lisp_impl)) < launch_left(at),
{
}

/// A lock is given back, by whoever carries the steps out, where the start stopped
/// after it was taken and the program does not run.
pub fn releases_lock(stop: &LaunchStop) -> (r: bool)
    ensures
        r == (stop@ is NoLog || stop@ is NoLogCopy || stop@ is NotSpawned),
{
    matches!(stop, LaunchStop::NoLog(_) | LaunchStop::NoLogCopy(_) | LaunchStop::NotSpawned(_))
}

/// How much an entry of the log matters.
#[derive(Debug, Clone, Copy, PartialEq, Eq, Structural)]
pub enum LogLevel {
    Debug,
    Info,
    Error,
}

fn after(before: &str, rest: &str) -> (r: String)
    ensures
        r@ == before@ + rest@,
{
    let mut out = before.to_string();
    out.append(rest);
    out
}

impl LaunchStop {
    /// How much the end of a start matters: a start that is not needed is no error.
    pub fn level(&self) -> (r: LogLevel)
        ensures
            r == (match self@ {
                StopView::AlreadyStarting => LogLevel::Debug,
                StopView::AlreadyRunning => LogLevel::Debug,
                StopView::LockTaken => LogLevel::Debug,
                StopView::Spawned { .. } => LogLevel::Info,
                _ => LogLevel::Error,
            }),
    {
        match self {
            LaunchStop::AlreadyStarting => LogLevel::Debug,
            LaunchStop::AlreadyRunning => LogLevel::Debug,
            LaunchStop::LockTaken => LogLevel::Debug,
            LaunchStop::Spawned { .. } => LogLevel::Info,
            _ => LogLevel::Error,
        }
    }

    /// What the log says of the end of a start.
    pub open spec fn text(&self) -> Seq<char> {
        match self {
            LaunchStop::AlreadyStarting =>
                "Master REPL already starting, skipping duplicate spawn"@,
            LaunchStop::AlreadyRunning => "Master REPL already running"@,
            LaunchStop::NoExtensionDir =>
                "ZED_CL_EXTENSION_DIR not set, cannot auto-start master REPL"@,
            LaunchStop::NoProgram(name) => if name@ == "sbcl"@ {
                "SBCL not found in PATH. Install SBCL and restart Zed."@
            } else {
                "ECL not found in PATH (lisp_impl=ecl)."@
            },
            LaunchStop::Unsupported(name) => "Unsupported Lisp implementation: "@ + name@
                + ". Supported: sbcl, ecl"@,
            LaunchStop::NoScript(path) => "Master REPL startup script not found at "@
                + text::debug_text(path@),
            LaunchStop::LockTaken => "Another process is starting the master REPL"@,
            LaunchStop::NoLog(e) => "Failed to create master REPL log file: "@ + e@,
            LaunchStop::NoLogCopy(e) => "Failed to clone log file handle: "@ + e@,
            LaunchStop::NotSpawned(e) => "Failed to spawn master REPL: "@ + e@,
            LaunchStop::Spawned { pid, log } => "Master REPL spawned with PID: "@ + text::decimal(
                *pid as nat,
            ) + " (log: "@ + log@ + ")"@,
        }
    }

    /// What the log says of the end of a start.
    pub fn message(&self) -> (r: String)
        ensures
            r@ == self.text(),
    {
        match self {
            LaunchStop::AlreadyStarting =>
                "Master REPL already starting, skipping duplicate spawn".to_string(),
            LaunchStop::AlreadyRunning => "Master REPL already running".to_string(),
            LaunchStop::NoExtensionDir =>
                "ZED_CL_EXTENSION_DIR not set, cannot auto-start master REPL".to_string(),
            LaunchStop::NoProgram(name) => {
                if text::same_text(name.as_str(), "sbcl") {
                    "SBCL not found in PATH. Install SBCL and restart Zed.".to_string()
                } else {
                    "ECL not found in PATH (lisp_impl=ecl).".to_string()
                }
            },
            LaunchStop::Unsupported(name) => {
                let mut out = after("Unsupported Lisp implementation: ", name.as_str());
                out.append(". Supported: sbcl, ecl");
                out
            },
            LaunchStop::NoScript(path) => after(
                "Master REPL startup script not found at ",
                text::debug(path.as_str()).as_str(),
            ),
            LaunchStop::LockTaken => "Another process is starting the master REPL".to_string(),
            LaunchStop::NoLog(e) => after("Failed to create master REPL log file: ", e.as_str()),
            LaunchStop::NoLogCopy(e) => after("Failed to clone log file handle: ", e.as_str()),
            LaunchStop::NotSpawned(e) => after("Failed to spawn master REPL: ", e.as_str()),
            LaunchStop::Spawned { pid, log } => {
                let mut out = after(
                    "Master REPL spawned with PID: ",
                    text::number_text(*pid as u64).as_str(),
                );
                out.append(" (log: ");
                out.append(log.as_str());
                out.append(")");
                out
            },
        }
    }
}

fn args_of(lisp_impl: &str) -> (r: Vec<String>)
    ensures
        text::texts(r@) == lisp_args(lisp_impl@),
{
    let mut args: Vec<String> = Vec::new();
    if text::same_text(lisp_impl, "sbcl") {
        args.push("--noinform".to_string());
        args.push("--no-userinit".to_string());
        args.push("--load".to_string());
    } else {
        args.push("-norc".to_string());
        args.push("-load".to_string());
    }
    assert(text::texts(args@) =~= lisp_args(lisp_impl@));
    args
}

/// The log file of the REPL.
pub fn master_repl_log(platform: Platform, home: Option<&str>) -> (r: String)
    ensures
        r@ == repl_log(platform, config::str_opt(home)),
{
    config::join_path(platform, config::log_dir(platform, home).as_str(), "master-repl.log")
}

// ---------------------------------------------------------------------------
// Waiting for a connection

/// How often a connection was tried, and how often it may be.
#[derive(Debug, Clone, Copy, PartialEq, Eq, Structural)]
pub struct Waiting {
    pub attempts: u32,
    pub max: u32,
}

impl Waiting {
    /// There is at least one try left.
    pub open spec fn goes_on(&self) -> bool {
        self.attempts < self.max <= SPAWN_CONNECT_ATTEMPTS
    }
}

/// What to do while a connection is awaited.
#[derive(Debug, Clone, Copy, PartialEq, Eq, Structural)]
pub enum WaitStep {
    /// The connection is ready.
    Connected,
    /// Start the REPL.
    StartRepl,
    /// Try again after a while.
    Sleep,
    /// Tell the user that there is no connection.
    GiveUp,
}

/// What to do after one more try without a connection.
pub open spec fn wait_failed(attempts: int, max: int) -> WaitStep {
    if attempts + 1 >= max {
        WaitStep::GiveUp
    } else {
        WaitStep::Sleep
    }
}

/// Waiting without a connection ends with the last of its tries, and not before.
pub proof fn waiting_ends(attempts: int, max: int)
    requires
        0 <= attempts < max,
    ensures
        wait_failed(attempts, max) == WaitStep::GiveUp <==> attempts + 1 == max,
{
}

/// What the client remembers once waiting is over: no start goes on, and the lock
/// is given back.
pub open spec fn wait_over(client: ClientView, connected: bool) -> ClientView {
    ClientView { repl_starting: false, lock_held: false, connected, ..client }
}

/// The message for a user whose REPL could not be reached after so many tries.
pub open spec fn no_connection_text(listening: bool, attempts: u32, log: Seq<char>) -> Seq<char> {
    if listening {
        "Master REPL is listening but did not complete a framed ping. Restart the old SBCL process. Log: "@
            + log
    } else {
        "Failed to connect to master REPL after "@ + text::decimal(
            (attempts * CONNECT_RETRY_MILLIS / 1000) as nat,
        ) + "s. Check "@ + log + " and install SBCL."@
    }
}

/// The message for a user whose REPL could not be reached after so many tries.
/// `listening` tells whether something listens where the REPL should.
pub fn no_connection_message(listening: bool, attempts: u32, log: &str) -> (r: String)
    ensures
        r@ == no_connection_text(listening, attempts, log@),
{
    if listening {
        let mut out =
            "Master REPL is listening but did not complete a framed ping. Restart the old SBCL process. Log: ".to_string();
        out.append(log);
        return out;
    }
    let seconds: u64 = attempts as u64 * CONNECT_RETRY_MILLIS / 1000;
    let mut out = "Failed to connect to master REPL after ".to_string();
    out.append(text::number_text(seconds).as_str());
    out.append("s. Check ");
    out.append(log);
    out.append(" and install SBCL.");
    out
}

// ---------------------------------------------------------------------------
// Requests

/// Why an exchange with the REPL failed.
#[derive(Debug, Clone, PartialEq, Eq)]
pub enum ExchangeError {
    /// There was no connection.
    NotConnected,
    /// The request could not be written, for this reason.
    Broken(String),
    /// The frame could not be written or read, for this reason where the connection gave one.
    Frame { error: FrameError, reason: Option<String> },
    /// The reply could not be understood.
    Response(ResponseError),
}

/// What an error of an exchange holds.
pub enum ExchangeErrorView {
    NotConnected,
    Broken(Seq<char>),
    Frame { error: FrameErrorView, reason: Option<Seq<char>> },
    Response(ResponseErrorView),
}

impl View for ExchangeError {
    type V = ExchangeErrorView;

    open spec fn view(&self) -> ExchangeErrorView {
        match self {
            ExchangeError::NotConnected => ExchangeErrorView::NotConnected,
            ExchangeError::Broken(e) => ExchangeErrorView::Broken(e@),
            ExchangeError::Frame { error, reason } => ExchangeErrorView::Frame {
                error: error@,
                reason: text::text_opt(*reason),
            },
            ExchangeError::Response(e) => ExchangeErrorView::Response(e@),
        }
    }
}

impl ExchangeError {
    /// The message for the log.
    pub open spec fn text(&self) -> Seq<char> {
        match self {
            ExchangeError::NotConnected => "Not connected"@,
            ExchangeError::Broken(e) => e@,
            ExchangeError::Frame { error, reason } => match reason {
                Some(e) => error.text() + ": "@ + e@,
                None => error.text(),
            },
            ExchangeError::Response(e) => e.text(),
        }
    }

    /// The message for the log.
    pub fn message(&self) -> (r: String)
        ensures
            r@ == self.text(),
    {
        match self {
            ExchangeError::NotConnected => "Not connected".to_string(),
            ExchangeError::Broken(e) => e.clone(),
            ExchangeError::Frame { error, reason } => {
                let mut out = error.message();
                if let Some(e) = reason {
                    out.append(": ");
                    out.append(e.as_str());
                }
                out
            },
            ExchangeError::Response(e) => e.message(),
        }
    }
}

/// The message for a request that failed twice.
pub fn failure_message(first: &ExchangeError, last: &ExchangeError) -> (r: String)
    ensures
        r@ == "Failed after reconnect: "@ + first.text() + ": "@ + last.text(),
{
    let mut out = "Failed after reconnect: ".to_string();
    out.append(first.message().as_str());
    out.append(": ");
    out.append(last.message().as_str());
    out
}

/// A request that is being sent.
#[derive(Debug, Clone)]
pub struct Sending {
    /// The request, as it is written.
    pub sexp: String,
    /// The id of the request.
    pub id: String,
    /// Why the first exchange failed, if it did.
    pub failed: Option<ExchangeError>,
}

/// What a request that is being sent holds.
pub struct SendingView {
    pub sexp: Seq<char>,
    pub id: Seq<char>,
    pub failed: Option<ExchangeErrorView>,
}

impl View for Sending {
    type V = SendingView;

    open spec fn view(&self) -> SendingView {
        SendingView {
            sexp: self.sexp@,
            id: self.id@,
            failed: match self.failed {
                Some(e) => Some(e@),
                None => None,
            },
        }
    }
}

/// What to do after an exchange.
#[derive(Debug)]
pub enum SendStep {
    /// The reply came.
    Done(ReplResponse),
    /// Connect anew and exchange the same request once more.
    Reconnect(Sending),
    /// Both exchanges failed.
    Failed { first: ExchangeError, last: ExchangeError },
}

/// What the step after an exchange holds.
pub enum SendView {
    Done(ReplResponseView),
    Reconnect(SendingView),
    Failed { first: ExchangeErrorView, last: ExchangeErrorView },
}

impl View for SendStep {
    type V = SendView;

    open spec fn view(&self) -> SendView {
        match self {
            SendStep::Done(r) => SendView::Done(r@),
            SendStep::Reconnect(sending) => SendView::Reconnect(sending@),
            SendStep::Failed { first, last } => SendView::Failed { first: first@, last: last@ },
        }
    }
}

/// What the outcome of an exchange holds.
pub open spec fn exchange_view(r: Result<ReplResponse, ExchangeError>) -> Result<
    ReplResponseView,
    ExchangeErrorView,
> {
    match r {
        Ok(response) => Ok(response@),
        Err(e) => Err(e@),
    }
}

/// What comes after an exchange: where the first one failed, the same request once more.
pub open spec fn send_next(
    sending: SendingView,
    outcome: Result<ReplResponseView, ExchangeErrorView>,
) -> SendView {
    match outcome {
        Ok(response) => SendView::Done(response),
        Err(e) => match sending.failed {
            None => SendView::Reconnect(SendingView { failed: Some(e), ..sending }),
            Some(first) => SendView::Failed { first, last: e },
        },
    }
}

/// The id that the request with this number gets.
pub open spec fn numbered_id(n: nat) -> Seq<char> {
    "rust-"@ + text::decimal(n)
}

/// Requests with different numbers get different ids.
pub proof fn numbered_ids_differ(a: nat, b: nat)
    requires
        a != b,
    ensures
        numbered_id(a) != numbered_id(b),
{
    if numbered_id(a) == numbered_id(b) {
        let prefix = "rust-"@;
        let n = prefix.len() as int;
        assert(numbered_id(a).skip(n) =~= text::decimal(a));
        assert(numbered_id(b).skip(n) =~= text::decimal(b));
        text::decimal_is_injective(a, b);
    }
}

/// The request with which a client makes itself known, with the secret where the
/// REPL wants one.
pub open spec fn handshake_text(token: Option<Seq<char>>) -> Seq<char> {
    let fields = seq![protocol::field(":type"@, "ping"@), protocol::field(":id"@, "handshake"@)];
    "("@ + text::joined(
        match token {
            Some(t) => fields.push(protocol::field(":token"@, t)),
            None => fields,
        },
        " "@,
    ) + ")"@
}

/// Without a secret a client makes itself known by a ping.
pub proof fn plain_handshake_is_a_ping(request: ReplRequest)
    requires
        request matches ReplRequest::Ping { id } && id@ == "handshake"@,
    ensures
        handshake_text(None) == request.sexp_text(),
{
}

/// The request with which a client makes itself known.
pub fn handshake(token: Option<&str>) -> (r: String)
    ensures
        r@ == handshake_text(config::str_opt(token)),
{
    let mut fields: Vec<String> = Vec::new();
    let mut kind = ":type ".to_string();
    kind.append(protocol::lisp_string("ping").as_str());
    let mut id = ":id ".to_string();
    id.append(protocol::lisp_string("handshake").as_str());
    fields.push(kind);
    fields.push(id);
    if let Some(t) = token {
        let mut secret = ":token ".to_string();
        secret.append(protocol::lisp_string(t).as_str());
        fields.push(secret);
    }
    proof {
        reveal_strlit(":type ");
        reveal_strlit(":type");
        reveal_strlit(":id ");
        reveal_strlit(":id");
        reveal_strlit(":token ");
        reveal_strlit(":token");
        reveal_strlit(" ");
        assert(":type "@ =~= ":type"@ + " "@);
        assert(":id "@ =~= ":id"@ + " "@);
        assert(":token "@ =~= ":token"@ + " "@);
        let plain = seq![
            protocol::field(":type"@, "ping"@),
            protocol::field(":id"@, "handshake"@),
        ];
        match token {
            Some(t) => {
                assert(text::texts(fields@) =~= plain.push(protocol::field(":token"@, t@)));
            },
            None => {
                assert(text::texts(fields@) =~= plain);
            },
        }
    }
    let mut out = "(".to_string();
    out.append(text::join(&fields, " ").as_str());
    out.append(")");
    out
}

/// Whether a reply completes the handshake.
pub fn completes_handshake(reply: &Result<ReplResponse, ResponseError>) -> (r: bool)
    ensures
        r == (protocol::outcome_view(*reply) matches Ok(response) && response.data is Pong),
{
    match reply {
        Ok(response) => matches!(response.data, ResponseData::Pong),
        Err(_) => false,
    }
}

/// Whether the text of a reply completes the handshake.
pub fn handshake_answered(reply: &str) -> (r: bool)
    ensures
        r == (protocol::response_of_parsed(sexp::read_from(reply@), "handshake"@) matches Ok(response)
            && response.data is Pong),
{
    completes_handshake(&ReplResponse::from_sexp(reply, "handshake"))
}

/// The outcome of an exchange in which the request with the id `id` was sent and
/// `reply` came back.
pub fn exchange_outcome(reply: Result<String, ExchangeError>, id: &str) -> (r: Result<
    ReplResponse,
    ExchangeError,
>)
    ensures
        exchange_view(r) == (match reply {
            Ok(s) => match protocol::response_of_parsed(sexp::read_from(s@), id@) {
                Ok(response) => Ok(response),
                Err(e) => Err(ExchangeErrorView::Response(e)),
            },
            Err(e) => Err(e@),
        }),
{
    match reply {
        Ok(s) => match ReplResponse::from_sexp(s.as_str(), id) {
            Ok(response) => Ok(response),
            Err(e) => Err(ExchangeError::Response(e)),
        },
        Err(e) => Err(e),
    }
}

impl MasterReplClient {
    /// Where the client holds the lock, it is starting the REPL.
    #[verifier::type_invariant]
    pub closed spec fn lock_means_start(self) -> bool {
        self.lock_held ==> self.repl_starting
    }

    /// A client that has not connected, of the extension in this directory.
    pub fn new(extension_dir: Option<String>) -> (r: Self)
        ensures
            r@ == fresh(text::text_opt(extension_dir)),
    {
        MasterReplClient {
            connected: false,
            request_counter: 0,
            extension_dir,
            repl_starting: false,
            lock_held: false,
        }
    }

    /// Whether the lock on starting the REPL is held.
    pub fn holds_lock(&self) -> (r: bool)
        ensures
            r == self@.lock_held,
    {
        self.lock_held
    }

    /// Begins to start the REPL, unless that was begun already.
    pub fn try_start_master_repl(&mut self) -> (r: Launch)
        ensures
            r@ == (if old(self)@.repl_starting {
                LaunchView::Stopped(StopView::AlreadyStarting)
            } else {
                LaunchView::CheckAlive
            }),
            final(self)@ == (ClientView { repl_starting: true, ..old(self)@ }),
            launch_tracked(final(self)@, r@),
    {
        proof {
            use_type_invariant(&*self);
        }
        if self.repl_starting {
            return Launch::Stopped(LaunchStop::AlreadyStarting);
        }
        self.repl_starting = true;
        Launch::CheckAlive
    }

    /// Goes on with starting the REPL once what had to be done is done.
    pub fn launch_step(
        &mut self,
        at: Launch,
        answer: Answer,
        platform: Platform,
        home: Option<&str>,
        lisp_impl: &str,
    ) -> (r: Launch)
        requires
            launch_tracked(old(self)@, at@),
            fits(at@, answer@),
        ensures
            r@ == launch_next(
                old(self)@,
                at@,
                answer@,
                platform,
                config::str_opt(home),
                lisp_impl@,
            ),
            final(self)@ == launch_client(old(self)@, r@),
            launch_tracked(final(self)@, r@),
    {
        let yes = matches!(answer, Answer::Done(true));
        let next = match at {
            Launch::CheckAlive => {
                if yes {
                    Launch::Stopped(LaunchStop::AlreadyRunning)
                } else if self.extension_dir.is_none() {
                    Launch::Stopped(LaunchStop::NoExtensionDir)
                } else if text::same_text(lisp_impl, "sbcl") || text::same_text(lisp_impl, "ecl") {
                    Launch::FindExecutable(lisp_impl.to_string())
                } else {
                    Launch::Stopped(LaunchStop::Unsupported(lisp_impl.to_string()))
                }
            },
            Launch::FindExecutable(name) => {
                match (answer, &self.extension_dir) {
                    (Answer::Found(Some(program)), Some(dir)) => {
                        let dir = expand_tilde(platform, dir.as_str(), home);
                        let repl = config::join_path(platform, dir.as_str(), "repl");
                        Launch::CheckScript(
                            LaunchPlan {
                                program,
                                args: args_of(name.as_str()),
                                script: config::join_path(
                                    platform,
                                    repl.as_str(),
                                    "start-master-repl.lisp",
                                ),
                                log: master_repl_log(platform, home),
                            },
                        )
                    },
                    _ => Launch::Stopped(LaunchStop::NoProgram(name)),
                }
            },
            Launch::CheckScript(plan) => {
                if yes {
                    Launch::AcquireLock(plan)
                } else {
                    Launch::Stopped(LaunchStop::NoScript(plan.script))
                }
            },
            Launch::AcquireLock(plan) => {
                if yes {
                    Launch::OpenLog(plan)
                } else {
                    Launch::Stopped(LaunchStop::LockTaken)
                }
            },
            Launch::OpenLog(plan) => match answer {
                Answer::Tried(Some(reason)) => Launch::Stopped(LaunchStop::NoLog(reason)),
                _ => Launch::CopyLog(plan),
            },
            Launch::CopyLog(plan) => match answer {
                Answer::Tried(Some(reason)) => Launch::Stopped(LaunchStop::NoLogCopy(reason)),
                _ => Launch::Spawn(plan),
            },
            Launch::Spawn(plan) => match answer {
                Answer::Spawned(Ok(pid)) => Launch::Stopped(
                    LaunchStop::Spawned { pid, log: plan.log },
                ),
                Answer::Spawned(Err(reason)) => Launch::Stopped(LaunchStop::NotSpawned(reason)),
                _ => Launch::Spawn(plan),
            },
            Launch::Stopped(stop) => Launch::Stopped(stop),
        };
        match &next {
            Launch::Stopped(LaunchStop::Spawned { .. }) => {
                self.lock_held = true;
            },
            Launch::Stopped(_) => {
                self.repl_starting = false;
            },
            _ => {},
        }
        next
    }

    /// Whether the client has to connect before it can send. A connection that is
    /// broken is given up.
    pub fn connect(&mut self, broken: bool) -> (r: bool)
        ensures
            r == !(old(self)@.connected && !broken),
            final(self)@ == (ClientView {
                connected: old(self)@.connected && !broken,
                ..old(self)@
            }),
    {
        proof {
            use_type_invariant(&*self);
        }
        if self.connected && broken {
            self.connected = false;
        }
        !self.connected
    }

    /// Begins to wait for a connection.
    pub fn wait_for_connection(&self) -> (r: Waiting)
        ensures
            r == (Waiting { attempts: 0, max: CONNECT_ATTEMPTS }),
            r.goes_on(),
    {
        Waiting { attempts: 0, max: CONNECT_ATTEMPTS }
    }

    /// Goes on after a connection was tried, and is ready or not.
    pub fn wait_step(&mut self, waiting: &mut Waiting, ready: bool) -> (r: WaitStep)
        requires
            old(waiting).goes_on(),
        ensures
            r == (if ready {
                WaitStep::Connected
            } else if old(waiting).attempts == 0 {
                WaitStep::StartRepl
            } else {
                wait_failed(old(waiting).attempts as int, old(waiting).max as int)
            }),
            final(waiting).max == old(waiting).max,
            final(waiting).attempts == (if r == WaitStep::Connected || r == WaitStep::StartRepl {
                old(waiting).attempts as int
            } else {
                old(waiting).attempts + 1
            }),
            r != WaitStep::GiveUp ==> final(waiting).goes_on(),
            final(self)@ == (match r {
                WaitStep::Connected => wait_over(old(self)@, true),
                WaitStep::GiveUp => wait_over(old(self)@, old(self)@.connected),
                _ => old(self)@,
            }),
    {
        proof {
            use_type_invariant(&*self);
        }
        if ready {
            self.lock_held = false;
            self.repl_starting = false;
            self.connected = true;
            return WaitStep::Connected;
        }
        if waiting.attempts == 0 {
            return WaitStep::StartRepl;
        }
        self.count_attempt(waiting)
    }

    fn count_attempt(&mut self, waiting: &mut Waiting) -> (r: WaitStep)
        requires
            old(waiting).goes_on(),
        ensures
            r == wait_failed(old(waiting).attempts as int, old(waiting).max as int),
            final(waiting).max == old(waiting).max,
            final(waiting).attempts == old(waiting).attempts + 1,
            r != WaitStep::GiveUp ==> final(waiting).goes_on(),
            final(self)@ == (match r {
                WaitStep::GiveUp => wait_over(old(self)@, old(self)@.connected),
                _ => old(self)@,
            }),
    {
        waiting.attempts = waiting.attempts + 1;
        if waiting.attempts >= waiting.max {
            self.lock_held = false;
            self.repl_starting = false;
            return WaitStep::GiveUp;
        }
        WaitStep::Sleep
    }

    /// Goes on after the REPL was to be started. Where it is being started, by this
    /// client or by the owner of the lock, there is more time for a connection.
    pub fn wait_after_start(&mut self, waiting: &mut Waiting, lock_owner_alive: bool) -> (r:
        WaitStep)
        requires
            old(waiting).goes_on(),
        ensures
            final(waiting).max == (if old(self)@.repl_starting || lock_owner_alive {
                SPAWN_CONNECT_ATTEMPTS
            } else {
                old(waiting).max
            }),
            final(waiting).attempts == old(waiting).attempts + 1,
            r == wait_failed(old(waiting).attempts as int, final(waiting).max as int),
            r != WaitStep::GiveUp ==> final(waiting).goes_on(),
            final(self)@ == (match r {
                WaitStep::GiveUp => wait_over(old(self)@, old(self)@.connected),
                _ => old(self)@,
            }),
    {
        if self.repl_starting || lock_owner_alive {
            waiting.max = SPAWN_CONNECT_ATTEMPTS;
        }
        self.count_attempt(waiting)
    }

    /// Whether there is a connection that is not broken.
    pub fn is_connected(&self, broken: bool) -> (r: bool)
        ensures
            r == (self@.connected && !broken),
    {
        self.connected && !broken
    }

    /// Whether there is an id for another request.
    pub fn has_ids_left(&self) -> (r: bool)
        ensures
            r == (self@.request_counter < u64::MAX),
    {
        self.request_counter < u64::MAX
    }

    /// The id of the next request.
    pub fn next_request_id(&mut self) -> (r: String)
        requires
            old(self)@.request_counter < u64::MAX,
        ensures
            r@ == numbered_id((old(self)@.request_counter + 1) as nat),
            final(self)@ == (ClientView {
                request_counter: (old(self)@.request_counter + 1) as u64,
                ..old(self)@
            }),
    {
        proof {
            use_type_invariant(&*self);
        }
        self.request_counter = self.request_counter + 1;
        let mut id = "rust-".to_string();
        id.append(text::number_text(self.request_counter).as_str());
        id
    }

    /// Gives the request an id, where it has none.
    pub fn assign_id(&mut self, request: &mut ReplRequest)
        requires
            old(request).id_string()@.len() == 0 ==> old(self)@.request_counter < u64::MAX,
        ensures
            old(request).id_string()@.len() > 0 ==> *final(request) == *old(request)
                && final(self)@ == old(self)@,
            old(request).id_string()@.len() == 0 ==> {
                &&& *final(request) == old(request).with_id(final(request).id_string())
                &&& final(request).id_string()@ == numbered_id(
                    (old(self)@.request_counter + 1) as nat,
                )
                &&& final(self)@ == (ClientView {
                    request_counter: (old(self)@.request_counter + 1) as u64,
                    ..old(self)@
                })
            },
    {
        if request.id().is_empty() {
            let new = self.next_request_id();
            let id = request.id_mut();
            *id = new;
        }
    }

    /// Prepares a request to be sent over the connection.
    pub fn send_request(&mut self, request: ReplRequest) -> (r: Sending)
        requires
            request.id_string()@.len() == 0 ==> old(self)@.request_counter < u64::MAX,
        ensures
            r.failed is None,
            request.id_string()@.len() > 0 ==> r.id@ == request.id_string()@ && r.sexp@
                == request.sexp_text() && final(self)@ == old(self)@,
            request.id_string()@.len() == 0 ==> {
                &&& r.id@ == numbered_id((old(self)@.request_counter + 1) as nat)
                &&& exists|id: String|
                    id@ == r.id@ && r.sexp@ == (#[trigger] request.with_id(id)).sexp_text()
                &&& final(self)@ == (ClientView {
                    request_counter: (old(self)@.request_counter + 1) as u64,
                    ..old(self)@
                })
            },
    {
        let mut request = request;
        let ghost given = request;
        self.assign_id(&mut request);
        let id = request.id().to_string();
        let sexp = request.to_sexp();
        assert(given.id_string()@.len() == 0 ==> request == given.with_id(request.id_string()));
        Sending { sexp, id, failed: None }
    }

    /// Goes on after an exchange. Where the first one failed, the connection is given
    /// up and the same request is exchanged once more over a new one.
    pub fn send_step(
        &mut self,
        sending: Sending,
        outcome: Result<ReplResponse, ExchangeError>,
    ) -> (r: SendStep)
        ensures
            r@ == send_next(sending@, exchange_view(outcome)),
            final(self)@ == (if r@ is Reconnect {
                ClientView { connected: false, ..old(self)@ }
            } else {
                old(self)@
            }),
    {
        proof {
            use_type_invariant(&*self);
        }
        match outcome {
            Ok(response) => SendStep::Done(response),
            Err(e) => match sending.failed {
                None => {
                    self.connected = false;
                    SendStep::Reconnect(
                        Sending { sexp: sending.sexp, id: sending.id, failed: Some(e) },
                    )
                },
                Some(first) => SendStep::Failed { first, last: e },
            },
        }
    }

    /// Gives the connection up.
    pub fn close(&mut self)
        ensures
            final(self)@ == (ClientView { connected: false, ..old(self)@ }),
    {
        proof {
            use_type_invariant(&*self);
        }
        self.connected = false;
    }
}

/// A request is exchanged at most twice: after a second exchange there is a reply or
/// a failure.
pub proof fn second_exchange_is_last(
    sending: SendingView,
    first: ExchangeErrorView,
    outcome: Result<ReplResponseView, ExchangeErrorView>,
)
    requires
        send_next(sending, Err(first)) is Reconnect,
    ensures
        ({
            let again = send_next(sending, Err(first))->Reconnect_0;
            &&& again.sexp == sending.sexp && again.id == sending.id
            &&& !(send_next(again, outcome) is Reconnect)
        }),
{
}


// ---------------------------------------------------------------------------
// What the decisions come to

/// A REPL is started only where none runs, the extension's directory is known and the Lisp is one
/// that can be started; otherwise the start stops with the reason.
pub proof fn start_has_its_reasons(
    client: ClientView,
    platform: Platform,
    home: Option<Seq<char>>,
    lisp_impl: Seq<char>,
)
    ensures
        ({
            let alive = AnswerView::Done(true);
            let dead = AnswerView::Done(false);
            let at = LaunchView::CheckAlive;
            let known = lisp_impl == "sbcl"@ || lisp_impl == "ecl"@;
            &&& launch_next(client, at, alive, platform, home, lisp_impl) == LaunchView::Stopped(
                StopView::AlreadyRunning,
            )
            &&& client.extension_dir is None ==> launch_next(
                client,
                at,
                dead,
                platform,
                home,
                lisp_impl,
            ) == LaunchView::Stopped(StopView::NoExtensionDir)
            &&& client.extension_dir is Some && known ==> launch_next(
                client,
                at,
                dead,
                platform,
                home,
                lisp_impl,
            ) == LaunchView::FindExecutable(lisp_impl)
            &&& client.extension_dir is Some && !known ==> launch_next(
                client,
                at,
                dead,
                platform,
                home,
                lisp_impl,
            ) == LaunchView::Stopped(StopView::Unsupported(lisp_impl))
        }),
{
}

/// The program that was found is started with the arguments of its Lisp and the script of the
/// extension; where none was found, the start stops.
pub proof fn found_program_is_planned(
    client: ClientView,
    dir: Seq<char>,
    platform: Platform,
    home: Seq<char>,
    program: Seq<char>,
    lisp_impl: Seq<char>,
)
    requires
        platform != Platform::Windows,
        client.extension_dir == Some(dir),
        dir.len() > 0 && dir[0] != '~' && dir.last() != '/',
        home.len() > 0 && home.last() != '/',
    ensures
        ({
            let next = launch_next(
                client,
                LaunchView::FindExecutable(lisp_impl),
                AnswerView::Found(Some(program)),
                platform,
                Some(home),
                lisp_impl,
            );
            next matches LaunchView::CheckScript(plan) && plan.program == program && plan.script
                == dir + "/repl/start-master-repl.lisp"@ && plan.log == home
                + "/.zed-cl/logs/master-repl.log"@ && (lisp_impl == "sbcl"@ ==> plan.args == seq![
                "--noinform"@,
                "--no-userinit"@,
                "--load"@,
            ]) && (lisp_impl != "sbcl"@ ==> plan.args == seq!["-norc"@, "-load"@])
        }),
        launch_next(
            client,
            LaunchView::FindExecutable(lisp_impl),
            AnswerView::Found(None),
            platform,
            Some(home),
            lisp_impl,
        ) == LaunchView::Stopped(StopView::NoProgram(lisp_impl)),
{
    reveal_strlit("/");
    reveal_strlit("~/");
    reveal_strlit("~");
    reveal_strlit("repl");
    reveal_strlit("start-master-repl.lisp");
    reveal_strlit("/repl/start-master-repl.lisp");
    reveal_strlit(".zed-cl");
    reveal_strlit("logs");
    reveal_strlit("master-repl.log");
    reveal_strlit("/.zed-cl/logs/master-repl.log");
    if text::has_prefix(dir, "~/"@) {
        assert(dir.take(2)[0] == dir[0]);
    }
    assert(expanded(platform, dir, Some(home)) == dir);
    let a = dir + "/"@ + "repl"@;
    assert(a.last() == 'l');
    assert(a + "/"@ + "start-master-repl.lisp"@ =~= dir + "/repl/start-master-repl.lisp"@);
    let b = home + "/"@ + ".zed-cl"@;
    assert(b.last() == 'l');
    let c = b + "/"@ + "logs"@;
    assert(c.last() == 's');
    assert(c + "/"@ + "master-repl.log"@ =~= home + "/.zed-cl/logs/master-repl.log"@);
}

/// A start goes on in order, with the same plan: script, lock, log, its copy, and then the program;
/// what is missing stops it, with what was missing or why.
pub proof fn start_goes_on_in_order(
    client: ClientView,
    plan: PlanView,
    platform: Platform,
    home: Option<Seq<char>>,
    lisp_impl: Seq<char>,
    reason: Seq<char>,
    pid: u32,
)
    ensures
        ({
            let yes = AnswerView::Done(true);
            let no = AnswerView::Done(false);
            let done = AnswerView::Tried(None);
            let failed = AnswerView::Tried(Some(reason));
            &&& launch_next(client, LaunchView::CheckScript(plan), yes, platform, home, lisp_impl)
                == LaunchView::AcquireLock(plan)
            &&& launch_next(client, LaunchView::CheckScript(plan), no, platform, home, lisp_impl)
                == LaunchView::Stopped(StopView::NoScript(plan.script))
            &&& launch_next(client, LaunchView::AcquireLock(plan), yes, platform, home, lisp_impl)
                == LaunchView::OpenLog(plan)
            &&& launch_next(client, LaunchView::AcquireLock(plan), no, platform, home, lisp_impl)
                == LaunchView::Stopped(StopView::LockTaken)
            &&& launch_next(client, LaunchView::OpenLog(plan), done, platform, home, lisp_impl)
                == LaunchView::CopyLog(plan)
            &&& launch_next(client, LaunchView::OpenLog(plan), failed, platform, home, lisp_impl)
                == LaunchView::Stopped(StopView::NoLog(reason))
            &&& launch_next(client, LaunchView::CopyLog(plan), done, platform, home, lisp_impl)
                == LaunchView::Spawn(plan)
            &&& launch_next(client, LaunchView::CopyLog(plan), failed, platform, home, lisp_impl)
                == LaunchView::Stopped(StopView::NoLogCopy(reason))
            &&& launch_next(
                client,
                LaunchView::Spawn(plan),
                AnswerView::Spawned(Ok(pid)),
                platform,
                home,
                lisp_impl,
            ) == LaunchView::Stopped(StopView::Spawned { pid, log: plan.log })
            &&& launch_next(
                client,
                LaunchView::Spawn(plan),
                AnswerView::Spawned(Err(reason)),
                platform,
                home,
                lisp_impl,
            ) == LaunchView::Stopped(StopView::NotSpawned(reason))
        }),
{
}

/// A start changes nothing that the client remembers but that it goes on and the lock; the lock only
/// where the program was started.
pub proof fn start_changes_little(client: ClientView, at: LaunchView)
    ensures
        ({
            let after = launch_client(client, at);
            &&& after.connected == client.connected
            &&& after.request_counter == client.request_counter
            &&& after.extension_dir == client.extension_dir
            &&& after.lock_held && !client.lock_held ==> at is Stopped && at->Stopped_0 is Spawned
            &&& after.repl_starting ==> client.repl_starting
        }),
{
}

/// A tilde at the beginning of a path stands for the home directory, alone or before a slash, and
/// nowhere else; without a home directory it stays.
pub proof fn tilde_is_home(platform: Platform, home: Seq<char>, rest: Seq<char>, path: Seq<char>)
    requires
        platform != Platform::Windows,
        home.len() > 0 && home.last() != '/',
        rest.len() > 0 && rest[0] != '/',
    ensures
        expanded(platform, "~"@, Some(home)) == home,
        expanded(platform, "~/"@ + rest, Some(home)) == home + "/"@ + rest,
        expanded(platform, path, None) == path,
        path.len() > 0 && path[0] != '~' ==> expanded(platform, path, Some(home)) == path,
{
    reveal_strlit("~");
    reveal_strlit("~/");
    reveal_strlit("/");
    let p = "~/"@ + rest;
    assert(p.take(2) =~= "~/"@);
    assert(p.skip(2) =~= rest);
    if text::has_prefix(path, "~/"@) {
        assert(path.take(2)[0] == path[0]);
    }
}

/// A reply ends the sending, and is its result, whether it is the first try or the second. A first
/// failure leads to a second try of the same request; a second failure is told with the first.
pub proof fn replies_end_sending(
    sending: SendingView,
    response: ReplResponseView,
    first: ExchangeErrorView,
    second: ExchangeErrorView,
)
    requires
        sending.failed is None,
    ensures
        ({
            let again = SendingView { failed: Some(first), ..sending };
            &&& send_next(sending, Ok(response)) == SendView::Done(response)
            &&& send_next(again, Ok(response)) == SendView::Done(response)
            &&& send_next(sending, Err(first)) == SendView::Reconnect(again)
            &&& send_next(again, Err(second)) == (SendView::Failed { first, last: second })
        }),
{
}

/// The handshake is a ping with the id `handshake`, and the secret in quotes where there is one.
pub proof fn handshake_is_written(token: Option<Seq<char>>)
    ensures
        handshake_text(token) == "(:type "@ + protocol::quoted("ping"@) + " :id "@
            + protocol::quoted("handshake"@) + (match token {
            Some(t) => " :token "@ + protocol::quoted(t),
            None => Seq::empty(),
        }) + ")"@,
{
    reveal_strlit("(:type ");
    reveal_strlit("(");
    reveal_strlit(":type");
    reveal_strlit(" ");
    reveal_strlit(" :id ");
    reveal_strlit(":id");
    reveal_strlit(" :token ");
    reveal_strlit(":token");
    assert("(:type "@ =~= "("@ + ":type"@ + " "@);
    assert(" :id "@ =~= " "@ + ":id"@ + " "@);
    assert(" :token "@ =~= " "@ + ":token"@ + " "@);
    let fields = seq![protocol::field(":type"@, "ping"@), protocol::field(":id"@, "handshake"@)];
    assert(fields.drop_last().len() == 1);
    assert(text::joined(fields.drop_last(), " "@) == fields[0]);
    let both = text::joined(fields, " "@);
    assert(both == fields[0] + " "@ + fields[1]);
    match token {
        Some(t) => {
            let all = fields.push(protocol::field(":token"@, t));
            assert(all.drop_last() =~= fields);
            assert(handshake_text(token) =~= "(:type "@ + protocol::quoted("ping"@) + " :id "@
                + protocol::quoted("handshake"@) + (" :token "@ + protocol::quoted(t)) + ")"@);
        },
        None => {
            assert(handshake_text(token) =~= "(:type "@ + protocol::quoted("ping"@) + " :id "@
                + protocol::quoted("handshake"@) + Seq::<char>::empty() + ")"@);
        },
    }
}

/// A program is looked for in one directory after the other, in each by its name and then with the
/// suffix of Windows.
pub proof fn directories_are_searched_in_order(
    platform: Platform,
    dirs: Seq<Seq<char>>,
    dir: Seq<char>,
    name: Seq<char>,
)
    requires
        platform != Platform::Windows,
        dir.len() > 0 && dir.last() != '/',
    ensures
        program_paths(platform, dirs.push(dir), name) == program_paths(platform, dirs, name) + seq![
            dir + "/"@ + name,
            dir + "/"@ + name + ".exe"@,
        ],
        program_paths(platform, Seq::empty(), name).len() == 0,
{
    reveal_strlit("/");
    assert(dirs.push(dir).drop_last() =~= dirs);
    assert(dir + "/"@ + (name + ".exe"@) =~= dir + "/"@ + name + ".exe"@);
}

/// Who cannot be connected learns after how many seconds, five tries to a second, and where the log
/// is; or, where something listens, that it is no REPL that answers.
pub proof fn missing_connection_is_told(attempts: u32, log: Seq<char>)
    ensures
        no_connection_text(false, attempts, log) == "Failed to connect to master REPL after "@
            + text::decimal((attempts / 5) as nat) + "s. Check "@ + log + " and install SBCL."@,
        text::has_suffix(no_connection_text(true, attempts, log), log),
{
    assert((attempts * CONNECT_RETRY_MILLIS / 1000) == attempts / 5) by (nonlinear_arith)
        requires
            CONNECT_RETRY_MILLIS == 200,
    ;
    let t = no_connection_text(true, attempts, log);
    assert(t.skip(t.len() - log.len()) =~= log);
}


/// The ids of requests are `rust-` and the number of the request.
pub proof fn ids_show_numbers(n: u32)
    ensures
        text::has_prefix(numbered_id(n as nat), "rust-"@),
        text::u32_value(numbered_id(n as nat).skip(5)) == Some(n),
{
    reveal_strlit("rust-");
    let id = numbered_id(n as nat);
    text::decimal_is_read_back(n as nat);
    assert(id.take(5) =~= "rust-"@);
    assert(id.skip(5) =~= text::decimal(n as nat));
    assert('0' <= text::decimal(n as nat)[0]);
}

/// A connection is awaited for ten seconds, and for forty-five while the REPL is being started.
pub proof fn waiting_takes_its_time()
    ensures
        CONNECT_ATTEMPTS * CONNECT_RETRY_MILLIS == 10_000,
        SPAWN_CONNECT_ATTEMPTS * CONNECT_RETRY_MILLIS == 45_000,
        LOCK_ATTEMPTS == 3,
{
}

/// The end of waiting leaves no start and no lock behind, and nothing else is changed.
pub proof fn waiting_leaves_nothing(client: ClientView, connected: bool)
    ensures
        ({
            let after = wait_over(client, connected);
            &&& !after.repl_starting && !after.lock_held
            &&& after.connected == connected
            &&& after.request_counter == client.request_counter
            &&& after.extension_dir == client.extension_dir
        }),
{
}

}
