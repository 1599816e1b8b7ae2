use zed_cl::config::{Platform, Profile};
use zed_cl::frame::FrameError;
use zed_cl::master_repl::{
    completes_handshake, connection_file_path, exchange_outcome, executable_names, expand_tilde,
    extra_install_dirs, failure_message, handshake, handshake_answered, locate_in_dir, lock_owner, lock_step,
    master_repl_log, no_connection_message, releases_lock, Answer, ExchangeError, Launch,
    LaunchStop, LockEvent, LockStep, LogLevel, MasterReplClient, SendStep, WaitStep, CONNECT_ATTEMPTS,
    SPAWN_CONNECT_ATTEMPTS,
};
use zed_cl::protocol::{ReplRequest, ReplResponse, ResponseData, ResponseError};

const HOME: Option<&str> = Some("/h");

fn client() -> MasterReplClient {
    MasterReplClient::new(Some("~/ext".to_string()))
}

fn step(client: &mut MasterReplClient, at: Launch, answer: Answer, lisp: &str) -> Launch {
    client.launch_step(at, answer, Platform::Other, HOME, lisp)
}

#[test]
fn a_repl_is_started_step_by_step() {
    let mut c = client();
    let at = c.try_start_master_repl();
    assert!(matches!(at, Launch::CheckAlive));
    let at = step(&mut c, at, Answer::Done(false), "sbcl");
    assert!(matches!(&at, Launch::FindExecutable(name) if name == "sbcl"));
    let at = step(&mut c, at, Answer::Found(Some("/usr/bin/sbcl".to_string())), "sbcl");
    match &at {
        Launch::CheckScript(plan) => {
            assert_eq!(plan.program, "/usr/bin/sbcl");
            assert_eq!(plan.args, vec!["--noinform", "--no-userinit", "--load"]);
            assert_eq!(plan.script, "/h/ext/repl/start-master-repl.lisp");
            assert_eq!(plan.log, "/h/.zed-cl/logs/master-repl.log");
        }
        other => panic!("unexpected {other:?}"),
    }
    let at = step(&mut c, at, Answer::Done(true), "sbcl");
    assert!(matches!(at, Launch::AcquireLock(_)));
    let at = step(&mut c, at, Answer::Done(true), "sbcl");
    assert!(matches!(at, Launch::OpenLog(_)));
    let at = step(&mut c, at, Answer::Tried(None), "sbcl");
    assert!(matches!(at, Launch::CopyLog(_)));
    let at = step(&mut c, at, Answer::Tried(None), "sbcl");
    assert!(matches!(at, Launch::Spawn(_)));
    let at = step(&mut c, at, Answer::Spawned(Ok(42)), "sbcl");
    let stop = stop_of(at);
    assert_eq!(
        stop.message(),
        "Master REPL spawned with PID: 42 (log: /h/.zed-cl/logs/master-repl.log)"
    );
    assert_eq!(stop.level(), LogLevel::Info);
    assert!(c.holds_lock());
    let again = c.try_start_master_repl();
    assert!(matches!(again, Launch::Stopped(LaunchStop::AlreadyStarting)));
}

fn stop_of(at: Launch) -> LaunchStop {
    match at {
        Launch::Stopped(stop) => stop,
        other => panic!("unexpected {other:?}"),
    }
}

#[test]
fn a_start_stops_short_with_a_reason() {
    let mut c = client();
    let at = c.try_start_master_repl();
    let stop = stop_of(step(&mut c, at, Answer::Done(true), "sbcl"));
    assert!(matches!(stop, LaunchStop::AlreadyRunning));
    assert_eq!(stop.level(), LogLevel::Debug);

    let mut c = MasterReplClient::new(None);
    let at = c.try_start_master_repl();
    let stop = stop_of(step(&mut c, at, Answer::Done(false), "sbcl"));
    assert!(matches!(stop, LaunchStop::NoExtensionDir));
    assert_eq!(
        stop.message(),
        "ZED_CL_EXTENSION_DIR not set, cannot auto-start master REPL"
    );

    let mut c = client();
    let at = c.try_start_master_repl();
    let stop = stop_of(step(&mut c, at, Answer::Done(false), "ccl"));
    assert_eq!(
        stop.message(),
        "Unsupported Lisp implementation: ccl. Supported: sbcl, ecl"
    );
    let at = c.try_start_master_repl();
    let at = step(&mut c, at, Answer::Done(false), "ecl");
    let stop = stop_of(step(&mut c, at, Answer::Found(None), "ecl"));
    assert_eq!(stop.message(), "ECL not found in PATH (lisp_impl=ecl).");

    let at = c.try_start_master_repl();
    let at = step(&mut c, at, Answer::Done(false), "ecl");
    let at = step(&mut c, at, Answer::Found(Some("/e".to_string())), "ecl");
    assert!(matches!(&at, Launch::CheckScript(plan) if plan.args == vec!["-norc", "-load"]));
    let stop = stop_of(step(&mut c, at, Answer::Done(false), "ecl"));
    assert_eq!(
        stop.message(),
        "Master REPL startup script not found at \"/h/ext/repl/start-master-repl.lisp\""
    );
    assert_eq!(stop.level(), LogLevel::Error);
    assert!(!releases_lock(&stop));
    assert!(!c.holds_lock());
}

#[test]
fn a_failed_start_gives_the_lock_back() {
    let messages = [
        "Failed to create master REPL log file: full",
        "Failed to clone log file handle: full",
        "Failed to spawn master REPL: full",
    ];
    for (tried, message) in messages.iter().enumerate() {
        let mut c = client();
        let mut at = c.try_start_master_repl();
        at = step(&mut c, at, Answer::Done(false), "sbcl");
        at = step(&mut c, at, Answer::Found(Some("/s".to_string())), "sbcl");
        at = step(&mut c, at, Answer::Done(true), "sbcl");
        at = step(&mut c, at, Answer::Done(true), "sbcl");
        for _ in 0..tried {
            at = step(&mut c, at, Answer::Tried(None), "sbcl");
        }
        let last = if tried == 2 {
            Answer::Spawned(Err("full".to_string()))
        } else {
            Answer::Tried(Some("full".to_string()))
        };
        let stop = stop_of(step(&mut c, at, last, "sbcl"));
        assert_eq!(stop.message(), *message);
        assert!(releases_lock(&stop));
        assert!(!c.holds_lock());
        assert!(matches!(c.try_start_master_repl(), Launch::CheckAlive));
    }
    let mut c = client();
    let mut at = c.try_start_master_repl();
    at = step(&mut c, at, Answer::Done(false), "sbcl");
    at = step(&mut c, at, Answer::Found(Some("/s".to_string())), "sbcl");
    at = step(&mut c, at, Answer::Done(true), "sbcl");
    let stop = stop_of(step(&mut c, at, Answer::Done(false), "sbcl"));
    assert!(matches!(stop, LaunchStop::LockTaken));
    assert!(!releases_lock(&stop));
}

#[test]
fn waiting_gives_up_after_a_while() {
    for (alive, limit) in [(false, CONNECT_ATTEMPTS), (true, SPAWN_CONNECT_ATTEMPTS)] {
        let mut c = client();
        let mut waiting = c.wait_for_connection();
        assert_eq!(c.wait_step(&mut waiting, false), WaitStep::StartRepl);
        assert_eq!(c.wait_after_start(&mut waiting, alive), WaitStep::Sleep);
        let mut tries = 1;
        while c.wait_step(&mut waiting, false) == WaitStep::Sleep {
            tries += 1;
        }
        assert_eq!(tries + 1, limit);
        assert_eq!(waiting.attempts, limit);
        assert!(!c.is_connected(false));
    }
}

#[test]
fn a_connection_ends_the_waiting() {
    let mut c = client();
    assert!(c.connect(false));
    let mut waiting = c.wait_for_connection();
    assert_eq!(c.wait_step(&mut waiting, true), WaitStep::Connected);
    assert!(c.is_connected(false));
    assert!(!c.is_connected(true));
    assert!(!c.connect(false));
    assert!(c.connect(true));
    assert!(!c.is_connected(false));
    let mut waiting = c.wait_for_connection();
    c.wait_step(&mut waiting, true);
    c.close();
    assert!(!c.is_connected(false));
}

#[test]
fn a_start_gives_more_time() {
    let mut c = client();
    let mut waiting = c.wait_for_connection();
    assert_eq!(c.wait_step(&mut waiting, false), WaitStep::StartRepl);
    c.try_start_master_repl();
    assert_eq!(c.wait_after_start(&mut waiting, false), WaitStep::Sleep);
    assert_eq!(waiting.max, SPAWN_CONNECT_ATTEMPTS);
}

#[test]
fn requests_get_numbered_ids() {
    let mut c = client();
    let first = c.send_request(ReplRequest::Ping { id: String::new() });
    assert_eq!(first.id, "rust-1");
    assert_eq!(first.sexp, r#"(:type "ping" :id "rust-1")"#);
    let own = c.send_request(ReplRequest::Ping { id: "mine".to_string() });
    assert_eq!(own.id, "mine");
    let second = c.send_request(ReplRequest::Ping { id: String::new() });
    assert_eq!(second.id, "rust-2");
    assert_eq!(c.next_request_id(), "rust-3");
}

#[test]
fn a_failed_exchange_is_repeated_once() {
    let mut c = client();
    let mut waiting = c.wait_for_connection();
    c.wait_step(&mut waiting, true);
    let sending = c.send_request(ReplRequest::Ping { id: String::new() });
    let again = match c.send_step(sending, Err(ExchangeError::Broken("reset".to_string()))) {
        SendStep::Reconnect(again) => again,
        other => panic!("unexpected {other:?}"),
    };
    assert!(!c.is_connected(false));
    assert_eq!(again.id, "rust-1");
    assert_eq!(again.sexp, r#"(:type "ping" :id "rust-1")"#);
    let cut = ExchangeError::Frame {
        error: FrameError::NoBody,
        reason: Some("end of file".to_string()),
    };
    match c.send_step(again, Err(cut.clone())) {
        SendStep::Failed { first, last } => {
            assert_eq!(first, ExchangeError::Broken("reset".to_string()));
            assert_eq!(last, cut);
            assert_eq!(
                failure_message(&first, &last),
                "Failed after reconnect: reset: Failed to read frame body: end of file"
            );
        }
        other => panic!("unexpected {other:?}"),
    }
    let sending = c.send_request(ReplRequest::Ping { id: String::new() });
    let reply = exchange_outcome(Ok("(:PONG T)".to_string()), &sending.id);
    match c.send_step(sending, reply) {
        SendStep::Done(response) => {
            assert_eq!(response.id, "rust-2");
            assert!(matches!(response.data, ResponseData::Pong));
        }
        other => panic!("unexpected {other:?}"),
    }
}

#[test]
fn outcomes_tell_what_failed() {
    let bad = exchange_outcome(Ok("(".to_string()), "1").unwrap_err();
    assert!(matches!(&bad, ExchangeError::Response(ResponseError::Syntax(_))));
    assert!(bad.message().starts_with("Failed to parse s-expression: "));
    let long = ExchangeError::Frame { error: FrameError::TooLarge(9), reason: None };
    assert_eq!(long.message(), "frame too large: 9");
    assert_eq!(FrameError::TooLarge(7).message(), "frame too large: 7");
    let none = exchange_outcome(Err(ExchangeError::NotConnected), "1").unwrap_err();
    assert_eq!(none, ExchangeError::NotConnected);
}

#[test]
fn the_handshake_is_a_ping() {
    assert_eq!(handshake(None), "(:type \"ping\" :id \"handshake\")");
    assert_eq!(
        handshake(Some("s\"1")),
        "(:type \"ping\" :id \"handshake\" :token \"s\\\"1\")"
    );
    assert!(handshake_answered("(:ID \"handshake\" :PONG T)"));
    assert!(!handshake_answered("(:ERROR \"no\")"));
    assert!(!handshake_answered("("));
    assert!(completes_handshake(&ReplResponse::from_sexp("(:OK T)", "x")));
    assert!(!completes_handshake(&Err(ResponseError::NotAList)));
}

#[test]
fn locks_of_dead_owners_are_removed() {
    assert_eq!(lock_step(1, LockEvent::Created), LockStep::Acquired);
    assert_eq!(lock_step(1, LockEvent::Failed), LockStep::Refused);
    assert_eq!(lock_step(1, LockEvent::Exists { owner_alive: true }), LockStep::Refused);
    assert_eq!(lock_step(2, LockEvent::Exists { owner_alive: false }), LockStep::RemoveAndRetry);
    assert_eq!(lock_step(3, LockEvent::Exists { owner_alive: false }), LockStep::RemoveAndGiveUp);
    assert_eq!(lock_owner(" 42\n"), Some(42));
    assert_eq!(lock_owner("x"), None);
    assert_eq!(lock_owner(&u32::MAX.to_string()), Some(u32::MAX));
}

#[test]
fn programs_are_looked_for_in_order() {
    assert_eq!(executable_names("sbcl"), vec!["sbcl", "sbcl.exe"]);
    let dirs = extra_install_dirs(Platform::Other, HOME);
    assert_eq!(
        dirs,
        vec![
            "/h/.local/bin",
            "/h/scoop/shims",
            "/h/scoop/apps/sbcl/current",
            "/opt/homebrew/bin",
            "/usr/local/bin",
            "/usr/bin",
            "C:\\Program Files\\Steel Bank Common Lisp",
            "C:\\Program Files (x86)\\Steel Bank Common Lisp",
        ]
    );
    assert_eq!(extra_install_dirs(Platform::Other, None).len(), 5);
    assert_eq!(
        locate_in_dir(Platform::Other, "/d", &vec!["/d/x".to_string()], "ecl"),
        vec!["/d/ecl", "/d/ecl.exe", "/d/x/ecl", "/d/x/ecl.exe"]
    );
}

#[test]
fn the_tilde_is_the_home_directory() {
    assert_eq!(expand_tilde(Platform::Other, "~/a", HOME), "/h/a");
    assert_eq!(expand_tilde(Platform::Other, "~", HOME), "/h");
    assert_eq!(expand_tilde(Platform::Other, "~u/a", HOME), "~u/a");
    assert_eq!(expand_tilde(Platform::Other, "~/a", None), "~/a");
    assert_eq!(expand_tilde(Platform::Other, "~//a", HOME), "/a");
}

#[test]
fn messages_name_the_log() {
    let log = master_repl_log(Platform::Other, HOME);
    assert_eq!(
        no_connection_message(false, 50, &log),
        "Failed to connect to master REPL after 10s. Check /h/.zed-cl/logs/master-repl.log and install SBCL."
    );
    assert_eq!(
        no_connection_message(true, 50, "L"),
        "Master REPL is listening but did not complete a framed ping. Restart the old SBCL process. Log: L"
    );
    assert_eq!(
        connection_file_path(&Profile::get(None), Platform::Other, HOME),
        "/h/.zed-cl/repl-sbcl.json"
    );
}
