use zed_cl::config::{
    config_path, data_dir, default_active_profile, default_lisp_impl, default_system_index,
    home_dir, join_path, log_dir, resolve_path, ActiveProfile, ConfigFile, Platform, Profile,
};
use zed_cl::connection::ConnectionInfo;
use zed_cl::table::Table;

fn profile(lisp_impl: &str) -> Profile {
    Profile {
        lisp_impl: lisp_impl.to_string(),
        system_index: "i.db".to_string(),
        completion_package_whitelist: Some(vec!["CL".to_string()]),
    }
}

#[test]
fn the_active_profile_counts() {
    let mut profiles = Table::new();
    profiles.insert("mine".to_string(), profile("ecl"));
    let config = ConfigFile { active_profile: "mine".to_string(), profiles };
    let active = Profile::get(Some(&config));
    assert_eq!(active.lisp_impl, "ecl");
    assert_eq!(active.system_index, "i.db");
    assert_eq!(active.completion_package_whitelist, Some(vec!["CL".to_string()]));
}

#[test]
fn without_a_profile_the_default_counts() {
    let config = ConfigFile { active_profile: "other".to_string(), profiles: Table::new() };
    assert!(Profile::load_active(&config).is_none());
    let active = Profile::get(Some(&config));
    assert_eq!(active.lisp_impl, "sbcl");
    assert_eq!(active.system_index, "system-index.db");
    assert_eq!(active.completion_package_whitelist, None);
    assert_eq!(Profile::get(None).lisp_impl, default_lisp_impl());
    assert_eq!(default_active_profile(), "sbcl");
    assert_eq!(default_system_index(), "system-index.db");
}

#[test]
fn the_profile_is_read_once() {
    let mut active = ActiveProfile::new();
    assert_eq!(active.get(None).lisp_impl, "sbcl");
    let mut profiles = Table::new();
    profiles.insert("mine".to_string(), profile("ecl"));
    let config = ConfigFile { active_profile: "mine".to_string(), profiles };
    assert_eq!(active.get(Some(&config)).lisp_impl, "sbcl");
    let mut active = ActiveProfile::new();
    assert_eq!(active.get(Some(&config)).lisp_impl, "ecl");
    assert_eq!(active.get(None).lisp_impl, "ecl");
}

#[test]
fn files_lie_below_the_home_directory() {
    let p = profile("sbcl");
    let home = Some("/home/u");
    assert_eq!(data_dir(Platform::Other, home), "/home/u/.zed-cl");
    assert_eq!(data_dir(Platform::Other, None), ".zed-cl");
    assert_eq!(log_dir(Platform::Other, home), "/home/u/.zed-cl/logs");
    assert_eq!(config_path(Platform::Other, home), "/home/u/.zed-cl/config.json");
    assert_eq!(
        p.connection_file_path(Platform::Other, home),
        "/home/u/.zed-cl/repl-sbcl.json"
    );
    assert_eq!(
        p.spawn_lock_path(Platform::Windows, Some("C:\\u")),
        "C:\\u\\.zed-cl\\repl-sbcl.lock"
    );
}

#[test]
fn paths_are_joined_as_on_their_platform() {
    assert_eq!(join_path(Platform::Other, "/a/", "b"), "/a/b");
    assert_eq!(join_path(Platform::Other, "", "b"), "b");
    assert_eq!(join_path(Platform::Windows, "C:", "b"), "C:b");
    assert_eq!(join_path(Platform::Windows, "C:\\", "b"), "C:\\b");
    assert_eq!(join_path(Platform::Other, "a\\", "b"), "a\\/b");
    assert_eq!(resolve_path(Platform::Other, "/a", "/b"), "/b");
    assert_eq!(resolve_path(Platform::Windows, "C:\\a", "\\b"), "C:\\b");
    assert_eq!(resolve_path(Platform::Windows, "C:\\a", "D:\\b"), "D:\\b");
    assert_eq!(resolve_path(Platform::Windows, "C:\\a", "\\\\s\\t"), "\\\\s\\t");
    let share = r"\\srv\share\x";
    assert_eq!(resolve_path(Platform::Windows, share, r"\foo"), r"\\srv\share\foo");
    assert_eq!(resolve_path(Platform::Windows, share, "foo"), r"\\srv\share\x\foo");
    assert_eq!(resolve_path(Platform::Windows, r"\\srv", r"\foo"), r"\foo");
    let verbatim = r"\\?\C:\Users\x";
    assert_eq!(join_path(Platform::Windows, verbatim, ".local/bin"), r"\\?\C:\Users\x\.local\bin");
    assert_eq!(join_path(Platform::Windows, verbatim, "./a/../b"), r"\\?\C:\Users\x\b");
    assert_eq!(join_path(Platform::Windows, verbatim, "../../.."), r"\\?\C:\");
    assert_eq!(join_path(Platform::Windows, verbatim, ""), r"\\?\C:\Users\x\");
    assert_eq!(resolve_path(Platform::Windows, verbatim, "/d/e"), r"\\?\C:\d\e");
    let share = r"\\?\UNC\srv\share\x";
    assert_eq!(resolve_path(Platform::Windows, share, r"\foo"), r"\\?\UNC\srv\share\foo");
    assert_eq!(resolve_path(Platform::Windows, "C:", verbatim), verbatim);
    for (a, b) in [("/a", "b"), ("/a/", "b"), ("", "b"), ("/a", "/b"), ("a", "b/c"), ("a", "")] {
        let joined = std::path::Path::new(a).join(b);
        assert_eq!(resolve_path(Platform::Other, a, b), joined.to_str().unwrap());
    }
}

#[test]
fn the_home_directory_depends_on_the_platform() {
    let profile = Some("C:\\u".to_string());
    let home = Some("/h".to_string());
    assert_eq!(home_dir(Platform::Windows, profile.clone(), home.clone()), profile);
    assert_eq!(home_dir(Platform::Windows, None, home.clone()), home);
    assert_eq!(home_dir(Platform::Other, profile, home.clone()), home);
    assert_eq!(home_dir(Platform::MacOs, None, None), None);
}

#[test]
fn addresses_name_the_transport() {
    let info = ConnectionInfo {
        ip: "127.0.0.1".to_string(),
        transport: "tcp".to_string(),
        signature_scheme: "hmac-sha256".to_string(),
        key: "k".to_string(),
        shell_port: 1,
        iopub_port: 22,
        stdin_port: 333,
        control_port: 4444,
        hb_port: 65535,
    };
    assert_eq!(info.address(80), "tcp://127.0.0.1:80");
    assert_eq!(info.shell_address(), "tcp://127.0.0.1:1");
    assert_eq!(info.iopub_address(), "tcp://127.0.0.1:22");
    assert_eq!(info.stdin_address(), "tcp://127.0.0.1:333");
    assert_eq!(info.control_address(), "tcp://127.0.0.1:4444");
    assert_eq!(info.hb_address(), "tcp://127.0.0.1:65535");
}
