use zed_cl::definition::{OffsetCounter, SourcePlace, create_external_location};
use zed_cl::document::{
    apply_change, position_to_offset, DocumentTracker, Position, Range, TextChange,
};
use zed_cl::uri::{current_file_request, file_request, file_uri, indexed_location, root_path};
use zed_cl::workspace::{
    is_workspace_file, root_directory, system_index_path, trigger_characters,
    uri_in_workspace_root, user_index_path, workspace_roots,
};
use zed_cl::config::{Platform, Profile};
use zed_cl::protocol::ReplRequest;

fn at(line: u32, character: u32) -> Position {
    Position { line, character }
}

#[test]
fn incremental_change_uses_utf16_columns() {
    // A character beyond the basic plane is one character but two UTF-16 units.
    let mut text = String::from("(\u{1f600})");
    let range = Range { start: at(0, 3), end: at(0, 4) };
    apply_change(&mut text, range, " x)");
    assert_eq!(text, "(\u{1f600} x)");
}

#[test]
fn positions_stay_in_their_line() {
    let s = "ab\nc\u{e9}\n";
    assert_eq!(position_to_offset(s, at(0, 0)), 0);
    assert_eq!(position_to_offset(s, at(0, 99)), 2);
    assert_eq!(position_to_offset(s, at(1, 1)), 4);
    assert_eq!(position_to_offset(s, at(1, 99)), 6);
    assert_eq!(position_to_offset(s, at(2, 0)), 7);
    assert_eq!(position_to_offset(s, at(9, 0)), 7);
    assert_eq!(position_to_offset("", at(0, 5)), 0);
    assert_eq!(position_to_offset("\u{1f600}x", at(0, 1)), 4);
}

#[test]
fn documents_follow_their_changes() {
    let mut tracker = DocumentTracker::new();
    tracker.open("file:///a".to_string(), "one\ntwo".to_string());
    tracker.open("file:///b".to_string(), "other".to_string());
    tracker.change(
        "file:///a".to_string(),
        vec![
            TextChange {
                range: Some(Range { start: at(0, 0), end: at(0, 3) }),
                text: "1".to_string(),
            },
            TextChange {
                range: Some(Range { start: at(1, 3), end: at(1, 3) }),
                text: "!".to_string(),
            },
        ],
    );
    assert_eq!(tracker.get("file:///a").unwrap(), "1\ntwo!");
    assert_eq!(tracker.get("file:///b").unwrap(), "other");
    tracker.change(
        "file:///a".to_string(),
        vec![TextChange { range: None, text: "new".to_string() }],
    );
    assert_eq!(tracker.get("file:///a").unwrap(), "new");
    tracker.change(
        "file:///c".to_string(),
        vec![TextChange { range: None, text: "x".to_string() }],
    );
    assert!(tracker.get("file:///c").is_none());
    tracker.close("file:///a");
    assert!(tracker.get("file:///a").is_none());
    assert!(tracker.get("file:///b").is_some());
}

#[test]
fn edits_keep_the_rest() {
    let mut text = "abc\ndef\nghi".to_string();
    apply_change(&mut text, Range { start: at(0, 1), end: at(2, 1) }, "-");
    assert_eq!(text, "a-hi");
}

#[test]
fn workspace_match_requires_path_separator() {
    assert!(uri_in_workspace_root(
        "file:///tmp/examples/foo.lisp",
        "file:///tmp/examples"
    ));
    assert!(!uri_in_workspace_root(
        "file:///tmp/examples-extra/foo.lisp",
        "file:///tmp/examples"
    ));
}

#[test]
fn roots_may_end_in_slashes() {
    assert!(uri_in_workspace_root("file:///r/a", "file:///r//"));
    assert!(uri_in_workspace_root("file:///r", "file:///r"));
    assert!(!uri_in_workspace_root("file:///r", "file:///r/"));
    assert!(is_workspace_file("file:///x", &vec![]));
    let roots = vec!["file:///a".to_string(), "file:///b/".to_string()];
    assert!(is_workspace_file("file:///b/x", &roots));
    assert!(!is_workspace_file("file:///c/x", &roots));
}

#[test]
fn roots_come_from_the_editor() {
    let old = vec!["file:///o".to_string()];
    let folders = Some(vec!["file:///f".to_string()]);
    assert_eq!(workspace_roots(old.clone(), folders, None), vec!["file:///f"]);
    assert_eq!(
        workspace_roots(old.clone(), None, Some("file:///r".to_string())),
        vec!["file:///o", "file:///r"]
    );
    assert_eq!(workspace_roots(old.clone(), None, None), old);
    assert_eq!(root_directory(true, false, Some("/p")).unwrap(), "/p");
    assert_eq!(root_directory(true, true, Some("/p")), None);
    assert_eq!(root_directory(false, false, Some("/p")), None);
    assert_eq!(root_directory(true, false, Some("")), None);
    assert_eq!(trigger_characters(), vec!["(", ":", "-", "*", "+"]);
}

#[test]
fn indexes_lie_with_the_data() {
    let mut profile = Profile::get(None);
    assert_eq!(
        system_index_path(&profile, Platform::Other, Some("/h")),
        "/h/.zed-cl/system-index.db"
    );
    profile.system_index = "/abs/i.db".to_string();
    assert_eq!(system_index_path(&profile, Platform::Other, Some("/h")), "/abs/i.db");
    assert_eq!(user_index_path(Platform::Other, Some("/h")), "/h/.zed-cl/user-index.db");
}

#[test]
fn files_have_addresses() {
    assert_eq!(file_uri("/tmp/a b.lisp").unwrap(), "file:///tmp/a%20b.lisp");
    assert_eq!(file_uri("relative.lisp"), None);
    assert_eq!(file_uri(""), None);
    assert_eq!(file_uri("/").unwrap(), "file:///");
    let location = indexed_location("/tmp/a.lisp", 4, 2).unwrap();
    assert_eq!(location.uri, "file:///tmp/a.lisp");
    assert_eq!(location.range, Range { start: at(4, 2), end: at(4, 2) });
    assert!(indexed_location("a.lisp", 4, 2).is_none());
    let shown = tower_lsp::lsp_types::Url::parse("file:///tmp/a%20b").unwrap();
    match current_file_request(&shown) {
        Some(ReplRequest::SetCurrentFile { path, .. }) => assert_eq!(path, "/tmp/a b"),
        other => panic!("unexpected {other:?}"),
    }
    match file_request(Some("/tmp/a".to_string())) {
        Some(ReplRequest::SetCurrentFile { id, path, contents }) => {
            assert_eq!(id, "");
            assert_eq!(path, "/tmp/a");
            assert_eq!(contents, None);
        }
        other => panic!("unexpected {other:?}"),
    }
    assert!(file_request(None).is_none());
}

#[test]
fn addresses_have_paths() {
    let path = |uri: &str| root_path(&tower_lsp::lsp_types::Url::parse(uri).unwrap());
    assert_eq!(path("file:///tmp/a%20b").unwrap(), "/tmp/a b");
    assert_eq!(path("file:///tmp/a:").unwrap(), "/tmp/a:/");
    assert_eq!(path("file:///C:/x").unwrap(), "/C:/x");
    if !std::path::is_separator('\\') {
        assert_eq!(path("file:///C:").unwrap(), "/C:/");
        assert_eq!(path("file:///c%3A?q").unwrap(), "/c:/");
    }
    assert_eq!(path("file://server/"), None);
    assert_eq!(path("file://server/share"), None);
    assert_eq!(path("untitled:x"), None);
}

#[test]
fn offsets_are_counted_in_pieces() {
    let bytes = b"ab\ncd\nef";
    let mut whole = OffsetCounter::new(7);
    whole.count(bytes);
    assert!(whole.is_done());
    assert_eq!(whole.position(), at(2, 1));
    let mut pieces = OffsetCounter::new(7);
    pieces.count(&bytes[..3]);
    assert!(!pieces.is_done());
    pieces.count(&bytes[3..]);
    assert_eq!(pieces.position(), at(2, 1));
    let mut short = OffsetCounter::new(100);
    short.count(b"x");
    assert!(!short.is_done());
    assert_eq!(short.position(), at(0, 1));
}

#[test]
fn lines_come_before_offsets() {
    assert_eq!(create_external_location(Some(3), Some(9)), SourcePlace::At(at(2, 0)));
    assert_eq!(create_external_location(Some(0), Some(9)), SourcePlace::Offset(9));
    assert_eq!(create_external_location(None, Some(0)), SourcePlace::Unknown);
    assert_eq!(create_external_location(None, None), SourcePlace::Unknown);
}
