//! The addresses of files.

use crate::config;
use crate::config::Platform;
use crate::definition;
use crate::definition::Location;
use crate::document::Position;
use crate::protocol::ReplRequest;
use crate::system;
use crate::system::{System, ThisSystem};
use crate::text;
use vstd::prelude::*;
use vstd::string::*;

verus! {

/// The address that `Url::from_file_path` gives for a path on a system, where it gives one.
pub uninterp spec fn file_address(path: Seq<char>, system: System) -> Option<Seq<char>>;

/// The path, as text, that `Url::to_file_path` gives for an address on a system, where it
/// gives one.
pub uninterp spec fn file_path(uri: tower_lsp::lsp_types::Url, system: System) -> Option<Seq<char>>;

/// Whether a path begins with `/`.
pub open spec fn has_root(path: Seq<char>) -> bool {
    path.len() > 0 && path[0] == '/'
}

/// Whether a path begins with a drive or with two separators, as Windows has them.
pub open spec fn has_windows_prefix(path: Seq<char>) -> bool {
    config::has_drive(path) || (path.len() > 1 && config::is_separator(Platform::Windows, path[0])
        && config::is_separator(Platform::Windows, path[1]))
}

/// `o` is the address of a path, or none where it has none, on one of the systems. On
/// Windows only a path with a prefix has an address. On a usual Unix those paths have one
/// that begin with `/`, and no others.
pub open spec fn is_address(path: Seq<char>, o: Option<Seq<char>>) -> bool {
    &&& exists|system: System|
        #![trigger file_address(path, system)]
        o == file_address(path, system) && (system is Windows ==> (o is Some
            ==> has_windows_prefix(path))) && (system is Unix ==> (o is Some <==> has_root(path)))
    &&& o matches Some(u) ==> text::has_prefix(u, "file://"@)
}

/// `Url::from_file_path`, which `tower_lsp` has from the crate `url`: the address depends on
/// the path and on the system that the program was built for, and begins with `file://`. On
/// Windows a path has one only if it begins with a drive or two separators; on a usual Unix,
/// exactly if it begins with `/`.
#[verifier::external_body]
pub(crate) fn address_of(path: &str) -> (r: Option<String>)
    ensures
        exists|system: System|
            #![trigger file_address(path@, system)]
            text::text_opt(r) == file_address(path@, system) && (system is Windows ==> (r is Some
                ==> has_windows_prefix(path@))) && (system is Unix ==> (r is Some <==> has_root(
                path@,
            ))),
        r matches Some(u) ==> text::has_prefix(u@, "file://"@),
{
    match tower_lsp::lsp_types::Url::from_file_path(path) {
        Ok(url) => Some(String::from(url)),
        Err(()) => None,
    }
}

/// The address of a file, where its path has one.
pub fn file_uri(path: &str) -> (r: Option<String>)
    ensures
        is_address(path@, text::text_opt(r)),
{
    address_of(path)
}

/// A position in the file at an address, where there is an address.
pub fn location_of(uri: Option<String>, line: u32, character: u32) -> (r: Option<Location>)
    ensures
        definition::location_opt(r) == (match uri {
            Some(u) => Some(definition::point(u@, Position { line, character })),
            None => None,
        }),
{
    match uri {
        Some(u) => Some(definition::location_at(u, Position { line, character })),
        None => None,
    }
}

/// A position in the file at a path, where that has an address.
pub fn indexed_location(path: &str, line: u32, character: u32) -> (r: Option<Location>)
    ensures
        is_address(
            path@,
            match r {
                Some(l) => Some(l.uri@),
                None => None,
            },
        ),
        r matches Some(l) ==> l@ == definition::point(l.uri@, Position { line, character }),
{
    location_of(file_uri(path), line, character)
}

#[verifier::external_type_specification]
#[verifier::external_body]
pub struct ExUrl(tower_lsp::lsp_types::Url);

/// The text of an address.
pub uninterp spec fn address_text(uri: tower_lsp::lsp_types::Url) -> Seq<char>;

/// `Url::as_str`, which `tower_lsp` has from the crate `url`: the text of an address depends
/// on the address alone.
#[verifier::external_body]
fn text_of_address(uri: &tower_lsp::lsp_types::Url) -> (r: String)
    ensures
        r@ == address_text(*uri),
{
    uri.as_str().to_string()
}

/// Where the path begins in the text of an address: after the scheme, and after the server where
/// two slashes announce one.
pub open spec fn path_start(s: Seq<char>) -> int {
    match text::char_position(s, ':') {
        Some(c) => if text::occurs_at(s, "//"@, c + 1) {
            match text::char_from(s, '/', c + 3) {
                Some(i) => i,
                None => s.len() as int,
            }
        } else {
            c + 1
        },
        None => s.len() as int,
    }
}

/// Whether the path in the text of an address is over at `i`.
pub open spec fn path_ends(s: Seq<char>, i: int) -> bool {
    i >= s.len() || s[i] == '?' || s[i] == '#'
}

/// Whether the path that begins at `i` in the text of an address is a drive, whose colon may be
/// escaped.
pub open spec fn is_drive_at(s: Seq<char>, i: int) -> bool {
    &&& i + 2 < s.len()
    &&& s[i] == '/'
    &&& 'A' <= s[i + 1] <= 'Z' || 'a' <= s[i + 1] <= 'z'
    &&& {
        ||| s[i + 2] == ':' && path_ends(s, i + 3)
        ||| i + 4 < s.len() && s[i + 2] == '%' && s[i + 3] == '3' && (s[i + 4] == 'a' || s[i + 4]
            == 'A') && path_ends(s, i + 5)
    }
}

/// Whether the text of an address names a server of files.
pub open spec fn names_server(s: Seq<char>) -> bool {
    text::has_prefix(s, "file://"@) && s.len() > 7 && s[7] != '/'
}

/// Whether the path that begins at `i` in the text of an address begins with a name, and the
/// name with no escape.
pub open spec fn is_named_at(s: Seq<char>, i: int) -> bool {
    i + 1 < s.len() && s[i + 1] != '/' && s[i + 1] != '%' && s[i + 1] != '?' && s[i + 1] != '#'
}

/// Whether an address names more than a drive, and more than a server.
pub open spec fn is_complete(s: Seq<char>) -> bool {
    !is_drive_at(s, path_start(s)) && (names_server(s) ==> is_named_at(s, path_start(s)))
}

fn find_path(s: &str) -> (r: usize)
    ensures
        r == path_start(s@),
        r <= s@.len(),
{
    proof {
        reveal_strlit("//");
        text::char_position_is_first(s@, ':', 0);
    }
    let x = text::chars_of(s);
    let n: usize = x.len();
    let c: usize = match text::find_char(s, ':') {
        Some(c) => c,
        None => return n,
    };
    if n - c <= 2 || x[c + 1] != '/' || x[c + 2] != '/' {
        proof {
            if text::occurs_at(s@, "//"@, c + 1) {
                assert(s@.subrange(c + 1, c + 3)[0] == s@[c + 1]);
                assert(s@.subrange(c + 1, c + 3)[1] == s@[c + 2]);
            }
        }
        return c + 1;
    }
    assert(s@.subrange(c + 1, c + 3) =~= "//"@);
    let mut i: usize = c + 3;
    while i < n && x[i] != '/'
        invariant
            x@ == s@,
            n == x.len(),
            0 <= i <= n,
            text::char_from(s@, '/', c + 3) == text::char_from(s@, '/', i as int),
        decreases n - i,
    {
        i = i + 1;
    }
    i
}

fn has_complete_path(s: &str) -> (r: bool)
    ensures
        r == is_complete(s@),
{
    let x = text::chars_of(s);
    let n: usize = x.len();
    let i: usize = find_path(s);
    if n - i > 2 && x[i] == '/' && (('A' <= x[i + 1] && x[i + 1] <= 'Z') || ('a' <= x[i + 1] && x[i
        + 1] <= 'z')) {
        if x[i + 2] == ':' && (n - i == 3 || x[i + 3] == '?' || x[i + 3] == '#') {
            return false;
        }
        if n - i > 4 && x[i + 2] == '%' && x[i + 3] == '3' && (x[i + 4] == 'a' || x[i + 4] == 'A')
            && (n - i == 5 || x[i + 5] == '?' || x[i + 5] == '#') {
            return false;
        }
    }
    if !text::starts_with(s, "file://") || n <= 7 || x[7] == '/' {
        return true;
    }
    n - i > 1 && x[i + 1] != '/' && x[i + 1] != '%' && x[i + 1] != '?' && x[i + 1] != '#'
}

/// `Url::to_file_path`, which `tower_lsp` has from the crate `url`: the path, of which
/// `Path::to_string_lossy` gives the text, depends on the address and on the system that the
/// program was built for, as long as there is memory for it. Where `\` separates the parts of
/// paths, addresses of no more than a drive or a server are left out: on Windows, where debug
/// assertions are checked, it panics on them.
#[verifier::external_body]
fn path_of(uri: &tower_lsp::lsp_types::Url, here: &ThisSystem) -> (r: Option<String>)
    requires
        here.has_backslash() ==> is_complete(address_text(*uri)),
    ensures
        here.has_backslash() ==> (text::text_opt(r) == file_path(*uri, System::Windows)
            || text::text_opt(r) == file_path(*uri, System::Cygwin)),
        !here.has_backslash() ==> (text::text_opt(r) == file_path(*uri, System::Unix)
            || text::text_opt(r) == file_path(*uri, System::Wasi) || text::text_opt(r) == file_path(
            *uri,
            System::Hermit,
        ) || text::text_opt(r) == file_path(*uri, System::Redox) || text::text_opt(r) == file_path(
            *uri,
            System::Cygwin,
        )),
{
    match uri.to_file_path() {
        Ok(path) => Some(path.to_string_lossy().into_owned()),
        Err(()) => None,
    }
}

/// `o` is the path of an address, or none where it has none, on one of the systems. On Windows an
/// address of no more than a drive or a server has none.
pub open spec fn is_path_of(uri: tower_lsp::lsp_types::Url, o: Option<Seq<char>>) -> bool {
    exists|system: System|
        #![trigger file_path(uri, system)]
        o == (if system is Windows && !is_complete(address_text(uri)) {
            None
        } else {
            file_path(uri, system)
        })
}

/// The path of the file or the directory at an address, such as a root of a workspace, where
/// it has one.
pub fn root_path(uri: &tower_lsp::lsp_types::Url) -> (r: Option<String>)
    ensures
        is_path_of(*uri, text::text_opt(r)),
{
    let here = system::this_system();
    if here.backslash() && !has_complete_path(text_of_address(uri).as_str()) {
        assert(text::text_opt(None) == (if System::Windows is Windows
            && !is_complete(address_text(*uri)) {
            None
        } else {
            file_path(*uri, System::Windows)
        }));
        return None;
    }
    path_of(uri, &here)
}

/// What the REPL is told when the file at this path is shown.
pub fn file_request(path: Option<String>) -> (r: Option<ReplRequest>)
    ensures
        match r {
            Some(request) => path is Some && (request matches ReplRequest::SetCurrentFile {
                id,
                path: p,
                contents,
            } && id@.len() == 0 && p@ == path->0@ && contents is None),
            None => path is None,
        },
{
    match path {
        Some(p) => Some(
            ReplRequest::SetCurrentFile { id: String::new(), path: p, contents: None },
        ),
        None => None,
    }
}

/// What the REPL is told when the document at an address is shown: its file, where it has
/// one.
pub fn current_file_request(uri: &tower_lsp::lsp_types::Url) -> (r: Option<ReplRequest>)
    ensures
        is_path_of(
            *uri,
            match r {
                Some(ReplRequest::SetCurrentFile { id, path, contents }) => Some(path@),
                _ => None,
            },
        ),
        r matches Some(request) ==> (request matches ReplRequest::SetCurrentFile {
            id,
            path,
            contents,
        } && id@.len() == 0 && contents is None),
{
    file_request(root_path(uri))
}

}
