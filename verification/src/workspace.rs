//! The workspace of the editor: its roots, and which files lie in it.

use crate::config;
use crate::config::{Platform, Profile};
use crate::text;
use vstd::prelude::*;
use vstd::string::*;

verus! {

/// The address without the slashes at its end.
pub open spec fn without_slashes(s: Seq<char>) -> Seq<char>
    decreases s.len(),
{
    if s.len() > 0 && s.last() == '/' {
        without_slashes(s.drop_last())
    } else {
        s
    }
}

/// Whether an address is that of a root, or of something below it.
pub open spec fn in_root(uri: Seq<char>, root: Seq<char>) -> bool {
    uri == root || text::has_prefix(uri, without_slashes(root) + seq!['/'])
}

/// Whether an address is that of a root, or of something below it.
pub fn uri_in_workspace_root(uri: &str, root: &str) -> (r: bool)
    ensures
        r == in_root(uri@, root@),
{
    if text::same_text(uri, root) {
        return true;
    }
    let x = text::chars_of(root);
    let mut n: usize = x.len();
    assert(root@.take(n as int) =~= root@);
    while n > 0 && x[n - 1] == '/'
        invariant
            x@ == root@,
            n <= x@.len(),
            without_slashes(root@) == without_slashes(root@.take(n as int)),
        decreases n,
    {
        assert(root@.take(n as int).drop_last() =~= root@.take(n - 1));
        n = n - 1;
    }
    let mut below = text::head(root, n);
    below.push('/');
    assert(below@ =~= without_slashes(root@) + seq!['/']);
    text::starts_with(uri, below.as_str())
}

/// Whether an address lies in the workspace: without roots all do, and otherwise those in
/// one of the roots.
pub open spec fn in_workspace(uri: Seq<char>, roots: Seq<Seq<char>>) -> bool {
    roots.len() == 0 || exists|i: int| 0 <= i < roots.len() && #[trigger] in_root(uri, roots[i])
}

/// Whether an address lies in the workspace.
pub fn is_workspace_file(uri: &str, roots: &Vec<String>) -> (r: bool)
    ensures
        r == in_workspace(uri@, text::texts(roots@)),
{
    let ghost all = text::texts(roots@);
    assert(all.len() == roots@.len());
    if roots.len() == 0 {
        return true;
    }
    for i in 0..roots.len()
        invariant
            all == text::texts(roots@),
            forall|j: int| 0 <= j < i ==> !#[trigger] in_root(uri@, all[j]),
    {
        assert(all[i as int] == roots@[i as int]@);
        if uri_in_workspace_root(uri, roots[i].as_str()) {
            assert(in_root(uri@, all[i as int]));
            return true;
        }
    }
    false
}

/// A name that only begins like that of a root does not lie in it.
pub proof fn sibling_is_not_in_root(root: Seq<char>, rest: Seq<char>)
    requires
        root.len() > 0,
        root.last() != '/',
        rest.len() > 0,
        rest[0] != '/',
    ensures
        !in_root(root + rest, root),
{
    assert(without_slashes(root) == root);
    let uri = root + rest;
    assert(uri[root.len() as int] == rest[0]);
    if uri == root {
        assert(uri.len() > root.len());
    }
    if text::has_prefix(uri, root + seq!['/']) {
        let n = root.len() as int;
        assert(uri.take(n + 1)[n] == (root + seq!['/'])[n]);
    }
}

/// What is below a root lies in it, however many slashes the root ends in.
pub proof fn child_is_in_root(root: Seq<char>, rest: Seq<char>)
    ensures
        in_root(without_slashes(root) + seq!['/'] + rest, root),
{
    let p = without_slashes(root) + seq!['/'];
    assert((p + rest).take(p.len() as int) =~= p);
}

/// The directory that takes the place of a root that is a file: the one that the file is
/// in, where it has a name. Nothing takes the place of a root that is a directory or has no
/// path.
pub fn root_directory(has_path: bool, is_dir: bool, parent: Option<&str>) -> (r: Option<String>)
    ensures
        text::text_opt(r) == (if has_path && !is_dir && parent is Some && parent->0@.len() > 0 {
            Some(parent->0@)
        } else {
            None
        }),
{
    if !has_path || is_dir {
        return None;
    }
    match parent {
        Some(p) => if p.is_empty() {
            None
        } else {
            Some(p.to_string())
        },
        None => None,
    }
}

/// The roots after the editor has named its folders, or else one root. Folders take the
/// place of the roots before; a single root is added to them.
pub fn workspace_roots(
    before: Vec<String>,
    folders: Option<Vec<String>>,
    root: Option<String>,
) -> (r: Vec<String>)
    ensures
        text::texts(r@) == (match folders {
            Some(f) => text::texts(f@),
            None => match root {
                Some(u) => text::texts(before@).push(u@),
                None => text::texts(before@),
            },
        }),
{
    match folders {
        Some(f) => f,
        None => match root {
            Some(u) => {
                let mut roots = before;
                let ghost given = roots@;
                roots.push(u);
                assert(text::texts(roots@) =~= text::texts(given).push(u@));
                roots
            },
            None => before,
        },
    }
}

/// The characters after which the editor asks for completions.
pub fn trigger_characters() -> (r: Vec<String>)
    ensures
        text::texts(r@) == seq!["("@, ":"@, "-"@, "*"@, "+"@],
{
    let mut out: Vec<String> = Vec::new();
    out.push("(".to_string());
    out.push(":".to_string());
    out.push("-".to_string());
    out.push("*".to_string());
    out.push("+".to_string());
    assert(text::texts(out@) =~= seq!["("@, ":"@, "-"@, "*"@, "+"@]);
    out
}

/// The index of the system's symbols that a profile names.
pub fn system_index_path(profile: &Profile, platform: Platform, home: Option<&str>) -> (r: String)
    ensures
        r@ == config::path_from(
            platform,
            config::data_path(platform, config::str_opt(home)),
            profile@.system_index,
        ),
{
    let dir = config::data_dir(platform, home);
    config::resolve_path(platform, dir.as_str(), profile.system_index.as_str())
}

/// The index of the user's symbols.
pub fn user_index_path(platform: Platform, home: Option<&str>) -> (r: String)
    ensures
        r@ == config::path_below(
            platform,
            config::data_path(platform, config::str_opt(home)),
            "user-index.db"@,
        ),
{
    let dir = config::data_dir(platform, home);
    config::join_path(platform, dir.as_str(), "user-index.db")
}

}
