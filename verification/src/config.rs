//! The configuration that all components share, and the places of its files.

use crate::table::Table;
use crate::text;
use vstd::prelude::*;
use vstd::string::*;

verus! {

/// The kind of system a component runs on.
#[derive(Debug, Clone, Copy, PartialEq, Eq, Structural)]
pub enum Platform {
    MacOs,
    Windows,
    Other,
}

// ---------------------------------------------------------------------------
// Paths

/// Whether a character separates the parts of a path.
pub open spec fn is_separator(platform: Platform, c: char) -> bool {
    c == '/' || (platform == Platform::Windows && c == '\\')
}

/// The text that is put between the parts of a path.
pub open spec fn separator(platform: Platform) -> Seq<char> {
    if platform == Platform::Windows {
        "\\"@
    } else {
        "/"@
    }
}

/// Whether a path is nothing but the name of a drive, such as `C:`.
pub open spec fn is_drive(platform: Platform, path: Seq<char>) -> bool {
    platform == Platform::Windows && path.len() == 2 && path[1] == ':' && ('A' <= path[0] <= 'Z'
        || 'a' <= path[0] <= 'z')
}

/// The path of the relative path `part` below `base`. Below a verbatim path of Windows the path is
/// put together from its names.
pub open spec fn path_below(platform: Platform, base: Seq<char>, part: Seq<char>) -> Seq<char> {
    if platform == Platform::Windows && is_verbatim(base) && part.len() > 0 {
        verbatim_path(base, names(base.skip(volume_len(base))), part)
    } else if base.len() == 0 || is_separator(platform, base.last()) || is_drive(platform, base) {
        base + part
    } else {
        base + separator(platform) + part
    }
}

/// Joins a relative path to a path.
pub fn join_path(platform: Platform, base: &str, part: &str) -> (r: String)
    ensures
        r@ == path_below(platform, base@, part@),
{
    if platform == Platform::Windows && begins_verbatim(base) && !part.is_empty() {
        let n: usize = find_volume(&text::chars_of(base));
        return join_verbatim(base, split_names(text::tail(base, n).as_str()), part);
    }
    let x = text::chars_of(base);
    let n: usize = x.len();
    let mut out = base.to_string();
    let drive = platform == Platform::Windows && n == 2 && x[1] == ':' && (('A' <= x[0] && x[0]
        <= 'Z') || ('a' <= x[0] && x[0] <= 'z'));
    if n > 0 && !drive && !(x[n - 1] == '/' || (platform == Platform::Windows && x[n - 1]
        == '\\')) {
        if platform == Platform::Windows {
            out.append("\\");
        } else {
            out.append("/");
        }
    }
    out.append(part);
    out
}

/// Whether a path of Windows is verbatim: its names are taken as they are.
pub open spec fn is_verbatim(path: Seq<char>) -> bool {
    text::has_prefix(path, r"\\?\"@)
}

/// The texts that are not empty.
pub open spec fn without_empty(v: Seq<Seq<char>>) -> Seq<Seq<char>>
    decreases v.len(),
{
    if v.len() == 0 {
        Seq::empty()
    } else if v.last().len() == 0 {
        without_empty(v.drop_last())
    } else {
        without_empty(v.drop_last()).push(v.last())
    }
}

/// The names in a path, between backslashes.
pub open spec fn names(path: Seq<char>) -> Seq<Seq<char>> {
    without_empty(text::pieces(path, '\\'))
}

/// Whether a name stands for a directory relative to another one.
pub open spec fn is_relative_name(name: Seq<char>) -> bool {
    name == "."@ || name == ".."@
}

/// The names of a path after it was followed along `v`: `..` takes the last name back, and `.`
/// does nothing.
pub open spec fn followed(path: Seq<Seq<char>>, v: Seq<Seq<char>>) -> Seq<Seq<char>>
    decreases v.len(),
{
    if v.len() == 0 {
        path
    } else {
        let before = followed(path, v.drop_last());
        if v.last() == "."@ {
            before
        } else if v.last() == ".."@ {
            if before.len() > 0 && !is_relative_name(before.last()) {
                before.drop_last()
            } else {
                before
            }
        } else {
            before.push(v.last())
        }
    }
}

/// The verbatim path on the volume of `base`, along the names `kept` and then along `part`.
pub open spec fn verbatim_path(base: Seq<char>, kept: Seq<Seq<char>>, part: Seq<char>) -> Seq<char> {
    base.take(volume_len(base)) + "\\"@ + text::joined(
        followed(kept, names(text::replaced(part, "/"@, "\\"@))),
        "\\"@,
    )
}

fn begins_verbatim(path: &str) -> (r: bool)
    ensures
        r == is_verbatim(path@),
{
    text::starts_with(path, r"\\?\")
}

fn split_names(path: &str) -> (r: Vec<String>)
    ensures
        text::texts(r@) == names(path@),
{
    let parts = text::split(path, '\\');
    let ghost all = text::texts(parts@);
    let mut out: Vec<String> = Vec::new();
    assert(text::texts(out@) =~= without_empty(all.take(0)));
    for i in 0..parts.len()
        invariant
            all == text::texts(parts@),
            text::texts(out@) == without_empty(all.take(i as int)),
    {
        let ghost before = out@;
        assert(all.take(i + 1).drop_last() =~= all.take(i as int));
        assert(all[i as int] == parts@[i as int]@);
        if !parts[i].as_str().is_empty() {
            out.push(parts[i].clone());
            assert(text::texts(out@) =~= text::texts(before).push(all[i as int]));
        }
    }
    assert(all.take(parts@.len() as int) =~= all);
    out
}

fn join_verbatim(base: &str, kept: Vec<String>, part: &str) -> (r: String)
    ensures
        r@ == verbatim_path(base@, text::texts(kept@), part@),
{
    proof {
        reveal_strlit("/");
    }
    let steps = split_names(text::replace(part, "/", "\\").as_str());
    let ghost start = text::texts(kept@);
    let ghost all = text::texts(steps@);
    let mut path = kept;
    assert(text::texts(path@) =~= followed(start, all.take(0)));
    for i in 0..steps.len()
        invariant
            all == text::texts(steps@),
            text::texts(path@) == followed(start, all.take(i as int)),
    {
        let ghost before = path@;
        assert(all.take(i + 1).drop_last() =~= all.take(i as int));
        assert(all[i as int] == steps@[i as int]@);
        let step = steps[i].as_str();
        if text::same_text(step, "..") {
            let n: usize = path.len();
            assert(text::texts(path@).len() == n);
            if n > 0 {
                assert(text::texts(path@).last() == path@[n - 1]@);
                let last = path[n - 1].as_str();
                if !text::same_text(last, ".") && !text::same_text(last, "..") {
                    path.pop();
                    assert(text::texts(path@) =~= text::texts(before).drop_last());
                }
            }
            proof {
                reveal_strlit(".");
                reveal_strlit("..");
            }
        } else if !text::same_text(step, ".") {
            path.push(steps[i].clone());
            assert(text::texts(path@) =~= text::texts(before).push(all[i as int]));
        }
    }
    assert(all.take(steps@.len() as int) =~= all);
    let mut out = text::head(base, find_volume(&text::chars_of(base)));
    out.append("\\");
    out.append(text::join(&path, "\\").as_str());
    out
}

/// Whether a path begins with the name of a drive.
pub open spec fn has_drive(path: Seq<char>) -> bool {
    path.len() >= 2 && is_drive(Platform::Windows, path.take(2))
}

/// The position of the first separator of Windows from `from` on, or the end of the path.
pub open spec fn separator_from(path: Seq<char>, from: int) -> int
    decreases path.len() - from,
{
    if from < 0 || from >= path.len() {
        path.len() as int
    } else if is_separator(Platform::Windows, path[from]) {
        from
    } else {
        separator_from(path, from + 1)
    }
}

/// The position of the first backslash from `from` on, or the end of the path.
pub open spec fn backslash_from(path: Seq<char>, from: int) -> int
    decreases path.len() - from,
{
    if from < 0 || from >= path.len() {
        path.len() as int
    } else if path[from] == '\\' {
        from
    } else {
        backslash_from(path, from + 1)
    }
}

/// How many characters of a verbatim path name the volume that it lies on: a server and its share
/// after `UNC`, or a drive, or any other name.
pub open spec fn verbatim_volume_len(path: Seq<char>) -> int {
    if text::has_prefix(path, r"\\?\UNC\"@) {
        let server_end = backslash_from(path, 8);
        let share_end = backslash_from(path, server_end + 1);
        if share_end > server_end + 1 {
            share_end
        } else {
            server_end
        }
    } else {
        backslash_from(path, 4)
    }
}

/// How many characters of a path on Windows name the volume that it lies on: a drive, such as
/// `C:`, or a server and its share, such as `\\server\share`, or what stands for them in a
/// verbatim path.
pub open spec fn volume_len(path: Seq<char>) -> int {
    if is_verbatim(path) {
        verbatim_volume_len(path)
    } else if has_drive(path) {
        2
    } else if path.len() > 2 && is_separator(Platform::Windows, path[0]) && is_separator(
        Platform::Windows,
        path[1],
    ) {
        let server_end = separator_from(path, 2);
        let share_end = separator_from(path, server_end + 1);
        if server_end > 2 && server_end < path.len() && share_end > server_end + 1 {
            share_end
        } else {
            0
        }
    } else {
        0
    }
}

/// The path that `part` denotes as seen from `base`: an absolute path is itself. On Windows a
/// path with a volume is itself, and one that only begins with a separator lies on the volume
/// of `base`.
pub open spec fn path_from(platform: Platform, base: Seq<char>, part: Seq<char>) -> Seq<char> {
    let rooted = part.len() > 0 && is_separator(platform, part[0]);
    if platform == Platform::Windows && volume_len(part) > 0 {
        part
    } else if rooted && platform == Platform::Windows {
        if is_verbatim(base) {
            verbatim_path(base, Seq::empty(), part)
        } else {
            base.take(volume_len(base)) + part
        }
    } else if rooted {
        part
    } else {
        path_below(platform, base, part)
    }
}

fn find_separator(x: &Vec<char>, from: usize) -> (r: usize)
    requires
        from <= x@.len(),
    ensures
        r == separator_from(x@, from as int),
        from <= r <= x@.len(),
{
    let mut i: usize = from;
    while i < x.len() && x[i] != '/' && x[i] != '\\'
        invariant
            from <= i <= x@.len(),
            separator_from(x@, from as int) == separator_from(x@, i as int),
        decreases x@.len() - i,
    {
        i = i + 1;
    }
    i
}

fn find_backslash(x: &Vec<char>, from: usize) -> (r: usize)
    requires
        from <= x@.len(),
    ensures
        r == backslash_from(x@, from as int),
        from <= r <= x@.len(),
{
    let mut i: usize = from;
    while i < x.len() && x[i] != '\\'
        invariant
            from <= i <= x@.len(),
            backslash_from(x@, from as int) == backslash_from(x@, i as int),
        decreases x@.len() - i,
    {
        i = i + 1;
    }
    i
}

fn find_verbatim_volume(path: &str, x: &Vec<char>) -> (r: usize)
    requires
        x@ == path@,
        is_verbatim(path@),
    ensures
        r == verbatim_volume_len(path@),
        r <= path@.len(),
{
    proof {
        reveal_strlit(r"\\?\");
        reveal_strlit(r"\\?\UNC\");
    }
    if !text::starts_with(path, r"\\?\UNC\") {
        return find_backslash(x, 4);
    }
    let n: usize = x.len();
    let server_end: usize = find_backslash(x, 8);
    if server_end == n {
        return server_end;
    }
    let share_end: usize = find_backslash(x, server_end + 1);
    if share_end > server_end + 1 {
        share_end
    } else {
        server_end
    }
}

fn find_volume(x: &Vec<char>) -> (r: usize)
    ensures
        r == volume_len(x@),
        0 <= r <= x@.len(),
{
    let n: usize = x.len();
    let path = text::text_of(x.as_slice());
    if begins_verbatim(path.as_str()) {
        return find_verbatim_volume(path.as_str(), x);
    }
    if n >= 2 && x[1] == ':' && (('A' <= x[0] && x[0] <= 'Z') || ('a' <= x[0] && x[0] <= 'z')) {
        return 2;
    }
    if n <= 2 || !(x[0] == '/' || x[0] == '\\') || !(x[1] == '/' || x[1] == '\\') {
        return 0;
    }
    let server_end: usize = find_separator(x, 2);
    if server_end == 2 || server_end == n {
        return 0;
    }
    let share_end: usize = find_separator(x, server_end + 1);
    if share_end == server_end + 1 {
        0
    } else {
        share_end
    }
}

/// The path that `part` denotes as seen from `base`.
pub fn resolve_path(platform: Platform, base: &str, part: &str) -> (r: String)
    ensures
        r@ == path_from(platform, base@, part@),
{
    let x = text::chars_of(part);
    let windows = platform == Platform::Windows;
    if windows && find_volume(&x) > 0 {
        return part.to_string();
    }
    if x.len() > 0 && (x[0] == '/' || (windows && x[0] == '\\')) {
        if windows && begins_verbatim(base) {
            let none: Vec<String> = Vec::new();
            assert(text::texts(none@) =~= Seq::<Seq<char>>::empty());
            return join_verbatim(base, none, part);
        }
        if windows {
            let mut out = text::head(base, find_volume(&text::chars_of(base)));
            out.append(part);
            return out;
        }
        return part.to_string();
    }
    join_path(platform, base, part)
}

// ---------------------------------------------------------------------------
// Profiles

/// How one Lisp implementation is used.
#[derive(Debug)]
pub struct Profile {
    pub lisp_impl: String,
    pub system_index: String,
    pub completion_package_whitelist: Option<Vec<String>>,
}

/// What a profile holds.
pub struct ProfileView {
    pub lisp_impl: Seq<char>,
    pub system_index: Seq<char>,
    pub completion_package_whitelist: Option<Seq<Seq<char>>>,
}

/// What an optional list of texts holds.
pub open spec fn texts_opt(o: Option<Vec<String>>) -> Option<Seq<Seq<char>>> {
    match o {
        Some(v) => Some(text::texts(v@)),
        None => None,
    }
}

impl View for Profile {
    type V = ProfileView;

    open spec fn view(&self) -> ProfileView {
        ProfileView {
            lisp_impl: self.lisp_impl@,
            system_index: self.system_index@,
            completion_package_whitelist: texts_opt(self.completion_package_whitelist),
        }
    }
}

/// The profile that counts where none is configured.
pub open spec fn default_profile() -> ProfileView {
    ProfileView {
        lisp_impl: "sbcl"@,
        system_index: "system-index.db"@,
        completion_package_whitelist: None,
    }
}

/// The contents of the configuration file.
#[derive(Debug)]
pub struct ConfigFile {
    pub active_profile: String,
    pub profiles: Table<Profile>,
}

impl ConfigFile {
    /// The profile that the file declares active, where it has one of that name.
    pub open spec fn active(&self) -> Option<ProfileView> {
        if self.profiles@.dom().contains(self.active_profile@) {
            Some(self.profiles@[self.active_profile@]@)
        } else {
            None
        }
    }
}

/// Where a master REPL listens.
#[derive(Debug, Clone)]
pub struct ReplConnection {
    pub host: String,
    pub port: u16,
    /// The secret that the master REPL wants in the handshake, where it wants one.
    pub token: Option<String>,
}

/// The name of the active profile where the configuration file gives none.
pub fn default_active_profile() -> (r: String)
    ensures
        r@ == "sbcl"@,
{
    "sbcl".to_string()
}

/// The Lisp implementation of a profile that gives none.
pub fn default_lisp_impl() -> (r: String)
    ensures
        r@ == default_profile().lisp_impl,
{
    "sbcl".to_string()
}

/// The system index of a profile that gives none.
pub fn default_system_index() -> (r: String)
    ensures
        r@ == default_profile().system_index,
{
    "system-index.db".to_string()
}

impl Default for Profile {
    fn default() -> (r: Self)
        ensures
            r@ == default_profile(),
    {
        Profile {
            lisp_impl: default_lisp_impl(),
            system_index: default_system_index(),
            completion_package_whitelist: None,
        }
    }
}

/// The profile that a configuration file gives: the active one, or the default where there is
/// no file or it has no profile of that name.
pub open spec fn configured(config: Option<&ConfigFile>) -> ProfileView {
    match config {
        Some(c) => match c.active() {
            Some(p) => p,
            None => default_profile(),
        },
        None => default_profile(),
    }
}

/// A copy of the texts.
pub fn copy_texts(v: &Vec<String>) -> (r: Vec<String>)
    ensures
        text::texts(r@) == text::texts(v@),
{
    let mut out: Vec<String> = Vec::new();
    for i in 0..v.len()
        invariant
            text::texts(out@) == text::texts(v@).take(i as int),
    {
        let s = v[i].clone();
        let ghost before = out@;
        out.push(s);
        assert(text::texts(out@) =~= text::texts(before).push(s@));
        assert(text::texts(out@) =~= text::texts(v@).take(i + 1));
    }
    assert(text::texts(out@) =~= text::texts(v@));
    out
}

/// The path of the directory that holds the data, below the home directory where
/// there is one.
pub open spec fn data_path(platform: Platform, home: Option<Seq<char>>) -> Seq<char> {
    match home {
        Some(h) => path_below(platform, h, ".zed-cl"@),
        None => ".zed-cl"@,
    }
}

/// What an optional text holds.
pub open spec fn str_opt(o: Option<&str>) -> Option<Seq<char>> {
    match o {
        Some(s) => Some(s@),
        None => None,
    }
}

impl Profile {
    /// A copy of the profile.
    pub fn copy(&self) -> (r: Profile)
        ensures
            r@ == self@,
    {
        let completion_package_whitelist = match &self.completion_package_whitelist {
            Some(v) => Some(copy_texts(v)),
            None => None,
        };
        Profile {
            lisp_impl: self.lisp_impl.clone(),
            system_index: self.system_index.clone(),
            completion_package_whitelist,
        }
    }

    /// The profile in use: the active one of the configuration file, or the default
    /// where there is no file or it has no profile of that name.
    pub fn get(config: Option<&ConfigFile>) -> (r: Profile)
        ensures
            r@ == configured(config),
    {
        let active = match config {
            Some(c) => Self::load_active(c),
            None => None,
        };
        match active {
            Some(p) => p,
            None => Profile::default(),
        }
    }

    /// The profile that the configuration file declares active.
    pub fn load_active(config: &ConfigFile) -> (r: Option<Profile>)
        ensures
            match r {
                Some(p) => config.active() == Some(p@),
                None => config.active() is None,
            },
    {
        match config.profiles.get(config.active_profile.as_str()) {
            Some(p) => Some(p.copy()),
            None => None,
        }
    }

    /// The path of the file that says where the master REPL of this profile listens.
    pub fn connection_file_path(&self, platform: Platform, home: Option<&str>) -> (r: String)
        ensures
            r@ == path_below(
                platform,
                data_path(platform, str_opt(home)),
                "repl-"@ + self@.lisp_impl + ".json"@,
            ),
    {
        let mut file = "repl-".to_string();
        file.append(self.lisp_impl.as_str());
        file.append(".json");
        join_path(platform, data_dir(platform, home).as_str(), file.as_str())
    }

    /// The path of the file that is held while the master REPL of this profile is
    /// being started.
    pub fn spawn_lock_path(&self, platform: Platform, home: Option<&str>) -> (r: String)
        ensures
            r@ == path_below(
                platform,
                data_path(platform, str_opt(home)),
                "repl-"@ + self@.lisp_impl + ".lock"@,
            ),
    {
        let mut file = "repl-".to_string();
        file.append(self.lisp_impl.as_str());
        file.append(".lock");
        join_path(platform, data_dir(platform, home).as_str(), file.as_str())
    }
}

/// The profile in use, once it is known.
#[derive(Debug)]
pub struct ActiveProfile {
    profile: Option<Profile>,
}

impl View for ActiveProfile {
    type V = Option<ProfileView>;

    /// The profile in use, where it is known.
    closed spec fn view(&self) -> Option<ProfileView> {
        match self.profile {
            Some(p) => Some(p@),
            None => None,
        }
    }
}

/// The profile that is used where `known` is known so far and the configuration file gives
/// `given`: what is known stays.
pub open spec fn settled(known: Option<ProfileView>, given: ProfileView) -> ProfileView {
    match known {
        Some(p) => p,
        None => given,
    }
}

/// The profile that is known after it was asked for once for each of the profiles that the
/// configuration file gave at the time.
pub open spec fn known_after(known: Option<ProfileView>, given: Seq<ProfileView>) -> Option<
    ProfileView,
>
    decreases given.len(),
{
    if given.len() == 0 {
        known
    } else {
        Some(settled(known_after(known, given.drop_last()), given.last()))
    }
}

/// However often the profile is asked for, and whatever the configuration file holds by then,
/// it is the one that the file gave at first.
pub proof fn first_profile_stays(given: Seq<ProfileView>, next: ProfileView)
    requires
        given.len() > 0,
    ensures
        known_after(None, given) == Some(given[0]),
        settled(known_after(None, given), next) == given[0],
    decreases given.len(),
{
    if given.len() > 1 {
        first_profile_stays(given.drop_last(), given.last());
    } else {
        assert(known_after(None, given.drop_last()) is None);
    }
}

impl ActiveProfile {
    /// No profile is known.
    pub fn new() -> (r: Self)
        ensures
            r@ is None,
    {
        ActiveProfile { profile: None }
    }

    /// The profile in use: the one that is known, or else the one that the configuration file
    /// gives, which is known from then on.
    pub fn get(&mut self, config: Option<&ConfigFile>) -> (r: Profile)
        ensures
            r@ == settled(old(self)@, configured(config)),
            final(self)@ == Some(r@),
    {
        if let Some(p) = &self.profile {
            return p.copy();
        }
        let p = Profile::get(config);
        let r = p.copy();
        self.profile = Some(p);
        r
    }
}

/// The home directory, from the environment: on Windows `USERPROFILE`, or `HOME`
/// where that is not set; elsewhere `HOME`.
pub fn home_dir(platform: Platform, userprofile: Option<String>, home: Option<String>) -> (r:
    Option<String>)
    ensures
        text::text_opt(r) == (if platform == Platform::Windows && userprofile is Some {
            text::text_opt(userprofile)
        } else {
            text::text_opt(home)
        }),
{
    if platform == Platform::Windows {
        if let Some(path) = userprofile {
            return Some(path);
        }
    }
    home
}

/// The directory that holds the data.
pub fn data_dir(platform: Platform, home: Option<&str>) -> (r: String)
    ensures
        r@ == data_path(platform, str_opt(home)),
{
    match home {
        Some(h) => join_path(platform, h, ".zed-cl"),
        None => ".zed-cl".to_string(),
    }
}

/// The directory that holds the logs.
pub fn log_dir(platform: Platform, home: Option<&str>) -> (r: String)
    ensures
        r@ == path_below(platform, data_path(platform, str_opt(home)), "logs"@),
{
    join_path(platform, data_dir(platform, home).as_str(), "logs")
}

/// The configuration file.
pub fn config_path(platform: Platform, home: Option<&str>) -> (r: String)
    ensures
        r@ == path_below(platform, data_path(platform, str_opt(home)), "config.json"@),
{
    join_path(platform, data_dir(platform, home).as_str(), "config.json")
}


// ---------------------------------------------------------------------------
// Where files lie

/// A directory and a name are joined by one slash, whether the directory ends in one or not; below
/// nothing the name stands alone.
pub proof fn one_slash_joins(platform: Platform, dir: Seq<char>, name: Seq<char>)
    requires
        platform != Platform::Windows,
        dir.len() > 0 && dir.last() != '/',
    ensures
        path_below(platform, dir, name) == dir + "/"@ + name,
        path_below(platform, dir + "/"@, name) == dir + "/"@ + name,
        path_below(platform, Seq::empty(), name) == name,
{
    reveal_strlit("/");
    assert((dir + "/"@).last() == '/');
    assert(Seq::<char>::empty() + name =~= name);
}

/// On Windows a backslash joins them, but none after a separator or after a drive.
pub proof fn one_backslash_joins(dir: Seq<char>, name: Seq<char>)
    requires
        dir.len() > 2 && dir.last() != '/' && dir.last() != '\\',
        dir[0] != '\\',
    ensures
        path_below(Platform::Windows, dir, name) == dir + "\\"@ + name,
        path_below(Platform::Windows, dir + "\\"@, name) == dir + "\\"@ + name,
        path_below(Platform::Windows, "C:"@, name) == "C:"@ + name,
{
    reveal_strlit("\\");
    reveal_strlit("C:");
    reveal_strlit(r"\\?\");
    assert((dir + "\\"@).last() == '\\');
    assert(dir.take(4).len() == 4 || dir.len() < 4);
    if is_verbatim(dir) {
        assert(dir.take(4)[0] == dir[0]);
    }
    if is_verbatim(dir + "\\"@) {
        assert((dir + "\\"@).take(4)[0] == dir[0]);
    }
}

/// An absolute path stays as it is, from wherever it is seen; another lies below.
pub proof fn absolute_paths_stay(platform: Platform, base: Seq<char>, part: Seq<char>)
    requires
        platform != Platform::Windows,
        part.len() > 0,
    ensures
        part[0] == '/' ==> path_from(platform, base, part) == part,
        part[0] != '/' ==> path_from(platform, base, part) == path_below(platform, base, part),
{
}

/// The data lie in `.zed-cl` below the home directory.
pub proof fn data_lie_below_home(platform: Platform, home: Seq<char>)
    requires
        platform != Platform::Windows,
        home.len() > 0 && home.last() != '/',
    ensures
        data_path(platform, Some(home)) == home + "/.zed-cl"@,
        data_path(platform, None) == ".zed-cl"@,
{
    reveal_strlit("/.zed-cl");
    reveal_strlit("/");
    reveal_strlit(".zed-cl");
    one_slash_joins(platform, home, ".zed-cl"@);
    assert(home + "/"@ + ".zed-cl"@ =~= home + "/.zed-cl"@);
}


/// The profile that counts is the one that the file names as active, among those that it has;
/// otherwise it is that of `sbcl` with its usual index and no list of packages.
pub proof fn active_profile_counts(config: ConfigFile)
    ensures
        config.profiles@.dom().contains(config.active_profile@) ==> configured(Some(&config))
            == config.profiles@[config.active_profile@]@,
        !config.profiles@.dom().contains(config.active_profile@) ==> configured(Some(&config))
            == configured(None),
        configured(None).lisp_impl == "sbcl"@,
        configured(None).system_index == "system-index.db"@,
        configured(None).completion_package_whitelist is None,
{
}

}
