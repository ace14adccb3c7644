//! File-system paths of the application, as strings with `/` separators.

use vstd::prelude::*;
use crate::text::{chars_of, owned, push_str, string_of};

verus! {

/// `base` joined with `part` as `PathBuf::join` does on Unix: an absolute
/// `part` replaces `base`; otherwise a `/` is put between them unless `base`
/// is empty or already ends with one.
pub open spec fn join_path_seq(base: Seq<char>, part: Seq<char>) -> Seq<char> {
    if part.len() > 0 && part[0] == '/' {
        part
    } else if base.len() == 0 || base.last() == '/' {
        base + part
    } else {
        base + seq!['/'] + part
    }
}

/// The directory name `.arc`.
pub open spec fn arc_dir_name() -> Seq<char> {
    seq!['.', 'a', 'r', 'c']
}

/// The file name `environments.json`.
pub open spec fn environments_file_name() -> Seq<char> {
    seq!['e', 'n', 'v', 'i', 'r', 'o', 'n', 'm', 'e', 'n', 't', 's', '.', 'j', 's', 'o', 'n']
}

/// `base` joined with `part`.
pub fn join_path(base: &str, part: &str) -> (r: String)
    ensures
        r@ == join_path_seq(base@, part@),
{
    let b = chars_of(base);
    let p = chars_of(part);
    if p.len() > 0 && p[0] == '/' {
        return owned(part);
    }
    let mut out = b.clone();
    assert(out@ == b@);
    if !(b.len() == 0 || b[b.len() - 1] == '/') {
        out.push('/');
    }
    push_str(&mut out, part);
    string_of(out.as_slice())
}

/// Calls `dirs::config_dir`: the user's configuration directory, when the
/// platform has one. It depends on the environment of the process, so
/// nothing is stated of it.
#[verifier::external_body]
fn user_config_dir() -> (r: Option<String>) {
    dirs::config_dir().map(|p| p.to_string_lossy().into_owned())
}

/// The application directory `<user config>/.arc`, with `.` standing for a
/// missing user configuration directory.
pub open spec fn config_dir_spec(user: Option<Seq<char>>) -> Seq<char> {
    join_path_seq(
        match user {
            Some(u) => u,
            None => seq!['.'],
        },
        arc_dir_name(),
    )
}

/// The application directory for the given user configuration directory.
pub fn config_dir_in(user: Option<String>) -> (r: String)
    ensures
        r@ == config_dir_spec(crate::model::opt_view(user)),
{
    proof {
        reveal_strlit(".");
        reveal_strlit(".arc");
        assert(".arc"@ =~= arc_dir_name());
    }
    match user {
        Some(u) => join_path(u.as_str(), ".arc"),
        None => {
            assert("."@ =~= seq!['.']);
            join_path(".", ".arc")
        },
    }
}

/// The application directory of this user.
pub fn config_dir() -> (r: String)
    ensures
        exists|u: Option<Seq<char>>| r@ == config_dir_spec(u),
{
    let user = user_config_dir();
    config_dir_in(user)
}

/// A file of the application directory.
pub open spec fn config_file_spec(user: Option<Seq<char>>, file: Seq<char>) -> Seq<char> {
    join_path_seq(config_dir_spec(user), file)
}

/// The file `file` of the application directory.
pub fn config_file(file: &str) -> (r: String)
    ensures
        exists|u: Option<Seq<char>>| r@ == config_file_spec(u, file@),
{
    let dir = config_dir();
    let ghost u = choose|u: Option<Seq<char>>| dir@ == config_dir_spec(u);
    let r = join_path(dir.as_str(), file);
    assert(r@ == config_file_spec(u, file@));
    r
}

/// The settings file, `settings.json` of the application directory.
pub fn settings_file_path() -> (r: String)
    ensures
        exists|u: Option<Seq<char>>| r@ == config_file_spec(u, "settings.json"@),
{
    config_file("settings.json")
}

/// The global environments file, `environments.json` of the application directory.
pub fn environments_path() -> (r: String)
    ensures
        exists|u: Option<Seq<char>>| r@ == config_file_spec(u, environments_file_name()),
{
    proof {
        reveal_strlit("environments.json");
        assert("environments.json"@ =~= environments_file_name());
    }
    config_file("environments.json")
}

/// The workspace file, `workspace.json` of the application directory.
pub fn workspace_path() -> (r: String)
    ensures
        exists|u: Option<Seq<char>>| r@ == config_file_spec(u, "workspace.json"@),
{
    config_file("workspace.json")
}

/// `parent/name`, the path of a new folder.
pub fn folder_path(name: &str, parent_dir: &str) -> (r: String)
    ensures
        r@ == parent_dir@ + seq!['/'] + name@,
{
    let mut out = chars_of(parent_dir);
    out.push('/');
    push_str(&mut out, name);
    string_of(out.as_slice())
}

/// `parent/name.json`, the path of a new request file.
pub fn request_file_path(name: &str, parent_dir: &str) -> (r: String)
    ensures
        r@ == parent_dir@ + seq!['/'] + name@ + seq!['.', 'j', 's', 'o', 'n'],
{
    let mut out = chars_of(parent_dir);
    out.push('/');
    push_str(&mut out, name);
    out.push('.');
    out.push('j');
    out.push('s');
    out.push('o');
    out.push('n');
    string_of(out.as_slice())
}

/// The directory of a new workspace called `name`, in the application directory.
pub fn workspace_dir(name: &str) -> (r: String)
    ensures
        exists|u: Option<Seq<char>>| r@ == config_file_spec(u, name@),
{
    config_file(name)
}

/// The workspace to reopen: its name and path when both are known and not empty.
pub fn last_workspace(name: Option<String>, path: Option<String>) -> (r: Option<(String, String)>)
    ensures
        match r {
            Some((n, p)) => name == Some(n) && path == Some(p) && n@.len() > 0 && p@.len() > 0,
            None => !(name matches Some(n) && path matches Some(p) && n@.len() > 0 && p@.len()
                > 0),
        },
{
    match (name, path) {
        (Some(n), Some(p)) => {
            if n.as_str().is_empty() || p.as_str().is_empty() {
                None
            } else {
                Some((n, p))
            }
        },
        _ => None,
    }
}

/// Access to the files of the application directory.
#[derive(Clone, Copy, Debug)]
pub struct ConfigFileSystem {}

impl ConfigFileSystem {
    /// The application directory of this user.
    pub fn config_dir() -> (r: String)
        ensures
            exists|u: Option<Seq<char>>| r@ == config_dir_spec(u),
    {
        config_dir()
    }

    /// The settings file.
    pub fn settings_path() -> (r: String)
        ensures
            exists|u: Option<Seq<char>>| r@ == config_file_spec(u, "settings.json"@),
    {
        settings_file_path()
    }

    /// The workspace file.
    pub fn workspace_path() -> (r: String)
        ensures
            exists|u: Option<Seq<char>>| r@ == config_file_spec(u, "workspace.json"@),
    {
        workspace_path()
    }

    /// The directory of a new workspace called `name`.
    pub fn workspace_dir(name: &str) -> (r: String)
        ensures
            exists|u: Option<Seq<char>>| r@ == config_file_spec(u, name@),
    {
        workspace_dir(name)
    }

    /// The workspace recorded in the workspace file, when its name and path
    /// are both present and not empty.
    pub fn read_workspace_config(name: Option<String>, path: Option<String>) -> (r: Option<(String, String)>)
        ensures
            match r {
                Some((n, p)) => name == Some(n) && path == Some(p) && n@.len() > 0 && p@.len() > 0,
                None => !(name matches Some(n) && path matches Some(p) && n@.len() > 0 && p@.len()
                    > 0),
            },
    {
        last_workspace(name, path)
    }
}

} // verus!
