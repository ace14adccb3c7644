//! The workspace environments file as the settings window uses it: the same
//! content as [`crate::env_file`], with `Local` as the fallback name and a
//! check that the active name still exists.

use vstd::prelude::*;
use crate::env_file::{
    EnvData, EnvDataView, Workspace, active_name_or, env_file_path_spec, active_or, default_data, delete_spec,
    delete_with_fallback, env_file_path, find_environment, first_named, first_or,
    lemma_first_named, rename_spec, rename_with_fallback, save_active, save_active_spec,
};
use crate::text::owned;

verus! {

/// The name `Local`.
pub open spec fn local_title() -> Seq<char> {
    seq!['L', 'o', 'c', 'a', 'l']
}

/// Access to the environments file of the current workspace.
#[derive(Clone, Debug)]
pub struct EnvFileSystem {
    pub workspace: Workspace,
}

/// The file after checking its active name: kept when an environment has
/// it, else replaced by the first environment's name, or `Local`. The second
/// component is the active name that results.
pub open spec fn validate_spec(d: EnvDataView) -> (EnvDataView, Seq<char>) {
    let active = active_or(d, local_title());
    if first_named(d.environments, active) >= 0 {
        (d, active)
    } else {
        let f = first_or(d.environments, local_title());
        (save_active_spec(d, f), f)
    }
}

impl EnvFileSystem {
    /// No workspace open yet.
    pub fn new() -> (r: Self)
        ensures
            r.workspace.path@.len() == 0,
    {
        EnvFileSystem { workspace: Workspace { path: String::new() } }
    }

    /// Makes `path` the current workspace.
    pub fn set_current_workspace(&mut self, path: &str)
        ensures
            final(self).workspace.path@ == path@,
    {
        crate::env_file::set_current_workspace(&mut self.workspace, path);
    }

    /// The environments file of the current workspace, if one is open.
    pub fn workspace_env_path(&self) -> (r: Option<String>)
        ensures
            crate::model::opt_view(r) == env_file_path_spec(self.workspace.path@),
    {
        env_file_path(&self.workspace)
    }

    /// Opens the workspace at `path`; an empty path changes nothing. Returns
    /// the environments file to create when it is missing.
    pub fn init_workspace(&mut self, path: &str) -> (r: Option<String>)
        ensures
            path@.len() == 0 ==> r is None && final(self).workspace == old(self).workspace,
            path@.len() > 0 ==> final(self).workspace.path@ == path@ && r is Some
                && crate::model::opt_view(r) == env_file_path_spec(path@),
    {
        if path.is_empty() {
            return None;
        }
        self.set_current_workspace(path);
        self.workspace_env_path()
    }

    /// The parsed file, or the default content when it could not be read as
    /// a JSON object.
    pub fn parse(content: Option<EnvData>) -> (r: EnvData)
        ensures
            match content {
                Some(d) => r@ == d@,
                None => r@ == crate::env_file::default_view(),
            },
    {
        match content {
            Some(d) => d,
            None => default_data(),
        }
    }

    /// The name of the active environment, or `Local`.
    pub fn read_active_environment(data: &EnvData) -> (r: String)
        ensures
            r@ == active_or(data@, local_title()),
    {
        proof {
            reveal_strlit("Local");
            assert("Local"@ =~= local_title());
        }
        active_name_or(data, "Local")
    }

    /// Stores `name` as the active environment.
    pub fn save_active_environment(data: &mut EnvData, name: &str)
        ensures
            final(data)@ == save_active_spec(old(data)@, name@),
    {
        save_active(data, name);
    }

    /// Makes sure the active name is that of an environment, and returns it.
    pub fn validate_active_environment(data: &mut EnvData) -> (r: String)
        ensures
            (final(data)@, r@) == validate_spec(old(data)@),
    {
        let active = Self::read_active_environment(data);
        match find_environment(&data.environments, active.as_str()) {
            Some(_) => active,
            None => {
                proof {
                    reveal_strlit("Local");
                    assert("Local"@ =~= local_title());
                }
                let fallback = if data.environments.len() > 0 {
                    assert(crate::env_file::envs_view(data.environments@)[0]
                        == data.environments@[0]@);
                    data.environments[0].name.clone()
                } else {
                    owned("Local")
                };
                save_active(data, fallback.as_str());
                fallback
            },
        }
    }

    /// Deletes the environments called `name`; the active name falls back on
    /// the first remaining one, or `Local`.
    pub fn delete_environment(data: &mut EnvData, name: &str)
        ensures
            final(data)@ == delete_spec(old(data)@, name@, local_title()),
    {
        proof {
            reveal_strlit("Local");
            assert("Local"@ =~= local_title());
        }
        delete_with_fallback(data, name, "Local");
    }

    /// Renames the first environment called `old_name`; the active name follows.
    pub fn rename_environment(data: &mut EnvData, old_name: &str, new_name: &str)
        ensures
            final(data)@ == rename_spec(old(data)@, old_name@, new_name@, local_title()),
    {
        proof {
            reveal_strlit("Local");
            assert("Local"@ =~= local_title());
        }
        rename_with_fallback(data, old_name, new_name, "Local");
    }
}

/// After validation the active name is that of an environment, or `Local`
/// when there is none; the file is changed only when the stored name was
/// missing or unknown; and a second validation changes nothing.
pub proof fn law_validate_active(d: EnvDataView)
    ensures
        ({
            let (d1, r) = validate_spec(d);
            &&& active_or(d1, local_title()) == r
            &&& d1.environments == d.environments
            &&& (d.environments.len() > 0 ==> first_named(d.environments, r) >= 0)
            &&& (d.environments.len() == 0 ==> r == local_title())
            &&& validate_spec(d1) == (d1, r)
        }),
{
    lemma_first_named(d.environments, active_or(d, local_title()));
}

} // verus!
