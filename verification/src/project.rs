//! Projects: the worktree a repository lives in, its sync settings, and the
//! path of its state directory.

use vstd::prelude::*;
use crate::ids::{Oid, ProjectId};
use crate::store::VirtualBranchesHandle;

verus! {

/// How pushes authenticate.
#[derive(Clone, Debug, PartialEq)]
pub enum AuthKey {
    Default,
    Generated,
    SystemExecutable,
    GitCredentialsHelper,
    Local { private_key_path: String },
}

impl Default for AuthKey {
    fn default() -> (r: AuthKey)
        ensures
            r == AuthKey::SystemExecutable,
    {
        AuthKey::SystemExecutable
    }
}

/// What the hosted API knows of a project.
#[derive(Clone, Debug)]
pub struct ApiProject {
    pub name: String,
    pub description: Option<String>,
    pub repository_id: String,
    pub git_url: String,
    pub code_git_url: Option<String>,
    pub created_at: String,
    pub updated_at: String,
    pub sync: bool,
}

/// The result of the last fetch, with its time in milliseconds since the
/// epoch.
#[derive(Clone, Debug)]
pub enum FetchResult {
    Fetched { timestamp: u64 },
    Error { timestamp: u64, error: String },
}

/// The time of a fetch result, whichever way the fetch went.
pub open spec fn fetch_timestamp(f: FetchResult) -> u64 {
    match f {
        FetchResult::Fetched { timestamp } => timestamp,
        FetchResult::Error { timestamp, .. } => timestamp,
    }
}

impl FetchResult {
    /// When the fetch happened, whether it succeeded or failed.
    pub fn timestamp(&self) -> (r: &u64)
        ensures
            *r == fetch_timestamp(*self),
    {
        match self {
            FetchResult::Fetched { timestamp } => timestamp,
            FetchResult::Error { timestamp, .. } => timestamp,
        }
    }
}

/// Where the last push of repository data got to.
#[derive(Copy, Clone, Debug)]
pub struct CodePushState {
    pub id: Oid,
    pub timestamp: u64,
}

/// A project: an id, a worktree path, and its settings.
#[derive(Clone, Debug)]
pub struct Project {
    pub id: ProjectId,
    pub title: String,
    pub description: Option<String>,
    /// The worktree directory of the project's repository.
    pub path: String,
    pub preferred_key: AuthKey,
    /// When set, updating the base branch may force-push.
    pub ok_with_force_push: bool,
    pub api: Option<ApiProject>,
    pub gitbutler_data_last_fetch: Option<FetchResult>,
    pub gitbutler_code_push_state: Option<CodePushState>,
    pub project_data_last_fetch: Option<FetchResult>,
    pub omit_certificate_check: Option<bool>,
    pub enable_snapshots: Option<bool>,
    /// The number of changed lines that will trigger a snapshot.
    pub snapshot_lines_threshold: usize,
}

/// The snapshot threshold a project starts with.
pub fn default_snapshot_lines_threshold() -> (r: usize)
    ensures
        r == 20,
{
    20
}

impl Default for Project {
    fn default() -> (r: Project)
        ensures
            r.title@ == Seq::<char>::empty(),
            r.path@ == Seq::<char>::empty(),
            r.description is None,
            r.preferred_key == AuthKey::SystemExecutable,
            r.ok_with_force_push,
            r.api is None,
            r.gitbutler_data_last_fetch is None,
            r.gitbutler_code_push_state is None,
            r.project_data_last_fetch is None,
            r.omit_certificate_check is None,
            r.enable_snapshots is None,
            r.snapshot_lines_threshold == 20,
    {
        Project {
            id: ProjectId { hi: 0, lo: 0 },
            title: String::new(),
            description: None,
            path: String::new(),
            preferred_key: AuthKey::SystemExecutable,
            ok_with_force_push: true,
            api: None,
            gitbutler_data_last_fetch: None,
            gitbutler_code_push_state: None,
            project_data_last_fetch: None,
            omit_certificate_check: None,
            enable_snapshots: None,
            snapshot_lines_threshold: 20,
        }
    }
}

impl Project {
    /// Whether the hosted API syncs this project.
    pub fn is_sync_enabled(&self) -> (r: bool)
        ensures
            r == (match self.api {
                Some(a) => a.sync,
                None => false,
            }),
    {
        match &self.api {
            Some(a) => a.sync,
            None => false,
        }
    }

    /// Whether the hosted API carries a code url for this project.
    pub fn has_code_url(&self) -> (r: bool)
        ensures
            r == (match self.api {
                Some(a) => a.code_git_url is Some,
                None => false,
            }),
    {
        match &self.api {
            Some(a) => a.code_git_url.is_some(),
            None => false,
        }
    }

    /// The directory holding this project's engine state: `.git/gitbutler`
    /// under the worktree.
    pub fn gb_dir(&self) -> (r: String)
        ensures
            r@ == self.path@ + "/.git/gitbutler"@,
    {
        let mut s = self.path.clone();
        s.append("/.git/gitbutler");
        s
    }

    /// A handle on the virtual-branch store of the project.
    pub fn virtual_branches(&self) -> (r: VirtualBranchesHandle)
        ensures
            r.gb_dir@ == self.path@ + "/.git/gitbutler"@,
    {
        VirtualBranchesHandle::new(self.gb_dir())
    }
}

} // verus!
