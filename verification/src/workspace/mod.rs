//! Workspaces: a directory for each issue that is worked on.
use vstd::prelude::*;
use crate::collections::StringMap;
use crate::config::schema::HooksConfig;
use crate::domain::issue::{Blocker, Comment, Issue, IssueView};
use crate::error::Result;
use crate::paths::{lemma_parent_of_joined, parent, parent_path, path_up_to};
use crate::prompt::{build_prompt_with_workspace, can_render, prompt_globals};

pub mod hooks;
pub mod safety;

use safety::{is_solid, lemma_solid_name, sanitized, workspace_of};

verus! {

/// What makes a workspace be there.
#[derive(Debug)]
pub enum Creation {
    /// It is there already.
    Done,
    /// Create the directory.
    CreateDir,
    /// Create the parent directory, if there is one; then run the script, unless
    /// it could not be rendered, in the directory `cwd`. The script creates the
    /// workspace.
    RunHook { parent: Option<String>, cwd: String, script: Result<String> },
}

/// What makes a workspace go away.
#[derive(Debug)]
pub enum Removal {
    /// It is not there.
    Done,
    /// Remove the directory with all it holds.
    RemoveDir,
    /// Run the script in the directory `cwd`; how it ended goes to
    /// `after_removal_hook`.
    RunHook { cwd: String, script: String },
}

/// The directory that a workspace's own creation and removal are run in: its
/// parent, where it has one.
pub open spec fn outer_dir(dir: Seq<char>) -> Seq<char> {
    match parent_path(dir) {
        Some(p) => p,
        None => dir,
    }
}

/// `script` is what rendering `hook` for an issue and its workspace can give.
pub open spec fn is_script(
    hook: Seq<char>,
    issue: IssueView,
    attempt: Option<u32>,
    dir: Seq<char>,
    script: Result<String>,
) -> bool {
    can_render(hook, prompt_globals(issue, attempt, Some(dir), None), script)
}

/// Render a hook script through Liquid with issue context and workspace path.
pub fn render_hook(hook: &str, issue: &Issue, attempt: Option<u32>, workspace: &str) -> (r: Result<
    String,
>)
    ensures
        is_script(hook@, issue.deep_view(), attempt, workspace@, r),
{
    build_prompt_with_workspace(hook, issue, attempt, Some(workspace))
}

/// What makes the workspace of an issue be there. Where a hook is configured
/// for it, the hook creates the workspace.
pub fn plan_creation(dir: &str, exists_already: bool, hooks: &HooksConfig, issue: &Issue) -> (r:
    Creation)
    ensures
        r is Done <==> exists_already,
        r is CreateDir <==> !exists_already && hooks.after_create is None,
        r matches Creation::RunHook { parent, cwd, script } ==> {
            &&& hooks.after_create is Some
            &&& parent.deep_view() == parent_path(dir@)
            &&& cwd@ == outer_dir(dir@)
            &&& is_script(hooks.after_create->0@, issue.deep_view(), None, dir@, script)
        },
{
    if exists_already {
        return Creation::Done;
    }
    match &hooks.after_create {
        Some(hook) => {
            let script = render_hook(hook.as_str(), issue, None, dir);
            let outer = parent(dir);
            let cwd = match &outer {
                Some(p) => p.clone(),
                None => dir.to_owned(),
            };
            Creation::RunHook { parent: outer, cwd, script }
        },
        None => Creation::CreateDir,
    }
}

/// The script that runs in a workspace before an agent does, if one is
/// configured.
pub fn plan_prepare(dir: &str, hooks: &HooksConfig, issue: &Issue, attempt: Option<u32>) -> (r:
    Option<Result<String>>)
    ensures
        r is Some <==> hooks.before_run is Some,
        r is Some ==> is_script(hooks.before_run->0@, issue.deep_view(), attempt, dir@, r->0),
{
    match &hooks.before_run {
        Some(hook) => Some(render_hook(hook.as_str(), issue, attempt, dir)),
        None => None,
    }
}

/// The script that runs in a workspace after an agent did, if one is
/// configured.
pub fn plan_finish(dir: &str, hooks: &HooksConfig, issue: &Issue) -> (r: Option<Result<String>>)
    ensures
        r is Some <==> hooks.after_run is Some,
        r is Some ==> is_script(hooks.after_run->0@, issue.deep_view(), None, dir@, r->0),
{
    match &hooks.after_run {
        Some(hook) => Some(render_hook(hook.as_str(), issue, None, dir)),
        None => None,
    }
}

/// The environment variable that tells a script whether the agent succeeded.
pub fn finish_variable(success: bool) -> (r: (String, String))
    ensures
        r.0@ == "RUN_SUCCESS"@,
        r.1@ == if success {
            "true"@
        } else {
            "false"@
        },
{
    let value = if success {
        "true"
    } else {
        "false"
    };
    ("RUN_SUCCESS".to_owned(), value.to_owned())
}

/// An issue of which only the key is known.
pub open spec fn bare_issue(key: Seq<char>) -> IssueView {
    IssueView {
        identifier: key,
        title: ""@,
        description: None,
        status: ""@,
        priority: None,
        url: None,
        notion_page_id: None,
        blockers: seq![],
        source: "reaper"@,
        extra: seq![],
        comments: seq![],
        workflow_id: ""@,
    }
}

/// An issue of which only the key is known, for workspaces whose issue the
/// tracker no longer reports.
pub fn issue_of_workspace(issue_key: &str) -> (r: Issue)
    ensures
        r.deep_view() == bare_issue(issue_key@),
        r.extra.wf(),
{
    let blockers: Vec<Blocker> = Vec::new();
    let comments: Vec<Comment> = Vec::new();
    let r = Issue {
        identifier: issue_key.to_owned(),
        title: "".to_owned(),
        description: None,
        status: "".to_owned(),
        priority: None,
        url: None,
        notion_page_id: None,
        blockers,
        source: "reaper".to_owned(),
        extra: StringMap::new(),
        comments,
        workflow_id: "".to_owned(),
    };
    assert(r.blockers.deep_view() =~= seq![]);
    assert(r.extra.deep_view() =~= seq![]);
    assert(r.comments.deep_view() =~= seq![]);
    r
}

/// What makes a workspace go away: the configured hook, rendered with the issue
/// where it is known, and then the removal of what is left.
///
/// Fails only where the hook cannot be rendered; the workspace then stays.
pub fn plan_removal(
    dir: &str,
    is_there: bool,
    hooks: &HooksConfig,
    issue_key: &str,
    issue: &Option<Issue>,
) -> (r: Result<Removal>)
    ensures
        ({
            let about = match issue {
                Some(i) => i.deep_view(),
                None => bare_issue(issue_key@),
            };
            match r {
                Ok(Removal::Done) => !is_there,
                Ok(Removal::RemoveDir) => is_there && hooks.before_remove is None,
                Ok(Removal::RunHook { cwd, script }) => {
                    &&& is_there && hooks.before_remove is Some
                    &&& cwd@ == outer_dir(dir@)
                    &&& is_script(hooks.before_remove->0@, about, None, dir@, Ok(script))
                },
                Err(e) => {
                    &&& is_there && hooks.before_remove is Some
                    &&& is_script(hooks.before_remove->0@, about, None, dir@, Err(e))
                },
            }
        }),
{
    if !is_there {
        return Ok(Removal::Done);
    }
    match &hooks.before_remove {
        Some(hook) => {
            let script = match issue {
                Some(i) => render_hook(hook.as_str(), i, None, dir),
                None => {
                    let bare = issue_of_workspace(issue_key);
                    render_hook(hook.as_str(), &bare, None, dir)
                },
            };
            let cwd = match parent(dir) {
                Some(p) => p,
                None => dir.to_owned(),
            };
            match script {
                Ok(script) => Ok(Removal::RunHook { cwd, script }),
                Err(e) => Err(e),
            }
        },
        None => Ok(Removal::RemoveDir),
    }
}

/// What follows the script that runs before a workspace is removed, however it
/// ended: the removal of what is left.
pub fn after_removal_hook(_outcome: &Result<String>, still_there: bool) -> (r: Removal)
    ensures
        r is RemoveDir <==> still_there,
        r is Done <==> !still_there,
{
    if still_there {
        Removal::RemoveDir
    } else {
        Removal::Done
    }
}

/// The scripts that create and remove the workspace of a key that holds a
/// letter, a digit or an underscore run in the root of the workspaces, outside
/// the workspace itself.
pub proof fn law_outer_dir_is_root(root: Seq<char>, key: Seq<char>)
    requires
        root.len() > 0,
        exists|i: int| 0 <= i < key.len() && is_solid(#[trigger] key[i]),
    ensures
        outer_dir(workspace_of(root, key)) == path_up_to(root, root.len() as int),
{
    lemma_solid_name(key);
    lemma_parent_of_joined(root, sanitized(key));
}

/// An issue of which only the key is known has that identifier, and says that it comes
/// from the removal of stale workspaces; nothing else is known of it.
pub proof fn law_bare_issue_is_its_key(key: Seq<char>)
    ensures
        ({
            let i = bare_issue(key);
            &&& i.identifier == key
            &&& i.source == "reaper"@
            &&& i.title.len() == 0
            &&& i.status.len() == 0
            &&& i.workflow_id.len() == 0
            &&& i.description is None
            &&& i.priority is None
            &&& i.url is None
            &&& i.notion_page_id is None
            &&& i.blockers.len() == 0
            &&& i.comments.len() == 0
            &&& i.extra.len() == 0
        }),
{
    reveal_strlit("");
}

} // verus!
