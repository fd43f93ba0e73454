//! Making a hosted project a worktree on this machine.
use vstd::prelude::*;
use crate::adopt;
use crate::paths;
use crate::process;
use crate::protocol;
use crate::reconcile;
use crate::remote;
use crate::state;
use crate::text;
use crate::text_map;
use crate::adopt::{copy_heads, find_head, Adopt};
use crate::join::Join;
use crate::json::copy_fields;
use crate::paths::{join_path, parent_of};
use crate::process::{
    git_lenient, git_strict, words2, words3, words5, GitCall, GitCallView, RunOptions,
    RunOptionsView, RunResult, RunResultView,
};
use crate::protocol::{AdvertisedHead, AdvertisedHeadView, CatalogProject, CatalogProjectView};
use crate::reconcile::is_ancestor;
use crate::remote::{authorization_env, git_authorized, map_heads, set_url};
use crate::state::{LocalProject, LocalProjectView};
use crate::text::{cat2, cat3, cat4, copy_option, same_text, text_before};
use crate::text_map::{copy_map, lookup, names_of, put_text, TextMap};
use crate::transaction::{ReconcileResult, ReconcileResultView};

verus! {

/// How far a project has come.
#[derive(Debug, Clone, Copy, PartialEq, Eq, Structural)]
pub enum MaterializeStage {
    Exists,
    Parent,
    Clone,
    Verify,
    Switch,
    Directory,
    Init,
    Add,
    Inside,
    Adopt,
    Remote,
    Url,
    Mapping,
    Canonical,
    Fetch,
    Local,
    Branch,
    PushAll,
    RefetchAll,
    Behind,
    Ahead,
    Push,
    Refetch,
    Join,
    Move,
    Relocal,
    Select,
    Finished,
}

/// A hosted project that becomes a worktree, step by step: [`Materialize::request`] says what is
/// to be done next, and [`Materialize::advance`] takes what came of it.
#[derive(Debug)]
pub struct Materialize {
    pub stage: MaterializeStage,
    pub project: CatalogProject,
    pub destination: String,
    pub token: Option<String>,
    pub remote_name: String,
    /// Whether the remote is known already.
    pub known: bool,
    /// The canonical path of the worktree.
    pub local_path: String,
    /// The commits of the branches on the remote, and in the worktree.
    pub hosted: TextMap<String>,
    pub local: TextMap<String>,
    /// The branch that the worktree is on.
    pub branch: Option<String>,
    /// The branches that are compared, and the one that is looked at.
    pub names: Vec<String>,
    pub at: usize,
    /// Whether the local branch that is looked at holds the hosted one.
    pub behind: bool,
    /// The branches to push.
    pub publish: Vec<String>,
    /// The commits that count as applied.
    pub selected: TextMap<String>,
    pub failure: Option<String>,
}

/// What a [`Materialize`] holds.
pub struct MaterializeView {
    pub stage: MaterializeStage,
    pub project: CatalogProjectView,
    pub destination: Seq<char>,
    pub token: Option<Seq<char>>,
    pub remote_name: Seq<char>,
    pub known: bool,
    pub local_path: Seq<char>,
    pub hosted: Map<Seq<char>, Seq<char>>,
    pub local: Map<Seq<char>, Seq<char>>,
    pub branch: Option<Seq<char>>,
    pub names: Seq<Seq<char>>,
    pub at: int,
    pub behind: bool,
    pub publish: Seq<Seq<char>>,
    pub selected: Map<Seq<char>, Seq<char>>,
    pub failure: Option<Seq<char>>,
}

impl View for Materialize {
    type V = MaterializeView;

    open spec fn view(&self) -> MaterializeView {
        MaterializeView {
            stage: self.stage,
            project: self.project@,
            destination: self.destination@,
            token: text::opt_view(self.token),
            remote_name: self.remote_name@,
            known: self.known,
            local_path: self.local_path@,
            hosted: text_map::texts(self.hosted@),
            local: text_map::texts(self.local@),
            branch: text::opt_view(self.branch),
            names: text::views(self.names@),
            at: self.at as int,
            behind: self.behind,
            publish: text::views(self.publish@),
            selected: text_map::texts(self.selected@),
            failure: text::opt_view(self.failure),
        }
    }
}

/// What is asked for.
#[derive(Debug, Clone, PartialEq, Eq)]
pub enum MaterializeAction {
    /// Say whether a path exists.
    Exists(String),
    /// Make a directory, with those above it.
    Make(String),
    /// Run this command.
    Git(GitCall),
    /// Adopt the directory as it is.
    Adopt,
    /// Find the canonical form of a path.
    Canonical(String),
    /// Fetch all branches: the path, and the name of the remote.
    Fetch(String, String),
    /// List the branches of the worktree at this path.
    Local(String),
    /// Ask for the branch of the worktree at this path.
    Branch(String),
    /// Move the worktree at this path from one commit of the remote to another.
    Move(String, String, String),
    /// The worktree is there.
    Return,
    /// There is no worktree, for this reason.
    Fail(String),
}

/// What a [`MaterializeAction`] holds.
pub enum MaterializeActionView {
    Exists(Seq<char>),
    Make(Seq<char>),
    Git(GitCallView),
    Adopt,
    Canonical(Seq<char>),
    Fetch(Seq<char>, Seq<char>),
    Local(Seq<char>),
    Branch(Seq<char>),
    Move(Seq<char>, Seq<char>, Seq<char>),
    Return,
    Fail(Seq<char>),
}

impl View for MaterializeAction {
    type V = MaterializeActionView;

    open spec fn view(&self) -> MaterializeActionView {
        match *self {
            MaterializeAction::Exists(a) => MaterializeActionView::Exists(a@),
            MaterializeAction::Make(a) => MaterializeActionView::Make(a@),
            MaterializeAction::Git(a) => MaterializeActionView::Git(a@),
            MaterializeAction::Adopt => MaterializeActionView::Adopt,
            MaterializeAction::Canonical(a) => MaterializeActionView::Canonical(a@),
            MaterializeAction::Fetch(a, b) => MaterializeActionView::Fetch(a@, b@),
            MaterializeAction::Local(a) => MaterializeActionView::Local(a@),
            MaterializeAction::Branch(a) => MaterializeActionView::Branch(a@),
            MaterializeAction::Move(a, b, c) => MaterializeActionView::Move(a@, b@, c@),
            MaterializeAction::Return => MaterializeActionView::Return,
            MaterializeAction::Fail(a) => MaterializeActionView::Fail(a@),
        }
    }
}

/// What came of a step.
#[derive(Debug)]
pub enum MaterializeEvent {
    Exists(bool),
    /// What was asked for is done.
    Did,
    Ran(RunResult),
    Path(String),
    Heads(TextMap<String>),
    /// The branch, if there is one.
    Branch(Option<String>),
    Moved(ReconcileResult),
    Failed(String),
}

/// What a [`MaterializeEvent`] holds.
pub enum MaterializeEventView {
    Exists(bool),
    Did,
    Ran(RunResultView),
    Path(Seq<char>),
    Heads(Map<Seq<char>, Seq<char>>),
    Branch(Option<Seq<char>>),
    Moved(ReconcileResultView),
    Failed(Seq<char>),
}

impl View for MaterializeEvent {
    type V = MaterializeEventView;

    open spec fn view(&self) -> MaterializeEventView {
        match *self {
            MaterializeEvent::Exists(a) => MaterializeEventView::Exists(a),
            MaterializeEvent::Did => MaterializeEventView::Did,
            MaterializeEvent::Ran(a) => MaterializeEventView::Ran(a@),
            MaterializeEvent::Path(a) => MaterializeEventView::Path(a@),
            MaterializeEvent::Heads(a) => MaterializeEventView::Heads(text_map::texts(a@)),
            MaterializeEvent::Branch(a) => MaterializeEventView::Branch(text::opt_view(a)),
            MaterializeEvent::Moved(a) => MaterializeEventView::Moved(a@),
            MaterializeEvent::Failed(a) => MaterializeEventView::Failed(a@),
        }
    }
}

/// The smallest of the names of some heads.
pub open spec fn smallest_name(heads: Seq<AdvertisedHeadView>) -> Seq<char>
    decreases heads.len(),
{
    if heads.len() == 0 {
        Seq::empty()
    } else if heads.len() == 1 {
        heads[0].name
    } else {
        let before = smallest_name(heads.drop_last());
        if text::text_less(heads.last().name, before) {
            heads.last().name
        } else {
            before
        }
    }
}

/// The branch that is checked out where the clone did not choose one: the default branch if it is
/// hosted, else the first one.
pub open spec fn switch_branch(p: CatalogProjectView) -> Seq<char> {
    if adopt::head_position(p.advertised_heads, p.default_branch, 0) is Some {
        p.default_branch
    } else {
        smallest_name(p.advertised_heads)
    }
}

/// The clone of a project.
pub open spec fn clone_call(s: MaterializeView) -> GitCallView {
    GitCallView {
        args: seq!["clone"@, "--origin"@, s.remote_name, s.project.remote_url, s.destination],
        options: (RunOptionsView {
            cwd: paths::parent(s.destination),
            env: remote::token_env(s.token),
            input: None,
            allow_failure: false,
        }),
    }
}

/// The mapping that pushes a branch as it is, without force.
pub open spec fn plain_refspec(name: Seq<char>) -> Seq<char> {
    "refs/heads/"@ + name + ":refs/heads/"@ + name
}

/// The commit of a branch, or nothing.
pub open spec fn oid_of(heads: Map<Seq<char>, Seq<char>>, name: Seq<char>) -> Seq<char> {
    match text_map::text_at(heads, name) {
        Some(oid) => oid,
        None => Seq::empty(),
    }
}

/// The branch that the worktree is on, or nothing.
pub open spec fn branch_name(s: MaterializeView) -> Seq<char> {
    match s.branch {
        Some(branch) => branch,
        None => Seq::empty(),
    }
}

/// What is asked for at a stage.
pub open spec fn materialize_requested(s: MaterializeView) -> MaterializeActionView {
    let d = s.destination;
    let name = s.names[s.at];
    match s.stage {
        MaterializeStage::Exists => MaterializeActionView::Exists(d),
        MaterializeStage::Parent => MaterializeActionView::Make(
            match paths::parent(d) {
                Some(path) => path,
                None => "."@,
            },
        ),
        MaterializeStage::Clone => MaterializeActionView::Git(clone_call(s)),
        MaterializeStage::Verify => MaterializeActionView::Git(
            process::git_try(d, seq!["rev-parse"@, "--verify"@, "HEAD"@]),
        ),
        MaterializeStage::Switch => MaterializeActionView::Git(
            process::git_in(
                d,
                seq![
                    "switch"@,
                    "-c"@,
                    switch_branch(s.project),
                    "--track"@,
                    s.remote_name + "/"@ + switch_branch(s.project),
                ],
            ),
        ),
        MaterializeStage::Directory => MaterializeActionView::Make(d),
        MaterializeStage::Init => MaterializeActionView::Git(
            process::git_in(d, seq!["init"@, "--initial-branch="@ + s.project.default_branch]),
        ),
        MaterializeStage::Add => MaterializeActionView::Git(
            remote::set_url_call(d, false, s.remote_name, s.project.remote_url),
        ),
        MaterializeStage::Inside => MaterializeActionView::Git(
            process::git_try(d, seq!["rev-parse"@, "--is-inside-work-tree"@]),
        ),
        MaterializeStage::Adopt => MaterializeActionView::Adopt,
        MaterializeStage::Remote => MaterializeActionView::Git(
            process::git_try(d, seq!["remote"@, "get-url"@, s.remote_name]),
        ),
        MaterializeStage::Url => MaterializeActionView::Git(
            remote::set_url_call(d, s.known, s.remote_name, s.project.remote_url),
        ),
        MaterializeStage::Mapping => MaterializeActionView::Git(remote::mapping_call(d, s.remote_name)),
        MaterializeStage::Canonical => MaterializeActionView::Canonical(d),
        MaterializeStage::Fetch => MaterializeActionView::Fetch(s.local_path, s.remote_name),
        MaterializeStage::Local => MaterializeActionView::Local(d),
        MaterializeStage::Branch => MaterializeActionView::Branch(d),
        MaterializeStage::PushAll => MaterializeActionView::Git(
            remote::git_with_token(
                d,
                seq!["push"@, s.remote_name, "refs/heads/*:refs/heads/*"@],
                s.token,
                false,
            ),
        ),
        MaterializeStage::RefetchAll => MaterializeActionView::Fetch(s.local_path, s.remote_name),
        MaterializeStage::Behind => MaterializeActionView::Git(
            reconcile::ancestor_call(d, oid_of(s.hosted, name), oid_of(s.local, name)),
        ),
        MaterializeStage::Ahead => MaterializeActionView::Git(
            reconcile::ancestor_call(d, oid_of(s.local, name), oid_of(s.hosted, name)),
        ),
        MaterializeStage::Push => MaterializeActionView::Git(
            remote::git_with_token(d, seq!["push"@, s.remote_name] + s.publish, s.token, false),
        ),
        MaterializeStage::Refetch => MaterializeActionView::Fetch(s.local_path, s.remote_name),
        MaterializeStage::Join => MaterializeActionView::Git(
            reconcile::ancestor_call(
                d,
                oid_of(s.local, branch_name(s)),
                oid_of(s.hosted, branch_name(s)),
            ),
        ),
        MaterializeStage::Move => MaterializeActionView::Move(
            d,
            oid_of(s.local, branch_name(s)),
            oid_of(s.hosted, branch_name(s)),
        ),
        MaterializeStage::Relocal => MaterializeActionView::Local(d),
        MaterializeStage::Select => MaterializeActionView::Git(
            reconcile::ancestor_call(d, oid_of(s.local, name), oid_of(s.hosted, name)),
        ),
        MaterializeStage::Finished => match s.failure {
            Some(message) => MaterializeActionView::Fail(message),
            None => MaterializeActionView::Return,
        },
    }
}

/// One at another stage.
pub open spec fn materialize_at(s: MaterializeView, stage: MaterializeStage) -> MaterializeView {
    MaterializeView { stage, ..s }
}

/// One that failed.
pub open spec fn materialize_failed(s: MaterializeView, message: Seq<char>) -> MaterializeView {
    MaterializeView { stage: MaterializeStage::Finished, failure: Some(message), ..s }
}

/// One that goes through the branches from a position on, past those that need no comparison:
/// branches that are not hosted are to be pushed, and those with the same commit are left alone.
pub open spec fn scanned(s: MaterializeView, at: int) -> MaterializeView
    decreases s.names.len() - at,
{
    if at < 0 || at >= s.names.len() {
        MaterializeView { at, ..s }
    } else {
        let name = s.names[at];
        if !s.hosted.contains_key(name) {
            scanned(MaterializeView { publish: s.publish.push(plain_refspec(name)), ..s }, at + 1)
        } else if s.local.contains_key(name) && s.local[name] == s.hosted[name] {
            scanned(s, at + 1)
        } else {
            MaterializeView { at, ..s }
        }
    }
}

/// One that compares the branches from a position on.
pub open spec fn comparing(s: MaterializeView, at: int) -> MaterializeView {
    let now = scanned(s, at);
    if now.at < now.names.len() {
        materialize_at(now, MaterializeStage::Behind)
    } else if now.publish.len() > 0 {
        materialize_at(now, MaterializeStage::Push)
    } else {
        joining(now)
    }
}

/// One that moves the worktree where its branch is behind the hosted one.
pub open spec fn joining(s: MaterializeView) -> MaterializeView {
    match s.branch {
        Some(branch) => if s.local.contains_key(branch) && s.hosted.contains_key(branch)
            && s.local[branch] != s.hosted[branch] {
            materialize_at(s, MaterializeStage::Join)
        } else {
            selecting_all(s)
        },
        None => selecting_all(s),
    }
}

/// One that goes through the hosted branches from a position on, past those whose hosted commit
/// counts as applied.
pub open spec fn picked(s: MaterializeView, at: int) -> MaterializeView
    decreases s.names.len() - at,
{
    if at < 0 || at >= s.names.len() {
        MaterializeView { at, ..s }
    } else {
        let name = s.names[at];
        if s.local.contains_key(name) && s.local[name] != oid_of(s.hosted, name) {
            MaterializeView { at, ..s }
        } else {
            picked(
                MaterializeView {
                    selected: s.selected.insert(name, oid_of(s.hosted, name)),
                    ..s
                },
                at + 1,
            )
        }
    }
}

/// One that selects the commits that count as applied, from a position on.
pub open spec fn selecting(s: MaterializeView, at: int) -> MaterializeView {
    let now = picked(s, at);
    if now.at < now.names.len() {
        materialize_at(now, MaterializeStage::Select)
    } else {
        materialize_at(now, MaterializeStage::Finished)
    }
}

/// One that selects the commits that count as applied.
pub open spec fn selecting_all(s: MaterializeView) -> MaterializeView {
    selecting(
        MaterializeView { names: text_map::sorted_keys(s.hosted), selected: Map::empty(), ..s },
        0,
    )
}

/// One that knows its branch.
pub open spec fn materialize_branch(
    s: MaterializeView,
    branch: Option<Seq<char>>,
) -> MaterializeView {
    let now = MaterializeView { branch, ..s };
    if s.hosted.dom() =~= Set::empty() {
        if s.local.dom() =~= Set::empty() {
            selecting_all(now)
        } else {
            materialize_at(now, MaterializeStage::PushAll)
        }
    } else {
        comparing(
            MaterializeView { names: text_map::sorted_keys(s.local), publish: Seq::empty(), ..now },
            0,
        )
    }
}

/// The words for two histories of which neither holds the other.
pub open spec fn refused_text(name: Seq<char>) -> Seq<char> {
    "local and hosted histories for branch "@ + name
        + " diverge; RepoSync will not choose a project identity or overwrite either history"@
}

/// One that knows whether the hosted branch that is looked at holds the local one. Where neither
/// holds the other, there is no worktree; a branch that is ahead is to be pushed.
pub open spec fn materialize_compared(s: MaterializeView, ahead: bool) -> MaterializeView {
    let name = s.names[s.at];
    if !s.behind && !ahead {
        materialize_failed(s, refused_text(name))
    } else if s.behind {
        comparing(
            MaterializeView { publish: s.publish.push(plain_refspec(name)), ..s },
            s.at + 1,
        )
    } else {
        comparing(s, s.at + 1)
    }
}

/// One whose worktree was moved, or could not be.
pub open spec fn materialize_moved(
    s: MaterializeView,
    result: ReconcileResultView,
) -> MaterializeView {
    if result.outcome == "applied"@ {
        materialize_at(s, MaterializeStage::Relocal)
    } else {
        materialize_failed(
            s,
            "joining the hosted project conflicts: "@ + match result.detail {
                Some(detail) => detail,
                None => result.outcome,
            },
        )
    }
}

/// One that knows whether the local commit of the branch that is looked at is part of the hosted
/// one: then it is what counts as applied.
pub open spec fn materialize_selected(s: MaterializeView, part: bool) -> MaterializeView {
    let name = s.names[s.at];
    selecting(
        MaterializeView {
            selected: s.selected.insert(
                name,
                if part {
                    oid_of(s.local, name)
                } else {
                    oid_of(s.hosted, name)
                },
            ),
            ..s
        },
        s.at + 1,
    )
}

/// What holds after an event.
#[verifier::opaque]
pub open spec fn materialized(s: MaterializeView, e: MaterializeEventView) -> MaterializeView {
    match (s.stage, e) {
        (MaterializeStage::Finished, _) => s,
        (_, MaterializeEventView::Failed(message)) => materialize_failed(s, message),
        (MaterializeStage::Exists, MaterializeEventView::Exists(there)) => materialize_at(
            s,
            if there {
                MaterializeStage::Inside
            } else if s.project.advertised_heads.len() > 0 {
                MaterializeStage::Parent
            } else {
                MaterializeStage::Directory
            },
        ),
        (MaterializeStage::Parent, MaterializeEventView::Did) => materialize_at(
            s,
            MaterializeStage::Clone,
        ),
        (MaterializeStage::Clone, MaterializeEventView::Ran(_)) => materialize_at(
            s,
            MaterializeStage::Verify,
        ),
        (MaterializeStage::Verify, MaterializeEventView::Ran(result)) => materialize_at(
            s,
            if result.code == 0 {
                MaterializeStage::Remote
            } else {
                MaterializeStage::Switch
            },
        ),
        (MaterializeStage::Switch, MaterializeEventView::Ran(_)) => materialize_at(
            s,
            MaterializeStage::Remote,
        ),
        (MaterializeStage::Directory, MaterializeEventView::Did) => materialize_at(
            s,
            MaterializeStage::Init,
        ),
        (MaterializeStage::Init, MaterializeEventView::Ran(_)) => materialize_at(
            s,
            MaterializeStage::Add,
        ),
        (MaterializeStage::Add, MaterializeEventView::Ran(_)) => materialize_at(
            s,
            MaterializeStage::Remote,
        ),
        (MaterializeStage::Inside, MaterializeEventView::Ran(result)) => if result.code == 0 {
            materialize_at(s, MaterializeStage::Remote)
        } else if s.project.advertised_heads.len() > 0 {
            materialize_at(s, MaterializeStage::Adopt)
        } else {
            materialize_failed(s, s.destination + " exists but is not a Git worktree"@)
        },
        (MaterializeStage::Adopt, MaterializeEventView::Did) => materialize_at(
            s,
            MaterializeStage::Remote,
        ),
        (MaterializeStage::Remote, MaterializeEventView::Ran(result)) => MaterializeView {
            stage: MaterializeStage::Url,
            known: result.code == 0,
            ..s
        },
        (MaterializeStage::Url, MaterializeEventView::Ran(_)) => materialize_at(
            s,
            MaterializeStage::Mapping,
        ),
        (MaterializeStage::Mapping, MaterializeEventView::Ran(_)) => materialize_at(
            s,
            MaterializeStage::Canonical,
        ),
        (MaterializeStage::Canonical, MaterializeEventView::Path(path)) => MaterializeView {
            stage: MaterializeStage::Fetch,
            local_path: path,
            ..s
        },
        (MaterializeStage::Fetch, MaterializeEventView::Heads(heads)) => MaterializeView {
            stage: MaterializeStage::Local,
            hosted: heads,
            ..s
        },
        (MaterializeStage::Local, MaterializeEventView::Heads(heads)) => MaterializeView {
            stage: MaterializeStage::Branch,
            local: heads,
            ..s
        },
        (MaterializeStage::Branch, MaterializeEventView::Branch(branch)) => materialize_branch(
            s,
            branch,
        ),
        (MaterializeStage::PushAll, MaterializeEventView::Ran(_)) => materialize_at(
            s,
            MaterializeStage::RefetchAll,
        ),
        (MaterializeStage::RefetchAll, MaterializeEventView::Heads(heads)) => selecting_all(
            MaterializeView { hosted: heads, ..s },
        ),
        (MaterializeStage::Behind, MaterializeEventView::Ran(result)) => MaterializeView {
            stage: MaterializeStage::Ahead,
            behind: result.code == 0,
            ..s
        },
        (MaterializeStage::Ahead, MaterializeEventView::Ran(result)) => materialize_compared(
            s,
            result.code == 0,
        ),
        (MaterializeStage::Push, MaterializeEventView::Ran(_)) => materialize_at(
            s,
            MaterializeStage::Refetch,
        ),
        (MaterializeStage::Refetch, MaterializeEventView::Heads(heads)) => joining(
            MaterializeView { hosted: heads, ..s },
        ),
        (MaterializeStage::Join, MaterializeEventView::Ran(result)) => if result.code == 0 {
            materialize_at(s, MaterializeStage::Move)
        } else {
            selecting_all(s)
        },
        (MaterializeStage::Move, MaterializeEventView::Moved(result)) => materialize_moved(
            s,
            result,
        ),
        (MaterializeStage::Relocal, MaterializeEventView::Heads(heads)) => selecting_all(
            MaterializeView { local: heads, ..s },
        ),
        (MaterializeStage::Select, MaterializeEventView::Ran(result)) => materialize_selected(
            s,
            result.code == 0,
        ),
        _ => s,
    }
}

/// The branch that is looked at is there.
pub open spec fn materialize_valid(s: MaterializeView) -> bool {
    (s.stage == MaterializeStage::Behind || s.stage == MaterializeStage::Ahead || s.stage
        == MaterializeStage::Select) ==> 0 <= s.at < s.names.len()
}

/// One at its start.
pub open spec fn materialize_start(
    project: CatalogProjectView,
    destination: Seq<char>,
    token: Option<Seq<char>>,
    remote_name: Seq<char>,
) -> MaterializeView {
    MaterializeView {
        stage: MaterializeStage::Exists,
        project,
        destination,
        token,
        remote_name,
        known: false,
        local_path: Seq::empty(),
        hosted: Map::empty(),
        local: Map::empty(),
        branch: None,
        names: Seq::empty(),
        at: 0,
        behind: false,
        publish: Seq::empty(),
        selected: Map::empty(),
        failure: None,
    }
}

/// The project as it is checked out at the end.
pub open spec fn checked_out(s: MaterializeView) -> LocalProjectView {
    LocalProjectView {
        remote_url: s.project.remote_url,
        remote_name: s.remote_name,
        default_branch: s.project.default_branch,
        server_generation: s.project.project_generation,
        advertised_heads: s.hosted,
        last_applied_heads: s.selected,
        active_branch: s.branch,
        workspace_generation: if s.hosted.dom() =~= Set::empty() {
            0
        } else {
            1
        },
        ..state::fresh_project(s.project.project_id, s.local_path)
    }
}

/// Starts to make a hosted project a worktree; a relative path is one below the current directory.
pub fn materialize_project(
    catalog_project: &CatalogProject,
    local_path: &str,
    current_directory: &str,
    token: &Option<String>,
    remote_name: &str,
) -> (r: Materialize)
    ensures
        r@ == materialize_start(
            catalog_project@,
            paths::joined(current_directory@, local_path@),
            text::opt_view(*token),
            remote_name@,
        ),
        materialize_valid(r@),
{
    let r = Materialize {
        stage: MaterializeStage::Exists,
        project: CatalogProject {
            project_id: catalog_project.project_id.clone(),
            name: catalog_project.name.clone(),
            remote_url: catalog_project.remote_url.clone(),
            default_branch: catalog_project.default_branch.clone(),
            advertised_heads: copy_heads(&catalog_project.advertised_heads),
            project_generation: catalog_project.project_generation,
            extra: copy_fields(&catalog_project.extra),
        },
        destination: join_path(current_directory, local_path),
        token: copy_option(token),
        remote_name: remote_name.to_owned(),
        known: false,
        local_path: String::new(),
        hosted: TextMap::new(),
        local: TextMap::new(),
        branch: None,
        names: Vec::new(),
        at: 0,
        behind: false,
        publish: Vec::new(),
        selected: TextMap::new(),
        failure: None,
    };
    assert(r@.local_path =~= Seq::empty());
    assert(r@.hosted =~= Map::empty());
    assert(r@.local =~= Map::empty());
    assert(r@.selected =~= Map::empty());
    assert(r@.names =~= Seq::empty());
    assert(r@.publish =~= Seq::empty());
    r
}

fn first_name(heads: &Vec<AdvertisedHead>) -> (r: String)
    ensures
        r@ == smallest_name(protocol::head_views(heads@)),
{
    let ghost all = protocol::head_views(heads@);
    if heads.len() == 0 {
        let none = String::new();
        assert(none@ =~= Seq::empty());
        return none;
    }
    let mut r = heads[0].name.clone();
    let mut i: usize = 1;
    assert(all.take(1).len() == 1);
    assert(all.take(1)[0] == heads@[0]@);
    while i < heads.len()
        invariant
            1 <= i <= heads.len(),
            all == protocol::head_views(heads@),
            r@ == smallest_name(all.take(i as int)),
        decreases heads.len() - i,
    {
        let ghost next = all.take(i + 1);
        assert(next.drop_last() =~= all.take(i as int));
        assert(next.last() == heads@[i as int]@);
        if text_before(heads[i].name.as_str(), r.as_str()) {
            r = heads[i].name.clone();
        }
        i += 1;
    }
    assert(all.take(i as int) =~= all);
    r
}

fn oid(heads: &TextMap<String>, name: &str) -> (r: String)
    ensures
        r@ == oid_of(text_map::texts(heads@), name@),
{
    match lookup(heads, name) {
        Some(oid) => oid,
        None => {
            let none = String::new();
            assert(none@ =~= Seq::empty());
            none
        },
    }
}

impl Materialize {
    fn switch_to(&self) -> (r: String)
        ensures
            r@ == switch_branch(self@.project),
    {
        match find_head(&self.project.advertised_heads, self.project.default_branch.as_str()) {
            Some(_) => self.project.default_branch.clone(),
            None => first_name(&self.project.advertised_heads),
        }
    }

    fn clone_command(&self) -> (r: GitCall)
        ensures
            r@ == clone_call(self@),
    {
        GitCall {
            args: words5(
                "clone",
                "--origin",
                self.remote_name.as_str(),
                self.project.remote_url.as_str(),
                self.destination.as_str(),
            ),
            options: RunOptions {
                cwd: parent_of(self.destination.as_str()),
                env: authorization_env(&self.token),
                input: None,
                allow_failure: false,
            },
        }
    }

    fn push_command(&self) -> (r: GitCall)
        ensures
            r@ == remote::git_with_token(
                self@.destination,
                seq!["push"@, self@.remote_name] + self@.publish,
                self@.token,
                false,
            ),
    {
        let mut words = words2("push", self.remote_name.as_str());
        let ghost start = text::views(words@);
        let mut i: usize = 0;
        assert(start =~= start + self@.publish.take(0));
        while i < self.publish.len()
            invariant
                0 <= i <= self.publish.len(),
                text::views(words@) == start + self@.publish.take(i as int),
            decreases self.publish.len() - i,
        {
            let ghost before = words@;
            words.push(self.publish[i].clone());
            assert(text::views(words@) =~= text::views(before).push(self@.publish[i as int]));
            assert(text::views(words@) =~= start + self@.publish.take(i + 1));
            i += 1;
        }
        assert(self@.publish.take(i as int) =~= self@.publish);
        git_authorized(self.destination.as_str(), words, &self.token, false)
    }

    fn compare(&self, name: &str, local_first: bool) -> (r: GitCall)
        ensures
            r@ == if local_first {
                reconcile::ancestor_call(
                    self@.destination,
                    oid_of(self@.local, name@),
                    oid_of(self@.hosted, name@),
                )
            } else {
                reconcile::ancestor_call(
                    self@.destination,
                    oid_of(self@.hosted, name@),
                    oid_of(self@.local, name@),
                )
            },
    {
        let local = oid(&self.local, name);
        let hosted = oid(&self.hosted, name);
        if local_first {
            is_ancestor(self.destination.as_str(), local.as_str(), hosted.as_str())
        } else {
            is_ancestor(self.destination.as_str(), hosted.as_str(), local.as_str())
        }
    }

    fn on(&self) -> (r: String)
        ensures
            r@ == branch_name(self@),
    {
        match &self.branch {
            Some(branch) => branch.clone(),
            None => {
                let none = String::new();
                assert(none@ =~= Seq::empty());
                none
            },
        }
    }

    /// What is to be done next.
    pub fn request(&self) -> (r: MaterializeAction)
        requires
            materialize_valid(self@),
        ensures
            r@ == materialize_requested(self@),
    {
        let d = self.destination.as_str();
        let remote = self.remote_name.as_str();
        let url = self.project.remote_url.as_str();
        match self.stage {
            MaterializeStage::Exists => MaterializeAction::Exists(d.to_owned()),
            MaterializeStage::Parent => MaterializeAction::Make(
                match parent_of(d) {
                    Some(path) => path,
                    None => ".".to_owned(),
                },
            ),
            MaterializeStage::Clone => MaterializeAction::Git(self.clone_command()),
            MaterializeStage::Verify => MaterializeAction::Git(
                git_lenient(d, words3("rev-parse", "--verify", "HEAD")),
            ),
            MaterializeStage::Switch => {
                let branch = self.switch_to();
                let upstream = cat3(remote, "/", branch.as_str());
                MaterializeAction::Git(
                    git_strict(
                        d,
                        words5("switch", "-c", branch.as_str(), "--track", upstream.as_str()),
                    ),
                )
            },
            MaterializeStage::Directory => MaterializeAction::Make(d.to_owned()),
            MaterializeStage::Init => {
                let option = cat2("--initial-branch=", self.project.default_branch.as_str());
                MaterializeAction::Git(git_strict(d, words2("init", option.as_str())))
            },
            MaterializeStage::Add => MaterializeAction::Git(set_url(d, false, remote, url)),
            MaterializeStage::Inside => MaterializeAction::Git(
                git_lenient(d, words2("rev-parse", "--is-inside-work-tree")),
            ),
            MaterializeStage::Adopt => MaterializeAction::Adopt,
            MaterializeStage::Remote => MaterializeAction::Git(
                git_lenient(d, words3("remote", "get-url", remote)),
            ),
            MaterializeStage::Url => MaterializeAction::Git(set_url(d, self.known, remote, url)),
            MaterializeStage::Mapping => MaterializeAction::Git(map_heads(d, remote)),
            MaterializeStage::Canonical => MaterializeAction::Canonical(d.to_owned()),
            MaterializeStage::Fetch => MaterializeAction::Fetch(
                self.local_path.clone(),
                remote.to_owned(),
            ),
            MaterializeStage::Local => MaterializeAction::Local(d.to_owned()),
            MaterializeStage::Branch => MaterializeAction::Branch(d.to_owned()),
            MaterializeStage::PushAll => MaterializeAction::Git(
                git_authorized(
                    d,
                    words3("push", remote, "refs/heads/*:refs/heads/*"),
                    &self.token,
                    false,
                ),
            ),
            MaterializeStage::RefetchAll => MaterializeAction::Fetch(
                self.local_path.clone(),
                remote.to_owned(),
            ),
            MaterializeStage::Behind => {
                assert(self@.names[self@.at] == self.names@[self.at as int]@);
                MaterializeAction::Git(self.compare(self.names[self.at].as_str(), false))
            },
            MaterializeStage::Ahead => {
                assert(self@.names[self@.at] == self.names@[self.at as int]@);
                MaterializeAction::Git(self.compare(self.names[self.at].as_str(), true))
            },
            MaterializeStage::Push => MaterializeAction::Git(self.push_command()),
            MaterializeStage::Refetch => MaterializeAction::Fetch(
                self.local_path.clone(),
                remote.to_owned(),
            ),
            MaterializeStage::Join => {
                let branch = self.on();
                MaterializeAction::Git(self.compare(branch.as_str(), true))
            },
            MaterializeStage::Move => {
                let branch = self.on();
                MaterializeAction::Move(
                    d.to_owned(),
                    oid(&self.local, branch.as_str()),
                    oid(&self.hosted, branch.as_str()),
                )
            },
            MaterializeStage::Relocal => MaterializeAction::Local(d.to_owned()),
            MaterializeStage::Select => {
                assert(self@.names[self@.at] == self.names@[self.at as int]@);
                MaterializeAction::Git(self.compare(self.names[self.at].as_str(), true))
            },
            MaterializeStage::Finished => match &self.failure {
                Some(message) => MaterializeAction::Fail(message.clone()),
                None => MaterializeAction::Return,
            },
        }
    }

    fn fail(&mut self, message: String)
        ensures
            final(self)@ == materialize_failed(old(self)@, message@),
    {
        self.stage = MaterializeStage::Finished;
        self.failure = Some(message);
    }

    fn note_push(&mut self, name: &str)
        ensures
            final(self)@ == (MaterializeView {
                publish: old(self)@.publish.push(plain_refspec(name@)),
                ..old(self)@
            }),
    {
        let refspec = cat4("refs/heads/", name, ":refs/heads/", name);
        let ghost one = refspec@;
        self.publish.push(refspec);
        assert(self@.publish =~= old(self)@.publish.push(one));
    }

    fn scan(&mut self, from: usize)
        requires
            from <= old(self)@.names.len(),
        ensures
            final(self)@ == scanned(old(self)@, from as int),
            from <= final(self)@.at,
    {
        self.at = from;
        let ghost goal = scanned(self@, from as int);
        proof {
            lemma_scan_ignores_at(self@, old(self)@, from as int);
        }
        while self.at < self.names.len()
            invariant
                from <= self.at <= self.names.len(),
                goal == scanned(self@, self.at as int),
            ensures
                from <= self.at,
                goal == self@,
            decreases self.names.len() - self.at,
        {
            let ghost here = self@;
            assert(here.names[here.at] == self.names@[self.at as int]@);
            let name = self.names[self.at].clone();
            if !self.hosted.has(name.as_str()) {
                self.note_push(name.as_str());
                assert(scanned(here, here.at) == scanned(self@, here.at + 1));
                self.at = self.at + 1;
                proof {
                    lemma_scan_ignores_at(self@, MaterializeView { at: here.at, ..self@ }, here.at + 1);
                }
            } else {
                let same = match lookup(&self.local, name.as_str()) {
                    Some(local) => {
                        let hosted = oid(&self.hosted, name.as_str());
                        same_text(local.as_str(), hosted.as_str())
                    },
                    None => false,
                };
                if !same {
                    assert(goal == self@);
                    break ;
                }
                self.at = self.at + 1;
                proof {
                    lemma_scan_ignores_at(self@, here, here.at + 1);
                }
            }
        }
    }

    fn pick(&mut self, from: usize)
        requires
            from <= old(self)@.names.len(),
        ensures
            final(self)@ == picked(old(self)@, from as int),
            from <= final(self)@.at,
    {
        self.at = from;
        let ghost goal = picked(self@, from as int);
        proof {
            lemma_pick_ignores_at(self@, old(self)@, from as int);
        }
        while self.at < self.names.len()
            invariant
                from <= self.at <= self.names.len(),
                goal == picked(self@, self.at as int),
            ensures
                from <= self.at,
                goal == self@,
            decreases self.names.len() - self.at,
        {
            let ghost here = self@;
            assert(here.names[here.at] == self.names@[self.at as int]@);
            let name = self.names[self.at].clone();
            let hosted = oid(&self.hosted, name.as_str());
            let differs = match lookup(&self.local, name.as_str()) {
                Some(local) => !same_text(local.as_str(), hosted.as_str()),
                None => false,
            };
            if differs {
                assert(goal == self@);
                break ;
            }
            put_text(&mut self.selected, name.as_str(), hosted.as_str());
            self.at = self.at + 1;
            proof {
                lemma_pick_ignores_at(self@, MaterializeView { at: here.at, ..self@ }, here.at + 1);
            }
        }
    }

    fn select_from(&mut self, from: usize)
        requires
            from <= old(self)@.names.len(),
        ensures
            final(self)@ == selecting(old(self)@, from as int),
    {
        self.pick(from);
        self.stage = if self.at < self.names.len() {
            MaterializeStage::Select
        } else {
            MaterializeStage::Finished
        };
    }

    fn select_all(&mut self)
        ensures
            final(self)@ == selecting_all(old(self)@),
    {
        self.names = names_of(&self.hosted);
        self.selected = TextMap::new();
        assert(self@.selected =~= Map::empty());
        self.select_from(0);
    }

    fn join(&mut self)
        ensures
            final(self)@ == joining(old(self)@),
    {
        let differs = match &self.branch {
            Some(branch) => match (
                lookup(&self.local, branch.as_str()),
                lookup(&self.hosted, branch.as_str()),
            ) {
                (Some(local), Some(hosted)) => !same_text(local.as_str(), hosted.as_str()),
                _ => false,
            },
            None => false,
        };
        if differs {
            self.stage = MaterializeStage::Join;
        } else {
            self.select_all();
        }
    }

    fn compare_from(&mut self, from: usize)
        requires
            from <= old(self)@.names.len(),
        ensures
            final(self)@ == comparing(old(self)@, from as int),
    {
        self.scan(from);
        if self.at < self.names.len() {
            self.stage = MaterializeStage::Behind;
        } else if self.publish.len() > 0 {
            self.stage = MaterializeStage::Push;
        } else {
            self.join();
        }
    }

    fn at_branch(&mut self, branch: Option<String>)
        ensures
            final(self)@ == materialize_branch(old(self)@, text::opt_view(branch)),
    {
        self.branch = branch;
        assert(text_map::texts(self.hosted@).dom() =~= self.hosted@.dom());
        assert(text_map::texts(self.local@).dom() =~= self.local@.dom());
        if self.hosted.is_empty() {
            if self.local.is_empty() {
                self.select_all();
            } else {
                self.stage = MaterializeStage::PushAll;
            }
        } else {
            self.names = names_of(&self.local);
            self.publish = Vec::new();
            assert(self@.publish =~= Seq::empty());
            self.compare_from(0);
        }
    }

    fn at_compared(&mut self, ahead: bool)
        requires
            0 <= old(self)@.at < old(self)@.names.len(),
        ensures
            final(self)@ == materialize_compared(old(self)@, ahead),
    {
        assert(self@.names[self@.at] == self.names@[self.at as int]@);
        assert(self@.names.len() == self.names.len());
        let name = self.names[self.at].clone();
        let next = self.at + 1;
        if !self.behind && !ahead {
            let message = cat3(
                "local and hosted histories for branch ",
                name.as_str(),
                " diverge; RepoSync will not choose a project identity or overwrite either history",
            );
            self.fail(message);
        } else if self.behind {
            self.note_push(name.as_str());
            self.compare_from(next);
        } else {
            self.compare_from(next);
        }
    }

    fn at_selected(&mut self, part: bool)
        requires
            0 <= old(self)@.at < old(self)@.names.len(),
        ensures
            final(self)@ == materialize_selected(old(self)@, part),
    {
        assert(self@.names[self@.at] == self.names@[self.at as int]@);
        assert(self@.names.len() == self.names.len());
        let name = self.names[self.at].clone();
        let chosen = if part {
            oid(&self.local, name.as_str())
        } else {
            oid(&self.hosted, name.as_str())
        };
        put_text(&mut self.selected, name.as_str(), chosen.as_str());
        let next = self.at + 1;
        self.select_from(next);
    }

    fn at_moved(&mut self, result: ReconcileResult)
        ensures
            final(self)@ == materialize_moved(old(self)@, result@),
    {
        if same_text(result.outcome.as_str(), "applied") {
            self.stage = MaterializeStage::Relocal;
        } else {
            let detail = match &result.detail {
                Some(detail) => detail.clone(),
                None => result.outcome.clone(),
            };
            let message = cat2("joining the hosted project conflicts: ", detail.as_str());
            self.fail(message);
        }
    }

    fn on_ran(&mut self, result: RunResult)
        requires
            materialize_valid(old(self)@),
        ensures
            final(self)@ == materialized(old(self)@, MaterializeEventView::Ran(result@)),
    {
        reveal(materialized);
        let good = result.code == 0;
        match self.stage {
            MaterializeStage::Clone => {
                self.stage = MaterializeStage::Verify;
            },
            MaterializeStage::Verify => {
                self.stage = if good {
                    MaterializeStage::Remote
                } else {
                    MaterializeStage::Switch
                };
            },
            MaterializeStage::Switch => {
                self.stage = MaterializeStage::Remote;
            },
            MaterializeStage::Init => {
                self.stage = MaterializeStage::Add;
            },
            MaterializeStage::Add => {
                self.stage = MaterializeStage::Remote;
            },
            MaterializeStage::Inside => {
                if good {
                    self.stage = MaterializeStage::Remote;
                } else if self.project.advertised_heads.len() > 0 {
                    self.stage = MaterializeStage::Adopt;
                } else {
                    let message = cat2(
                        self.destination.as_str(),
                        " exists but is not a Git worktree",
                    );
                    self.fail(message);
                }
            },
            MaterializeStage::Remote => {
                self.known = good;
                self.stage = MaterializeStage::Url;
            },
            MaterializeStage::Url => {
                self.stage = MaterializeStage::Mapping;
            },
            MaterializeStage::Mapping => {
                self.stage = MaterializeStage::Canonical;
            },
            MaterializeStage::PushAll => {
                self.stage = MaterializeStage::RefetchAll;
            },
            MaterializeStage::Behind => {
                self.behind = good;
                self.stage = MaterializeStage::Ahead;
            },
            MaterializeStage::Ahead => {
                self.at_compared(good);
            },
            MaterializeStage::Push => {
                self.stage = MaterializeStage::Refetch;
            },
            MaterializeStage::Join => {
                if good {
                    self.stage = MaterializeStage::Move;
                } else {
                    self.select_all();
                }
            },
            MaterializeStage::Select => {
                self.at_selected(good);
            },
            _ => {},
        }
    }

    fn on_heads(&mut self, heads: TextMap<String>)
        requires
            materialize_valid(old(self)@),
        ensures
            final(self)@ == materialized(
                old(self)@,
                MaterializeEventView::Heads(text_map::texts(heads@)),
            ),
    {
        reveal(materialized);
        match self.stage {
            MaterializeStage::Fetch => {
                self.hosted = heads;
                self.stage = MaterializeStage::Local;
            },
            MaterializeStage::Local => {
                self.local = heads;
                self.stage = MaterializeStage::Branch;
            },
            MaterializeStage::RefetchAll => {
                self.hosted = heads;
                self.select_all();
            },
            MaterializeStage::Refetch => {
                self.hosted = heads;
                self.join();
            },
            MaterializeStage::Relocal => {
                self.local = heads;
                self.select_all();
            },
            _ => {},
        }
    }

    fn on_exists(&mut self, there: bool)
        ensures
            final(self)@ == materialized(old(self)@, MaterializeEventView::Exists(there)),
    {
        reveal(materialized);
        if self.stage == MaterializeStage::Exists {
            self.stage = if there {
                MaterializeStage::Inside
            } else if self.project.advertised_heads.len() > 0 {
                MaterializeStage::Parent
            } else {
                MaterializeStage::Directory
            };
        }
    }

    fn on_did(&mut self)
        ensures
            final(self)@ == materialized(old(self)@, MaterializeEventView::Did),
    {
        reveal(materialized);
        match self.stage {
            MaterializeStage::Parent => {
                self.stage = MaterializeStage::Clone;
            },
            MaterializeStage::Directory => {
                self.stage = MaterializeStage::Init;
            },
            MaterializeStage::Adopt => {
                self.stage = MaterializeStage::Remote;
            },
            _ => {},
        }
    }

    fn on_path(&mut self, path: String)
        ensures
            final(self)@ == materialized(old(self)@, MaterializeEventView::Path(path@)),
    {
        reveal(materialized);
        if self.stage == MaterializeStage::Canonical {
            self.local_path = path;
            self.stage = MaterializeStage::Fetch;
        }
    }

    fn on_branch(&mut self, branch: Option<String>)
        requires
            materialize_valid(old(self)@),
        ensures
            final(self)@ == materialized(
                old(self)@,
                MaterializeEventView::Branch(text::opt_view(branch)),
            ),
    {
        reveal(materialized);
        if self.stage == MaterializeStage::Branch {
            self.at_branch(branch);
        }
    }

    fn on_moved(&mut self, result: ReconcileResult)
        ensures
            final(self)@ == materialized(old(self)@, MaterializeEventView::Moved(result@)),
    {
        reveal(materialized);
        if self.stage == MaterializeStage::Move {
            self.at_moved(result);
        }
    }

    fn on_failed(&mut self, message: String)
        ensures
            final(self)@ == materialized(old(self)@, MaterializeEventView::Failed(message@)),
    {
        reveal(materialized);
        if self.stage != MaterializeStage::Finished {
            self.fail(message);
        }
    }

    /// Takes what came of the step that was asked for.
    pub fn advance(&mut self, event: MaterializeEvent)
        requires
            materialize_valid(old(self)@),
        ensures
            final(self)@ == materialized(old(self)@, event@),
            materialize_valid(final(self)@),
    {
        proof {
            lemma_materialize_valid(self@, event@);
        }
        match event {
            MaterializeEvent::Exists(there) => {
                self.on_exists(there);
            },
            MaterializeEvent::Did => {
                self.on_did();
            },
            MaterializeEvent::Ran(result) => {
                self.on_ran(result);
            },
            MaterializeEvent::Path(path) => {
                self.on_path(path);
            },
            MaterializeEvent::Heads(heads) => {
                self.on_heads(heads);
            },
            MaterializeEvent::Branch(branch) => {
                self.on_branch(branch);
            },
            MaterializeEvent::Moved(result) => {
                self.on_moved(result);
            },
            MaterializeEvent::Failed(message) => {
                self.on_failed(message);
            },
        }
    }

    /// The project as it is checked out, once the worktree is there.
    pub fn finish(self) -> (r: LocalProject)
        requires
            self@.stage == MaterializeStage::Finished,
            self@.failure is None,
        ensures
            r@ == checked_out(self@),
    {
        assert(text_map::texts(self.hosted@).dom() =~= self.hosted@.dom());
        let empty = self.hosted.is_empty();
        let mut r = LocalProject::new(
            self.project.project_id.as_str(),
            self.local_path.as_str(),
        );
        r.remote_url = self.project.remote_url.clone();
        r.remote_name = self.remote_name.clone();
        r.default_branch = self.project.default_branch.clone();
        r.server_generation = self.project.project_generation;
        r.workspace_generation = if empty {
            0
        } else {
            1
        };
        r.active_branch = copy_option(&self.branch);
        r.advertised_heads = copy_map(&self.hosted);
        r.last_applied_heads = copy_map(&self.selected);
        r
    }
}

proof fn lemma_scan_ignores_at(a: MaterializeView, b: MaterializeView, at: int)
    requires
        a == (MaterializeView { at: a.at, ..b }),
        0 <= at,
    ensures
        scanned(a, at) == scanned(b, at),
    decreases a.names.len() - at,
{
    if at < a.names.len() {
        let name = a.names[at];
        if !a.hosted.contains_key(name) {
            let x = MaterializeView { publish: a.publish.push(plain_refspec(name)), ..a };
            let y = MaterializeView { publish: b.publish.push(plain_refspec(name)), ..b };
            lemma_scan_ignores_at(x, y, at + 1);
        } else {
            lemma_scan_ignores_at(a, b, at + 1);
        }
    }
}

proof fn lemma_pick_ignores_at(a: MaterializeView, b: MaterializeView, at: int)
    requires
        a == (MaterializeView { at: a.at, ..b }),
        0 <= at,
    ensures
        picked(a, at) == picked(b, at),
    decreases a.names.len() - at,
{
    if at < a.names.len() {
        let name = a.names[at];
        let x = MaterializeView { selected: a.selected.insert(name, oid_of(a.hosted, name)), ..a };
        let y = MaterializeView { selected: b.selected.insert(name, oid_of(b.hosted, name)), ..b };
        lemma_pick_ignores_at(x, y, at + 1);
    }
}

proof fn lemma_scan(s: MaterializeView, at: int)
    requires
        0 <= at <= s.names.len(),
    ensures
        at <= scanned(s, at).at <= s.names.len(),
        scanned(s, at) == (MaterializeView {
            at: scanned(s, at).at,
            publish: scanned(s, at).publish,
            ..s
        }),
        s.publish.len() <= scanned(s, at).publish.len(),
        forall|i: int|
            0 <= i < scanned(s, at).publish.len() ==> if i < s.publish.len() {
                (#[trigger] scanned(s, at).publish[i]) == s.publish[i]
            } else {
                exists|name: Seq<char>| #[trigger]
                    s.names.contains(name) && scanned(s, at).publish[i] == plain_refspec(name)
            },
    decreases s.names.len() - at,
{
    if at < s.names.len() {
        let name = s.names[at];
        assert(s.names.contains(name));
        if !s.hosted.contains_key(name) {
            let x = MaterializeView { publish: s.publish.push(plain_refspec(name)), ..s };
            lemma_scan(x, at + 1);
            assert(x.publish[s.publish.len() as int] == plain_refspec(name));
            assert forall|i: int| 0 <= i < scanned(s, at).publish.len() implies if i
                < s.publish.len() {
                (#[trigger] scanned(s, at).publish[i]) == s.publish[i]
            } else {
                exists|other: Seq<char>| #[trigger]
                    s.names.contains(other) && scanned(s, at).publish[i] == plain_refspec(other)
            } by {
                assert(scanned(s, at) == scanned(x, at + 1));
                assert(scanned(x, at + 1).publish[i] == scanned(s, at).publish[i]);
            }
        } else if s.local.contains_key(name) && s.local[name] == s.hosted[name] {
            lemma_scan(s, at + 1);
        }
    }
}

proof fn lemma_pick(s: MaterializeView, at: int)
    requires
        0 <= at <= s.names.len(),
    ensures
        at <= picked(s, at).at <= s.names.len(),
        picked(s, at) == (MaterializeView {
            at: picked(s, at).at,
            selected: picked(s, at).selected,
            ..s
        }),
    decreases s.names.len() - at,
{
    if at < s.names.len() {
        let name = s.names[at];
        let x = MaterializeView { selected: s.selected.insert(name, oid_of(s.hosted, name)), ..s };
        lemma_pick(x, at + 1);
    }
}

proof fn lemma_selecting_valid(s: MaterializeView, at: int)
    requires
        0 <= at <= s.names.len(),
    ensures
        materialize_valid(selecting(s, at)),
{
    lemma_pick(s, at);
}

proof fn lemma_joining_valid(s: MaterializeView)
    ensures
        materialize_valid(joining(s)),
        materialize_valid(selecting_all(s)),
{
    let all = MaterializeView { names: text_map::sorted_keys(s.hosted), selected: Map::empty(), ..s };
    lemma_selecting_valid(all, 0);
}

proof fn lemma_comparing_valid(s: MaterializeView, at: int)
    requires
        0 <= at <= s.names.len(),
    ensures
        materialize_valid(comparing(s, at)),
{
    lemma_scan(s, at);
    lemma_joining_valid(scanned(s, at));
}

proof fn lemma_materialize_valid(s: MaterializeView, e: MaterializeEventView)
    requires
        materialize_valid(s),
    ensures
        materialize_valid(materialized(s, e)),
{
    reveal(materialized);
    match (s.stage, e) {
        (MaterializeStage::Branch, MaterializeEventView::Branch(branch)) => {
            let now = MaterializeView { branch, ..s };
            lemma_joining_valid(now);
            lemma_comparing_valid(
                MaterializeView { names: text_map::sorted_keys(s.local), publish: Seq::empty(), ..now },
                0,
            );
        },
        (MaterializeStage::RefetchAll, MaterializeEventView::Heads(heads)) => {
            lemma_joining_valid(MaterializeView { hosted: heads, ..s });
        },
        (MaterializeStage::Refetch, MaterializeEventView::Heads(heads)) => {
            lemma_joining_valid(MaterializeView { hosted: heads, ..s });
        },
        (MaterializeStage::Relocal, MaterializeEventView::Heads(heads)) => {
            lemma_joining_valid(MaterializeView { local: heads, ..s });
        },
        (MaterializeStage::Join, MaterializeEventView::Ran(_)) => {
            lemma_joining_valid(s);
        },
        (MaterializeStage::Ahead, MaterializeEventView::Ran(_)) => {
            let name = s.names[s.at];
            lemma_comparing_valid(s, s.at + 1);
            lemma_comparing_valid(
                MaterializeView { publish: s.publish.push(plain_refspec(name)), ..s },
                s.at + 1,
            );
        },
        (MaterializeStage::Select, MaterializeEventView::Ran(result)) => {
            let name = s.names[s.at];
            lemma_selecting_valid(
                MaterializeView {
                    selected: s.selected.insert(
                        name,
                        if result.code == 0 {
                            oid_of(s.local, name)
                        } else {
                            oid_of(s.hosted, name)
                        },
                    ),
                    ..s
                },
                s.at + 1,
            );
        },
        _ => {},
    }
}

/// What holds after a number of events.
pub open spec fn materialize_replayed(
    s: MaterializeView,
    events: Seq<MaterializeEventView>,
) -> MaterializeView
    decreases events.len(),
{
    if events.len() == 0 {
        s
    } else {
        materialized(materialize_replayed(s, events.drop_last()), events.last())
    }
}

/// A mapping that pushes some branch as it is, without force.
pub open spec fn is_plain(refspec: Seq<char>) -> bool {
    exists|name: Seq<char>| refspec == #[trigger] plain_refspec(name)
}

/// Mappings that push branches as they are.
pub open spec fn all_plain(list: Seq<Seq<char>>) -> bool {
    forall|i: int| 0 <= i < list.len() ==> is_plain(#[trigger] list[i])
}

proof fn lemma_scan_plain(s: MaterializeView, at: int)
    requires
        0 <= at <= s.names.len(),
        all_plain(s.publish),
    ensures
        all_plain(scanned(s, at).publish),
{
    lemma_scan(s, at);
    let now = scanned(s, at).publish;
    assert forall|i: int| 0 <= i < now.len() implies is_plain(#[trigger] now[i]) by {
        if i < s.publish.len() {
            assert(is_plain(s.publish[i]));
        } else {
            let name = choose|name: Seq<char>| #[trigger]
                s.names.contains(name) && now[i] == plain_refspec(name);
            assert(now[i] == plain_refspec(name));
        }
    }
}

proof fn lemma_later_stages(s: MaterializeView)
    ensures
        selecting_all(s).publish == s.publish,
        joining(s).publish == s.publish,
        joining(s).stage != MaterializeStage::Push,
{
    lemma_pick(
        MaterializeView { names: text_map::sorted_keys(s.hosted), selected: Map::empty(), ..s },
        0,
    );
}

proof fn lemma_comparing_plain(s: MaterializeView, at: int)
    requires
        0 <= at <= s.names.len(),
        all_plain(s.publish),
    ensures
        all_plain(comparing(s, at).publish),
{
    lemma_scan_plain(s, at);
    lemma_later_stages(scanned(s, at));
}

proof fn lemma_plain_step(s: MaterializeView, e: MaterializeEventView)
    requires
        materialize_valid(s),
        all_plain(s.publish),
    ensures
        all_plain(materialized(s, e).publish),
{
    reveal(materialized);
    match (s.stage, e) {
        (MaterializeStage::Branch, MaterializeEventView::Branch(branch)) => {
            let now = MaterializeView { branch, ..s };
            lemma_later_stages(now);
            lemma_comparing_plain(
                MaterializeView { names: text_map::sorted_keys(s.local), publish: Seq::empty(), ..now },
                0,
            );
        },
        (MaterializeStage::RefetchAll, MaterializeEventView::Heads(heads)) => {
            lemma_later_stages(MaterializeView { hosted: heads, ..s });
        },
        (MaterializeStage::Refetch, MaterializeEventView::Heads(heads)) => {
            lemma_later_stages(MaterializeView { hosted: heads, ..s });
        },
        (MaterializeStage::Relocal, MaterializeEventView::Heads(heads)) => {
            lemma_later_stages(MaterializeView { local: heads, ..s });
        },
        (MaterializeStage::Join, MaterializeEventView::Ran(_)) => {
            lemma_later_stages(s);
        },
        (MaterializeStage::Ahead, MaterializeEventView::Ran(_)) => {
            let name = s.names[s.at];
            let more = s.publish.push(plain_refspec(name));
            assert(all_plain(more)) by {
                assert forall|i: int| 0 <= i < more.len() implies is_plain(#[trigger] more[i]) by {
                    if i < s.publish.len() {
                        assert(is_plain(s.publish[i]));
                    } else {
                        assert(more[i] == plain_refspec(name));
                    }
                }
            }
            lemma_comparing_plain(s, s.at + 1);
            lemma_comparing_plain(MaterializeView { publish: more, ..s }, s.at + 1);
        },
        (MaterializeStage::Select, MaterializeEventView::Ran(result)) => {
            let name = s.names[s.at];
            lemma_pick(
                MaterializeView {
                    selected: s.selected.insert(
                        name,
                        if result.code == 0 {
                            oid_of(s.local, name)
                        } else {
                            oid_of(s.hosted, name)
                        },
                    ),
                    ..s
                },
                s.at + 1,
            );
        },
        _ => {},
    }
}

/// Every branch that is pushed is pushed onto its own name and without force, so that the remote
/// refuses what would overwrite a history.
pub proof fn law_push_is_plain(s: MaterializeView, events: Seq<MaterializeEventView>)
    requires
        s.stage == MaterializeStage::Exists,
        all_plain(s.publish),
    ensures
        materialize_valid(materialize_replayed(s, events)),
        all_plain(materialize_replayed(s, events).publish),
    decreases events.len(),
{
    if events.len() > 0 {
        law_push_is_plain(s, events.drop_last());
        let before = materialize_replayed(s, events.drop_last());
        lemma_plain_step(before, events.last());
        lemma_materialize_valid(before, events.last());
    }
}

/// The commits that count as applied after the first `n` branches: the hosted one, or the local
/// one.
spec fn selected_so_far(s: MaterializeView, n: int) -> bool {
    &&& forall|k: Seq<char>| #[trigger]
        s.selected.contains_key(k) <==> s.names.take(n).contains(k)
    &&& forall|k: Seq<char>| #[trigger]
        s.selected.contains_key(k) ==> s.selected[k] == oid_of(s.hosted, k) || (
        s.local.contains_key(k) && s.selected[k] == s.local[k])
}

proof fn lemma_selected_one(s: MaterializeView, n: int, oid: Seq<char>)
    requires
        0 <= n < s.names.len(),
        selected_so_far(s, n),
        oid == oid_of(s.hosted, s.names[n]) || (s.local.contains_key(s.names[n]) && oid
            == s.local[s.names[n]]),
    ensures
        selected_so_far(
            MaterializeView { selected: s.selected.insert(s.names[n], oid), ..s },
            n + 1,
        ),
{
    let now = MaterializeView { selected: s.selected.insert(s.names[n], oid), ..s };
    assert forall|k: Seq<char>| #[trigger]
        now.selected.contains_key(k) <==> now.names.take(n + 1).contains(k) by {
        let next = s.names.take(n + 1);
        if s.names.take(n).contains(k) {
            let i = choose|i: int| 0 <= i < n && s.names.take(n)[i] == k;
            assert(next[i] == k);
        }
        if k == s.names[n] {
            assert(next[n] == k);
        }
        if next.contains(k) {
            let i = choose|i: int| 0 <= i < n + 1 && next[i] == k;
            if i < n {
                assert(s.names.take(n)[i] == k);
            }
        }
    }
}

proof fn lemma_picked_so_far(s: MaterializeView, at: int)
    requires
        0 <= at <= s.names.len(),
        selected_so_far(s, at),
    ensures
        selected_so_far(picked(s, at), picked(s, at).at),
    decreases s.names.len() - at,
{
    if at < s.names.len() {
        let name = s.names[at];
        if !(s.local.contains_key(name) && s.local[name] != oid_of(s.hosted, name)) {
            lemma_selected_one(s, at, oid_of(s.hosted, name));
            let x = MaterializeView {
                selected: s.selected.insert(name, oid_of(s.hosted, name)),
                ..s
            };
            lemma_picked_so_far(x, at + 1);
        }
    }
}

/// The selection is consistent where it takes place, and complete at the end.
spec fn selection_holds(s: MaterializeView) -> bool {
    &&& s.stage == MaterializeStage::Select ==> 0 <= s.at < s.names.len() && s.names
        == text_map::sorted_keys(s.hosted) && selected_so_far(s, s.at) && s.local.contains_key(
        s.names[s.at],
    )
    &&& s.stage == MaterializeStage::Finished && s.failure is None ==> s.names == text_map::sorted_keys(
        s.hosted,
    ) && selected_so_far(s, s.names.len() as int)
}

proof fn lemma_selecting_holds(s: MaterializeView, at: int)
    requires
        0 <= at <= s.names.len(),
        s.names == text_map::sorted_keys(s.hosted),
        selected_so_far(s, at),
    ensures
        selection_holds(selecting(s, at)),
{
    lemma_pick(s, at);
    lemma_picked_so_far(s, at);
    lemma_pick_stop(s, at);
}

proof fn lemma_pick_stop(s: MaterializeView, at: int)
    requires
        0 <= at <= s.names.len(),
    ensures
        ({
            let now = picked(s, at);
            now.at < s.names.len() ==> s.local.contains_key(s.names[now.at])
        }),
    decreases s.names.len() - at,
{
    if at < s.names.len() {
        let name = s.names[at];
        let x = MaterializeView { selected: s.selected.insert(name, oid_of(s.hosted, name)), ..s };
        lemma_pick_stop(x, at + 1);
    }
}

proof fn lemma_joining_holds(s: MaterializeView)
    ensures
        selection_holds(selecting_all(s)),
        selection_holds(joining(s)),
{
    let all = MaterializeView { names: text_map::sorted_keys(s.hosted), selected: Map::empty(), ..s };
    assert(all.names.take(0) =~= Seq::empty());
    assert(selected_so_far(all, 0));
    lemma_selecting_holds(all, 0);
}

proof fn lemma_selection_step(s: MaterializeView, e: MaterializeEventView)
    requires
        materialize_valid(s),
        selection_holds(s),
        s.failure is Some ==> s.stage == MaterializeStage::Finished,
    ensures
        selection_holds(materialized(s, e)),
        materialized(s, e).failure is Some ==> materialized(s, e).stage
            == MaterializeStage::Finished,
{
    reveal(materialized);
    match (s.stage, e) {
        (MaterializeStage::Branch, MaterializeEventView::Branch(branch)) => {
            let now = MaterializeView { branch, ..s };
            let all = MaterializeView {
                names: text_map::sorted_keys(s.local),
                publish: Seq::empty(),
                ..now
            };
            lemma_joining_holds(now);
            lemma_scan(all, 0);
            lemma_joining_holds(scanned(all, 0));
            lemma_no_failure(now);
            lemma_no_failure(scanned(all, 0));
        },
        (MaterializeStage::RefetchAll, MaterializeEventView::Heads(heads)) => {
            lemma_joining_holds(MaterializeView { hosted: heads, ..s });
            lemma_no_failure(MaterializeView { hosted: heads, ..s });
        },
        (MaterializeStage::Refetch, MaterializeEventView::Heads(heads)) => {
            lemma_joining_holds(MaterializeView { hosted: heads, ..s });
            lemma_no_failure(MaterializeView { hosted: heads, ..s });
        },
        (MaterializeStage::Relocal, MaterializeEventView::Heads(heads)) => {
            lemma_joining_holds(MaterializeView { local: heads, ..s });
            lemma_no_failure(MaterializeView { local: heads, ..s });
        },
        (MaterializeStage::Join, MaterializeEventView::Ran(_)) => {
            lemma_joining_holds(s);
            lemma_no_failure(s);
        },
        (MaterializeStage::Ahead, MaterializeEventView::Ran(_)) => {
            let name = s.names[s.at];
            let more = MaterializeView { publish: s.publish.push(plain_refspec(name)), ..s };
            lemma_scan(s, s.at + 1);
            lemma_scan(more, s.at + 1);
            lemma_joining_holds(scanned(s, s.at + 1));
            lemma_joining_holds(scanned(more, s.at + 1));
            lemma_no_failure(scanned(s, s.at + 1));
            lemma_no_failure(scanned(more, s.at + 1));
        },
        (MaterializeStage::Select, MaterializeEventView::Ran(result)) => {
            let name = s.names[s.at];
            let oid = if result.code == 0 {
                oid_of(s.local, name)
            } else {
                oid_of(s.hosted, name)
            };
            lemma_selected_one(s, s.at, oid);
            let next = MaterializeView { selected: s.selected.insert(name, oid), ..s };
            lemma_selecting_holds(next, s.at + 1);
            lemma_pick(next, s.at + 1);
        },
        _ => {},
    }
}

proof fn lemma_no_failure(s: MaterializeView)
    ensures
        selecting_all(s).failure == s.failure,
        joining(s).failure == s.failure,
{
    lemma_pick(
        MaterializeView { names: text_map::sorted_keys(s.hosted), selected: Map::empty(), ..s },
        0,
    );
}

proof fn lemma_selection(s: MaterializeView, events: Seq<MaterializeEventView>)
    requires
        s.stage == MaterializeStage::Exists,
        s.failure is None,
    ensures
        materialize_valid(materialize_replayed(s, events)),
        selection_holds(materialize_replayed(s, events)),
        materialize_replayed(s, events).failure is Some ==> materialize_replayed(s, events).stage
            == MaterializeStage::Finished,
    decreases events.len(),
{
    if events.len() > 0 {
        lemma_selection(s, events.drop_last());
        let before = materialize_replayed(s, events.drop_last());
        lemma_selection_step(before, events.last());
        lemma_materialize_valid(before, events.last());
    }
}

/// A project that is checked out has, for every hosted branch and for no other, a commit that
/// counts as applied: the hosted one, or the local one.
pub proof fn law_every_hosted_branch_is_applied(
    s: MaterializeView,
    events: Seq<MaterializeEventView>,
)
    requires
        s.stage == MaterializeStage::Exists,
        s.failure is None,
        materialize_replayed(s, events).hosted.dom().finite(),
        materialize_replayed(s, events).stage == MaterializeStage::Finished,
        materialize_replayed(s, events).failure is None,
    ensures
        ({
            let p = checked_out(materialize_replayed(s, events));
            let local = materialize_replayed(s, events).local;
            &&& forall|k: Seq<char>| #[trigger]
                p.last_applied_heads.contains_key(k) <==> p.advertised_heads.contains_key(k)
            &&& forall|k: Seq<char>| #[trigger]
                p.last_applied_heads.contains_key(k) ==> p.last_applied_heads[k]
                    == p.advertised_heads[k] || (local.contains_key(k) && p.last_applied_heads[k]
                    == local[k])
        }),
{
    lemma_selection(s, events);
    let now = materialize_replayed(s, events);
    text_map::lemma_sorted_keys(now.hosted);
    assert(now.names.take(now.names.len() as int) =~= now.names);
}

/// A branch of which neither the local nor the hosted history holds the other is refused: nothing
/// is pushed, and the worktree is not moved.
pub proof fn law_divergence_is_refused(s: MaterializeView, result: RunResultView)
    requires
        s.stage == MaterializeStage::Ahead,
        !s.behind,
        result.code != 0,
    ensures
        materialized(s, MaterializeEventView::Ran(result)) == materialize_failed(
            s,
            refused_text(s.names[s.at]),
        ),
{
    reveal(materialized);
}

} // verus!
