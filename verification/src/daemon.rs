//! What the daemon decides: which project a request is about, what it answers, and what it does to
//! the projects and the queue of publications.
use vstd::prelude::*;
use crate::clock;
use crate::digest;
use crate::history;
use crate::json;
use crate::paths;
use crate::process;
use crate::publication;
use crate::random;
use crate::state;
use crate::text;
use crate::text_map;
use crate::transaction;
use crate::access::Access;
use crate::clock::{now, Timestamp};
use crate::digest::sha256_hex;
use crate::history::order_newest;
use crate::json::Json;
use crate::paths::same_path;
use crate::process::{git_lenient, git_strict, words3, words4, GitCall, GitCallView, RunResult};
use crate::publication::{
    ACKNOWLEDGED, Publication, PublicationAck, PublicationAckView, PublicationQueue,
    PublicationView,
};
use crate::state::{LocalCatalog, LocalProject, LocalProjectView};
use crate::text::{
    cat2, cat3, cat5, chars_of, copy_list, copy_option, is_blank, join_text, lines_of, lowercase,
    parse_number, part_of, same_text, signed_text, text_before, trimmed,
};
use crate::text_map::{lookup, put_text, TextMap};
use crate::transaction::{ReconcileResult, ReconcileResultView};

verus! {

/// Why the daemon refuses a request, or does not start.
#[derive(Debug, Clone, PartialEq, Eq)]
pub enum DaemonError {
    /// No such project.
    UnknownProject(String),
    /// A field of the request is missing or empty.
    MissingField(String),
    /// No such lease.
    UnknownLease,
    /// A commit that is not named by its full identifier.
    WrongCommit,
    /// A registration without a project.
    NoProject,
    /// No such method.
    UnknownMethod(String),
    /// A request that is too long.
    TooLong,
    /// A daemon is running as this process.
    Running(i32),
    /// The lock could not be had.
    NoLock,
    /// The daemon that is running does not say which process it is.
    NoPid,
    /// The daemon that is running is this process.
    OwnProcess,
    /// The daemon of this process did not stop.
    StillRunning(i32),
    /// The publication is no longer in the queue.
    Disappeared,
    /// A publication was not delivered, with these words.
    Undelivered(String),
    /// The adapters of these projects could not be installed.
    Adapters(String),
}

/// What a [`DaemonError`] says.
pub open spec fn daemon_text(e: DaemonError) -> Seq<char> {
    match e {
        DaemonError::UnknownProject(id) => "unknown subscribed project "@ + id@,
        DaemonError::MissingField(name) => "request is missing "@ + name@,
        DaemonError::UnknownLease => "unknown or already released lease"@,
        DaemonError::WrongCommit => "reported commit does not resolve to the requested OID"@,
        DaemonError::NoProject => "registerProject requires project"@,
        DaemonError::UnknownMethod(name) => "unknown daemon method "@ + name@,
        DaemonError::TooLong => "daemon request exceeds 1 MiB"@,
        DaemonError::Running(pid) => "RepoSync daemon is already running as PID "@
            + text::signed_decimal(pid as int),
        DaemonError::NoLock => "could not acquire RepoSync daemon lock"@,
        DaemonError::NoPid => "stale RepoSync daemon did not report a valid pid"@,
        DaemonError::OwnProcess => "refusing to terminate the current RepoSync process"@,
        DaemonError::StillRunning(pid) => "stale RepoSync daemon "@ + text::signed_decimal(pid as int)
            + " did not stop after SIGTERM"@,
        DaemonError::Disappeared => "publication disappeared from queue"@,
        DaemonError::Undelivered(words) => words@,
        DaemonError::Adapters(failures) => "could not refresh every managed checkout: "@
            + failures@,
    }
}

impl DaemonError {
    /// The message of the error.
    pub fn message(&self) -> (r: String)
        ensures
            r@ == daemon_text(*self),
    {
        match self {
            DaemonError::UnknownProject(id) => cat2("unknown subscribed project ", id.as_str()),
            DaemonError::MissingField(name) => cat2("request is missing ", name.as_str()),
            DaemonError::UnknownLease => "unknown or already released lease".to_owned(),
            DaemonError::WrongCommit => {
                "reported commit does not resolve to the requested OID".to_owned()
            },
            DaemonError::NoProject => "registerProject requires project".to_owned(),
            DaemonError::UnknownMethod(name) => cat2("unknown daemon method ", name.as_str()),
            DaemonError::TooLong => "daemon request exceeds 1 MiB".to_owned(),
            DaemonError::Running(pid) => {
                let number = signed_text(*pid as i64);
                cat2("RepoSync daemon is already running as PID ", number.as_str())
            },
            DaemonError::NoLock => "could not acquire RepoSync daemon lock".to_owned(),
            DaemonError::NoPid => "stale RepoSync daemon did not report a valid pid".to_owned(),
            DaemonError::OwnProcess => {
                "refusing to terminate the current RepoSync process".to_owned()
            },
            DaemonError::StillRunning(pid) => {
                let number = signed_text(*pid as i64);
                cat3("stale RepoSync daemon ", number.as_str(), " did not stop after SIGTERM")
            },
            DaemonError::Disappeared => "publication disappeared from queue".to_owned(),
            DaemonError::Undelivered(words) => words.clone(),
            DaemonError::Adapters(failures) => {
                cat2("could not refresh every managed checkout: ", failures.as_str())
            },
        }
    }
}

/// A field of a request, if it is a text with something in it.
pub open spec fn filled_field(request: Json, name: Seq<char>) -> Option<Seq<char>> {
    match json::text_field(request, name) {
        Some(text) => if text.len() > 0 {
            Some(text)
        } else {
            None
        },
        None => None,
    }
}

/// Reads a field of a request that must have something in it.
pub fn string_field<'a>(request: &'a Json, name: &str) -> (r: Result<&'a str, DaemonError>)
    ensures
        match r {
            Ok(text) => filled_field(*request, name@) == Some(text@),
            Err(e) => filled_field(*request, name@) is None && (
            e matches DaemonError::MissingField(field) && field@ == name@),
        },
{
    match request.text_at(name) {
        Some(text) => {
            if is_blank(text) {
                Err(DaemonError::MissingField(name.to_owned()))
            } else {
                Ok(text)
            }
        },
        None => Err(DaemonError::MissingField(name.to_owned())),
    }
}

/// Whether a project goes by a name: its identifier or its path.
pub open spec fn goes_by(p: LocalProjectView, id: Seq<char>) -> bool {
    p.project_id == id || p.local_path == id
}

/// The position of the first project that goes by a name, from `from` on.
pub open spec fn project_position(projects: Seq<LocalProjectView>, id: Seq<char>, from: int) -> Option<
    int,
>
    decreases projects.len() - from,
{
    if from < 0 || from >= projects.len() {
        None
    } else if goes_by(projects[from], id) {
        Some(from)
    } else {
        project_position(projects, id, from + 1)
    }
}

/// Finds a project by its identifier or its path.
pub fn find_project(projects: &Vec<LocalProject>, id: &str) -> (r: Result<usize, DaemonError>)
    ensures
        match r {
            Ok(i) => i < projects.len() && project_position(state::project_views(projects@), id@, 0)
                == Some(i as int),
            Err(e) => project_position(state::project_views(projects@), id@, 0) is None && (
            e matches DaemonError::UnknownProject(name) && name@ == id@),
        },
{
    let ghost all = state::project_views(projects@);
    let mut i: usize = 0;
    while i < projects.len()
        invariant
            0 <= i <= projects.len(),
            all == state::project_views(projects@),
            project_position(all, id@, 0) == project_position(all, id@, i as int),
        decreases projects.len() - i,
    {
        assert(all[i as int] == projects@[i as int]@);
        if same_text(projects[i].project_id.as_str(), id) || same_text(
            projects[i].local_path.as_str(),
            id,
        ) {
            return Ok(i);
        }
        i += 1;
    }
    Err(DaemonError::UnknownProject(id.to_owned()))
}

/// A text that an older version stored under a name.
pub open spec fn stored_text(extra: Map<Seq<char>, Json>, name: Seq<char>) -> Option<Seq<char>> {
    if extra.contains_key(name) {
        json::text_value(extra[name])
    } else {
        None
    }
}

/// A map of heads with one more, if there is one.
pub open spec fn with_head(
    heads: Map<Seq<char>, Seq<char>>,
    branch: Seq<char>,
    oid: Option<Seq<char>>,
) -> Map<Seq<char>, Seq<char>> {
    match oid {
        Some(oid) => heads.insert(branch, oid),
        None => heads,
    }
}

/// A project as this version stores it: what older versions knew of the one branch that they
/// synchronized is known of the default branch.
pub open spec fn migrated(p: LocalProjectView) -> LocalProjectView {
    let branch = match stored_text(p.extra, "syncBranch"@) {
        Some(branch) => branch,
        None => p.default_branch,
    };
    let rest = p.extra.remove("syncBranch"@);
    let last = rest.remove("advertisedRemoteOid"@);
    LocalProjectView {
        default_branch: branch,
        advertised_heads: with_head(
            p.advertised_heads,
            branch,
            stored_text(rest, "advertisedRemoteOid"@),
        ),
        last_applied_heads: with_head(
            p.last_applied_heads,
            branch,
            stored_text(last, "lastAppliedRemoteOid"@),
        ),
        extra: last.remove("lastAppliedRemoteOid"@),
        ..p
    }
}

fn take_text(extra: &mut TextMap<Json>, name: &str) -> (r: Option<String>)
    ensures
        final(extra)@ == old(extra)@.remove(name@),
        text::opt_view(r) == stored_text(old(extra)@, name@),
{
    match extra.remove(name) {
        Some(Json::Text(text)) => Some(text),
        _ => None,
    }
}

impl LocalProject {
    /// Brings the project into the form that this version stores.
    pub fn migrate(&mut self)
        ensures
            final(self)@ == migrated(old(self)@),
    {
        match take_text(&mut self.extra, "syncBranch") {
            Some(branch) => {
                self.default_branch = branch;
            },
            None => {},
        }
        let branch = self.default_branch.clone();
        match take_text(&mut self.extra, "advertisedRemoteOid") {
            Some(oid) => {
                put_text(&mut self.advertised_heads, branch.as_str(), oid.as_str());
            },
            None => {},
        }
        match take_text(&mut self.extra, "lastAppliedRemoteOid") {
            Some(oid) => {
                put_text(&mut self.last_applied_heads, branch.as_str(), oid.as_str());
            },
            None => {},
        }
    }
}

/// Brings all projects into the form that this version stores.
pub fn migrate_projects(projects: &mut Vec<LocalProject>)
    ensures
        state::project_views(final(projects)@) == state::project_views(old(projects)@).map_values(
            |p: LocalProjectView| migrated(p),
        ),
{
    let ghost before = projects@;
    let mut i: usize = 0;
    while i < projects.len()
        invariant
            0 <= i <= projects.len(),
            projects.len() == before.len(),
            forall|j: int| 0 <= j < i ==> (#[trigger] projects@[j])@ == migrated(before[j]@),
            forall|j: int| i <= j < before.len() ==> #[trigger] projects@[j] == before[j],
        decreases projects.len() - i,
    {
        projects[i].migrate();
        i += 1;
    }
    assert(state::project_views(projects@) =~= state::project_views(before).map_values(
        |p: LocalProjectView| migrated(p),
    ));
}

/// Migrating twice is the same as migrating once.
pub proof fn law_migration_is_final(p: LocalProjectView)
    ensures
        migrated(migrated(p)) == migrated(p),
{
    let once = migrated(p);
    assert(!once.extra.contains_key("syncBranch"@));
    assert(!once.extra.contains_key("advertisedRemoteOid"@));
    assert(!once.extra.contains_key("lastAppliedRemoteOid"@));
    assert(once.extra.remove("syncBranch"@) =~= once.extra);
    assert(once.extra.remove("advertisedRemoteOid"@) =~= once.extra);
    assert(once.extra.remove("lastAppliedRemoteOid"@) =~= once.extra);
}

/// What a change of branch asks for.
#[derive(Debug)]
pub enum Transition {
    /// The branch is the one that is known.
    Same,
    /// No branch was known: the new one is taken note of.
    Record,
    /// Ask for the commit of the branch that was left.
    Probe(GitCall),
    /// The new branch is taken note of and the projects are refreshed, after the commit of the
    /// branch that was left is published, if there is one.
    Leave(Option<String>),
}

/// Decides what a change of branch asks for; `runs` holds the commit of the branch that was left,
/// once it was asked for.
pub fn ensure_branch_transition(
    project: &LocalProject,
    actual: &str,
    runs: &Vec<RunResult>,
) -> (r: Transition)
    ensures
        match project@.active_branch {
            None => r is Record,
            Some(previous) => if previous == actual@ {
                r is Same
            } else if runs.len() == 0 {
                r matches Transition::Probe(call) && call@ == process::git_try(
                    project@.local_path,
                    seq!["rev-parse"@, "--verify"@, "refs/heads/"@ + previous],
                )
            } else {
                r matches Transition::Leave(commit) && text::opt_view(commit) == if runs@[0].code == 0 {
                    Some(text::trim(runs@[0].stdout@))
                } else {
                    None
                }
            },
        },
{
    match &project.active_branch {
        None => Transition::Record,
        Some(previous) => {
            if same_text(previous.as_str(), actual) {
                Transition::Same
            } else if runs.len() == 0 {
                let name = cat2("refs/heads/", previous.as_str());
                Transition::Probe(
                    git_lenient(
                        project.local_path.as_str(),
                        words3("rev-parse", "--verify", name.as_str()),
                    ),
                )
            } else if runs[0].code == 0 {
                Transition::Leave(Some(trimmed(runs[0].stdout.as_str())))
            } else {
                Transition::Leave(None)
            }
        },
    }
}

/// Whether a project in a state is to be moved before it is used.
pub open spec fn is_behind(state: Seq<char>) -> bool {
    state == "REMOTE_AHEAD"@ || state == "WAITING_FOR_LEASES"@ || state == "RECONCILING"@
}

/// Whether a project is to be moved before it is used.
pub fn should_reconcile(project: &LocalProject) -> (r: bool)
    ensures
        r == is_behind(project@.state),
{
    let state = project.state.as_str();
    same_text(state, "REMOTE_AHEAD") || same_text(state, "WAITING_FOR_LEASES") || same_text(
        state,
        "RECONCILING",
    )
}

/// Whether a project is used without a lease, to resolve a conflict.
pub fn reconciliation_mode(project: &LocalProject) -> (r: bool)
    ensures
        r == (project@.state == "CONFLICTED"@),
{
    same_text(project.state.as_str(), "CONFLICTED")
}

/// The answer to a request for access.
#[derive(Debug, Clone, PartialEq, Eq)]
pub struct AccessGrant {
    pub granted: bool,
    pub lease_id: Option<String>,
    pub workspace_generation: u64,
    pub branch_oid: String,
    /// Whether the worktree was advanced before.
    pub applied: bool,
    pub reconciliation_mode: bool,
    pub branch: String,
    pub remote_ref: String,
    /// Paths that the move changed.
    pub changed_paths: Vec<String>,
    pub model_message: Option<String>,
}

/// What a [`AccessGrant`] holds.
pub struct AccessGrantView {
    pub granted: bool,
    pub lease_id: Option<Seq<char>>,
    pub workspace_generation: u64,
    pub branch_oid: Seq<char>,
    pub applied: bool,
    pub reconciliation_mode: bool,
    pub branch: Seq<char>,
    pub remote_ref: Seq<char>,
    pub changed_paths: Seq<Seq<char>>,
    pub model_message: Option<Seq<char>>,
}

impl View for AccessGrant {
    type V = AccessGrantView;

    open spec fn view(&self) -> AccessGrantView {
        AccessGrantView {
            granted: self.granted,
            lease_id: text::opt_view(self.lease_id),
            workspace_generation: self.workspace_generation,
            branch_oid: self.branch_oid@,
            applied: self.applied,
            reconciliation_mode: self.reconciliation_mode,
            branch: self.branch@,
            remote_ref: self.remote_ref@,
            changed_paths: text::views(self.changed_paths@),
            model_message: text::opt_view(self.model_message),
        }
    }
}

impl AccessGrant {
    /// A second value with the same contents.
    pub fn copy(&self) -> (r: Self)
        ensures
            r@ == self@,
    {
        AccessGrant {
            granted: self.granted,
            lease_id: copy_option(&self.lease_id),
            workspace_generation: self.workspace_generation,
            branch_oid: self.branch_oid.clone(),
            applied: self.applied,
            reconciliation_mode: self.reconciliation_mode,
            branch: self.branch.clone(),
            remote_ref: self.remote_ref.clone(),
            changed_paths: copy_list(&self.changed_paths),
            model_message: copy_option(&self.model_message),
        }
    }
}

/// The first `n` of a list.
pub open spec fn first_of(list: Seq<Seq<char>>, n: int) -> Seq<Seq<char>> {
    if list.len() <= n {
        list
    } else {
        list.take(n)
    }
}

fn first_texts(list: &Vec<String>, n: usize) -> (r: Vec<String>)
    ensures
        text::views(r@) == first_of(text::views(list@), n as int),
{
    let mut r: Vec<String> = Vec::new();
    let mut i: usize = 0;
    while i < list.len() && i < n
        invariant
            0 <= i <= list.len(),
            i <= n,
            text::views(r@) == text::views(list@).take(i as int),
        decreases list.len() - i,
    {
        let ghost before = r@;
        r.push(list[i].clone());
        assert(text::views(r@) =~= text::views(before).push(list@[i as int]@));
        assert(text::views(list@).take(i + 1) =~= text::views(list@).take(i as int).push(list@[i as int]@));
        i += 1;
    }
    assert(text::views(r@) =~= first_of(text::views(list@), n as int));
    r
}

/// What is said of a move that was applied.
pub open spec fn advance_text(paths: Seq<Seq<char>>) -> Seq<char> {
    "RepoSync advanced the workspace and preserved local work. Upstream changed: "@ + (
    if paths.len() == 0 {
        "metadata only"@
    } else {
        text::join(first_of(paths, 20), ", "@)
    }) + "."@
}

/// The name of a branch of a remote.
pub open spec fn remote_branch(remote_name: Seq<char>, branch: Seq<char>) -> Seq<char> {
    remote_name + "/"@ + branch
}

/// The answer to a request for access to a project at a commit, after a move. Access without a
/// lease is access to resolve a conflict.
pub open spec fn granted(
    p: LocalProjectView,
    lease_id: Option<Seq<char>>,
    head: Seq<char>,
    moved: ReconcileResultView,
) -> AccessGrantView {
    AccessGrantView {
        granted: true,
        lease_id,
        workspace_generation: p.workspace_generation,
        branch_oid: head,
        applied: moved.outcome == "applied"@,
        reconciliation_mode: lease_id is None,
        branch: state::branch_of(p),
        remote_ref: remote_branch(p.remote_name, state::branch_of(p)),
        changed_paths: first_of(moved.changed_paths, 50),
        model_message: if moved.outcome == "applied"@ {
            Some(advance_text(moved.changed_paths))
        } else {
            None
        },
    }
}

/// Answers a request for access; there is no lease where the project is in conflict.
pub fn grant_access(
    project: &LocalProject,
    lease_id: &Option<String>,
    head: &str,
    moved: &ReconcileResult,
) -> (r: AccessGrant)
    ensures
        r@ == granted(project@, text::opt_view(*lease_id), head@, moved@),
{
    let branch = project.branch();
    let applied = same_text(moved.outcome.as_str(), "applied");
    let model_message = if applied {
        let what = if moved.changed_paths.len() == 0 {
            "metadata only".to_owned()
        } else {
            let paths = first_texts(&moved.changed_paths, 20);
            join_text(&paths, ", ")
        };
        Some(
            cat3(
                "RepoSync advanced the workspace and preserved local work. Upstream changed: ",
                what.as_str(),
                ".",
            ),
        )
    } else {
        None
    };
    AccessGrant {
        granted: true,
        lease_id: copy_option(lease_id),
        workspace_generation: project.workspace_generation,
        branch_oid: head.to_owned(),
        applied,
        reconciliation_mode: lease_id.is_none(),
        remote_ref: cat3(project.remote_name.as_str(), "/", branch.as_str()),
        branch,
        changed_paths: first_texts(&moved.changed_paths, 50),
        model_message,
    }
}

/// Forgets a lease and says which project it was on.
pub fn release(leases: &mut TextMap<String>, lease_id: &str) -> (r: Result<String, DaemonError>)
    ensures
        text_map::texts(final(leases)@) == text_map::texts(old(leases)@).remove(lease_id@),
        match r {
            Ok(project_id) => text_map::text_at(text_map::texts(old(leases)@), lease_id@) == Some(project_id@),
            Err(e) => e is UnknownLease && text_map::text_at(text_map::texts(old(leases)@), lease_id@) is None,
        },
{
    let removed = leases.remove(lease_id);
    assert(text_map::texts(leases@) =~= text_map::texts(old(leases)@).remove(lease_id@));
    match removed {
        Some(project_id) => Ok(project_id),
        None => Err(DaemonError::UnknownLease),
    }
}

/// How a project may be used.
#[derive(Debug, Clone, PartialEq, Eq)]
pub struct AccessState {
    pub state: String,
    pub reconciliation_mode: bool,
    pub branch: String,
    pub remote_ref: String,
}

/// What a [`AccessState`] holds.
pub struct AccessStateView {
    pub state: Seq<char>,
    pub reconciliation_mode: bool,
    pub branch: Seq<char>,
    pub remote_ref: Seq<char>,
}

impl View for AccessState {
    type V = AccessStateView;

    open spec fn view(&self) -> AccessStateView {
        AccessStateView {
            state: self.state@,
            reconciliation_mode: self.reconciliation_mode,
            branch: self.branch@,
            remote_ref: self.remote_ref@,
        }
    }
}

impl AccessState {
    /// A second value with the same contents.
    pub fn copy(&self) -> (r: Self)
        ensures
            r@ == self@,
    {
        AccessState {
            state: self.state.clone(),
            reconciliation_mode: self.reconciliation_mode,
            branch: self.branch.clone(),
            remote_ref: self.remote_ref.clone(),
        }
    }
}

/// Says how a project may be used.
pub fn access_state(project: &LocalProject) -> (r: AccessState)
    ensures
        r@ == (AccessStateView {
            state: text::lower_text(project@.state),
            reconciliation_mode: project@.state == "CONFLICTED"@,
            branch: state::branch_of(project@),
            remote_ref: remote_branch(project@.remote_name, state::branch_of(project@)),
        }),
{
    let branch = project.branch();
    AccessState {
        state: lowercase(project.state.as_str()),
        reconciliation_mode: same_text(project.state.as_str(), "CONFLICTED"),
        remote_ref: cat3(project.remote_name.as_str(), "/", branch.as_str()),
        branch,
    }
}

/// The projects that neither share the identifier nor the path of another.
pub open spec fn unrelated(projects: Seq<LocalProjectView>, p: LocalProjectView) -> Seq<
    LocalProjectView,
>
    decreases projects.len(),
{
    if projects.len() == 0 {
        Seq::empty()
    } else {
        let front = unrelated(projects.drop_last(), p);
        let last = projects.last();
        if last.project_id != p.project_id && !paths::same_place(last.local_path, p.local_path) {
            front.push(last)
        } else {
            front
        }
    }
}

/// Puts a project into the catalog, in place of those with its identifier or its path. The
/// generation of the catalog does not decrease.
pub fn register_project(
    catalog: LocalCatalog,
    project: LocalProject,
    generation: Option<u64>,
) -> (r: LocalCatalog)
    ensures
        state::project_views(r.projects@) == unrelated(state::project_views(catalog.projects@), project@).push(
            project@,
        ),
        r.catalog_generation == match generation {
            Some(n) => if n > catalog.catalog_generation {
                n
            } else {
                catalog.catalog_generation
            },
            None => catalog.catalog_generation,
        },
{
    let mut kept = catalog.projects;
    let ghost all = state::project_views(kept@);
    let ghost mut seen: int = 0;
    let mut i: usize = 0;
    assert(all.take(0) =~= Seq::empty());
    assert(all.skip(0) =~= all);
    assert(state::project_views(kept@) =~= unrelated(all.take(0), project@) + all.skip(0));
    while i < kept.len()
        invariant
            0 <= i <= kept.len(),
            0 <= seen <= all.len(),
            kept.len() - i == all.len() - seen,
            i == unrelated(all.take(seen), project@).len(),
            state::project_views(kept@) == unrelated(all.take(seen), project@) + all.skip(seen),
        decreases kept.len() - i,
    {
        let ghost next = all.take(seen + 1);
        let ghost before = state::project_views(kept@);
        assert(next.drop_last() =~= all.take(seen));
        assert(before[i as int] == all.skip(seen)[0]);
        assert(next.last() == kept@[i as int]@);
        if same_text(kept[i].project_id.as_str(), project.project_id.as_str()) || same_path(
            kept[i].local_path.as_str(),
            project.local_path.as_str(),
        ) {
            let _ = kept.remove(i);
            assert(state::project_views(kept@) =~= before.remove(i as int));
            assert(state::project_views(kept@) =~= unrelated(next, project@) + all.skip(seen + 1));
        } else {
            i += 1;
            assert(state::project_views(kept@) =~= unrelated(next, project@) + all.skip(seen + 1));
        }
        proof {
            seen = seen + 1;
        }
    }
    assert(all.take(seen) =~= all);
    assert(all.skip(seen) =~= Seq::empty());
    assert(state::project_views(kept@) =~= unrelated(all, project@));
    let ghost before = kept@;
    kept.push(project);
    assert(state::project_views(kept@) =~= state::project_views(before).push(project@));
    LocalCatalog {
        catalog_generation: match generation {
            Some(n) => if n > catalog.catalog_generation {
                n
            } else {
                catalog.catalog_generation
            },
            None => catalog.catalog_generation,
        },
        projects: kept,
    }
}

/// A registered project is found by its identifier, and no other project has its identifier or
/// its path.
pub proof fn law_registered_is_found(projects: Seq<LocalProjectView>, p: LocalProjectView)
    ensures
        ({
            let now = unrelated(projects, p).push(p);
            &&& forall|i: int|
                0 <= i < now.len() - 1 ==> (#[trigger] now[i]).project_id != p.project_id
                    && !paths::same_place(now[i].local_path, p.local_path)
            &&& now.last() == p
        }),
    decreases projects.len(),
{
    if projects.len() > 0 {
        law_registered_is_found(projects.drop_last(), p);
        let front = unrelated(projects.drop_last(), p).push(p);
        let now = unrelated(projects, p).push(p);
        assert forall|i: int| 0 <= i < now.len() - 1 implies (#[trigger] now[i]).project_id
            != p.project_id && !paths::same_place(now[i].local_path, p.local_path) by {
            if i < front.len() - 1 {
                assert(now[i] == front[i]);
            }
        }
    }
}

/// Whether a commit of a branch of a project is waiting to be published.
pub open spec fn awaits(
    p: PublicationView,
    project_id: Seq<char>,
    branch: Seq<char>,
    commit: Seq<char>,
) -> bool {
    publication::is_pending(p) && p.project_id == project_id && p.branch == branch && p.source_commit_oid
        == commit
}

/// The position of the first publication that awaits a commit, from `from` on.
pub open spec fn awaiting_position(
    list: Seq<PublicationView>,
    project_id: Seq<char>,
    branch: Seq<char>,
    commit: Seq<char>,
    from: int,
) -> Option<int>
    decreases list.len() - from,
{
    if from < 0 || from >= list.len() {
        None
    } else if awaits(list[from], project_id, branch, commit) {
        Some(from)
    } else {
        awaiting_position(list, project_id, branch, commit, from + 1)
    }
}

/// What it takes to queue a commit.
#[derive(Debug)]
pub enum Enqueue {
    /// Ask which commit is meant.
    Verify(GitCall),
    /// The commit is queued under this identifier already.
    Queued(String),
    /// Keep the commit with this command, then queue the publication.
    Keep(GitCall, Publication),
}

/// The command that asks which commit is meant.
pub open spec fn verify_call(path: Seq<char>, commit: Seq<char>) -> GitCallView {
    process::git_in(path, seq!["rev-parse"@, "--verify"@, commit + "^{commit}"@])
}

/// The ref that keeps the commit of a publication.
pub open spec fn publication_ref(id: Seq<char>) -> Seq<char> {
    "refs/resync/publications/"@ + id
}

/// Queues a commit of a branch, once: a commit that is waiting is not queued again. The commit
/// must be named by its full identifier.
pub fn enqueue_publication(
    project: &LocalProject,
    queue: &PublicationQueue,
    branch: &str,
    commit_oid: &str,
    runs: &Vec<RunResult>,
) -> (r: Result<Enqueue, DaemonError>)
    ensures
        ({
            let p = project@;
            let list = publication::publication_views(queue.publications@);
            let waiting = awaiting_position(list, p.project_id, branch@, commit_oid@, 0);
            match r {
                Ok(Enqueue::Verify(call)) => runs.len() == 0 && call@ == verify_call(
                    p.local_path,
                    commit_oid@,
                ),
                Err(e) => runs.len() > 0 && text::trim(runs@[0].stdout@) != commit_oid@ && e
                    is WrongCommit,
                Ok(Enqueue::Queued(id)) => runs.len() > 0 && text::trim(runs@[0].stdout@)
                    == commit_oid@ && waiting is Some && id@ == list[waiting->0].publication_id,
                Ok(Enqueue::Keep(call, publication)) => {
                    &&& runs.len() > 0
                    &&& text::trim(runs@[0].stdout@) == commit_oid@
                    &&& waiting is None
                    &&& random::is_tagged(publication@.publication_id, "pub_"@, 20)
                    &&& clock::is_time(publication@.created_at)
                    &&& publication@ == publication::new_publication(
                        publication@.publication_id,
                        p.project_id,
                        p.checkout_id,
                        branch@,
                        commit_oid@,
                        text_map::text_at(p.advertised_heads, branch@),
                        publication@.created_at,
                    )
                    &&& call@ == process::git_in(
                        p.local_path,
                        seq![
                            "update-ref"@,
                            publication_ref(publication@.publication_id),
                            commit_oid@,
                        ],
                    )
                },
            }
        }),
{
    if runs.len() == 0 {
        let name = cat2(commit_oid, "^{commit}");
        return Ok(
            Enqueue::Verify(
                git_strict(
                    project.local_path.as_str(),
                    words3("rev-parse", "--verify", name.as_str()),
                ),
            ),
        );
    }
    let verified = trimmed(runs[0].stdout.as_str());
    if !same_text(verified.as_str(), commit_oid) {
        return Err(DaemonError::WrongCommit);
    }
    let list = &queue.publications;
    let ghost all = publication::publication_views(list@);
    let mut i: usize = 0;
    while i < list.len()
        invariant
            0 <= i <= list.len(),
            *list == queue.publications,
            runs.len() > 0,
            text::trim(runs@[0].stdout@) == commit_oid@,
            all == publication::publication_views(list@),
            awaiting_position(all, project@.project_id, branch@, commit_oid@, 0)
                == awaiting_position(all, project@.project_id, branch@, commit_oid@, i as int),
        decreases list.len() - i,
    {
        assert(all[i as int] == list@[i as int]@);
        if list[i].pending() && same_text(
            list[i].project_id.as_str(),
            project.project_id.as_str(),
        ) && same_text(list[i].branch.as_str(), branch) && same_text(
            list[i].source_commit_oid.as_str(),
            commit_oid,
        ) {
            proof {
                assert(awaiting_position(all, project@.project_id, branch@, commit_oid@, 0)
                    == Some(i as int));
            }
            return Ok(Enqueue::Queued(list[i].publication_id.clone()));
        }
        i += 1;
    }
    let expected = lookup(&project.advertised_heads, branch);
    let publication = Publication::new(
        project.project_id.as_str(),
        &project.checkout_id,
        branch,
        commit_oid,
        &expected,
    );
    let name = cat2("refs/resync/publications/", publication.publication_id.as_str());
    let call = git_strict(
        project.local_path.as_str(),
        words3("update-ref", name.as_str(), commit_oid),
    );
    Ok(Enqueue::Keep(call, publication))
}

/// The position of the first publication with an identifier, from `from` on.
pub open spec fn publication_position(
    list: Seq<PublicationView>,
    id: Seq<char>,
    from: int,
) -> Option<int>
    decreases list.len() - from,
{
    if from < 0 || from >= list.len() {
        None
    } else if list[from].publication_id == id {
        Some(from)
    } else {
        publication_position(list, id, from + 1)
    }
}

fn find_publication(list: &Vec<Publication>, id: &str) -> (r: Option<usize>)
    ensures
        match r {
            Some(i) => i < list.len() && publication_position(publication::publication_views(list@), id@, 0)
                == Some(i as int),
            None => publication_position(publication::publication_views(list@), id@, 0) is None,
        },
{
    let ghost all = publication::publication_views(list@);
    let mut i: usize = 0;
    while i < list.len()
        invariant
            0 <= i <= list.len(),
            all == publication::publication_views(list@),
            publication_position(all, id@, 0) == publication_position(all, id@, i as int),
        decreases list.len() - i,
    {
        assert(all[i as int] == list@[i as int]@);
        if same_text(list[i].publication_id.as_str(), id) {
            return Some(i);
        }
        i += 1;
    }
    None
}

/// Whether each publication is to be attempted: it is pending, and due unless all are forced.
pub open spec fn attempted(list: Seq<PublicationView>, force: bool, now: Timestamp) -> Seq<bool> {
    list.map_values(|p: PublicationView| publication::is_pending(p) && (force || publication::is_due(p, now)))
}

/// When each publication was made.
pub open spec fn creation_times(list: Seq<PublicationView>) -> Seq<Seq<char>> {
    list.map_values(|p: PublicationView| p.created_at)
}

/// The identifiers of the publications to attempt, the newest first; of two of the same time, the
/// one that was queued first.
pub open spec fn attempt_order(
    list: Seq<PublicationView>,
    force: bool,
    now: Timestamp,
) -> Seq<Seq<char>> {
    history::newest_first(
        creation_times(list),
        attempted(list, force, now),
        list.len() as int,
    ).map_values(|i: int| list[i].publication_id)
}

/// The publications to attempt at a point in time.
pub fn attempts_at(queue: &PublicationQueue, force: bool, now: &Timestamp) -> (r: Vec<String>)
    ensures
        text::views(r@) == attempt_order(publication::publication_views(queue.publications@), force, *now),
{
    let list = &queue.publications;
    let ghost all = publication::publication_views(list@);
    let mut times: Vec<String> = Vec::new();
    let mut flags: Vec<bool> = Vec::new();
    let mut i: usize = 0;
    while i < list.len()
        invariant
            0 <= i <= list.len(),
            all == publication::publication_views(list@),
            times.len() == i,
            flags.len() == i,
            forall|j: int| 0 <= j < i ==> (#[trigger] times@[j])@ == all[j].created_at,
            forall|j: int|
                0 <= j < i ==> #[trigger] flags@[j] == (publication::is_pending(all[j]) && (force || publication::is_due(
                    all[j],
                    *now,
                ))),
        decreases list.len() - i,
    {
        assert(all[i as int] == list@[i as int]@);
        times.push(list[i].created_at.clone());
        flags.push(list[i].pending() && (force || list[i].due_at(now)));
        i += 1;
    }
    assert(text::views(times@) =~= creation_times(all));
    assert(flags@ =~= attempted(all, force, *now));
    let order = order_newest(&times, &flags);
    let ghost whole = history::indices(order@);
    proof {
        history::law_newest_first(creation_times(all), attempted(all, force, *now), all.len() as int);
    }
    assert(forall|k: int| 0 <= k < order.len() ==> whole[k] == #[trigger] order@[k] as int);
    assert forall|k: int| 0 <= k < order.len() implies (#[trigger] order@[k]) < list.len() by {
        assert(whole.contains(whole[k]));
    }
    let mut r: Vec<String> = Vec::new();
    let mut k: usize = 0;
    while k < order.len()
        invariant
            0 <= k <= order.len(),
            all == publication::publication_views(list@),
            whole == history::indices(order@),
            forall|j: int| 0 <= j < order.len() ==> (#[trigger] order@[j]) < list.len(),
            r.len() == k,
            forall|j: int| 0 <= j < k ==> (#[trigger] r@[j])@ == all[whole[j]].publication_id,
        decreases order.len() - k,
    {
        r.push(list[order[k]].publication_id.clone());
        k += 1;
    }
    assert(text::views(r@) =~= whole.map_values(|i: int| all[i].publication_id));
    r
}

/// The publications to attempt now.
pub fn attempts(queue: &PublicationQueue, force: bool) -> (r: Vec<String>)
    ensures
        exists|now: Timestamp|
            text::views(r@) == #[trigger] attempt_order(
                publication::publication_views(queue.publications@),
                force,
                now,
            ),
{
    let t = now();
    attempts_at(queue, force, &t)
}

/// Looks up a publication that is still to be attempted.
pub fn pending_publication(queue: &PublicationQueue, id: &str) -> (r: Option<Publication>)
    ensures
        ({
            let list = publication::publication_views(queue.publications@);
            match r {
                Some(p) => exists|i: int|
                    0 <= i < list.len() && #[trigger] list[i] == p@ && p@.publication_id == id@
                        && publication::is_pending(p@) && forall|j: int|
                        0 <= j < i ==> !((#[trigger] list[j]).publication_id == id@ && publication::is_pending(
                            list[j],
                        )),
                None => forall|j: int|
                    0 <= j < list.len() ==> !((#[trigger] list[j]).publication_id == id@
                        && publication::is_pending(list[j])),
            }
        }),
{
    let list = &queue.publications;
    let ghost all = publication::publication_views(list@);
    let mut i: usize = 0;
    while i < list.len()
        invariant
            0 <= i <= list.len(),
            *list == queue.publications,
            all == publication::publication_views(list@),
            forall|j: int|
                0 <= j < i ==> !((#[trigger] all[j]).publication_id == id@ && publication::is_pending(all[j])),
        decreases list.len() - i,
    {
        assert(all[i as int] == list@[i as int]@);
        if same_text(list[i].publication_id.as_str(), id) && list[i].pending() {
            let p = list[i].copy();
            assert(all[i as int] == p@);
            return Some(p);
        }
        i += 1;
    }
    None
}

/// Looks up a publication.
pub fn queued_publication(queue: &PublicationQueue, id: &str) -> (r: Option<Publication>)
    ensures
        ({
            let list = publication::publication_views(queue.publications@);
            match r {
                Some(p) => publication_position(list, id@, 0) is Some && p@
                    == list[publication_position(list, id@, 0)->0],
                None => publication_position(list, id@, 0) is None,
            }
        }),
{
    match find_publication(&queue.publications, id) {
        Some(i) => Some(queue.publications[i].copy()),
        None => None,
    }
}

/// A publication that is tried anew with another commit.
pub open spec fn requeued(
    p: PublicationView,
    candidate: Seq<char>,
    expected: Option<Seq<char>>,
    now: Seq<char>,
) -> PublicationView {
    PublicationView {
        attempt: (p.attempt + 1) as u64,
        candidate_commit_oid: candidate,
        expected_remote_oid: expected,
        last_error: None,
        next_attempt_at: Some(now),
        ..p
    }
}

/// Has a publication tried anew, with another commit, on what the remote has now.
pub fn requeue(
    queue: &mut PublicationQueue,
    id: &str,
    candidate: &str,
    expected: &Option<String>,
    now: &str,
) -> (r: Result<(), DaemonError>)
    requires
        forall|i: int|
            0 <= i < old(queue).publications@.len() ==> (
            #[trigger] old(queue).publications@[i]).attempt < u64::MAX,
    ensures
        ({
            let list = publication::publication_views(old(queue).publications@);
            let now_list = publication::publication_views(final(queue).publications@);
            match publication_position(list, id@, 0) {
                Some(i) => r is Ok && now_list == list.update(
                    i,
                    requeued(list[i], candidate@, text::opt_view(*expected), now@),
                ),
                None => r == Err::<(), DaemonError>(DaemonError::Disappeared) && now_list == list,
            }
        }),
{
    match find_publication(&queue.publications, id) {
        Some(i) => {
            assert(queue.publications@[i as int].attempt < u64::MAX);
            let mut p = queue.publications[i].copy();
            p.attempt = p.attempt + 1;
            p.candidate_commit_oid = candidate.to_owned();
            p.expected_remote_oid = copy_option(expected);
            p.last_error = None;
            p.next_attempt_at = Some(now.to_owned());
            let ghost view = p@;
            queue.publications.set(i, p);
            assert(publication::publication_views(queue.publications@) =~= publication::publication_views(
                old(queue).publications@,
            ).update(i as int, view));
            Ok(())
        },
        None => Err(DaemonError::Disappeared),
    }
}

/// Records in the queue that a delivery failed; it is tried again after a minute.
pub fn record_undelivered(queue: &mut PublicationQueue, id: &str, error: &str, now: &Timestamp)
    ensures
        ({
            let list = publication::publication_views(old(queue).publications@);
            let now_list = publication::publication_views(final(queue).publications@);
            let next = now.seconds + 60;
            let this_text = clock::rfc3339_of(now.seconds, now.nanos);
            let next_text = clock::rfc3339_of(next as i64, now.nanos);
            match publication_position(list, id@, 0) {
                Some(i) => now_list == if next <= i64::MAX && this_text is Some
                    && next_text is Some {
                    list.update(i, publication::after_failure(list[i], this_text->0, next_text->0, error@))
                } else {
                    list
                },
                None => now_list == list,
            }
        }),
{
    match find_publication(&queue.publications, id) {
        Some(i) => {
            let mut p = queue.publications[i].copy();
            let _ = p.record_failure_at(error, 60, now);
            let ghost view = p@;
            let ghost list = publication::publication_views(queue.publications@);
            queue.publications.set(i, p);
            assert(publication::publication_views(queue.publications@) =~= list.update(i as int, view));
            assert(list.update(i as int, list[i as int]) =~= list);
        },
        None => {},
    }
}

impl LocalProject {
    /// Records that a commit of the project is not on the remote yet, and why.
    pub fn unpublished(&mut self, error: &Option<String>)
        ensures
            final(self)@ == (LocalProjectView {
                durability: "COMMITTED_UNPUBLISHED"@,
                last_error: match *error {
                    Some(text) => Some(text@),
                    None => old(self)@.last_error,
                },
                ..old(self)@
            }),
    {
        self.durability = "COMMITTED_UNPUBLISHED".to_owned();
        match error {
            Some(text) => {
                self.last_error = Some(text.clone());
            },
            None => {},
        }
    }

    /// Records that moving the project failed.
    pub fn reconcile_failed(&mut self, error: &str)
        ensures
            final(self)@ == (LocalProjectView {
                state: if old(self)@.state == "RECONCILING"@ {
                    "REMOTE_AHEAD"@
                } else {
                    old(self)@.state
                },
                last_error: Some(error@),
                ..old(self)@
            }),
    {
        if same_text(self.state.as_str(), "RECONCILING") {
            self.state = "REMOTE_AHEAD".to_owned();
        }
        self.last_error = Some(error.to_owned());
    }
}

/// Whether an acknowledgement of a publication covers another: an older commit of the same branch.
pub open spec fn covered(p: PublicationView, done: PublicationView) -> bool {
    publication::is_pending(p) && p.project_id == done.project_id && p.branch == done.branch && !text::text_less(
        done.created_at,
        p.created_at,
    )
}

/// A publication that was acknowledged at a point in time.
pub open spec fn acknowledged(
    p: PublicationView,
    ack: PublicationAckView,
    now: Seq<char>,
) -> PublicationView {
    PublicationView {
        state: ACKNOWLEDGED@,
        last_attempt_at: Some(now),
        next_attempt_at: None,
        last_error: None,
        ack: Some(ack),
        ..p
    }
}

/// The queue after an acknowledgement, before it is compacted.
pub open spec fn all_acknowledged(
    list: Seq<PublicationView>,
    done: PublicationView,
    ack: PublicationAckView,
    now: Seq<char>,
) -> Seq<PublicationView> {
    list.map_values(
        |p: PublicationView|
            if covered(p, done) {
                acknowledged(p, ack, now)
            } else {
                p
            },
    )
}

/// The identifiers of the publications that an acknowledgement covers, in their order.
pub open spec fn covered_ids(list: Seq<PublicationView>, done: PublicationView) -> Seq<Seq<char>>
    decreases list.len(),
{
    if list.len() == 0 {
        Seq::empty()
    } else {
        let front = covered_ids(list.drop_last(), done);
        if covered(list.last(), done) {
            front.push(list.last().publication_id)
        } else {
            front
        }
    }
}

/// Whether a project has something to publish.
pub open spec fn has_pending(list: Seq<PublicationView>, project_id: Seq<char>) -> bool {
    exists|i: int|
        0 <= i < list.len() && publication::is_pending(#[trigger] list[i]) && list[i].project_id == project_id
}

/// What an acknowledgement completed.
#[derive(Debug)]
pub struct Completion {
    /// The publications that it covers.
    pub completed: Vec<String>,
    /// Whether the project still has something to publish.
    pub has_pending: bool,
}

/// Completes a publication, and with it the older ones of the same branch.
pub fn complete_publication(
    queue: &mut PublicationQueue,
    publication: &Publication,
    ack: &PublicationAck,
    now: &str,
) -> (r: Completion)
    ensures
        ({
            let list = publication::publication_views(old(queue).publications@);
            let now_list = publication::publication_views(final(queue).publications@);
            &&& now_list == publication::compacted(all_acknowledged(list, publication@, ack@, now@))
            &&& text::views(r.completed@) == covered_ids(list, publication@)
            &&& r.has_pending == has_pending(now_list, publication@.project_id)
        }),
        final(queue).version == old(queue).version,
{
    let ghost list = publication::publication_views(queue.publications@);
    let mut completed: Vec<String> = Vec::new();
    let mut next: Vec<Publication> = Vec::new();
    let mut i: usize = 0;
    assert(text::views(completed@) =~= Seq::empty());
    assert(list.take(0) =~= Seq::empty());
    while i < queue.publications.len()
        invariant
            0 <= i <= queue.publications.len(),
            list == publication::publication_views(queue.publications@),
            next.len() == i,
            forall|j: int|
                0 <= j < i ==> (#[trigger] next@[j])@ == if covered(list[j], publication@) {
                    acknowledged(list[j], ack@, now@)
                } else {
                    list[j]
                },
            text::views(completed@) == covered_ids(list.take(i as int), publication@),
        decreases queue.publications.len() - i,
    {
        let mut p = queue.publications[i].copy();
        assert(p@ == list[i as int]);
        let ghost part = list.take(i + 1);
        assert(part.drop_last() =~= list.take(i as int));
        let ghost before = completed@;
        if p.pending() && same_text(
            p.project_id.as_str(),
            publication.project_id.as_str(),
        ) && same_text(p.branch.as_str(), publication.branch.as_str()) && !text_before(
            publication.created_at.as_str(),
            p.created_at.as_str(),
        ) {
            p.state = ACKNOWLEDGED.to_owned();
            p.last_attempt_at = Some(now.to_owned());
            p.next_attempt_at = None;
            p.last_error = None;
            p.ack = Some(ack.copy());
            let id = p.publication_id.clone();
            completed.push(id);
            assert(text::views(completed@) =~= text::views(before).push(list[i as int].publication_id));
        }
        next.push(p);
        i += 1;
    }
    assert(list.take(i as int) =~= list);
    assert(publication::publication_views(next@) =~= all_acknowledged(list, publication@, ack@, now@));
    queue.publications = next;
    queue.compact();
    let ghost now_list = publication::publication_views(queue.publications@);
    let mut has_pending = false;
    let mut k: usize = 0;
    while k < queue.publications.len()
        invariant
            0 <= k <= queue.publications.len(),
            now_list == publication::publication_views(queue.publications@),
            has_pending == exists|j: int|
                0 <= j < k && publication::is_pending(#[trigger] now_list[j]) && now_list[j].project_id
                    == publication@.project_id,
        decreases queue.publications.len() - k,
    {
        assert(now_list[k as int] == queue.publications@[k as int]@);
        if queue.publications[k].pending() && same_text(
            queue.publications[k].project_id.as_str(),
            publication.project_id.as_str(),
        ) {
            has_pending = true;
        }
        k += 1;
    }
    Completion { completed, has_pending }
}

/// A project after a publication of a branch was acknowledged.
pub open spec fn published(
    p: LocalProjectView,
    branch: Seq<char>,
    ack: PublicationAckView,
    more: bool,
) -> LocalProjectView {
    LocalProjectView {
        advertised_heads: p.advertised_heads.insert(branch, ack.remote_head),
        last_applied_heads: p.last_applied_heads.insert(branch, ack.remote_head),
        server_generation: if ack.project_generation > p.server_generation {
            ack.project_generation
        } else {
            p.server_generation
        },
        last_error: None,
        durability: if more {
            p.durability
        } else {
            "REMOTELY_DURABLE"@
        },
        ..p
    }
}

impl LocalProject {
    /// Takes note of an acknowledged publication of a branch.
    pub fn publish(&mut self, branch: &str, ack: &PublicationAck, more: bool)
        ensures
            final(self)@ == published(old(self)@, branch@, ack@, more),
    {
        put_text(&mut self.advertised_heads, branch, ack.remote_head.as_str());
        put_text(&mut self.last_applied_heads, branch, ack.remote_head.as_str());
        if ack.project_generation > self.server_generation {
            self.server_generation = ack.project_generation;
        }
        self.last_error = None;
        if !more {
            self.durability = "REMOTELY_DURABLE".to_owned();
        }
    }
}

/// The commands that let go of the commits of completed publications.
pub fn forget_publications(project_path: &str, completed: &Vec<String>) -> (r: Vec<GitCall>)
    ensures
        transaction::calls(r@) == text::views(completed@).map_values(
            |id: Seq<char>|
                process::git_try(project_path@, seq!["update-ref"@, "-d"@, publication_ref(id)]),
        ),
{
    let mut r: Vec<GitCall> = Vec::new();
    let mut i: usize = 0;
    while i < completed.len()
        invariant
            0 <= i <= completed.len(),
            r.len() == i,
            forall|j: int|
                0 <= j < i ==> (#[trigger] r@[j])@ == process::git_try(
                    project_path@,
                    seq!["update-ref"@, "-d"@, publication_ref(completed@[j]@)],
                ),
        decreases completed.len() - i,
    {
        let name = cat2("refs/resync/publications/", completed[i].as_str());
        r.push(git_lenient(project_path, words3("update-ref", "-d", name.as_str())));
        i += 1;
    }
    assert(transaction::calls(r@) =~= text::views(completed@).map_values(
        |id: Seq<char>| process::git_try(project_path@, seq!["update-ref"@, "-d"@, publication_ref(id)]),
    ));
    r
}

/// A publication that is acknowledged covers itself, and nothing of another branch or project.
pub proof fn law_completion_covers_itself(p: PublicationView, other: PublicationView)
    ensures
        publication::is_pending(p) ==> covered(p, p),
        covered(other, p) ==> other.branch == p.branch && other.project_id == p.project_id,
{
    text::lemma_text_less_irreflexive(p.created_at);
}

/// A commit stays queued until it, or a newer one of the same branch, is acknowledged: completing
/// a publication drops no other pending publication.
pub proof fn law_pending_stay_queued(
    list: Seq<PublicationView>,
    done: PublicationView,
    ack: PublicationAckView,
    now: Seq<char>,
    i: int,
)
    requires
        0 <= i < list.len(),
        publication::is_pending(list[i]),
        !covered(list[i], done),
    ensures
        publication::compacted(all_acknowledged(list, done, ack, now)).contains(list[i]),
{
    let all = all_acknowledged(list, done, ack, now);
    let open_ones = |p: PublicationView| publication::is_pending(p);
    publication::law_compacting_keeps_pending(all);
    assert(all[i] == list[i]);
    all.lemma_filter_contains(open_ones, i);
    let kept = publication::compacted(all).filter(open_ones);
    assert(kept.contains(list[i]));
    let k = choose|k: int| 0 <= k < kept.len() && kept[k] == list[i];
    publication::compacted(all).lemma_filter_contains_rev(open_ones, list[i]);
}

/// The words for the first commit of a branch that is still waiting, if there is one.
pub open spec fn waiting_words(
    list: Seq<PublicationView>,
    project_id: Seq<char>,
    branch: Seq<char>,
    from: int,
) -> Option<Seq<char>>
    decreases list.len() - from,
{
    if from < 0 || from >= list.len() {
        None
    } else if publication::is_pending(list[from]) && list[from].project_id == project_id && list[from].branch
        == branch {
        Some(
            match list[from].last_error {
                Some(text) => text,
                None => "publication remains pending"@,
            },
        )
    } else {
        waiting_words(list, project_id, branch, from + 1)
    }
}

/// Whether everything of a branch is published; else the error of the first commit that is not.
pub fn publish_outcome(queue: &PublicationQueue, project_id: &str, branch: &str) -> (r: Result<
    (),
    DaemonError,
>)
    ensures
        ({
            let words = waiting_words(
                publication::publication_views(queue.publications@),
                project_id@,
                branch@,
                0,
            );
            match r {
                Ok(_) => words is None,
                Err(e) => words is Some && (e matches DaemonError::Undelivered(text) && text@
                    == words->0),
            }
        }),
{
    let list = &queue.publications;
    let ghost all = publication::publication_views(list@);
    let mut i: usize = 0;
    while i < list.len()
        invariant
            0 <= i <= list.len(),
            *list == queue.publications,
            all == publication::publication_views(list@),
            waiting_words(all, project_id@, branch@, 0) == waiting_words(
                all,
                project_id@,
                branch@,
                i as int,
            ),
        decreases list.len() - i,
    {
        assert(all[i as int] == list@[i as int]@);
        if list[i].pending() && same_text(list[i].project_id.as_str(), project_id) && same_text(
            list[i].branch.as_str(),
            branch,
        ) {
            return Err(
                DaemonError::Undelivered(
                    match &list[i].last_error {
                        Some(text) => text.clone(),
                        None => "publication remains pending".to_owned(),
                    },
                ),
            );
        }
        i += 1;
    }
    Ok(())
}

/// The earlier of two texts, if there are any.
pub open spec fn earlier(a: Option<Seq<char>>, b: Option<Seq<char>>) -> Option<Seq<char>> {
    match (a, b) {
        (Some(x), Some(y)) => if text::text_less(y, x) {
            b
        } else {
            a
        },
        (Some(_), None) => a,
        (None, _) => b,
    }
}

/// The later of two texts, if there are any.
pub open spec fn later(a: Option<Seq<char>>, b: Option<Seq<char>>) -> Option<Seq<char>> {
    match (a, b) {
        (Some(x), Some(y)) => if text::text_less(x, y) {
            b
        } else {
            a
        },
        (Some(_), None) => a,
        (None, _) => b,
    }
}

fn earlier_of(a: Option<String>, b: Option<String>) -> (r: Option<String>)
    ensures
        text::opt_view(r) == earlier(text::opt_view(a), text::opt_view(b)),
{
    match (a, b) {
        (Some(x), Some(y)) => {
            if text_before(y.as_str(), x.as_str()) {
                Some(y)
            } else {
                Some(x)
            }
        },
        (Some(x), None) => Some(x),
        (None, b) => b,
    }
}

fn later_of(a: Option<String>, b: Option<String>) -> (r: Option<String>)
    ensures
        text::opt_view(r) == later(text::opt_view(a), text::opt_view(b)),
{
    match (a, b) {
        (Some(x), Some(y)) => {
            if text_before(x.as_str(), y.as_str()) {
                Some(y)
            } else {
                Some(x)
            }
        },
        (Some(x), None) => Some(x),
        (None, b) => b,
    }
}

/// What is waiting to be published of a project.
#[derive(Debug, Clone, PartialEq, Eq)]
pub struct QueueSummary {
    pub depth: usize,
    pub oldest: Option<String>,
    pub last_attempt: Option<String>,
    pub next_attempt: Option<String>,
}

/// What a [`QueueSummary`] holds.
pub struct QueueSummaryView {
    pub depth: usize,
    pub oldest: Option<Seq<char>>,
    pub last_attempt: Option<Seq<char>>,
    pub next_attempt: Option<Seq<char>>,
}

impl View for QueueSummary {
    type V = QueueSummaryView;

    open spec fn view(&self) -> QueueSummaryView {
        QueueSummaryView {
            depth: self.depth,
            oldest: text::opt_view(self.oldest),
            last_attempt: text::opt_view(self.last_attempt),
            next_attempt: text::opt_view(self.next_attempt),
        }
    }
}

impl QueueSummary {
    /// A second value with the same contents.
    pub fn copy(&self) -> (r: Self)
        ensures
            r@ == self@,
    {
        QueueSummary {
            depth: self.depth,
            oldest: copy_option(&self.oldest),
            last_attempt: copy_option(&self.last_attempt),
            next_attempt: copy_option(&self.next_attempt),
        }
    }
}

/// What the first `n` publications say of a project.
pub open spec fn summary(list: Seq<PublicationView>, project_id: Seq<char>, n: int) -> QueueSummaryView
    decreases n,
{
    if n <= 0 {
        QueueSummaryView { depth: 0, oldest: None, last_attempt: None, next_attempt: None }
    } else {
        let before = summary(list, project_id, n - 1);
        let p = list[n - 1];
        if publication::is_pending(p) && p.project_id == project_id {
            QueueSummaryView {
                depth: (before.depth + 1) as usize,
                oldest: earlier(before.oldest, Some(p.created_at)),
                last_attempt: later(before.last_attempt, p.last_attempt_at),
                next_attempt: earlier(before.next_attempt, p.next_attempt_at),
            }
        } else {
            before
        }
    }
}

/// Says what is waiting to be published of a project: how much, since when, and when it was and
/// will be attempted.
pub fn queue_summary(queue: &PublicationQueue, project_id: &str) -> (r: QueueSummary)
    ensures
        r@ == summary(
            publication::publication_views(queue.publications@),
            project_id@,
            queue.publications@.len() as int,
        ),
        r.depth <= queue.publications.len(),
{
    let list = &queue.publications;
    let ghost all = publication::publication_views(list@);
    let mut r = QueueSummary { depth: 0, oldest: None, last_attempt: None, next_attempt: None };
    let mut i: usize = 0;
    while i < list.len()
        invariant
            0 <= i <= list.len(),
            all == publication::publication_views(list@),
            r@ == summary(all, project_id@, i as int),
            r.depth <= i,
        decreases list.len() - i,
    {
        assert(all[i as int] == list@[i as int]@);
        if list[i].pending() && same_text(list[i].project_id.as_str(), project_id) {
            let created = Some(list[i].created_at.clone());
            let last = copy_option(&list[i].last_attempt_at);
            let next = copy_option(&list[i].next_attempt_at);
            r =
            QueueSummary {
                depth: r.depth + 1,
                oldest: earlier_of(r.oldest, created),
                last_attempt: later_of(r.last_attempt, last),
                next_attempt: earlier_of(r.next_attempt, next),
            };
        }
        i += 1;
    }
    r
}

/// A request to the daemon.
#[derive(Debug, Clone, PartialEq, Eq)]
pub enum Method {
    Ping,
    /// The generation of the catalog, if it is given.
    Register(Option<u64>),
    Reload,
    /// Of one project, or of all.
    Status(Option<String>),
    Acquire(String),
    Access(String),
    /// A lease.
    Release(String),
    Sync(String),
    /// A project and a branch; else the branch that it is on.
    Publish(String, Option<String>),
    /// A project, a branch and a commit.
    Commit(String, String, String),
    /// A project, its new branch, and the commit before.
    Checkout(String, String, String),
}

/// What a [`Method`] holds.
pub enum MethodView {
    Ping,
    Register(Option<u64>),
    Reload,
    Status(Option<Seq<char>>),
    Acquire(Seq<char>),
    Access(Seq<char>),
    Release(Seq<char>),
    Sync(Seq<char>),
    Publish(Seq<char>, Option<Seq<char>>),
    Commit(Seq<char>, Seq<char>, Seq<char>),
    Checkout(Seq<char>, Seq<char>, Seq<char>),
}

impl View for Method {
    type V = MethodView;

    open spec fn view(&self) -> MethodView {
        match *self {
            Method::Ping => MethodView::Ping,
            Method::Register(generation) => MethodView::Register(generation),
            Method::Reload => MethodView::Reload,
            Method::Status(id) => MethodView::Status(text::opt_view(id)),
            Method::Acquire(id) => MethodView::Acquire(id@),
            Method::Access(id) => MethodView::Access(id@),
            Method::Release(id) => MethodView::Release(id@),
            Method::Sync(id) => MethodView::Sync(id@),
            Method::Publish(id, branch) => MethodView::Publish(id@, text::opt_view(branch)),
            Method::Commit(id, branch, commit) => MethodView::Commit(id@, branch@, commit@),
            Method::Checkout(id, branch, oid) => MethodView::Checkout(id@, branch@, oid@),
        }
    }
}

/// The first of the fields that a request does not fill, with the values of those that it does.
pub open spec fn first_missing(request: Json, names: Seq<Seq<char>>) -> Option<Seq<char>>
    decreases names.len(),
{
    if names.len() == 0 {
        None
    } else if filled_field(request, names[0]) is None {
        Some(names[0])
    } else {
        first_missing(request, names.skip(1))
    }
}

/// The method that a request names.
pub open spec fn method_name(request: Json) -> Seq<char> {
    match json::text_field(request, "method"@) {
        Some(name) => name,
        None => ""@,
    }
}

/// The fields that a method cannot do without.
pub open spec fn required_fields(name: Seq<char>) -> Seq<Seq<char>> {
    if name == "acquireAccess"@ || name == "accessState"@ || name == "sync"@ || name == "publish"@ {
        seq!["project_id"@]
    } else if name == "releaseAccess"@ {
        seq!["lease_id"@]
    } else if name == "reportCommit"@ {
        seq!["project_id"@, "branch"@, "commit_oid"@]
    } else if name == "reportCheckout"@ {
        seq!["project_id"@, "new_branch"@, "previous_oid"@]
    } else {
        Seq::empty()
    }
}

/// The request that an object describes, where no field is missing.
pub open spec fn parsed_method(request: Json) -> Option<MethodView> {
    let name = method_name(request);
    let of = |field: Seq<char>| filled_field(request, field)->0;
    if name == "ping"@ {
        Some(MethodView::Ping)
    } else if name == "registerProject"@ {
        Some(
            MethodView::Register(
                match json::number_field(request, "catalog_generation"@) {
                    Some(n) => Some(n as u64),
                    None => None,
                },
            ),
        )
    } else if name == "reload"@ {
        Some(MethodView::Reload)
    } else if name == "status"@ {
        Some(MethodView::Status(json::text_field(request, "project_id"@)))
    } else if name == "acquireAccess"@ {
        Some(MethodView::Acquire(of("project_id"@)))
    } else if name == "accessState"@ {
        Some(MethodView::Access(of("project_id"@)))
    } else if name == "releaseAccess"@ {
        Some(MethodView::Release(of("lease_id"@)))
    } else if name == "sync"@ {
        Some(MethodView::Sync(of("project_id"@)))
    } else if name == "publish"@ {
        Some(MethodView::Publish(of("project_id"@), json::text_field(request, "branch"@)))
    } else if name == "reportCommit"@ {
        Some(MethodView::Commit(of("project_id"@), of("branch"@), of("commit_oid"@)))
    } else if name == "reportCheckout"@ {
        Some(MethodView::Checkout(of("project_id"@), of("new_branch"@), of("previous_oid"@)))
    } else {
        None
    }
}

fn owned_field(request: &Json, name: &str) -> (r: Result<String, DaemonError>)
    ensures
        match r {
            Ok(text) => filled_field(*request, name@) == Some(text@),
            Err(e) => filled_field(*request, name@) is None && (
            e matches DaemonError::MissingField(field) && field@ == name@),
        },
{
    match string_field(request, name) {
        Ok(text) => Ok(text.to_owned()),
        Err(e) => Err(e),
    }
}

proof fn lemma_one_field(request: Json, a: Seq<char>)
    ensures
        first_missing(request, seq![a]) == if filled_field(request, a) is None {
            Some(a)
        } else {
            None
        },
{
    assert(seq![a].skip(1) =~= Seq::empty());
    assert(first_missing(request, seq![a].skip(1)) is None);
}

proof fn lemma_three_fields(request: Json, a: Seq<char>, b: Seq<char>, c: Seq<char>)
    ensures
        first_missing(request, seq![a, b, c]) == if filled_field(request, a) is None {
            Some(a)
        } else if filled_field(request, b) is None {
            Some(b)
        } else if filled_field(request, c) is None {
            Some(c)
        } else {
            None
        },
{
    assert(seq![a, b, c].skip(1) =~= seq![b, c]);
    assert(seq![b, c].skip(1) =~= seq![c]);
    lemma_one_field(request, c);
    reveal_with_fuel(first_missing, 3);
}

fn three_fields(request: &Json, a: &str, b: &str, c: &str) -> (r: Result<
    (String, String, String),
    DaemonError,
>)
    ensures
        match r {
            Ok((x, y, z)) => first_missing(*request, seq![a@, b@, c@]) is None && filled_field(
                *request,
                a@,
            ) == Some(x@) && filled_field(*request, b@) == Some(y@) && filled_field(*request, c@)
                == Some(z@),
            Err(e) => e matches DaemonError::MissingField(field) && first_missing(
                *request,
                seq![a@, b@, c@],
            ) == Some(field@),
        },
{
    proof {
        lemma_three_fields(*request, a@, b@, c@);
    }
    match owned_field(request, a) {
        Err(e) => Err(e),
        Ok(x) => match owned_field(request, b) {
            Err(e) => Err(e),
            Ok(y) => match owned_field(request, c) {
                Err(e) => Err(e),
                Ok(z) => Ok((x, y, z)),
            },
        },
    }
}

/// Reads a request.
pub fn parse_method(request: &Json) -> (r: Result<Method, DaemonError>)
    ensures
        ({
            let name = method_name(*request);
            let missing = first_missing(*request, required_fields(name));
            match r {
                Ok(method) => missing is None && parsed_method(*request) == Some(method@) && (name
                    == "registerProject"@ ==> json::field(*request, "project"@) is Some),
                Err(DaemonError::MissingField(field)) => missing == Some(field@),
                Err(DaemonError::UnknownMethod(unknown)) => parsed_method(*request) is None
                    && unknown@ == name,
                Err(DaemonError::NoProject) => name == "registerProject"@ && json::field(
                    *request,
                    "project"@,
                ) is None,
                Err(_) => false,
            }
        }),
{
    let name = match request.text_at("method") {
        Some(name) => name,
        None => "",
    };
    proof {
        lemma_method_names();
        lemma_one_field(*request, "project_id"@);
        lemma_one_field(*request, "lease_id"@);
        assert(first_missing(*request, Seq::empty()) is None);
    }
    if same_text(name, "ping") {
        return Ok(Method::Ping);
    }
    if same_text(name, "registerProject") {
        if request.get("project").is_none() {
            return Err(DaemonError::NoProject);
        }
        return Ok(Method::Register(request.number_at("catalog_generation")));
    }
    if same_text(name, "reload") {
        return Ok(Method::Reload);
    }
    if same_text(name, "status") {
        return Ok(
            Method::Status(
                match request.text_at("project_id") {
                    Some(id) => Some(id.to_owned()),
                    None => None,
                },
            ),
        );
    }
    if same_text(name, "acquireAccess") {
        return match owned_field(request, "project_id") {
            Ok(id) => Ok(Method::Acquire(id)),
            Err(e) => Err(e),
        };
    }
    if same_text(name, "accessState") {
        return match owned_field(request, "project_id") {
            Ok(id) => Ok(Method::Access(id)),
            Err(e) => Err(e),
        };
    }
    if same_text(name, "releaseAccess") {
        return match owned_field(request, "lease_id") {
            Ok(id) => Ok(Method::Release(id)),
            Err(e) => Err(e),
        };
    }
    if same_text(name, "sync") {
        return match owned_field(request, "project_id") {
            Ok(id) => Ok(Method::Sync(id)),
            Err(e) => Err(e),
        };
    }
    if same_text(name, "publish") {
        return match owned_field(request, "project_id") {
            Ok(id) => Ok(
                Method::Publish(
                    id,
                    match request.text_at("branch") {
                        Some(branch) => Some(branch.to_owned()),
                        None => None,
                    },
                ),
            ),
            Err(e) => Err(e),
        };
    }
    if same_text(name, "reportCommit") {
        return match three_fields(request, "project_id", "branch", "commit_oid") {
            Ok((id, branch, commit)) => Ok(Method::Commit(id, branch, commit)),
            Err(e) => Err(e),
        };
    }
    if same_text(name, "reportCheckout") {
        return match three_fields(request, "project_id", "new_branch", "previous_oid") {
            Ok((id, branch, oid)) => Ok(Method::Checkout(id, branch, oid)),
            Err(e) => Err(e),
        };
    }
    Err(DaemonError::UnknownMethod(name.to_owned()))
}

proof fn lemma_method_names()
    ensures
        forall|a: Seq<char>|
            #![trigger required_fields(a)]
            a == "ping"@ || a == "registerProject"@ || a == "reload"@ || a == "status"@
                ==> required_fields(a) == Seq::<Seq<char>>::empty(),
        "registerProject"@ != "ping"@,
        "registerProject"@ != "reload"@,
        "registerProject"@ != "status"@,
        "registerProject"@ != "acquireAccess"@,
        "registerProject"@ != "accessState"@,
        "registerProject"@ != "releaseAccess"@,
        "registerProject"@ != "sync"@,
        "registerProject"@ != "publish"@,
        "registerProject"@ != "reportCommit"@,
        "registerProject"@ != "reportCheckout"@,
        required_fields("releaseAccess"@) == seq!["lease_id"@],
        required_fields("reportCommit"@) == seq!["project_id"@, "branch"@, "commit_oid"@],
        required_fields("reportCheckout"@) == seq!["project_id"@, "new_branch"@, "previous_oid"@],
{
    reveal_strlit("ping");
    reveal_strlit("registerProject");
    reveal_strlit("reload");
    reveal_strlit("status");
    reveal_strlit("acquireAccess");
    reveal_strlit("accessState");
    reveal_strlit("releaseAccess");
    reveal_strlit("sync");
    reveal_strlit("publish");
    reveal_strlit("reportCommit");
    reveal_strlit("reportCheckout");
    assert("ping"@[0] != "sync"@[0]);
    assert("releaseAccess"@[0] != "acquireAccess"@[0]);
    assert("reportCommit"@[0] != "acquireAccess"@[0]);
    assert("reload"@[0] != "status"@[0]);
    assert("releaseAccess"@.len() == 13);
    assert("accessState"@.len() == 11);
    assert("acquireAccess"@.len() == 13);
    assert("publish"@.len() == 7);
    assert("sync"@.len() == 4);
    assert("ping"@.len() == 4);
    assert("registerProject"@.len() == 15);
    assert("reload"@.len() == 6);
    assert("status"@.len() == 6);
    assert("reportCommit"@.len() == 12);
    assert("reportCheckout"@.len() == 14);
}

/// Whether an object identifier names an object: it is not made of zeros alone.
pub open spec fn names_object(oid: Seq<char>) -> bool {
    exists|i: int| 0 <= i < oid.len() && #[trigger] oid[i] != '0'
}

/// The branch whose commit is published when another one is checked out, if there is one.
pub fn report_checkout(active_branch: &Option<String>, new_branch: &str, previous_oid: &str) -> (r:
    Option<String>)
    ensures
        text::opt_view(r) == match text::opt_view(*active_branch) {
            Some(previous) => if previous != new_branch@ && names_object(previous_oid@) {
                Some(previous)
            } else {
                None
            },
            None => None,
        },
{
    match active_branch {
        Some(previous) => {
            let mut named = false;
            let c = chars_of(previous_oid);
            let mut i: usize = 0;
            while i < c.len()
                invariant
                    0 <= i <= c.len(),
                    c@ == previous_oid@,
                    named == exists|j: int| 0 <= j < i && #[trigger] previous_oid@[j] != '0',
                decreases c.len() - i,
            {
                if c[i] != '0' {
                    assert(previous_oid@[i as int] != '0');
                    named = true;
                }
                i += 1;
            }
            if !same_text(previous.as_str(), new_branch) && named {
                Some(previous.clone())
            } else {
                None
            }
        },
        None => None,
    }
}

/// Whether the daemon that answered is the same program as the client.
pub fn daemon_matches_client(ping: &Json, client_binary_id: &str) -> (r: bool)
    ensures
        r == (json::text_field(*ping, "binaryId"@) == Some(client_binary_id@)),
{
    match ping.text_at("binaryId") {
        Some(id) => same_text(id, client_binary_id),
        None => false,
    }
}

/// The process of a daemon that is to be stopped, by the number that it gives; it is not the one
/// that asks. A number of one's own that is too large counts as 0.
pub open spec fn stale_process(pid: Option<nat>, own_pid: u32) -> Result<i32, DaemonError> {
    let own: int = if own_pid > i32::MAX {
        0
    } else {
        own_pid as int
    };
    match pid {
        Some(n) => if n > i32::MAX {
            Err(DaemonError::NoPid)
        } else if n == own {
            Err(DaemonError::OwnProcess)
        } else {
            Ok(n as i32)
        },
        None => Err(DaemonError::NoPid),
    }
}

/// The process of a daemon that is to be stopped; it is not the one that asks.
pub fn stale_pid(ping: &Json, own_pid: u32) -> (r: Result<i32, DaemonError>)
    ensures
        r == stale_process(json::number_field(*ping, "pid"@), own_pid),
{
    let own: u32 = if own_pid > 2147483647 {
        0
    } else {
        own_pid
    };
    match ping.number_at("pid") {
        Some(n) => {
            if n > 2147483647 {
                Err(DaemonError::NoPid)
            } else if n == own as u64 {
                Err(DaemonError::OwnProcess)
            } else {
                Ok(n as i32)
            }
        },
        None => Err(DaemonError::NoPid),
    }
}

/// Whether a daemon has stopped: none answers, or another one does.
pub fn has_stopped(answer: &Option<Json>, pid: i32) -> (r: bool)
    requires
        0 <= pid,
    ensures
        r == match *answer {
            Some(ping) => json::number_field(ping, "pid"@) != Some(pid as nat),
            None => true,
        },
{
    match answer {
        Some(ping) => match ping.number_at("pid") {
            Some(n) => n != pid as u64,
            None => true,
        },
        None => true,
    }
}

/// The number that a text with or without a sign stands for, if it fits.
pub open spec fn parsed_i32(s: Seq<char>) -> Option<i32> {
    let negative = s.len() > 0 && s[0] == '-';
    let digits = if s.len() > 0 && (s[0] == '-' || s[0] == '+') {
        s.skip(1)
    } else {
        s
    };
    match text::parse_decimal(digits) {
        Some(n) => if negative && n <= 2147483648 {
            Some((-(n as int)) as i32)
        } else if !negative && n <= i32::MAX {
            Some(n as i32)
        } else {
            None
        },
        None => None,
    }
}

/// The process that a lock belongs to.
pub fn lock_owner(text: &str) -> (r: Option<i32>)
    ensures
        r == parsed_i32(text::trim(text@)),
{
    let s = trimmed(text);
    let c = chars_of(s.as_str());
    let signed = c.len() > 0 && (c[0] == '-' || c[0] == '+');
    let negative = c.len() > 0 && c[0] == '-';
    let digits = if signed {
        part_of(&c, 1, c.len())
    } else {
        s.clone()
    };
    assert(signed ==> digits@ =~= s@.skip(1));
    match parse_number(digits.as_str()) {
        Some(n) => {
            if negative {
                if n <= 2147483648 {
                    let value: i64 = 0 - (n as i64);
                    Some(value as i32)
                } else {
                    None
                }
            } else if n <= 2147483647 {
                Some(n as i32)
            } else {
                None
            }
        },
        None => None,
    }
}

/// What a line that was sent to the daemon is.
#[derive(Debug, Clone, Copy, PartialEq, Eq, Structural)]
pub enum RequestLine {
    TooLong,
    Blank,
    Request,
}

/// The most bytes of a request.
pub const REQUEST_LIMIT: usize = 1048576;

/// Says what a line is.
pub fn request_line(line: &str) -> (r: RequestLine)
    ensures
        r == if vstd::utf8::encode_utf8(line@).len() > REQUEST_LIMIT {
            RequestLine::TooLong
        } else if text::trim(line@).len() == 0 {
            RequestLine::Blank
        } else {
            RequestLine::Request
        },
{
    if line.as_bytes().len() > REQUEST_LIMIT {
        return RequestLine::TooLong;
    }
    let text = trimmed(line);
    if is_blank(text.as_str()) {
        RequestLine::Blank
    } else {
        RequestLine::Request
    }
}

/// The identity of a program: the digest of its bytes.
pub fn executable_fingerprint(bytes: &[u8]) -> (r: String)
    ensures
        r@ == digest::sha256_text(bytes@),
{
    sha256_hex(bytes)
}

/// The identity of an installed build.
pub fn adapter_build_id(version: &str, binary_id: &str, executable: &str) -> (r: String)
    ensures
        r@ == version@ + ":"@ + binary_id@ + ":"@ + executable@,
{
    cat5(version, ":", binary_id, ":", executable)
}

/// Whether the adapters of the projects are those of another build.
pub fn needs_repair(installed: &Json, build_id: &str) -> (r: bool)
    ensures
        r == (json::text_field(*installed, "buildId"@) != Some(build_id@)),
{
    match installed.text_at("buildId") {
        Some(id) => !same_text(id, build_id),
        None => true,
    }
}

/// What comes of installing the adapters, given what went wrong.
pub fn repair_outcome(failures: &Vec<String>) -> (r: Result<(), DaemonError>)
    ensures
        match r {
            Ok(_) => failures.len() == 0,
            Err(e) => failures.len() > 0 && (e matches DaemonError::Adapters(text) && text@
                == text::join(text::views(failures@), "; "@)),
        },
{
    if failures.len() == 0 {
        Ok(())
    } else {
        Err(DaemonError::Adapters(join_text(failures, "; ")))
    }
}

/// Who keeps the daemon running.
#[derive(Debug, Clone, Copy, PartialEq, Eq, Structural)]
pub enum Supervision {
    /// Nobody: the state is in a directory of its own.
    StateDir,
    /// The service manager of the user.
    Systemd,
    /// The hooks that need it.
    Hooks,
}

/// Decides who keeps the daemon running.
pub fn supervision(explicit_state: bool, manager_available: bool) -> (r: Supervision)
    ensures
        r == if explicit_state {
            Supervision::StateDir
        } else if manager_available {
            Supervision::Systemd
        } else {
            Supervision::Hooks
        },
{
    if explicit_state {
        Supervision::StateDir
    } else if manager_available {
        Supervision::Systemd
    } else {
        Supervision::Hooks
    }
}

/// The name of a kind of supervision.
pub open spec fn supervision_text(s: Supervision) -> Seq<char> {
    match s {
        Supervision::StateDir => "state-dir"@,
        Supervision::Systemd => "systemd-user"@,
        Supervision::Hooks => "hook-started"@,
    }
}

impl Supervision {
    /// The name of the kind.
    pub fn name(&self) -> (r: &'static str)
        ensures
            r@ == supervision_text(*self),
    {
        match self {
            Supervision::StateDir => "state-dir",
            Supervision::Systemd => "systemd-user",
            Supervision::Hooks => "hook-started",
        }
    }
}

/// The description of the service for the service manager.
pub fn service_unit(executable: &str) -> (r: String)
    ensures
        r@ == "[Unit]\nDescription=RepoSync convergence daemon\nAfter=network-online.target\n\n[Service]\nExecStart="@
            + executable@
            + " daemon\nRestart=always\nRestartSec=5\n\n[Install]\nWantedBy=default.target\n"@,
{
    cat3(
        "[Unit]\nDescription=RepoSync convergence daemon\nAfter=network-online.target\n\n[Service]\nExecStart=",
        executable,
        " daemon\nRestart=always\nRestartSec=5\n\n[Install]\nWantedBy=default.target\n",
    )
}

/// The arguments that make the service manager run the service.
pub fn service_arguments(restart: bool) -> (r: Vec<String>)
    ensures
        text::views(r@) == if restart {
            seq!["--user"@, "restart"@, "resync.service"@]
        } else {
            seq!["--user"@, "enable"@, "--now"@, "resync.service"@]
        },
{
    if restart {
        words3("--user", "restart", "resync.service")
    } else {
        words4("--user", "enable", "--now", "resync.service")
    }
}

/// The last `n` of a list.
pub open spec fn last_of(list: Seq<Seq<char>>, n: int) -> Seq<Seq<char>> {
    if list.len() <= n {
        list
    } else {
        list.skip(list.len() - n)
    }
}

/// The words for a daemon that did not start, with the end of its log.
pub open spec fn startup_words(last: Option<Seq<char>>, log: Seq<char>) -> Seq<char> {
    let detail = text::join(last_of(text::lines(log), 5), "\n"@);
    let words = match last {
        Some(text) => text,
        None => "RepoSync daemon did not become ready"@,
    };
    if detail.len() == 0 {
        words
    } else {
        words + "; daemon log: "@ + detail
    }
}

/// The words for a daemon that did not start.
pub fn startup_failure(last: &Option<String>, log: &str) -> (r: String)
    ensures
        r@ == startup_words(text::opt_view(*last), log@),
{
    let list = lines_of(log);
    let from: usize = if list.len() > 5 {
        list.len() - 5
    } else {
        0
    };
    let mut tail: Vec<String> = Vec::new();
    let mut i: usize = from;
    while i < list.len()
        invariant
            from <= i <= list.len(),
            text::views(tail@) == text::views(list@).subrange(from as int, i as int),
        decreases list.len() - i,
    {
        let ghost before = tail@;
        tail.push(list[i].clone());
        assert(text::views(tail@) =~= text::views(before).push(list@[i as int]@));
        assert(text::views(list@).subrange(from as int, i + 1) =~= text::views(list@).subrange(
            from as int,
            i as int,
        ).push(list@[i as int]@));
        i += 1;
    }
    assert(text::views(tail@) =~= last_of(text::lines(log@), 5));
    let detail = join_text(&tail, "\n");
    let words = match last {
        Some(text) => text.clone(),
        None => "RepoSync daemon did not become ready".to_owned(),
    };
    if is_blank(detail.as_str()) {
        words
    } else {
        cat3(words.as_str(), "; daemon log: ", detail.as_str())
    }
}

} // verus!
