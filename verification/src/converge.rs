//! Bringing one project to the commit that its branch has on the remote.
use vstd::prelude::*;
use crate::process;
use crate::reconcile;
use crate::refresh;
use crate::text;
use crate::text_map;
use crate::transaction;
use crate::git_state::{WorkspaceSnapshot, WorkspaceSnapshotView};
use crate::process::{GitCall, GitCallView, RunResult, RunResultView};
use crate::reconcile::is_ancestor;
use crate::state::{Conflict, ConflictView, LocalProject, LocalProjectView};
use crate::text::{cat3, copy_list, same_text};
use crate::text_map::lookup;
use crate::transaction::{empty_result, ReconcileResult, ReconcileResultView};

verus! {

/// How far a project has come.
#[derive(Debug, Clone, Copy, PartialEq, Eq, Structural)]
pub enum ConvergeStage {
    Branch,
    Capture,
    Behind,
    Ahead,
    Move,
    Done,
}

/// A project on its way to the commit of the remote, step by step: [`Converge::request`] says what
/// is to be done next, and [`Converge::advance`] takes what came of it.
#[derive(Debug)]
pub struct Converge {
    pub stage: ConvergeStage,
    pub project: LocalProject,
    pub branch: String,
    /// The commit of the remote.
    pub target: String,
    /// The local commit.
    pub head: String,
    /// The commit of the remote that the local work is based on.
    pub previous: String,
    pub outcome: ReconcileResult,
    pub failure: Option<String>,
}

/// What a [`Converge`] holds.
pub struct ConvergeView {
    pub stage: ConvergeStage,
    pub project: LocalProjectView,
    pub branch: Seq<char>,
    pub target: Seq<char>,
    pub head: Seq<char>,
    pub previous: Seq<char>,
    pub outcome: ReconcileResultView,
    pub failure: Option<Seq<char>>,
}

impl View for Converge {
    type V = ConvergeView;

    open spec fn view(&self) -> ConvergeView {
        ConvergeView {
            stage: self.stage,
            project: self.project@,
            branch: self.branch@,
            target: self.target@,
            head: self.head@,
            previous: self.previous@,
            outcome: self.outcome@,
            failure: text::opt_view(self.failure),
        }
    }
}

/// What is asked for.
#[derive(Debug, Clone, PartialEq, Eq)]
pub enum ConvergeAction {
    /// Ask for the branch of the worktree at this path.
    Branch(String),
    /// Capture the worktree at this path.
    Capture(String),
    /// Run this command.
    Git(GitCall),
    /// Move the worktree at this path from one commit of the remote to another.
    Move(String, String, String),
    /// The project has arrived, or is in conflict.
    Return(ReconcileResult),
    /// The project cannot go on.
    Fail(String),
}

/// What a [`ConvergeAction`] holds.
pub enum ConvergeActionView {
    Branch(Seq<char>),
    Capture(Seq<char>),
    Git(GitCallView),
    Move(Seq<char>, Seq<char>, Seq<char>),
    Return(ReconcileResultView),
    Fail(Seq<char>),
}

impl View for ConvergeAction {
    type V = ConvergeActionView;

    open spec fn view(&self) -> ConvergeActionView {
        match *self {
            ConvergeAction::Branch(a) => ConvergeActionView::Branch(a@),
            ConvergeAction::Capture(a) => ConvergeActionView::Capture(a@),
            ConvergeAction::Git(a) => ConvergeActionView::Git(a@),
            ConvergeAction::Move(a, b, c) => ConvergeActionView::Move(a@, b@, c@),
            ConvergeAction::Return(a) => ConvergeActionView::Return(a@),
            ConvergeAction::Fail(a) => ConvergeActionView::Fail(a@),
        }
    }
}

/// What came of a step.
#[derive(Debug, Clone, PartialEq, Eq)]
pub enum ConvergeEvent {
    /// The branch, if there is one.
    Branch(Option<String>),
    Captured(WorkspaceSnapshot),
    Ran(RunResult),
    Moved(ReconcileResult),
    Failed(String),
}

/// What a [`ConvergeEvent`] holds.
pub enum ConvergeEventView {
    Branch(Option<Seq<char>>),
    Captured(WorkspaceSnapshotView),
    Ran(RunResultView),
    Moved(ReconcileResultView),
    Failed(Seq<char>),
}

impl View for ConvergeEvent {
    type V = ConvergeEventView;

    open spec fn view(&self) -> ConvergeEventView {
        match *self {
            ConvergeEvent::Branch(a) => ConvergeEventView::Branch(text::opt_view(a)),
            ConvergeEvent::Captured(a) => ConvergeEventView::Captured(a@),
            ConvergeEvent::Ran(a) => ConvergeEventView::Ran(a@),
            ConvergeEvent::Moved(a) => ConvergeEventView::Moved(a@),
            ConvergeEvent::Failed(a) => ConvergeEventView::Failed(a@),
        }
    }
}

/// The outcome of which only its name is known.
pub open spec fn simple_result(outcome: Seq<char>) -> ReconcileResultView {
    ReconcileResultView { outcome, ..transaction::no_result() }
}

/// The outcome of which only its name is known.
pub fn simple_outcome(outcome: &str) -> (r: ReconcileResult)
    ensures
        r@ == simple_result(outcome@),
{
    let mut r = empty_result();
    r.outcome = outcome.to_owned();
    r
}

/// A project that has arrived.
pub open spec fn arrived(p: LocalProjectView) -> LocalProjectView {
    LocalProjectView { state: "CURRENT"@, conflict: None, ..p }
}

/// A project in conflict.
pub open spec fn in_conflict(p: LocalProjectView, conflict: ConflictView) -> LocalProjectView {
    LocalProjectView { state: "CONFLICTED"@, conflict: Some(conflict), ..p }
}

/// The words for two histories of which neither holds the other.
pub open spec fn diverged_text(branch: Seq<char>) -> Seq<char> {
    "local and hosted histories for branch "@ + branch + " diverge"@
}

/// What is asked for at a stage.
pub open spec fn converge_requested(s: ConvergeView) -> ConvergeActionView {
    let p = s.project;
    match s.stage {
        ConvergeStage::Branch => ConvergeActionView::Branch(p.local_path),
        ConvergeStage::Capture => ConvergeActionView::Capture(p.local_path),
        ConvergeStage::Behind => ConvergeActionView::Git(
            reconcile::ancestor_call(p.local_path, s.target, s.head),
        ),
        ConvergeStage::Ahead => ConvergeActionView::Git(
            reconcile::ancestor_call(p.local_path, s.head, s.target),
        ),
        ConvergeStage::Move => ConvergeActionView::Move(p.local_path, s.previous, s.target),
        ConvergeStage::Done => match s.failure {
            Some(message) => ConvergeActionView::Fail(message),
            None => ConvergeActionView::Return(s.outcome),
        },
    }
}

/// One that is over with an error.
pub open spec fn converge_failed(s: ConvergeView, message: Seq<char>) -> ConvergeView {
    ConvergeView { stage: ConvergeStage::Done, failure: Some(message), ..s }
}

/// One that is over, with nothing to do.
pub open spec fn converged(s: ConvergeView, p: LocalProjectView) -> ConvergeView {
    ConvergeView {
        stage: ConvergeStage::Done,
        project: arrived(p),
        outcome: simple_result("current"@),
        ..s
    }
}

/// One that knows its branch.
pub open spec fn converge_branch(s: ConvergeView, branch: Seq<char>) -> ConvergeView {
    let p = LocalProjectView { active_branch: Some(branch), ..s.project };
    match text_map::text_at(p.advertised_heads, branch) {
        None => ConvergeView { branch, ..converged(s, p) },
        Some(target) => ConvergeView {
            stage: ConvergeStage::Capture,
            project: p,
            branch,
            target,
            ..s
        },
    }
}

/// One that knows whether the local commit is part of the history of the remote. The local work
/// is based on the commit that was applied last; where none was, or that very commit is the one
/// to go to, on the local commit, which the remote must hold then.
pub open spec fn converge_ahead(s: ConvergeView, ahead: bool) -> ConvergeView {
    let p = s.project;
    let known = text_map::text_at(p.last_applied_heads, s.branch);
    if known is None || known == Some(s.target) {
        if ahead {
            ConvergeView {
                stage: ConvergeStage::Move,
                previous: s.head,
                project: refresh::in_state(p, "RECONCILING"@),
                ..s
            }
        } else {
            let detail = diverged_text(s.branch);
            ConvergeView {
                stage: ConvergeStage::Done,
                project: in_conflict(
                    p,
                    ConflictView { kind: "diverged-history"@, detail, paths: Seq::empty() },
                ),
                outcome: (ReconcileResultView {
                    outcome: "conflict"@,
                    detail: Some(detail),
                    ..transaction::no_result()
                }),
                ..s
            }
        }
    } else {
        ConvergeView {
            stage: ConvergeStage::Move,
            previous: known->0,
            project: refresh::in_state(p, "RECONCILING"@),
            ..s
        }
    }
}

/// One whose worktree was moved, or is in conflict.
pub open spec fn converge_moved(s: ConvergeView, result: ReconcileResultView) -> ConvergeView {
    let p = s.project;
    ConvergeView {
        stage: ConvergeStage::Done,
        outcome: result,
        project: if result.outcome == "applied"@ {
            arrived(
                LocalProjectView {
                    workspace_generation: (p.workspace_generation + 1) as u64,
                    ..refresh::applied(p, s.branch, s.target)
                },
            )
        } else if result.outcome == "conflict"@ {
            in_conflict(
                p,
                ConflictView {
                    kind: "reconciliation"@,
                    detail: match result.detail {
                        Some(detail) => detail,
                        None => "reconciliation conflict"@,
                    },
                    paths: result.paths,
                },
            )
        } else {
            p
        },
        ..s
    }
}

/// What holds after an event.
#[verifier::opaque]
pub open spec fn converge_next(s: ConvergeView, e: ConvergeEventView) -> ConvergeView {
    match (s.stage, e) {
        (ConvergeStage::Branch, ConvergeEventView::Branch(found)) => match found {
            Some(branch) => converge_branch(s, branch),
            None => converge_failed(s, "detached or unborn HEAD is unsupported in RepoSync V1"@),
        },
        (ConvergeStage::Capture, ConvergeEventView::Captured(snapshot)) => if snapshot.head
            == s.target {
            converged(
                ConvergeView { head: snapshot.head, ..s },
                refresh::applied(s.project, s.branch, s.target),
            )
        } else {
            ConvergeView { stage: ConvergeStage::Behind, head: snapshot.head, ..s }
        },
        (ConvergeStage::Behind, ConvergeEventView::Ran(result)) => if result.code == 0 {
            converged(s, refresh::applied(s.project, s.branch, s.target))
        } else {
            ConvergeView { stage: ConvergeStage::Ahead, ..s }
        },
        (ConvergeStage::Ahead, ConvergeEventView::Ran(result)) => converge_ahead(
            s,
            result.code == 0,
        ),
        (ConvergeStage::Move, ConvergeEventView::Moved(result)) => converge_moved(s, result),
        (ConvergeStage::Done, _) => s,
        (_, ConvergeEventView::Failed(message)) => converge_failed(s, message),
        _ => s,
    }
}

/// The number of moves can grow by one, unless this is over.
pub open spec fn converge_valid(s: ConvergeView) -> bool {
    s.stage != ConvergeStage::Done ==> s.project.workspace_generation < u64::MAX
}

/// A project at its start.
pub open spec fn converge_start(p: LocalProjectView) -> ConvergeView {
    ConvergeView {
        stage: ConvergeStage::Branch,
        project: p,
        branch: Seq::empty(),
        target: Seq::empty(),
        head: Seq::empty(),
        previous: Seq::empty(),
        outcome: transaction::no_result(),
        failure: None,
    }
}

impl Converge {
    /// A project at its start.
    pub fn new(project: LocalProject) -> (r: Self)
        requires
            project.workspace_generation < u64::MAX,
        ensures
            r@ == converge_start(project@),
            converge_valid(r@),
    {
        let r = Converge {
            stage: ConvergeStage::Branch,
            project,
            branch: String::new(),
            target: String::new(),
            head: String::new(),
            previous: String::new(),
            outcome: empty_result(),
            failure: None,
        };
        assert(r@.branch =~= Seq::empty());
        assert(r@.target =~= Seq::empty());
        assert(r@.head =~= Seq::empty());
        assert(r@.previous =~= Seq::empty());
        r
    }

    /// What is to be done next.
    pub fn request(&self) -> (r: ConvergeAction)
        ensures
            r@ == converge_requested(self@),
    {
        let path = self.project.local_path.as_str();
        match self.stage {
            ConvergeStage::Branch => ConvergeAction::Branch(path.to_owned()),
            ConvergeStage::Capture => ConvergeAction::Capture(path.to_owned()),
            ConvergeStage::Behind => ConvergeAction::Git(
                is_ancestor(path, self.target.as_str(), self.head.as_str()),
            ),
            ConvergeStage::Ahead => ConvergeAction::Git(
                is_ancestor(path, self.head.as_str(), self.target.as_str()),
            ),
            ConvergeStage::Move => ConvergeAction::Move(
                path.to_owned(),
                self.previous.clone(),
                self.target.clone(),
            ),
            ConvergeStage::Done => match &self.failure {
                Some(message) => ConvergeAction::Fail(message.clone()),
                None => ConvergeAction::Return(self.outcome.copy()),
            },
        }
    }

    fn at_branch(&mut self, branch: String)
        ensures
            final(self)@ == converge_branch(old(self)@, branch@),
    {
        self.project.active_branch = Some(branch.clone());
        match lookup(&self.project.advertised_heads, branch.as_str()) {
            None => {
                self.arrive();
            },
            Some(target) => {
                self.target = target;
                self.stage = ConvergeStage::Capture;
            },
        }
        self.branch = branch;
    }

    fn arrive(&mut self)
        ensures
            final(self)@ == converged(old(self)@, old(self)@.project),
    {
        self.stage = ConvergeStage::Done;
        self.project.state = "CURRENT".to_owned();
        self.project.conflict = None;
        self.outcome = simple_outcome("current");
    }

    fn set_previous(&mut self, previous: String)
        ensures
            final(self)@ == (ConvergeView {
                stage: ConvergeStage::Move,
                previous: previous@,
                project: refresh::in_state(old(self)@.project, "RECONCILING"@),
                ..old(self)@
            }),
    {
        self.stage = ConvergeStage::Move;
        self.previous = previous;
        self.project.state = "RECONCILING".to_owned();
    }

    fn at_ahead(&mut self, ahead: bool)
        ensures
            final(self)@ == converge_ahead(old(self)@, ahead),
    {
        match lookup(&self.project.last_applied_heads, self.branch.as_str()) {
            Some(known) => {
                if !same_text(known.as_str(), self.target.as_str()) {
                    self.set_previous(known);
                    return ;
                }
            },
            None => {},
        }
        if ahead {
            let head = self.head.clone();
            self.set_previous(head);
            return ;
        }
        let detail = cat3(
            "local and hosted histories for branch ",
            self.branch.as_str(),
            " diverge",
        );
        self.stage = ConvergeStage::Done;
        self.project.state = "CONFLICTED".to_owned();
        let conflict = Conflict {
            kind: "diverged-history".to_owned(),
            detail: detail.clone(),
            paths: Vec::new(),
        };
        assert(text::views(conflict.paths@) =~= Seq::empty());
        self.project.conflict = Some(conflict);
        let mut result = empty_result();
        result.outcome = "conflict".to_owned();
        result.detail = Some(detail);
        self.outcome = result;
    }

    fn at_moved(&mut self, result: ReconcileResult)
        requires
            old(self)@.project.workspace_generation < u64::MAX,
        ensures
            final(self)@ == converge_moved(old(self)@, result@),
    {
        self.stage = ConvergeStage::Done;
        if same_text(result.outcome.as_str(), "applied") {
            let branch = self.branch.clone();
            let target = self.target.clone();
            self.project.apply(branch.as_str(), target.as_str());
            self.project.workspace_generation = self.project.workspace_generation + 1;
            self.project.state = "CURRENT".to_owned();
            self.project.conflict = None;
        } else if same_text(result.outcome.as_str(), "conflict") {
            self.project.state = "CONFLICTED".to_owned();
            self.project.conflict = Some(
                Conflict {
                    kind: "reconciliation".to_owned(),
                    detail: match &result.detail {
                        Some(detail) => detail.clone(),
                        None => "reconciliation conflict".to_owned(),
                    },
                    paths: copy_list(&result.paths),
                },
            );
        }
        self.outcome = result;
    }

    /// Takes what came of the step that was asked for.
    pub fn advance(&mut self, event: ConvergeEvent)
        requires
            converge_valid(old(self)@),
        ensures
            final(self)@ == converge_next(old(self)@, event@),
            converge_valid(final(self)@),
    {
        reveal(converge_next);
        match (self.stage, event) {
            (ConvergeStage::Branch, ConvergeEvent::Branch(found)) => match found {
                Some(branch) => {
                    self.at_branch(branch);
                },
                None => {
                    self.stage = ConvergeStage::Done;
                    self.failure = Some(
                        "detached or unborn HEAD is unsupported in RepoSync V1".to_owned(),
                    );
                },
            },
            (ConvergeStage::Capture, ConvergeEvent::Captured(snapshot)) => {
                let same = same_text(snapshot.head.as_str(), self.target.as_str());
                self.head = snapshot.head;
                if same {
                    let branch = self.branch.clone();
                    let target = self.target.clone();
                    self.project.apply(branch.as_str(), target.as_str());
                    self.arrive();
                } else {
                    self.stage = ConvergeStage::Behind;
                }
            },
            (ConvergeStage::Behind, ConvergeEvent::Ran(result)) => {
                if result.code == 0 {
                    let branch = self.branch.clone();
                    let target = self.target.clone();
                    self.project.apply(branch.as_str(), target.as_str());
                    self.arrive();
                } else {
                    self.stage = ConvergeStage::Ahead;
                }
            },
            (ConvergeStage::Ahead, ConvergeEvent::Ran(result)) => {
                self.at_ahead(result.code == 0);
            },
            (ConvergeStage::Move, ConvergeEvent::Moved(result)) => {
                self.at_moved(result);
            },
            (ConvergeStage::Done, _) => {},
            (_, ConvergeEvent::Failed(message)) => {
                self.stage = ConvergeStage::Done;
                self.failure = Some(message);
            },
            _ => {},
        }
    }
}

/// What holds after a number of events.
pub open spec fn converge_replayed(s: ConvergeView, events: Seq<ConvergeEventView>) -> ConvergeView
    decreases events.len(),
{
    if events.len() == 0 {
        s
    } else {
        converge_next(converge_replayed(s, events.drop_last()), events.last())
    }
}

/// What holds of a project that is on its way, or has arrived, or is in conflict.
spec fn converge_consistent(start: LocalProjectView, s: ConvergeView) -> bool {
    let p = s.project;
    &&& p.project_id == start.project_id
    &&& p.local_path == start.local_path
    &&& p.advertised_heads == start.advertised_heads
    &&& p.durability == start.durability
    &&& s.stage != ConvergeStage::Done ==> s.failure is None && s.outcome == transaction::no_result()
        && p.workspace_generation == start.workspace_generation && p.last_applied_heads
        == start.last_applied_heads && p.conflict == start.conflict
    &&& s.stage != ConvergeStage::Branch && s.stage != ConvergeStage::Done
        ==> p.advertised_heads.contains_key(s.branch) && p.advertised_heads[s.branch] == s.target
    &&& s.stage == ConvergeStage::Done && s.failure is None && s.outcome.outcome == "conflict"@
        ==> p.state == "CONFLICTED"@ && p.conflict is Some && p.last_applied_heads
        == start.last_applied_heads && p.workspace_generation == start.workspace_generation
    &&& s.stage == ConvergeStage::Done && s.failure is None && s.outcome.outcome == "applied"@
        ==> p.state == "CURRENT"@ && p.conflict is None && p.workspace_generation
        == start.workspace_generation + 1 && text_map::text_at(p.last_applied_heads, s.branch) == Some(
        s.target,
    )
}

proof fn lemma_converge_step(start: LocalProjectView, s: ConvergeView, e: ConvergeEventView)
    requires
        start.workspace_generation < u64::MAX,
        converge_consistent(start, s),
    ensures
        converge_consistent(start, converge_next(s, e)),
{
    reveal(converge_next);
    reveal_strlit("current");
    reveal_strlit("conflict");
    reveal_strlit("applied");
    assert("current"@[0] != "applied"@[0]);
    assert("current"@.len() != "conflict"@.len());
    assert("applied"@.len() != "conflict"@.len());
}

proof fn lemma_converge(start: LocalProjectView, events: Seq<ConvergeEventView>)
    requires
        start.workspace_generation < u64::MAX,
    ensures
        converge_consistent(start, converge_replayed(converge_start(start), events)),
    decreases events.len(),
{
    if events.len() > 0 {
        lemma_converge(start, events.drop_last());
        lemma_converge_step(
            start,
            converge_replayed(converge_start(start), events.drop_last()),
            events.last(),
        );
    }
}

/// A conflict is recorded with its reason, and neither the commit that counts as applied nor the
/// generation of the workspace changes.
pub proof fn law_conflict_is_recorded(start: LocalProjectView, events: Seq<ConvergeEventView>)
    requires
        start.workspace_generation < u64::MAX,
    ensures
        ({
            let s = converge_replayed(converge_start(start), events);
            s.stage == ConvergeStage::Done && s.failure is None && s.outcome.outcome
                == "conflict"@ ==> s.project.state == "CONFLICTED"@ && s.project.conflict is Some
                && s.project.last_applied_heads == start.last_applied_heads
                && s.project.workspace_generation == start.workspace_generation
        }),
{
    lemma_converge(start, events);
}

/// A move that was applied makes the project current at the commit of the remote, clears a
/// conflict, and starts a new generation of the workspace.
pub proof fn law_applied_is_current(start: LocalProjectView, events: Seq<ConvergeEventView>)
    requires
        start.workspace_generation < u64::MAX,
    ensures
        ({
            let s = converge_replayed(converge_start(start), events);
            s.stage == ConvergeStage::Done && s.failure is None && s.outcome.outcome
                == "applied"@ ==> s.project.state == "CURRENT"@ && s.project.conflict is None
                && s.project.workspace_generation == start.workspace_generation + 1 && text_map::text_at(
                s.project.last_applied_heads,
                s.branch,
            ) == Some(s.target)
        }),
{
    lemma_converge(start, events);
}

/// Where in a run of events each step of a project was answered.
pub struct ConvergeTrail {
    pub branch: int,
    pub captured: int,
    pub behind: int,
    pub ahead: int,
    pub moved: int,
    pub fault: int,
}

/// What was asked for before event `i`.
#[verifier::opaque]
pub open spec fn converge_asked(
    p: LocalProjectView,
    events: Seq<ConvergeEventView>,
    i: int,
) -> ConvergeActionView {
    converge_requested(converge_replayed(converge_start(p), events.take(i)))
}

/// The branch of an event.
pub open spec fn branch_in(e: ConvergeEventView) -> Seq<char> {
    e->Branch_0->0
}

/// The captured commit of an event.
pub open spec fn head_in(e: ConvergeEventView) -> Seq<char> {
    e->Captured_0.head
}

/// At event `i` the worktree of the project turned out to be on a branch.
pub open spec fn branch_found(
    p: LocalProjectView,
    events: Seq<ConvergeEventView>,
    i: int,
) -> bool {
    &&& 0 <= i < events.len()
    &&& converge_asked(p, events, i) == ConvergeActionView::Branch(p.local_path)
    &&& events[i] is Branch
    &&& events[i]->Branch_0 is Some
}

/// At event `i`, after the branch was known, and to be one that the remote has, the worktree was
/// captured.
pub open spec fn head_captured(
    p: LocalProjectView,
    events: Seq<ConvergeEventView>,
    h: ConvergeTrail,
    i: int,
) -> bool {
    &&& branch_found(p, events, h.branch)
    &&& p.advertised_heads.contains_key(branch_in(events[h.branch]))
    &&& h.branch < i < events.len()
    &&& converge_asked(p, events, i) == ConvergeActionView::Capture(p.local_path)
    &&& events[i] is Captured
}

/// The commit that the remote has for the branch.
pub open spec fn wanted(
    p: LocalProjectView,
    events: Seq<ConvergeEventView>,
    h: ConvergeTrail,
) -> Seq<char> {
    p.advertised_heads[branch_in(events[h.branch])]
}

/// At event `i` Git said whether the commit of the remote is an ancestor of the captured one, which
/// is another.
pub open spec fn behind_asked(
    p: LocalProjectView,
    events: Seq<ConvergeEventView>,
    h: ConvergeTrail,
    i: int,
) -> bool {
    &&& head_captured(p, events, h, h.captured)
    &&& head_in(events[h.captured]) != wanted(p, events, h)
    &&& h.captured < i < events.len()
    &&& converge_asked(p, events, i) == ConvergeActionView::Git(
        process::may_fail(
            p.local_path,
            seq![
                "merge-base"@,
                "--is-ancestor"@,
                wanted(p, events, h),
                head_in(events[h.captured]),
            ],
        ),
    )
    &&& events[i] is Ran
}

/// At event `i` Git said whether the captured commit is an ancestor of the one of the remote, after
/// it had said that the converse does not hold.
pub open spec fn ahead_asked(
    p: LocalProjectView,
    events: Seq<ConvergeEventView>,
    h: ConvergeTrail,
    i: int,
) -> bool {
    &&& behind_asked(p, events, h, h.behind)
    &&& events[h.behind]->Ran_0.code != 0
    &&& h.behind < i < events.len()
    &&& converge_asked(p, events, i) == ConvergeActionView::Git(
        process::may_fail(
            p.local_path,
            seq![
                "merge-base"@,
                "--is-ancestor"@,
                head_in(events[h.captured]),
                wanted(p, events, h),
            ],
        ),
    )
    &&& events[i] is Ran
}

/// Whether a commit was applied to the branch before that is not the one to go to.
pub open spec fn applied_before(
    p: LocalProjectView,
    events: Seq<ConvergeEventView>,
    h: ConvergeTrail,
) -> bool {
    &&& p.last_applied_heads.contains_key(branch_in(events[h.branch]))
    &&& p.last_applied_heads[branch_in(events[h.branch])] != wanted(p, events, h)
}

/// The worktree is to be moved from `previous` to the commit of the remote: from the commit that
/// was applied last, where it is another one than that; else from the captured commit, where Git
/// said that it is an ancestor of the one of the remote.
pub open spec fn move_due(
    p: LocalProjectView,
    events: Seq<ConvergeEventView>,
    h: ConvergeTrail,
    previous: Seq<char>,
) -> bool {
    &&& ahead_asked(p, events, h, h.ahead)
    &&& if applied_before(p, events, h) {
        previous == p.last_applied_heads[branch_in(events[h.branch])]
    } else {
        previous == head_in(events[h.captured]) && events[h.ahead]->Ran_0.code == 0
    }
}

/// The project after its branch was found.
pub open spec fn on_branch(
    p: LocalProjectView,
    events: Seq<ConvergeEventView>,
    h: ConvergeTrail,
) -> LocalProjectView {
    LocalProjectView { active_branch: Some(branch_in(events[h.branch])), ..p }
}

/// The project is where the remote is, or ahead of it, or on a branch that the remote has not.
pub open spec fn ended_as_current(
    p: LocalProjectView,
    events: Seq<ConvergeEventView>,
    h: ConvergeTrail,
    now: LocalProjectView,
) -> bool {
    &&& branch_found(p, events, h.branch)
    &&& {
        ||| {
            &&& !p.advertised_heads.contains_key(branch_in(events[h.branch]))
            &&& now == (LocalProjectView {
                state: "CURRENT"@,
                conflict: None,
                ..on_branch(p, events, h)
            })
        }
        ||| {
            &&& {
                ||| head_captured(p, events, h, h.captured) && head_in(events[h.captured])
                    == wanted(p, events, h)
                ||| behind_asked(p, events, h, h.behind) && events[h.behind]->Ran_0.code == 0
            }
            &&& now == (LocalProjectView {
                state: "CURRENT"@,
                conflict: None,
                last_applied_heads: p.last_applied_heads.insert(
                    branch_in(events[h.branch]),
                    wanted(p, events, h),
                ),
                ..on_branch(p, events, h)
            })
        }
    }
}

/// Neither history holds the other, and no other commit was applied before.
pub open spec fn ended_as_diverged(
    p: LocalProjectView,
    events: Seq<ConvergeEventView>,
    h: ConvergeTrail,
    now: LocalProjectView,
    r: ReconcileResultView,
) -> bool {
    let detail = "local and hosted histories for branch "@ + branch_in(events[h.branch])
        + " diverge"@;
    &&& ahead_asked(p, events, h, h.ahead)
    &&& !applied_before(p, events, h)
    &&& events[h.ahead]->Ran_0.code != 0
    &&& r.outcome == "conflict"@
    &&& r.detail == Some(detail)
    &&& r.paths == Seq::<Seq<char>>::empty()
    &&& now == (LocalProjectView {
        state: "CONFLICTED"@,
        conflict: Some(
            ConflictView { kind: "diverged-history"@, detail, paths: Seq::empty() },
        ),
        ..on_branch(p, events, h)
    })
}

/// The worktree was moved, or the move said why not.
pub open spec fn ended_as_moved(
    p: LocalProjectView,
    events: Seq<ConvergeEventView>,
    h: ConvergeTrail,
    now: LocalProjectView,
    r: ReconcileResultView,
) -> bool {
    let moving = LocalProjectView { state: "RECONCILING"@, ..on_branch(p, events, h) };
    &&& 0 <= h.moved < events.len()
    &&& converge_asked(p, events, h.moved) is Move
    &&& converge_asked(p, events, h.moved)->Move_0 == p.local_path
    &&& move_due(p, events, h, converge_asked(p, events, h.moved)->Move_1)
    &&& converge_asked(p, events, h.moved)->Move_2 == wanted(p, events, h)
    &&& events[h.moved] == ConvergeEventView::Moved(r)
    &&& r.outcome == "applied"@ ==> now == (LocalProjectView {
        state: "CURRENT"@,
        conflict: None,
        last_applied_heads: p.last_applied_heads.insert(
            branch_in(events[h.branch]),
            wanted(p, events, h),
        ),
        workspace_generation: (p.workspace_generation + 1) as u64,
        ..moving
    })
    &&& r.outcome == "conflict"@ ==> now == (LocalProjectView {
        state: "CONFLICTED"@,
        conflict: Some(
            ConflictView {
                kind: "reconciliation"@,
                detail: match r.detail {
                    Some(detail) => detail,
                    None => "reconciliation conflict"@,
                },
                paths: r.paths,
            },
        ),
        ..moving
    })
    &&& r.outcome != "applied"@ && r.outcome != "conflict"@ ==> now == moving
}

/// Why a project cannot go on: its worktree is on no branch, or a step failed.
pub open spec fn converge_fault(
    p: LocalProjectView,
    events: Seq<ConvergeEventView>,
    h: ConvergeTrail,
    message: Seq<char>,
) -> bool {
    &&& 0 <= h.fault < events.len()
    &&& {
        ||| events[h.fault] == ConvergeEventView::Failed(message)
        ||| {
            &&& converge_asked(p, events, h.fault) == ConvergeActionView::Branch(p.local_path)
            &&& events[h.fault] == ConvergeEventView::Branch(None)
            &&& message == "detached or unborn HEAD is unsupported in RepoSync V1"@
        }
    }
}

/// A project that is over with a result.
pub open spec fn converge_ended(
    p: LocalProjectView,
    events: Seq<ConvergeEventView>,
    h: ConvergeTrail,
    now: LocalProjectView,
    r: ReconcileResultView,
) -> bool {
    ||| r == (ReconcileResultView {
        outcome: "current"@,
        transaction_id: None,
        recovery_ref: None,
        head: None,
        old_head: None,
        new_head: None,
        changed_paths: Seq::empty(),
        detail: None,
        paths: Seq::empty(),
    }) && ended_as_current(p, events, h, now)
    ||| ended_as_diverged(p, events, h, now, r)
    ||| ended_as_moved(p, events, h, now, r)
}

spec fn converge_faithful(
    p: LocalProjectView,
    events: Seq<ConvergeEventView>,
    h: ConvergeTrail,
) -> bool {
    let s = converge_replayed(converge_start(p), events);
    &&& s.stage is Branch ==> s.project == p
    &&& s.stage is Capture ==> branch_found(p, events, h.branch)
        && p.advertised_heads.contains_key(branch_in(events[h.branch]))
    &&& s.stage is Capture || s.stage is Behind || s.stage is Ahead ==> s.project == on_branch(
        p,
        events,
        h,
    )
    &&& s.stage is Capture || s.stage is Behind || s.stage is Ahead || s.stage is Move
        ==> s.branch == branch_in(events[h.branch]) && s.target == wanted(p, events, h)
    &&& s.stage is Behind || s.stage is Ahead || s.stage is Move ==> s.head == head_in(
        events[h.captured],
    ) && head_captured(p, events, h, h.captured) && s.head != s.target
    &&& s.stage is Ahead ==> behind_asked(p, events, h, h.behind)
        && events[h.behind]->Ran_0.code != 0
    &&& s.stage is Move ==> move_due(p, events, h, s.previous) && s.project == (LocalProjectView {
        state: "RECONCILING"@,
        ..on_branch(p, events, h)
    })
    &&& s.stage !is Done ==> s.failure is None
    &&& s.stage is Done && s.failure is None ==> converge_ended(
        p,
        events,
        h,
        s.project,
        s.outcome,
    )
    &&& s.failure is Some ==> converge_fault(p, events, h, s.failure->0)
}

spec fn converge_noticed(h: ConvergeTrail, s: ConvergeView, last: int) -> ConvergeTrail {
    match s.stage {
        ConvergeStage::Branch => ConvergeTrail { branch: last, fault: last, ..h },
        ConvergeStage::Capture => ConvergeTrail { captured: last, fault: last, ..h },
        ConvergeStage::Behind => ConvergeTrail { behind: last, fault: last, ..h },
        ConvergeStage::Ahead => ConvergeTrail { ahead: last, fault: last, ..h },
        ConvergeStage::Move => ConvergeTrail { moved: last, fault: last, ..h },
        ConvergeStage::Done => h,
    }
}

proof fn lemma_converge_faithful(
    p: LocalProjectView,
    events: Seq<ConvergeEventView>,
) -> (h: ConvergeTrail)
    ensures
        converge_faithful(p, events, h),
    decreases events.len(),
{
    if events.len() == 0 {
        arbitrary()
    } else {
        let before = events.drop_last();
        let was = converge_replayed(converge_start(p), before);
        let last = events.len() - 1;
        let h = lemma_converge_faithful(p, before);
        let r = converge_noticed(h, was, last);
        assert forall|i: int| 0 <= i < before.len() implies #[trigger] converge_asked(
            p,
            before,
            i,
        ) == converge_asked(p, events, i) && before[i] == events[i] by {
            reveal(converge_asked);
            assert(before.take(i) =~= events.take(i));
        }
        assert(events.take(last) =~= before);
        assert(converge_asked(p, events, last) == converge_requested(was)) by {
            reveal(converge_asked);
        }
        assert(converge_replayed(converge_start(p), events) == converge_next(was, events[last]));
        if was.stage is Done {
            assert(converge_faithful(p, events, r)) by {
                reveal(converge_next);
            }
        } else if was.stage is Branch {
            assert(converge_faithful(p, events, r)) by {
                reveal(converge_next);
            }
        } else if was.stage is Capture {
            assert(converge_faithful(p, events, r)) by {
                reveal(converge_next);
            }
        } else if was.stage is Behind {
            assert(converge_faithful(p, events, r)) by {
                reveal(converge_next);
            }
        } else if was.stage is Ahead {
            assert(converge_faithful(p, events, r)) by {
                reveal(converge_next);
            }
        } else {
            assert("applied"@.len() != "conflict"@.len()) by {
                reveal_strlit("applied");
                reveal_strlit("conflict");
            }
            assert(converge_faithful(p, events, r)) by {
                reveal(converge_next);
            }
        }
        r
    }
}

/// A project ends as current only where it is on a branch that the remote does not have, where the
/// captured commit is the one that the remote has, or where Git said, when asked whether the commit
/// of the remote is an ancestor of the captured one, that it is. It ends as diverged only where Git
/// said that neither is an ancestor of the other. Every other result is that of a move to the
/// commit of the remote.
pub proof fn law_projects_end_for_reasons(p: LocalProjectView, events: Seq<ConvergeEventView>)
    requires
        converge_requested(converge_replayed(converge_start(p), events)) is Return,
    ensures
        exists|h: ConvergeTrail| #[trigger]
            converge_ended(
                p,
                events,
                h,
                converge_replayed(converge_start(p), events).project,
                converge_requested(converge_replayed(converge_start(p), events))->Return_0,
            ),
{
    let h = lemma_converge_faithful(p, events);
    let s = converge_replayed(converge_start(p), events);
    assert(converge_ended(p, events, h, s.project, s.outcome));
}

/// A move of the worktree is asked for only where Git said that the commit of the remote is no
/// ancestor of the captured one, and it goes to that commit: from the commit applied last, or else
/// from the captured commit, of which Git said that it is an ancestor of the other.
pub proof fn law_moves_are_due(p: LocalProjectView, events: Seq<ConvergeEventView>)
    requires
        converge_requested(converge_replayed(converge_start(p), events)) is Move,
    ensures
        exists|h: ConvergeTrail|
            #[trigger] move_due(
                p,
                events,
                h,
                converge_requested(converge_replayed(converge_start(p), events))->Move_1,
            ) && converge_requested(converge_replayed(converge_start(p), events))->Move_0
                == p.local_path && converge_requested(
                converge_replayed(converge_start(p), events),
            )->Move_2 == wanted(p, events, h),
{
    let h = lemma_converge_faithful(p, events);
    let s = converge_replayed(converge_start(p), events);
    assert(converge_requested(s) == ConvergeActionView::Move(
        p.local_path,
        s.previous,
        wanted(p, events, h),
    ));
    assert(move_due(p, events, h, converge_requested(s)->Move_1));
}

/// A project fails only where its worktree is on no branch, or where a step failed.
pub proof fn law_projects_fail_for_reasons(p: LocalProjectView, events: Seq<ConvergeEventView>)
    requires
        converge_requested(converge_replayed(converge_start(p), events)) is Fail,
    ensures
        exists|h: ConvergeTrail| #[trigger]
            converge_fault(
                p,
                events,
                h,
                converge_requested(converge_replayed(converge_start(p), events))->Fail_0,
            ),
{
    let h = lemma_converge_faithful(p, events);
    let s = converge_replayed(converge_start(p), events);
    assert(converge_requested(s) == ConvergeActionView::Fail(s.failure->0));
    assert(converge_fault(p, events, h, converge_requested(s)->Fail_0));
}

/// Every answer takes a project to another stage.
pub proof fn law_projects_go_on(s: ConvergeView, e: ConvergeEventView)
    requires
        match converge_requested(s) {
            ConvergeActionView::Branch(_) => e is Branch || e is Failed,
            ConvergeActionView::Capture(_) => e is Captured || e is Failed,
            ConvergeActionView::Git(_) => e is Ran || e is Failed,
            ConvergeActionView::Move(_, _, _) => e is Moved || e is Failed,
            _ => false,
        },
    ensures
        converge_next(s, e).stage != s.stage,
{
    reveal(converge_next);
}

} // verus!
