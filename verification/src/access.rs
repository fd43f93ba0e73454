//! How a participant gets access to a project.
use vstd::prelude::*;
use crate::converge;
use crate::daemon;
use crate::text;
use crate::converge::simple_outcome;
use crate::daemon::{
    grant_access, reconciliation_mode, should_reconcile, AccessGrant, AccessGrantView,
};
use crate::state::{LocalProject, LocalProjectView};
use crate::transaction::{ReconcileResult, ReconcileResultView};

verus! {

/// What is done next.
#[derive(Debug, Clone, Copy, PartialEq, Eq, Structural)]
pub enum AccessStage {
    /// Follow the worktree to the branch that it is on.
    Branch,
    /// See whether the project is behind.
    State,
    /// Move the worktree.
    Move,
    /// See whether the project is in conflict.
    Mode,
    /// Get a lease.
    Lease,
    /// Note which project the lease is on.
    Record,
    /// See what the participant gets to see.
    Describe,
    Finished,
}

/// A request for access to a project.
#[derive(Debug)]
pub struct Access {
    pub stage: AccessStage,
    pub project_id: String,
    /// What came of the move.
    pub moved: ReconcileResult,
    /// Whether the project was in conflict when that was looked at.
    pub mode: bool,
    pub lease: Option<String>,
    pub grant: Option<AccessGrant>,
    pub failure: Option<String>,
}

/// What an [`Access`] holds.
#[verifier::ext_equal]
pub struct AccessView {
    pub stage: AccessStage,
    pub project_id: Seq<char>,
    pub moved: ReconcileResultView,
    pub mode: bool,
    pub lease: Option<Seq<char>>,
    pub grant: Option<AccessGrantView>,
    pub failure: Option<Seq<char>>,
}

impl View for Access {
    type V = AccessView;

    open spec fn view(&self) -> AccessView {
        AccessView {
            stage: self.stage,
            project_id: self.project_id@,
            moved: self.moved@,
            mode: self.mode,
            lease: text::opt_view(self.lease),
            grant: match self.grant {
                Some(grant) => Some(grant@),
                None => None,
            },
            failure: text::opt_view(self.failure),
        }
    }
}

/// What is to be done.
#[derive(Debug)]
pub enum AccessAction {
    /// Follow the worktree of this project to the branch that it is on.
    Follow(String),
    /// Look at this project.
    Look(String),
    /// Move the worktree of this project, alone.
    Move(String),
    /// Get a lease on this project.
    Lease(String),
    /// Note that a lease is on this project: first the project, then the lease.
    Record(String, String),
    /// Look at this project, and at the commit that its worktree is on.
    Describe(String),
    /// Access is granted.
    Return(AccessGrant),
    /// Access is not granted, for this reason.
    Fail(String),
}

/// What an [`AccessAction`] holds.
pub enum AccessActionView {
    Follow(Seq<char>),
    Look(Seq<char>),
    Move(Seq<char>),
    Lease(Seq<char>),
    Record(Seq<char>, Seq<char>),
    Describe(Seq<char>),
    Return(AccessGrantView),
    Fail(Seq<char>),
}

impl View for AccessAction {
    type V = AccessActionView;

    open spec fn view(&self) -> AccessActionView {
        match *self {
            AccessAction::Follow(id) => AccessActionView::Follow(id@),
            AccessAction::Look(id) => AccessActionView::Look(id@),
            AccessAction::Move(id) => AccessActionView::Move(id@),
            AccessAction::Lease(id) => AccessActionView::Lease(id@),
            AccessAction::Record(id, lease) => AccessActionView::Record(id@, lease@),
            AccessAction::Describe(id) => AccessActionView::Describe(id@),
            AccessAction::Return(grant) => AccessActionView::Return(grant@),
            AccessAction::Fail(reason) => AccessActionView::Fail(reason@),
        }
    }
}

/// What came of a step.
#[derive(Debug)]
pub enum AccessEvent {
    /// What was asked for is done.
    Did,
    /// The project as it is.
    Project(LocalProject),
    /// The worktree was moved, with this result.
    Moved(ReconcileResult),
    /// A lease with this identifier is there.
    Leased(String),
    /// The project as it is, and the commit that its worktree is on.
    Described(LocalProject, String),
    /// The step failed, for this reason.
    Failed(String),
}

/// What an [`AccessEvent`] holds.
pub enum AccessEventView {
    Did,
    Project(LocalProjectView),
    Moved(ReconcileResultView),
    Leased(Seq<char>),
    Described(LocalProjectView, Seq<char>),
    Failed(Seq<char>),
}

impl View for AccessEvent {
    type V = AccessEventView;

    open spec fn view(&self) -> AccessEventView {
        match *self {
            AccessEvent::Did => AccessEventView::Did,
            AccessEvent::Project(project) => AccessEventView::Project(project@),
            AccessEvent::Moved(result) => AccessEventView::Moved(result@),
            AccessEvent::Leased(lease) => AccessEventView::Leased(lease@),
            AccessEvent::Described(project, head) => AccessEventView::Described(project@, head@),
            AccessEvent::Failed(reason) => AccessEventView::Failed(reason@),
        }
    }
}

/// A request for access at its start.
pub open spec fn access_start(project_id: Seq<char>) -> AccessView {
    AccessView {
        stage: AccessStage::Branch,
        project_id,
        moved: converge::simple_result("deferred"@),
        mode: false,
        lease: None,
        grant: None,
        failure: None,
    }
}

/// What is to be done next.
pub open spec fn access_requested(s: AccessView) -> AccessActionView {
    match s.stage {
        AccessStage::Branch => AccessActionView::Follow(s.project_id),
        AccessStage::State | AccessStage::Mode => AccessActionView::Look(s.project_id),
        AccessStage::Move => AccessActionView::Move(s.project_id),
        AccessStage::Lease => AccessActionView::Lease(s.project_id),
        AccessStage::Record => AccessActionView::Record(s.project_id, s.lease->0),
        AccessStage::Describe => AccessActionView::Describe(s.project_id),
        AccessStage::Finished => match s.grant {
            Some(grant) => AccessActionView::Return(grant),
            None => AccessActionView::Fail(s.failure->0),
        },
    }
}

/// What holds after a step. A project that is behind is moved first; a lease is asked for only
/// where the project is not in conflict then.
pub open spec fn accessed(s: AccessView, e: AccessEventView) -> AccessView {
    match (s.stage, e) {
        (AccessStage::Finished, _) => s,
        (_, AccessEventView::Failed(reason)) => AccessView {
            stage: AccessStage::Finished,
            failure: Some(reason),
            ..s
        },
        (AccessStage::Branch, AccessEventView::Did) => AccessView { stage: AccessStage::State, ..s },
        (AccessStage::State, AccessEventView::Project(p)) => AccessView {
            stage: if daemon::is_behind(p.state) {
                AccessStage::Move
            } else {
                AccessStage::Mode
            },
            ..s
        },
        (AccessStage::Move, AccessEventView::Moved(result)) => AccessView {
            stage: AccessStage::Mode,
            moved: result,
            ..s
        },
        (AccessStage::Mode, AccessEventView::Project(p)) => if p.state == "CONFLICTED"@ {
            AccessView { stage: AccessStage::Describe, mode: true, ..s }
        } else {
            AccessView { stage: AccessStage::Lease, ..s }
        },
        (AccessStage::Lease, AccessEventView::Leased(lease)) => AccessView {
            stage: AccessStage::Record,
            lease: Some(lease),
            ..s
        },
        (AccessStage::Record, AccessEventView::Did) => AccessView {
            stage: AccessStage::Describe,
            ..s
        },
        (AccessStage::Describe, AccessEventView::Described(p, head)) => AccessView {
            stage: AccessStage::Finished,
            grant: Some(daemon::granted(p, s.lease, head, s.moved)),
            ..s
        },
        _ => s,
    }
}

/// Before it is known whether the project is in conflict.
pub open spec fn is_early(stage: AccessStage) -> bool {
    stage == AccessStage::Branch || stage == AccessStage::State || stage == AccessStage::Move || stage
        == AccessStage::Mode
}

/// What holds of every request for access: there is a lease exactly where the project was not in
/// conflict, once that is settled.
pub open spec fn access_valid(s: AccessView) -> bool {
    &&& is_early(s.stage) ==> !s.mode && s.lease is None
    &&& s.stage == AccessStage::Lease ==> !s.mode && s.lease is None
    &&& s.stage == AccessStage::Record ==> !s.mode && s.lease is Some
    &&& s.stage == AccessStage::Describe || s.grant is Some ==> (s.lease is None <==> s.mode)
    &&& s.grant matches Some(grant) ==> {
        &&& s.stage == AccessStage::Finished
        &&& grant.granted
        &&& grant.lease_id == s.lease
        &&& grant.reconciliation_mode == s.mode
        &&& grant.applied == (s.moved.outcome == "applied"@)
    }
    &&& s.stage == AccessStage::Finished ==> s.grant is Some || s.failure is Some
}

impl Access {
    /// A request for access to a project.
    pub fn new(project_id: &str) -> (r: Self)
        ensures
            r@ == access_start(project_id@),
            access_valid(r@),
    {
        Access {
            stage: AccessStage::Branch,
            project_id: project_id.to_owned(),
            moved: simple_outcome("deferred"),
            mode: false,
            lease: None,
            grant: None,
            failure: None,
        }
    }

    /// What is to be done next.
    pub fn request(&self) -> (r: AccessAction)
        requires
            access_valid(self@),
        ensures
            r@ == access_requested(self@),
    {
        let id = self.project_id.clone();
        match self.stage {
            AccessStage::Branch => AccessAction::Follow(id),
            AccessStage::State | AccessStage::Mode => AccessAction::Look(id),
            AccessStage::Move => AccessAction::Move(id),
            AccessStage::Lease => AccessAction::Lease(id),
            AccessStage::Record => match &self.lease {
                Some(lease) => AccessAction::Record(id, lease.clone()),
                None => AccessAction::Fail(id),
            },
            AccessStage::Describe => AccessAction::Describe(id),
            AccessStage::Finished => match &self.grant {
                Some(grant) => AccessAction::Return(grant.copy()),
                None => match &self.failure {
                    Some(reason) => AccessAction::Fail(reason.clone()),
                    None => AccessAction::Fail(id),
                },
            },
        }
    }

    /// Takes what came of the step that was asked for.
    pub fn advance(&mut self, event: AccessEvent)
        requires
            access_valid(old(self)@),
        ensures
            final(self)@ == accessed(old(self)@, event@),
            access_valid(final(self)@),
    {
        match event {
            AccessEvent::Failed(reason) => {
                if self.stage != AccessStage::Finished {
                    self.failure = Some(reason);
                    self.stage = AccessStage::Finished;
                }
            },
            AccessEvent::Did => {
                if self.stage == AccessStage::Branch {
                    self.stage = AccessStage::State;
                } else if self.stage == AccessStage::Record {
                    self.stage = AccessStage::Describe;
                }
            },
            AccessEvent::Project(project) => {
                if self.stage == AccessStage::State {
                    if should_reconcile(&project) {
                        self.stage = AccessStage::Move;
                    } else {
                        self.stage = AccessStage::Mode;
                    }
                } else if self.stage == AccessStage::Mode {
                    if reconciliation_mode(&project) {
                        self.mode = true;
                        self.stage = AccessStage::Describe;
                    } else {
                        self.stage = AccessStage::Lease;
                    }
                }
            },
            AccessEvent::Moved(result) => {
                if self.stage == AccessStage::Move {
                    self.moved = result;
                    self.stage = AccessStage::Mode;
                }
            },
            AccessEvent::Leased(lease) => {
                if self.stage == AccessStage::Lease {
                    self.lease = Some(lease);
                    self.stage = AccessStage::Record;
                }
            },
            AccessEvent::Described(project, head) => {
                if self.stage == AccessStage::Describe {
                    self.grant = Some(
                        grant_access(&project, &self.lease, head.as_str(), &self.moved),
                    );
                    self.stage = AccessStage::Finished;
                }
            },
        }
    }
}

/// What holds after a number of steps.
pub open spec fn access_replayed(s: AccessView, events: Seq<AccessEventView>) -> AccessView
    decreases events.len(),
{
    if events.len() == 0 {
        s
    } else {
        accessed(access_replayed(s, events.drop_last()), events.last())
    }
}

/// At event `j` the project was looked at after a due move; it was in conflict or not.
pub open spec fn sampled_at(
    s: AccessView,
    events: Seq<AccessEventView>,
    j: int,
    conflicted: bool,
) -> bool {
    &&& 0 <= j < events.len()
    &&& access_replayed(s, events.take(j)).stage == AccessStage::Mode
    &&& events[j] matches AccessEventView::Project(p)
    &&& conflicted == (p.state == "CONFLICTED"@)
}

/// At event `j` it was noted that a lease is on the project.
pub open spec fn recorded_at(
    s: AccessView,
    events: Seq<AccessEventView>,
    j: int,
    lease: Seq<char>,
) -> bool {
    &&& 0 <= j < events.len()
    &&& access_requested(access_replayed(s, events.take(j))) == AccessActionView::Record(
        s.project_id,
        lease,
    )
    &&& events[j] is Did
}

/// At event `j` the worktree was moved with a result.
pub open spec fn moved_at(
    s: AccessView,
    events: Seq<AccessEventView>,
    j: int,
    result: ReconcileResultView,
) -> bool {
    &&& 0 <= j < events.len()
    &&& access_replayed(s, events.take(j)).stage == AccessStage::Move
    &&& events[j] == AccessEventView::Moved(result)
}

/// Whether a lease is asked for, or noted.
pub open spec fn is_leasing(action: AccessActionView) -> bool {
    action is Lease || action is Record
}

proof fn lemma_earlier(s: AccessView, events: Seq<AccessEventView>, j: int)
    requires
        events.len() > 0,
        0 <= j < events.len(),
    ensures
        events.take(j) == events.drop_last().take(j),
        j < events.len() - 1 ==> events[j] == events.drop_last()[j],
{
    assert(events.take(j) =~= events.drop_last().take(j));
}

/// What is known of a request for access from the steps that it took.
proof fn lemma_access(project_id: Seq<char>, events: Seq<AccessEventView>)
    ensures
        ({
            let s = access_start(project_id);
            let now = access_replayed(s, events);
            &&& access_valid(now)
            &&& now.project_id == project_id
            &&& is_early(now.stage) || now.failure is Some || exists|j: int| #[trigger]
                sampled_at(s, events, j, now.mode)
            &&& is_early(now.stage) || now.mode ==> forall|i: int|
                0 <= i <= events.len() ==> !is_leasing(
                    access_requested(#[trigger] access_replayed(s, events.take(i))),
                )
            &&& (now.stage == AccessStage::Describe || now.grant is Some) && !now.mode
                ==> exists|j: int| #[trigger] recorded_at(s, events, j, now.lease->0)
        }),
    decreases events.len(),
{
    let s = access_start(project_id);
    let now = access_replayed(s, events);
    assert(events.take(events.len() as int) =~= events);
    if events.len() > 0 {
        let before = events.drop_last();
        let was = access_replayed(s, before);
        let last = events.len() - 1;
        lemma_access(project_id, before);
        assert(events.take(last) =~= before);
        if !(is_early(now.stage) || now.failure is Some) {
            if was.stage == AccessStage::Mode {
                assert(sampled_at(s, events, last, now.mode));
            } else {
                let j = choose|j: int| #[trigger] sampled_at(s, before, j, was.mode);
                lemma_earlier(s, events, j);
                assert(sampled_at(s, events, j, now.mode));
            }
        }
        if is_early(now.stage) || now.mode {
            assert forall|i: int| 0 <= i <= events.len() implies !is_leasing(
                access_requested(#[trigger] access_replayed(s, events.take(i))),
            ) by {
                if i < events.len() {
                    lemma_earlier(s, events, i);
                    assert(!is_leasing(access_requested(access_replayed(s, before.take(i)))));
                }
            }
        }
        if (now.stage == AccessStage::Describe || now.grant is Some) && !now.mode {
            if was.stage == AccessStage::Record {
                assert(recorded_at(s, events, last, now.lease->0));
            } else {
                let j = choose|j: int| #[trigger] recorded_at(s, before, j, was.lease->0);
                lemma_earlier(s, events, j);
                assert(recorded_at(s, events, j, now.lease->0));
            }
        }
    } else {
        assert forall|i: int| 0 <= i <= events.len() implies !is_leasing(
            access_requested(#[trigger] access_replayed(s, events.take(i))),
        ) by {
            assert(events.take(i) =~= events);
        }
    }
}

/// Access is granted without a lease exactly where the project was in conflict after a due move, and
/// says so; then no lease was asked for. Else the lease was noted as one on this project.
pub proof fn law_conflicted_access_is_unleased(
    project_id: Seq<char>,
    events: Seq<AccessEventView>,
    grant: AccessGrantView,
)
    requires
        access_requested(access_replayed(access_start(project_id), events))
            == AccessActionView::Return(grant),
    ensures
        grant.granted,
        grant.lease_id is None <==> grant.reconciliation_mode,
        exists|j: int| #[trigger]
            sampled_at(access_start(project_id), events, j, grant.reconciliation_mode),
        grant.reconciliation_mode ==> forall|i: int|
            0 <= i <= events.len() ==> !is_leasing(
                access_requested(
                    #[trigger] access_replayed(access_start(project_id), events.take(i)),
                ),
            ),
        grant.lease_id matches Some(lease) ==> exists|j: int| #[trigger]
            recorded_at(access_start(project_id), events, j, lease),
{
    lemma_access(project_id, events);
    lemma_no_failure(access_start(project_id), events);
}

/// What was granted did not fail before.
proof fn lemma_no_failure(s: AccessView, events: Seq<AccessEventView>)
    requires
        s.failure is None,
        s.grant is None,
        s.stage != AccessStage::Finished,
    ensures
        access_replayed(s, events).grant is Some ==> access_replayed(s, events).failure is None,
        access_replayed(s, events).failure is Some ==> access_replayed(s, events).stage
            == AccessStage::Finished,
        access_replayed(s, events).grant is Some ==> access_replayed(s, events).stage
            == AccessStage::Finished,
    decreases events.len(),
{
    if events.len() > 0 {
        lemma_no_failure(s, events.drop_last());
    }
}

/// A grant says that the worktree was advanced exactly where this request moved it with that result.
pub proof fn law_applied_access_was_moved(
    project_id: Seq<char>,
    events: Seq<AccessEventView>,
    grant: AccessGrantView,
)
    requires
        access_requested(access_replayed(access_start(project_id), events))
            == AccessActionView::Return(grant),
    ensures
        grant.applied <==> exists|j: int, result: ReconcileResultView| #[trigger]
            moved_at(access_start(project_id), events, j, result) && result.outcome == "applied"@,
{
    let s = access_start(project_id);
    lemma_access(project_id, events);
    lemma_moved(project_id, events);
    reveal_strlit("deferred");
    reveal_strlit("applied");
    assert("deferred"@.len() != "applied"@.len());
}

proof fn lemma_moved(project_id: Seq<char>, events: Seq<AccessEventView>)
    ensures
        ({
            let s = access_start(project_id);
            let now = access_replayed(s, events);
            &&& (now.stage == AccessStage::Branch || now.stage == AccessStage::State || now.stage
                == AccessStage::Move) ==> now.moved == s.moved && forall|j: int,
                result: ReconcileResultView| !#[trigger] moved_at(s, events, j, result)
            &&& forall|j: int, result: ReconcileResultView| #[trigger]
                moved_at(s, events, j, result) ==> result == now.moved
            &&& now.moved == s.moved || exists|j: int| #[trigger]
                moved_at(s, events, j, now.moved)
        }),
    decreases events.len(),
{
    let s = access_start(project_id);
    let now = access_replayed(s, events);
    if events.len() > 0 {
        let before = events.drop_last();
        let was = access_replayed(s, before);
        let last = events.len() - 1;
        lemma_moved(project_id, before);
        assert(events.take(last) =~= before);
        assert forall|j: int, result: ReconcileResultView| #[trigger]
            moved_at(s, events, j, result) implies result == now.moved && !(now.stage
            == AccessStage::Branch || now.stage == AccessStage::State || now.stage
            == AccessStage::Move) by {
            if j < last {
                lemma_earlier(s, events, j);
                assert(moved_at(s, before, j, result));
            }
        }
        if was.stage == AccessStage::Move && events.last() is Moved {
            assert(moved_at(s, events, last, now.moved));
        } else if was.moved != s.moved {
            let j = choose|j: int| #[trigger] moved_at(s, before, j, was.moved);
            lemma_earlier(s, events, j);
            assert(moved_at(s, events, j, now.moved));
        }
    }
}

} // verus!
