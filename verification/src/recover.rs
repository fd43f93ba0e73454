//! The recovery of a transaction that was cut short.
use vstd::prelude::*;
use crate::paths;
use crate::text;
use crate::transaction;
use crate::git_state::{WorkspaceSnapshot, WorkspaceSnapshotView};
use crate::process::{GitCall, GitCallView};
use crate::transaction::{
    decide_recovery, finalize_recovered_transaction, Recovery, Settlement, Transaction,
    TransactionRetention, TransactionView,
};

verus! {

/// What is done next.
#[derive(Debug, Clone, Copy, PartialEq, Eq, Structural)]
pub enum RecoverStage {
    /// Capture the worktree.
    Capture,
    /// Put the working tree of the snapshot back.
    Reset,
    /// Put the index of the snapshot back.
    Index,
    /// Read the clock.
    Stamp,
    /// Settle the record.
    Settle,
    Finished,
}

/// A recovery.
#[derive(Debug)]
pub struct Recover {
    pub stage: RecoverStage,
    /// Where the record was found.
    pub path: String,
    pub transaction: Transaction,
    pub retention: TransactionRetention,
    /// What was decided.
    pub what: Recovery,
    pub failure: Option<String>,
}

/// What a [`Recover`] holds.
#[verifier::ext_equal]
pub struct RecoverView {
    pub stage: RecoverStage,
    pub path: Seq<char>,
    pub transaction: TransactionView,
    pub retention: TransactionRetention,
    pub what: Recovery,
    pub failure: Option<Seq<char>>,
}

impl View for Recover {
    type V = RecoverView;

    open spec fn view(&self) -> RecoverView {
        RecoverView {
            stage: self.stage,
            path: self.path@,
            transaction: self.transaction@,
            retention: self.retention,
            what: self.what,
            failure: text::opt_view(self.failure),
        }
    }
}

/// What is to be done.
#[derive(Debug)]
pub enum RecoverAction {
    /// Capture the worktree at this path.
    Capture(String),
    /// Run a command, which must succeed.
    Git(GitCall),
    /// Read the clock.
    Clock,
    /// Write the record and prune the debug history.
    Keep(Transaction),
    /// Delete the recovery refs and the record.
    Remove(Transaction),
    /// The recovery is over: this is the transaction.
    Return(Transaction),
    /// The recovery failed, for this reason.
    Fail(String),
}

/// What a [`RecoverAction`] holds.
pub enum RecoverActionView {
    Capture(Seq<char>),
    Git(GitCallView),
    Clock,
    Keep(TransactionView),
    Remove(TransactionView),
    Return(TransactionView),
    Fail(Seq<char>),
}

impl View for RecoverAction {
    type V = RecoverActionView;

    open spec fn view(&self) -> RecoverActionView {
        match *self {
            RecoverAction::Capture(path) => RecoverActionView::Capture(path@),
            RecoverAction::Git(call) => RecoverActionView::Git(call@),
            RecoverAction::Clock => RecoverActionView::Clock,
            RecoverAction::Keep(t) => RecoverActionView::Keep(t@),
            RecoverAction::Remove(t) => RecoverActionView::Remove(t@),
            RecoverAction::Return(t) => RecoverActionView::Return(t@),
            RecoverAction::Fail(reason) => RecoverActionView::Fail(reason@),
        }
    }
}

/// What came of a step.
#[derive(Debug)]
pub enum RecoverEvent {
    Captured(WorkspaceSnapshot),
    Clock(String),
    /// What was asked for is done.
    Did,
    Failed(String),
}

/// What a [`RecoverEvent`] holds.
pub enum RecoverEventView {
    Captured(WorkspaceSnapshotView),
    Clock(Seq<char>),
    Did,
    Failed(Seq<char>),
}

impl View for RecoverEvent {
    type V = RecoverEventView;

    open spec fn view(&self) -> RecoverEventView {
        match *self {
            RecoverEvent::Captured(snapshot) => RecoverEventView::Captured(snapshot@),
            RecoverEvent::Clock(now) => RecoverEventView::Clock(now@),
            RecoverEvent::Did => RecoverEventView::Did,
            RecoverEvent::Failed(reason) => RecoverEventView::Failed(reason@),
        }
    }
}

/// What is said of a transaction that cannot be recovered.
pub open spec fn refusal_text(path: Seq<char>, t: TransactionView) -> Seq<char> {
    if t.phase != "INSTALLING"@ {
        "unknown transaction phase "@ + t.phase
    } else if t.candidate is None {
        "installing transaction has no candidate"@
    } else {
        "transaction "@ + (match paths::last_name(path) {
            Some(name) => name,
            None => Seq::empty(),
        }) + " needs manual recovery; HEAD matches neither preserved state"@
    }
}

/// A recovery once it is decided what is to be done.
pub open spec fn recover_decided(s: RecoverView, what: Option<Recovery>) -> RecoverView {
    match what {
        None => RecoverView {
            stage: RecoverStage::Finished,
            failure: Some(refusal_text(s.path, s.transaction)),
            ..s
        },
        Some(what) => RecoverView {
            stage: match what {
                Recovery::Leave => RecoverStage::Finished,
                Recovery::Finalize => RecoverStage::Settle,
                Recovery::Inspect => RecoverStage::Capture,
                Recovery::Complete => RecoverStage::Stamp,
                Recovery::RollBack => RecoverStage::Reset,
            },
            what,
            ..s
        },
    }
}

/// A recovery at its start.
pub open spec fn recover_start(
    path: Seq<char>,
    t: TransactionView,
    retention: TransactionRetention,
) -> RecoverView {
    recover_decided(
        RecoverView {
            stage: RecoverStage::Finished,
            path,
            transaction: t,
            retention,
            what: Recovery::Leave,
            failure: None,
        },
        transaction::recovery(t, None),
    )
}

/// What is to be done next.
pub open spec fn recover_requested(s: RecoverView) -> RecoverActionView {
    let t = s.transaction;
    match s.stage {
        RecoverStage::Capture => RecoverActionView::Capture(t.project_path),
        RecoverStage::Reset => RecoverActionView::Git(transaction::rollback_calls(t)[0]),
        RecoverStage::Index => RecoverActionView::Git(transaction::rollback_calls(t)[1]),
        RecoverStage::Stamp => RecoverActionView::Clock,
        RecoverStage::Settle => if s.retention.debug_history {
            RecoverActionView::Keep(t)
        } else {
            RecoverActionView::Remove(t)
        },
        RecoverStage::Finished => match s.failure {
            Some(reason) => RecoverActionView::Fail(reason),
            None => RecoverActionView::Return(t),
        },
    }
}

/// What holds after a step.
pub open spec fn recovered_after(s: RecoverView, e: RecoverEventView) -> RecoverView {
    match (s.stage, e) {
        (RecoverStage::Finished, _) => s,
        (_, RecoverEventView::Failed(reason)) => RecoverView {
            stage: RecoverStage::Finished,
            failure: Some(reason),
            ..s
        },
        (RecoverStage::Capture, RecoverEventView::Captured(current)) => recover_decided(
            s,
            transaction::recovery(s.transaction, Some(current)),
        ),
        (RecoverStage::Reset, RecoverEventView::Did) => RecoverView {
            stage: RecoverStage::Index,
            ..s
        },
        (RecoverStage::Index, RecoverEventView::Did) => RecoverView {
            stage: RecoverStage::Stamp,
            ..s
        },
        (RecoverStage::Stamp, RecoverEventView::Clock(now)) => RecoverView {
            stage: RecoverStage::Settle,
            transaction: transaction::marked(s.transaction, s.what, now),
            ..s
        },
        (RecoverStage::Settle, RecoverEventView::Did) => RecoverView {
            stage: RecoverStage::Finished,
            ..s
        },
        _ => s,
    }
}

/// What was decided, at the stages that follow a decision.
pub open spec fn recover_consistent(s: RecoverView) -> bool {
    &&& s.stage == RecoverStage::Stamp ==> s.what == Recovery::Complete || s.what
        == Recovery::RollBack
    &&& s.stage == RecoverStage::Reset || s.stage == RecoverStage::Index ==> s.what
        == Recovery::RollBack
}

/// Starts the recovery of the transaction of a record.
pub(crate) fn start(path: &str, transaction: Transaction, retention: TransactionRetention) -> (r:
    Recover)
    ensures
        r@ == recover_start(path@, transaction@, retention),
        recover_consistent(r@),
{
    let mut r = Recover {
        stage: RecoverStage::Finished,
        path: path.to_owned(),
        transaction,
        retention,
        what: Recovery::Leave,
        failure: None,
    };
    let none: Option<WorkspaceSnapshot> = None;
    r.decide(&none);
    r
}

impl Recover {
    fn decide(&mut self, current: &Option<WorkspaceSnapshot>)
        ensures
            final(self)@ == recover_decided(
                old(self)@,
                transaction::recovery(
                    old(self)@.transaction,
                    match *current {
                        Some(snapshot) => Some(snapshot@),
                        None => None,
                    },
                ),
            ),
    {
        match decide_recovery(self.path.as_str(), &self.transaction, current) {
            Ok(what) => {
                self.stage = match what {
                    Recovery::Leave => RecoverStage::Finished,
                    Recovery::Finalize => RecoverStage::Settle,
                    Recovery::Inspect => RecoverStage::Capture,
                    Recovery::Complete => RecoverStage::Stamp,
                    Recovery::RollBack => RecoverStage::Reset,
                };
                self.what = what;
            },
            Err(e) => {
                self.failure = Some(e.message());
                self.stage = RecoverStage::Finished;
            },
        }
    }

    /// What is to be done next.
    pub fn request(&self) -> (r: RecoverAction)
        ensures
            r@ == recover_requested(self@),
    {
        match self.stage {
            RecoverStage::Capture => RecoverAction::Capture(self.transaction.project_path.clone()),
            RecoverStage::Reset => {
                let mut calls = self.transaction.rollback();
                let ghost all = transaction::calls(calls@);
                assert(all.len() == 2 && all.len() == calls.len());
                assert(all[0] == calls@[0]@);
                RecoverAction::Git(calls.remove(0))
            },
            RecoverStage::Index => {
                let mut calls = self.transaction.rollback();
                let ghost all = transaction::calls(calls@);
                assert(all.len() == 2 && all.len() == calls.len());
                assert(all[1] == calls@[1]@);
                RecoverAction::Git(calls.remove(1))
            },
            RecoverStage::Stamp => RecoverAction::Clock,
            RecoverStage::Settle => match finalize_recovered_transaction(self.retention) {
                Settlement::Keep => RecoverAction::Keep(self.transaction.copy()),
                Settlement::Remove => RecoverAction::Remove(self.transaction.copy()),
            },
            RecoverStage::Finished => match &self.failure {
                Some(reason) => RecoverAction::Fail(reason.clone()),
                None => RecoverAction::Return(self.transaction.copy()),
            },
        }
    }

    /// Takes what came of the step that was asked for.
    pub fn advance(&mut self, event: RecoverEvent)
        requires
            recover_consistent(old(self)@),
        ensures
            final(self)@ == recovered_after(old(self)@, event@),
            recover_consistent(final(self)@),
    {
        match event {
            RecoverEvent::Failed(reason) => {
                if self.stage != RecoverStage::Finished {
                    self.failure = Some(reason);
                    self.stage = RecoverStage::Finished;
                }
            },
            RecoverEvent::Captured(snapshot) => {
                if self.stage == RecoverStage::Capture {
                    let current = Some(snapshot);
                    self.decide(&current);
                }
            },
            RecoverEvent::Clock(now) => {
                if self.stage == RecoverStage::Stamp {
                    self.transaction.recovered(self.what, now.as_str());
                    self.stage = RecoverStage::Settle;
                }
            },
            RecoverEvent::Did => match self.stage {
                RecoverStage::Reset => {
                    self.stage = RecoverStage::Index;
                },
                RecoverStage::Index => {
                    self.stage = RecoverStage::Stamp;
                },
                RecoverStage::Settle => {
                    self.stage = RecoverStage::Finished;
                },
                _ => {},
            },
        }
    }
}

/// What holds after a number of steps.
pub open spec fn recover_replayed(s: RecoverView, events: Seq<RecoverEventView>) -> RecoverView
    decreases events.len(),
{
    if events.len() == 0 {
        s
    } else {
        recovered_after(recover_replayed(s, events.drop_last()), events.last())
    }
}

/// At event `j` an action was done.
pub open spec fn recover_did(
    s: RecoverView,
    events: Seq<RecoverEventView>,
    j: int,
    action: RecoverActionView,
) -> bool {
    &&& 0 <= j < events.len()
    &&& recover_requested(recover_replayed(s, events.take(j))) == action
    &&& events[j] is Did
}

/// At events `j` and `k` the working tree and the index of a snapshot were put back.
pub open spec fn rolled_back_at(
    s: RecoverView,
    events: Seq<RecoverEventView>,
    j: int,
    k: int,
) -> bool {
    let calls = transaction::rollback_calls(s.transaction);
    &&& j < k
    &&& recover_did(s, events, j, RecoverActionView::Git(calls[0]))
    &&& recover_did(s, events, k, RecoverActionView::Git(calls[1]))
}

/// At event `m` the transaction was marked, as completed, or as rolled back after its snapshot was
/// put back.
pub open spec fn marked_at(
    s: RecoverView,
    events: Seq<RecoverEventView>,
    m: int,
    t: TransactionView,
) -> bool {
    &&& 0 <= m < events.len()
    &&& recover_requested(recover_replayed(s, events.take(m))) is Clock
    &&& events[m] matches RecoverEventView::Clock(now)
    &&& {
        ||| t == transaction::marked(s.transaction, Recovery::Complete, now)
        ||| t == transaction::marked(s.transaction, Recovery::RollBack, now) && exists|
            j: int,
            k: int,
        | #[trigger] rolled_back_at(s, events, j, k) && k < m
    }
}

proof fn lemma_did_before(
    s: RecoverView,
    events: Seq<RecoverEventView>,
    j: int,
    action: RecoverActionView,
)
    requires
        events.len() > 0,
        recover_did(s, events.drop_last(), j, action),
    ensures
        recover_did(s, events, j, action),
{
    assert(events.drop_last().take(j) =~= events.take(j));
}

proof fn lemma_rolled_back_before(
    s: RecoverView,
    events: Seq<RecoverEventView>,
    j: int,
    k: int,
)
    requires
        events.len() > 0,
        rolled_back_at(s, events.drop_last(), j, k),
    ensures
        rolled_back_at(s, events, j, k),
{
    let calls = transaction::rollback_calls(s.transaction);
    lemma_did_before(s, events, j, RecoverActionView::Git(calls[0]));
    lemma_did_before(s, events, k, RecoverActionView::Git(calls[1]));
}

/// Until it is marked, an interrupted installation stays as it was found.
proof fn lemma_unmarked(
    path: Seq<char>,
    t: TransactionView,
    retention: TransactionRetention,
    events: Seq<RecoverEventView>,
)
    requires
        transaction::recovery(t, None) == Some(Recovery::Inspect),
    ensures
        ({
            let now = recover_replayed(recover_start(path, t, retention), events);
            &&& recover_consistent(now)
            &&& now.stage == RecoverStage::Settle || now.stage == RecoverStage::Finished
                || now.transaction == t
        }),
    decreases events.len(),
{
    if events.len() > 0 {
        lemma_unmarked(path, t, retention, events.drop_last());
    }
}

proof fn lemma_rolled_back(
    path: Seq<char>,
    t: TransactionView,
    retention: TransactionRetention,
    events: Seq<RecoverEventView>,
)
    requires
        transaction::recovery(t, None) == Some(Recovery::Inspect),
    ensures
        ({
            let s = recover_start(path, t, retention);
            let now = recover_replayed(s, events);
            let calls = transaction::rollback_calls(t);
            &&& now.stage == RecoverStage::Index ==> exists|j: int| #[trigger]
                recover_did(s, events, j, RecoverActionView::Git(calls[0]))
            &&& now.stage == RecoverStage::Stamp && now.what == Recovery::RollBack ==> exists|
                j: int,
                k: int,
            | #[trigger] rolled_back_at(s, events, j, k)
        }),
    decreases events.len(),
{
    let s = recover_start(path, t, retention);
    if events.len() > 0 {
        let before = events.drop_last();
        let was = recover_replayed(s, before);
        let now = recover_replayed(s, events);
        let last = events.len() - 1;
        let calls = transaction::rollback_calls(t);
        lemma_rolled_back(path, t, retention, before);
        lemma_unmarked(path, t, retention, before);
        assert(events.take(last) =~= before);
        if now.stage == RecoverStage::Index {
            if was.stage == RecoverStage::Reset {
                assert(recover_did(s, events, last, RecoverActionView::Git(calls[0])));
            } else {
                let j = choose|j: int| #[trigger]
                    recover_did(s, before, j, RecoverActionView::Git(calls[0]));
                lemma_did_before(s, events, j, RecoverActionView::Git(calls[0]));
            }
        }
        if now.stage == RecoverStage::Stamp && now.what == Recovery::RollBack {
            if was.stage == RecoverStage::Index {
                let j = choose|j: int| #[trigger]
                    recover_did(s, before, j, RecoverActionView::Git(calls[0]));
                lemma_did_before(s, events, j, RecoverActionView::Git(calls[0]));
                assert(recover_did(s, events, last, RecoverActionView::Git(calls[1])));
                assert(rolled_back_at(s, events, j, last));
            } else {
                let (j, k) = choose|j: int, k: int| #[trigger] rolled_back_at(s, before, j, k);
                lemma_rolled_back_before(s, events, j, k);
            }
        }
    }
}

proof fn lemma_marked_before(
    s: RecoverView,
    events: Seq<RecoverEventView>,
    m: int,
    t: TransactionView,
)
    requires
        events.len() > 0,
        marked_at(s, events.drop_last(), m, t),
    ensures
        marked_at(s, events, m, t),
{
    let before = events.drop_last();
    assert(events.take(m) =~= before.take(m));
    if exists|j: int, k: int| #[trigger] rolled_back_at(s, before, j, k) && k < m {
        let (j, k) = choose|j: int, k: int| #[trigger] rolled_back_at(s, before, j, k) && k < m;
        lemma_rolled_back_before(s, events, j, k);
    }
}

proof fn lemma_marked(
    path: Seq<char>,
    t: TransactionView,
    retention: TransactionRetention,
    events: Seq<RecoverEventView>,
)
    requires
        transaction::recovery(t, None) == Some(Recovery::Inspect),
    ensures
        ({
            let s = recover_start(path, t, retention);
            let now = recover_replayed(s, events);
            now.stage == RecoverStage::Settle ==> exists|m: int| #[trigger]
                marked_at(s, events, m, now.transaction)
        }),
    decreases events.len(),
{
    let s = recover_start(path, t, retention);
    let now = recover_replayed(s, events);
    if events.len() > 0 && now.stage == RecoverStage::Settle {
        let before = events.drop_last();
        let was = recover_replayed(s, before);
        let last = events.len() - 1;
        lemma_marked(path, t, retention, before);
        lemma_unmarked(path, t, retention, before);
        lemma_rolled_back(path, t, retention, before);
        assert(events.take(last) =~= before);
        if was.stage == RecoverStage::Stamp {
            if was.what == Recovery::RollBack {
                let (j, k) = choose|j: int, k: int| #[trigger] rolled_back_at(s, before, j, k);
                lemma_rolled_back_before(s, events, j, k);
                assert(k < last);
            }
            assert(marked_at(s, events, last, now.transaction));
        } else {
            let m = choose|m: int| #[trigger] marked_at(s, before, m, was.transaction);
            lemma_marked_before(s, events, m, now.transaction);
        }
    }
}

/// The record of an interrupted installation is settled only once it was marked: as completed, or
/// as rolled back, and then only after both commands that put the snapshot back succeeded.
pub proof fn law_settled_after_roll_back(
    path: Seq<char>,
    t: TransactionView,
    retention: TransactionRetention,
    events: Seq<RecoverEventView>,
)
    requires
        t.phase == "INSTALLING"@,
    ensures
        ({
            let s = recover_start(path, t, retention);
            let asked = recover_requested(recover_replayed(s, events));
            &&& asked matches RecoverActionView::Keep(kept) ==> exists|m: int| #[trigger]
                marked_at(s, events, m, kept)
            &&& asked matches RecoverActionView::Remove(gone) ==> exists|m: int| #[trigger]
                marked_at(s, events, m, gone)
        }),
{
    transaction::lemma_phases();
    lemma_marked(path, t, retention, events);
}

/// A transaction that had touched no worktree is given back as it is, with nothing done.
pub proof fn law_untouched_is_left(
    path: Seq<char>,
    t: TransactionView,
    retention: TransactionRetention,
    events: Seq<RecoverEventView>,
)
    requires
        t.phase == "PREPARING"@ || t.phase == "CONFLICTED"@,
    ensures
        recover_requested(recover_replayed(recover_start(path, t, retention), events))
            == RecoverActionView::Return(t),
    decreases events.len(),
{
    if events.len() > 0 {
        law_untouched_is_left(path, t, retention, events.drop_last());
        lemma_stays_finished(path, t, retention, events.drop_last());
    }
}

proof fn lemma_stays_finished(
    path: Seq<char>,
    t: TransactionView,
    retention: TransactionRetention,
    events: Seq<RecoverEventView>,
)
    requires
        t.phase == "PREPARING"@ || t.phase == "CONFLICTED"@,
    ensures
        recover_replayed(recover_start(path, t, retention), events).stage == RecoverStage::Finished,
    decreases events.len(),
{
    if events.len() > 0 {
        lemma_stays_finished(path, t, retention, events.drop_last());
    }
}

} // verus!
