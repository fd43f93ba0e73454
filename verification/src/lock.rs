//! How a daemon takes the lock that only one of them holds.
use vstd::prelude::*;
use crate::daemon;
use crate::text;
use crate::daemon::{lock_owner, DaemonError};

verus! {

/// How often the lock is tried for.
pub const LOCK_ROUNDS: u64 = 2;

/// What is done next.
#[derive(Debug, Clone, Copy, PartialEq, Eq, Structural)]
pub enum LockStage {
    /// Make the lock.
    Create,
    /// Read who holds it.
    Read,
    /// Ask whether the holder is alive.
    Probe,
    /// Remove a lock that nobody holds.
    Remove,
    Finished,
}

/// The taking of a lock.
#[derive(Debug)]
pub struct Lock {
    pub stage: LockStage,
    /// How often a lock was removed.
    pub round: u64,
    /// The process that the lock names.
    pub owner: i32,
    pub failure: Option<String>,
}

/// What a [`Lock`] holds.
#[verifier::ext_equal]
pub struct LockView {
    pub stage: LockStage,
    pub round: u64,
    pub owner: i32,
    pub failure: Option<Seq<char>>,
}

impl View for Lock {
    type V = LockView;

    open spec fn view(&self) -> LockView {
        LockView {
            stage: self.stage,
            round: self.round,
            owner: self.owner,
            failure: text::opt_view(self.failure),
        }
    }
}

/// What is to be done.
#[derive(Debug, Clone, PartialEq, Eq)]
pub enum LockAction {
    /// Make the lock, if there is none.
    Create,
    /// Read the lock.
    Read,
    /// Ask whether a process is alive.
    Probe(i32),
    /// Remove the lock.
    Remove,
    /// The lock is taken.
    Return,
    /// The lock is not taken, for this reason.
    Fail(String),
}

/// What a [`LockAction`] holds.
pub enum LockActionView {
    Create,
    Read,
    Probe(i32),
    Remove,
    Return,
    Fail(Seq<char>),
}

impl View for LockAction {
    type V = LockActionView;

    open spec fn view(&self) -> LockActionView {
        match *self {
            LockAction::Create => LockActionView::Create,
            LockAction::Read => LockActionView::Read,
            LockAction::Probe(pid) => LockActionView::Probe(pid),
            LockAction::Remove => LockActionView::Remove,
            LockAction::Return => LockActionView::Return,
            LockAction::Fail(reason) => LockActionView::Fail(reason@),
        }
    }
}

/// What came of a step.
#[derive(Debug)]
pub enum LockEvent {
    /// The lock was made.
    Created,
    /// There is a lock.
    Exists,
    /// What the lock holds.
    Text(String),
    /// Whether the process is alive.
    Alive(bool),
    /// What was asked for is done.
    Did,
    Failed(String),
}

/// What a [`LockEvent`] holds.
pub enum LockEventView {
    Created,
    Exists,
    Text(Seq<char>),
    Alive(bool),
    Did,
    Failed(Seq<char>),
}

impl View for LockEvent {
    type V = LockEventView;

    open spec fn view(&self) -> LockEventView {
        match *self {
            LockEvent::Created => LockEventView::Created,
            LockEvent::Exists => LockEventView::Exists,
            LockEvent::Text(t) => LockEventView::Text(t@),
            LockEvent::Alive(alive) => LockEventView::Alive(alive),
            LockEvent::Did => LockEventView::Did,
            LockEvent::Failed(reason) => LockEventView::Failed(reason@),
        }
    }
}

/// The taking of a lock at its start.
pub open spec fn lock_start() -> LockView {
    LockView { stage: LockStage::Create, round: 0, owner: 0, failure: None }
}

/// What is to be done next.
pub open spec fn lock_requested(s: LockView) -> LockActionView {
    match s.stage {
        LockStage::Create => LockActionView::Create,
        LockStage::Read => LockActionView::Read,
        LockStage::Probe => LockActionView::Probe(s.owner),
        LockStage::Remove => LockActionView::Remove,
        LockStage::Finished => match s.failure {
            Some(reason) => LockActionView::Fail(reason),
            None => LockActionView::Return,
        },
    }
}

/// The taking of a lock that failed.
pub open spec fn lock_failed(s: LockView, reason: Seq<char>) -> LockView {
    LockView { stage: LockStage::Finished, failure: Some(reason), ..s }
}

/// What holds once a lock was removed.
pub open spec fn lock_removed(s: LockView) -> LockView {
    if s.round + 1 < LOCK_ROUNDS {
        LockView { stage: LockStage::Create, round: (s.round + 1) as u64, ..s }
    } else {
        lock_failed(s, daemon::daemon_text(DaemonError::NoLock))
    }
}

/// What holds after a step.
pub open spec fn lock_after(s: LockView, e: LockEventView) -> LockView {
    match (s.stage, e) {
        (LockStage::Create, LockEventView::Created) => LockView {
            stage: LockStage::Finished,
            ..s
        },
        (LockStage::Create, LockEventView::Exists) => LockView { stage: LockStage::Read, ..s },
        (LockStage::Create, LockEventView::Failed(reason)) => lock_failed(s, reason),
        (LockStage::Read, LockEventView::Text(content)) => match daemon::parsed_i32(
            text::trim(content),
        ) {
            Some(owner) => LockView { stage: LockStage::Probe, owner, ..s },
            None => LockView { stage: LockStage::Remove, ..s },
        },
        (LockStage::Read, LockEventView::Failed(_)) => LockView { stage: LockStage::Remove, ..s },
        (LockStage::Probe, LockEventView::Alive(alive)) => if alive {
            lock_failed(s, daemon::daemon_text(DaemonError::Running(s.owner)))
        } else {
            LockView { stage: LockStage::Remove, ..s }
        },
        (LockStage::Remove, LockEventView::Did) => lock_removed(s),
        (LockStage::Remove, LockEventView::Failed(_)) => lock_removed(s),
        _ => s,
    }
}

/// Starts to take the lock.
pub fn acquire_process_lock() -> (r: Lock)
    ensures
        r@ == lock_start(),
{
    Lock { stage: LockStage::Create, round: 0, owner: 0, failure: None }
}

impl Lock {
    /// What is to be done next.
    pub fn request(&self) -> (r: LockAction)
        ensures
            r@ == lock_requested(self@),
    {
        match self.stage {
            LockStage::Create => LockAction::Create,
            LockStage::Read => LockAction::Read,
            LockStage::Probe => LockAction::Probe(self.owner),
            LockStage::Remove => LockAction::Remove,
            LockStage::Finished => match &self.failure {
                Some(reason) => LockAction::Fail(reason.clone()),
                None => LockAction::Return,
            },
        }
    }

    fn fail(&mut self, reason: String)
        ensures
            final(self)@ == lock_failed(old(self)@, reason@),
    {
        self.failure = Some(reason);
        self.stage = LockStage::Finished;
    }

    fn removed(&mut self)
        ensures
            final(self)@ == lock_removed(old(self)@),
    {
        if self.round < LOCK_ROUNDS - 1 {
            self.round = self.round + 1;
            self.stage = LockStage::Create;
        } else {
            let reason = DaemonError::NoLock.message();
            self.fail(reason);
        }
    }

    /// Takes what came of the step that was asked for.
    pub fn advance(&mut self, event: LockEvent)
        ensures
            final(self)@ == lock_after(old(self)@, event@),
    {
        match self.stage {
            LockStage::Create => match event {
                LockEvent::Created => {
                    self.stage = LockStage::Finished;
                },
                LockEvent::Exists => {
                    self.stage = LockStage::Read;
                },
                LockEvent::Failed(reason) => {
                    self.fail(reason);
                },
                _ => {},
            },
            LockStage::Read => match event {
                LockEvent::Text(content) => match lock_owner(content.as_str()) {
                    Some(owner) => {
                        self.owner = owner;
                        self.stage = LockStage::Probe;
                    },
                    None => {
                        self.stage = LockStage::Remove;
                    },
                },
                LockEvent::Failed(_) => {
                    self.stage = LockStage::Remove;
                },
                _ => {},
            },
            LockStage::Probe => match event {
                LockEvent::Alive(alive) => {
                    if alive {
                        let reason = DaemonError::Running(self.owner).message();
                        self.fail(reason);
                    } else {
                        self.stage = LockStage::Remove;
                    }
                },
                _ => {},
            },
            LockStage::Remove => match event {
                LockEvent::Did => {
                    self.removed();
                },
                LockEvent::Failed(_) => {
                    self.removed();
                },
                _ => {},
            },
            LockStage::Finished => {},
        }
    }
}

/// What holds after a number of steps.
pub open spec fn lock_replayed(s: LockView, events: Seq<LockEventView>) -> LockView
    decreases events.len(),
{
    if events.len() == 0 {
        s
    } else {
        lock_after(lock_replayed(s, events.drop_last()), events.last())
    }
}

/// Event `j` showed that the lock that was there is held by nobody: it could not be read, names no
/// process, or names one that is not alive.
pub open spec fn found_abandoned(events: Seq<LockEventView>, j: int) -> bool {
    let before = lock_replayed(lock_start(), events.take(j));
    &&& 0 <= j < events.len()
    &&& match (before.stage, events[j]) {
        (LockStage::Read, LockEventView::Text(content)) => daemon::parsed_i32(text::trim(content))
            is None,
        (LockStage::Read, LockEventView::Failed(_)) => true,
        (LockStage::Probe, LockEventView::Alive(alive)) => !alive,
        _ => false,
    }
}

/// At event `j` the lock was made.
pub open spec fn made_at(events: Seq<LockEventView>, j: int) -> bool {
    &&& 0 <= j < events.len()
    &&& lock_replayed(lock_start(), events.take(j)).stage == LockStage::Create
    &&& events[j] is Created
}

/// A lock is removed only after it was found to be held by nobody.
pub proof fn law_held_lock_is_kept(events: Seq<LockEventView>)
    ensures
        lock_requested(lock_replayed(lock_start(), events)) is Remove ==> exists|j: int|
            #![trigger found_abandoned(events, j)]
            found_abandoned(events, j) && forall|k: int|
                j < k <= events.len() ==> lock_replayed(
                    lock_start(),
                    #[trigger] events.take(k),
                ).stage == LockStage::Remove,
    decreases events.len(),
{
    let s = lock_start();
    let now = lock_replayed(s, events);
    assert(events.take(events.len() as int) =~= events);
    if events.len() > 0 && now.stage == LockStage::Remove {
        let before = events.drop_last();
        let was = lock_replayed(s, before);
        let last = events.len() - 1;
        law_held_lock_is_kept(before);
        assert(events.take(last) =~= before);
        if was.stage != LockStage::Remove {
            assert(found_abandoned(events, last));
        } else {
            let j = choose|j: int|
                #![trigger found_abandoned(before, j)]
                found_abandoned(before, j) && forall|k: int|
                    j < k <= before.len() ==> lock_replayed(s, #[trigger] before.take(k)).stage
                        == LockStage::Remove;
            assert(events.take(j) =~= before.take(j));
            assert(found_abandoned(events, j));
            assert forall|k: int| j < k <= events.len() implies lock_replayed(
                s,
                #[trigger] events.take(k),
            ).stage == LockStage::Remove by {
                if k <= last {
                    assert(events.take(k) =~= before.take(k));
                }
            }
        }
    }
}

proof fn lemma_no_early_failure(events: Seq<LockEventView>)
    ensures
        ({
            let now = lock_replayed(lock_start(), events);
            now.stage != LockStage::Finished ==> now.failure is None
        }),
    decreases events.len(),
{
    if events.len() > 0 {
        lemma_no_early_failure(events.drop_last());
    }
}

/// The lock is said to be taken only once it was made.
pub proof fn law_taken_lock_was_made(events: Seq<LockEventView>)
    ensures
        lock_requested(lock_replayed(lock_start(), events)) is Return ==> exists|j: int| #[trigger]
            made_at(events, j),
    decreases events.len(),
{
    let s = lock_start();
    if events.len() > 0 {
        let before = events.drop_last();
        let was = lock_replayed(s, before);
        let now = lock_replayed(s, events);
        let last = events.len() - 1;
        law_taken_lock_was_made(before);
        lemma_no_early_failure(before);
        assert(events.take(last) =~= before);
        if lock_requested(now) is Return {
            if was.stage == LockStage::Create {
                assert(made_at(events, last));
            } else {
                let j = choose|j: int| #[trigger] made_at(before, j);
                assert(events.take(j) =~= before.take(j));
                assert(made_at(events, j));
            }
        }
    }
}

} // verus!
