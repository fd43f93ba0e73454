//! Moving a worktree onto a new remote revision, with everything that was there preserved until
//! the move is complete.
use vstd::prelude::*;
use crate::git_state;
use crate::paths;
use crate::process;
use crate::text;
use crate::transaction;
use crate::git_state::{
    find_untracked_collisions, parse_paths, SyntheticChain, SyntheticChainView, WorkspaceSnapshot,
    WorkspaceSnapshotView,
};
use crate::paths::join_path;
use crate::process::{
    git, git_lenient, git_strict, words2, words3, words4, words5, words7, words8, GitCall,
    GitCallView, RunOptions, RunOptionsView, RunResult, RunResultView,
};
use crate::state::Conflict;
use crate::text::{
    cat2, cat3, copy_list, is_blank, join_text, same_text, signed_text, tail_text, trimmed,
};
use crate::transaction::{
    copy_error, empty_result, write_recovery_refs, Candidate, CandidateView, ReconcileResult,
    ReconcileResultView, Transaction, TransactionConflict, TransactionConflictView,
    TransactionError, TransactionRetention, TransactionView,
};

verus! {

/// How far a move of a worktree has come.
#[derive(Debug, Clone, Copy, PartialEq, Eq, Structural)]
pub enum ReconcileStage {
    Branch,
    Unmerged,
    Snapshot,
    Ancestors,
    Merges,
    Identify,
    Chain,
    Preserve,
    Open,
    HeadRef,
    Record,
    Temporary,
    Checkout,
    Rebase,
    Abort,
    Conflict,
    Revisions,
    Trees,
    KeepCandidate,
    Recapture,
    Incoming,
    Installing,
    Install,
    Complete,
    Settle,
    Changed,
    Cleanup,
    Discard,
    Finished,
}

/// A move of a worktree onto a new remote revision, step by step: [`Reconcile::request`] says what
/// is to be done next, and [`Reconcile::advance`] takes what came of it.
#[derive(Debug, Clone, PartialEq, Eq)]
pub struct Reconcile {
    pub stage: ReconcileStage,
    pub transaction: Transaction,
    pub retention: TransactionRetention,
    /// Where the records of transactions are kept.
    pub root: String,
    pub chain: SyntheticChain,
    /// Where the rebase takes place.
    pub temporary: String,
    pub outcome: ReconcileResult,
    pub failure: Option<TransactionError>,
}

/// What a [`Reconcile`] holds.
pub struct ReconcileView {
    pub stage: ReconcileStage,
    pub transaction: TransactionView,
    pub debug: bool,
    pub root: Seq<char>,
    pub chain: SyntheticChainView,
    pub temporary: Seq<char>,
    pub outcome: ReconcileResultView,
    pub failure: Option<TransactionError>,
}

impl View for Reconcile {
    type V = ReconcileView;

    open spec fn view(&self) -> ReconcileView {
        ReconcileView {
            stage: self.stage,
            transaction: self.transaction@,
            debug: self.retention.debug_history,
            root: self.root@,
            chain: self.chain@,
            temporary: self.temporary@,
            outcome: self.outcome@,
            failure: self.failure,
        }
    }
}

/// What a move of a worktree asks for.
#[derive(Debug, Clone, PartialEq, Eq)]
pub enum ReconcileAction {
    /// Run these commands in order, each of which must succeed unless it allows a failure.
    Git(Vec<GitCall>),
    /// Capture the worktree.
    Capture,
    /// Read the clock in milliseconds and draw a unique name.
    Identify,
    /// Preserve the snapshot as two commits.
    Chain,
    /// Make the directory of the records, and read the clock.
    Open(String),
    /// Make a temporary directory.
    Temporary,
    /// Write the record.
    Save(Transaction),
    /// Write the record and prune the debug history.
    SaveDebug(Transaction),
    /// List the paths of a tree, then the files that Git does not track.
    Incoming(String),
    /// Read the clock.
    Clock,
    /// Delete the recovery refs and the record.
    Remove(Transaction),
    /// The move is over with this result.
    Return(ReconcileResult),
    /// The move is over with this error.
    Fail(TransactionError),
}

/// What a [`ReconcileAction`] holds.
pub enum ReconcileActionView {
    Git(Seq<GitCallView>),
    Capture,
    Identify,
    Chain,
    Open(Seq<char>),
    Temporary,
    Save(TransactionView),
    SaveDebug(TransactionView),
    Incoming(Seq<char>),
    Clock,
    Remove(TransactionView),
    Return(ReconcileResultView),
    Fail(TransactionError),
}

impl View for ReconcileAction {
    type V = ReconcileActionView;

    open spec fn view(&self) -> ReconcileActionView {
        match *self {
            ReconcileAction::Git(list) => ReconcileActionView::Git(transaction::calls(list@)),
            ReconcileAction::Capture => ReconcileActionView::Capture,
            ReconcileAction::Identify => ReconcileActionView::Identify,
            ReconcileAction::Chain => ReconcileActionView::Chain,
            ReconcileAction::Open(root) => ReconcileActionView::Open(root@),
            ReconcileAction::Temporary => ReconcileActionView::Temporary,
            ReconcileAction::Save(t) => ReconcileActionView::Save(t@),
            ReconcileAction::SaveDebug(t) => ReconcileActionView::SaveDebug(t@),
            ReconcileAction::Incoming(tree) => ReconcileActionView::Incoming(tree@),
            ReconcileAction::Clock => ReconcileActionView::Clock,
            ReconcileAction::Remove(t) => ReconcileActionView::Remove(t@),
            ReconcileAction::Return(result) => ReconcileActionView::Return(result@),
            ReconcileAction::Fail(e) => ReconcileActionView::Fail(e),
        }
    }
}

/// What came of a step.
#[derive(Debug, Clone, PartialEq, Eq)]
pub enum ReconcileEvent {
    Ran(Vec<RunResult>),
    Captured(WorkspaceSnapshot),
    Identified(i64, String),
    Chained(SyntheticChain),
    Opened(String),
    Placed(String),
    /// The record was written, or removed.
    Saved,
    /// The paths of the tree, and the files that Git does not track.
    Listed(Vec<String>, Vec<String>),
    Clock(String),
    Failed(String),
}

/// What a [`ReconcileEvent`] holds.
pub enum ReconcileEventView {
    Ran(Seq<RunResultView>),
    Captured(WorkspaceSnapshotView),
    Identified(int, Seq<char>),
    Chained(SyntheticChainView),
    Opened(Seq<char>),
    Placed(Seq<char>),
    Saved,
    Listed(Seq<Seq<char>>, Seq<Seq<char>>),
    Clock(Seq<char>),
    Failed(String),
}

impl View for ReconcileEvent {
    type V = ReconcileEventView;

    open spec fn view(&self) -> ReconcileEventView {
        match *self {
            ReconcileEvent::Ran(runs) => ReconcileEventView::Ran(crate::git_state::results(runs@)),
            ReconcileEvent::Captured(snapshot) => ReconcileEventView::Captured(snapshot@),
            ReconcileEvent::Identified(millis, unique) => {
                ReconcileEventView::Identified(millis as int, unique@)
            },
            ReconcileEvent::Chained(chain) => ReconcileEventView::Chained(chain@),
            ReconcileEvent::Opened(now) => ReconcileEventView::Opened(now@),
            ReconcileEvent::Placed(path) => ReconcileEventView::Placed(path@),
            ReconcileEvent::Saved => ReconcileEventView::Saved,
            ReconcileEvent::Listed(paths, untracked) => ReconcileEventView::Listed(
                text::views(paths@),
                text::views(untracked@),
            ),
            ReconcileEvent::Clock(now) => ReconcileEventView::Clock(now@),
            ReconcileEvent::Failed(message) => ReconcileEventView::Failed(message),
        }
    }
}

/// The branch that the rebase of a transaction moves.
pub open spec fn candidate_branch(id: Seq<char>) -> Seq<char> {
    "resync-candidate-"@ + id
}

/// A check of whether one commit descends from another.
pub open spec fn ancestor_call(
    path: Seq<char>,
    ancestor: Seq<char>,
    descendant: Seq<char>,
) -> GitCallView {
    process::git_try(path, seq!["merge-base"@, "--is-ancestor"@, ancestor, descendant])
}

pub(crate) fn is_ancestor(path: &str, ancestor: &str, descendant: &str) -> (r: GitCall)
    ensures
        r@ == ancestor_call(path@, ancestor@, descendant@),
{
    git_lenient(path, words4("merge-base", "--is-ancestor", ancestor, descendant))
}

/// The commands that check out the preserved working tree on a branch of its own, without hooks.
pub open spec fn checkout_calls(s: ReconcileView) -> Seq<GitCallView> {
    seq![
        process::git_in(
            s.transaction.project_path,
            seq![
                "-c"@,
                "core.hooksPath=/dev/null"@,
                "worktree"@,
                "add"@,
                "--detach"@,
                s.temporary,
                s.chain.working_commit,
            ],
        ),
        process::git_in(
            s.temporary,
            seq![
                "-c"@,
                "core.hooksPath=/dev/null"@,
                "switch"@,
                "-c"@,
                candidate_branch(s.transaction.id),
            ],
        ),
    ]
}

/// The rebase of the local history onto the new revision.
pub open spec fn rebase_call(s: ReconcileView) -> GitCallView {
    GitCallView {
        args: seq![
            "-c"@,
            "core.hooksPath=/dev/null"@,
            "rebase"@,
            "--keep-empty"@,
            "--onto"@,
            s.transaction.target_remote_oid,
            s.transaction.previous_remote_oid,
            candidate_branch(s.transaction.id),
        ],
        options: (RunOptionsView {
            cwd: Some(s.temporary),
            env: seq![
                ("GIT_SEQUENCE_EDITOR"@, ":"@),
                ("GIT_EDITOR"@, ":"@),
                ("GIT_COMMITTER_NAME"@, "RepoSync Reconciler"@),
                ("GIT_COMMITTER_EMAIL"@, "reconcile@reposync.local"@),
            ],
            input: None,
            allow_failure: true,
        }),
    }
}

/// The commands that put the candidate in place: the working tree, the index, and the branch,
/// which must still be at the commit of the snapshot.
pub open spec fn install_calls(t: TransactionView) -> Seq<GitCallView> {
    seq![
        process::git_in(
            t.project_path,
            seq!["read-tree"@, "--reset"@, "-u"@, transaction::candidate_of(t).working_tree],
        ),
        process::git_in(t.project_path, seq!["read-tree"@, transaction::candidate_of(t).index_tree]),
        process::git_in(
            t.project_path,
            seq!["update-ref"@, t.head_ref, transaction::candidate_of(t).real_head, t.snapshot.head],
        ),
    ]
}

/// The commands that remove the temporary worktree and its branch.
pub open spec fn cleanup_calls(s: ReconcileView) -> Seq<GitCallView> {
    seq![
        process::git_try(
            s.transaction.project_path,
            seq!["worktree"@, "remove"@, "--force"@, s.temporary],
        ),
        process::git_try(
            s.transaction.project_path,
            seq!["branch"@, "-D"@, candidate_branch(s.transaction.id)],
        ),
    ]
}

/// What a move asks for at its stage.
pub open spec fn requested(s: ReconcileView) -> ReconcileActionView {
    let t = s.transaction;
    match s.stage {
        ReconcileStage::Branch => ReconcileActionView::Git(
            seq![process::git_in(t.project_path, seq!["symbolic-ref"@, "--short"@, "HEAD"@])],
        ),
        ReconcileStage::Unmerged => ReconcileActionView::Git(
            seq![process::git_in(t.project_path, seq!["ls-files"@, "--unmerged"@])],
        ),
        ReconcileStage::Snapshot => ReconcileActionView::Capture,
        ReconcileStage::Ancestors => ReconcileActionView::Git(
            seq![
                ancestor_call(t.project_path, t.previous_remote_oid, t.snapshot.head),
                ancestor_call(t.project_path, t.previous_remote_oid, t.target_remote_oid),
            ],
        ),
        ReconcileStage::Merges => ReconcileActionView::Git(
            seq![
                process::git_in(
                    t.project_path,
                    seq![
                        "rev-list"@,
                        "--merges"@,
                        t.previous_remote_oid + ".."@ + t.snapshot.head,
                    ],
                ),
            ],
        ),
        ReconcileStage::Identify => ReconcileActionView::Identify,
        ReconcileStage::Chain => ReconcileActionView::Chain,
        ReconcileStage::Preserve => ReconcileActionView::Git(
            transaction::preserve_calls(t.project_path, t.recovery_ref, t.snapshot.head, s.chain),
        ),
        ReconcileStage::Open => ReconcileActionView::Open(s.root),
        ReconcileStage::HeadRef => ReconcileActionView::Git(
            seq![process::git_in(t.project_path, seq!["symbolic-ref"@, "HEAD"@])],
        ),
        ReconcileStage::Record => ReconcileActionView::SaveDebug(t),
        ReconcileStage::Temporary => ReconcileActionView::Temporary,
        ReconcileStage::Checkout => ReconcileActionView::Git(checkout_calls(s)),
        ReconcileStage::Rebase => ReconcileActionView::Git(seq![rebase_call(s)]),
        ReconcileStage::Abort => ReconcileActionView::Git(
            seq![
                process::git_try(
                    s.temporary,
                    seq!["-c"@, "core.hooksPath=/dev/null"@, "rebase"@, "--abort"@],
                ),
            ],
        ),
        ReconcileStage::Conflict => ReconcileActionView::Save(t),
        ReconcileStage::Revisions => ReconcileActionView::Git(
            seq![
                process::git_in(s.temporary, seq!["rev-parse"@, "HEAD"@]),
                process::git_in(s.temporary, seq!["rev-parse"@, "HEAD^"@]),
                process::git_in(s.temporary, seq!["rev-parse"@, "HEAD^^"@]),
            ],
        ),
        ReconcileStage::Trees => ReconcileActionView::Git(
            seq![
                process::git_in(
                    s.temporary,
                    seq!["rev-parse"@, transaction::candidate_of(t).working_commit + "^{tree}"@],
                ),
                process::git_in(
                    s.temporary,
                    seq!["rev-parse"@, transaction::candidate_of(t).index_commit + "^{tree}"@],
                ),
            ],
        ),
        ReconcileStage::KeepCandidate => ReconcileActionView::SaveDebug(t),
        ReconcileStage::Recapture => ReconcileActionView::Capture,
        ReconcileStage::Incoming => ReconcileActionView::Incoming(transaction::candidate_of(t).working_tree),
        ReconcileStage::Installing => ReconcileActionView::Save(t),
        ReconcileStage::Install => ReconcileActionView::Git(install_calls(t)),
        ReconcileStage::Complete => ReconcileActionView::Clock,
        ReconcileStage::Settle => if s.debug {
            ReconcileActionView::SaveDebug(t)
        } else {
            ReconcileActionView::Remove(t)
        },
        ReconcileStage::Changed => ReconcileActionView::Git(
            seq![
                process::git_in(
                    t.project_path,
                    seq![
                        "diff"@,
                        "--name-only"@,
                        "-z"@,
                        t.previous_remote_oid,
                        t.target_remote_oid,
                    ],
                ),
            ],
        ),
        ReconcileStage::Cleanup => ReconcileActionView::Git(cleanup_calls(s)),
        ReconcileStage::Discard => ReconcileActionView::Remove(t),
        ReconcileStage::Finished => match s.failure {
            Some(e) => ReconcileActionView::Fail(e),
            None => ReconcileActionView::Return(s.outcome),
        },
    }
}

/// The stages in which the temporary worktree exists.
pub open spec fn has_worktree(stage: ReconcileStage) -> bool {
    match stage {
        ReconcileStage::Checkout
        | ReconcileStage::Rebase
        | ReconcileStage::Abort
        | ReconcileStage::Conflict
        | ReconcileStage::Revisions
        | ReconcileStage::Trees
        | ReconcileStage::KeepCandidate
        | ReconcileStage::Recapture
        | ReconcileStage::Incoming
        | ReconcileStage::Installing
        | ReconcileStage::Install
        | ReconcileStage::Complete
        | ReconcileStage::Settle
        | ReconcileStage::Changed => true,
        _ => false,
    }
}

/// A move that fails: at once, or after the temporary worktree is cleaned up.
pub open spec fn failed(s: ReconcileView, e: TransactionError) -> ReconcileView {
    ReconcileView {
        failure: Some(e),
        stage: if has_worktree(s.stage) {
            ReconcileStage::Cleanup
        } else {
            ReconcileStage::Finished
        },
        ..s
    }
}

/// A move at another stage.
pub open spec fn at(s: ReconcileView, stage: ReconcileStage) -> ReconcileView {
    ReconcileView { stage, ..s }
}

/// A move whose transaction ends in a conflict, which is still to be recorded.
pub open spec fn conflicted(
    s: ReconcileView,
    conflict: TransactionConflictView,
    stage: ReconcileStage,
) -> ReconcileView {
    ReconcileView {
        stage,
        transaction: (TransactionView {
            phase: "CONFLICTED"@,
            conflict: Some(conflict),
            ..s.transaction
        }),
        ..s
    }
}

/// The conflict of a transaction.
pub open spec fn conflict_of(t: TransactionView) -> TransactionConflictView {
    match t.conflict {
        Some(conflict) => conflict,
        None => TransactionConflictView {
            kind: Seq::empty(),
            paths: Seq::empty(),
            detail: Seq::empty(),
        },
    }
}

/// The conflict of a rebase that failed.
pub open spec fn rebase_conflict(stderr: Seq<char>) -> TransactionConflictView {
    TransactionConflictView {
        kind: "git-rebase"@,
        paths: Seq::empty(),
        detail: text::trim(text::tail(stderr, 4000)),
    }
}

/// The conflict of a worktree that changed meanwhile.
pub open spec fn changed_conflict() -> TransactionConflictView {
    TransactionConflictView {
        kind: "install-rejected"@,
        paths: Seq::empty(),
        detail: "workspace changed while reconciliation was prepared; retry at a new lease boundary"@,
    }
}

/// The conflict of untracked files with incoming ones.
pub open spec fn collision_conflict(paths: Seq<Seq<char>>) -> TransactionConflictView {
    TransactionConflictView {
        kind: "untracked-collision"@,
        paths,
        detail: "incoming tracked paths collide with untracked files: "@ + text::join(paths, ", "@),
    }
}

/// The result of a move that ended in a conflict.
pub open spec fn conflict_result(t: TransactionView) -> ReconcileResultView {
    ReconcileResultView {
        outcome: "conflict"@,
        transaction_id: Some(t.id),
        recovery_ref: Some(t.recovery_ref),
        detail: Some(conflict_of(t).detail),
        paths: conflict_of(t).paths,
        ..transaction::no_result()
    }
}

/// The result of a move that was applied.
pub open spec fn applied_result(t: TransactionView, diff: Seq<char>) -> ReconcileResultView {
    ReconcileResultView {
        outcome: "applied"@,
        transaction_id: Some(t.id),
        old_head: Some(t.snapshot.head),
        new_head: Some(transaction::candidate_of(t).real_head),
        changed_paths: git_state::listed_paths(diff),
        ..transaction::no_result()
    }
}

/// The identifier of a transaction.
pub open spec fn transaction_id(millis: int, unique: Seq<char>) -> Seq<char> {
    text::signed_decimal(millis) + "-"@ + unique
}

/// What a step leads to, given what came of it. What does not belong to the stage changes nothing.
#[verifier::opaque]
pub open spec fn advanced(s: ReconcileView, e: ReconcileEventView) -> ReconcileView {
    let t = s.transaction;
    match (s.stage, e) {
        (ReconcileStage::Finished, _) => s,
        (ReconcileStage::Branch, ReconcileEventView::Failed(_)) => failed(
            s,
            TransactionError::DetachedHead,
        ),
        (ReconcileStage::Cleanup, ReconcileEventView::Failed(_))
        | (ReconcileStage::Cleanup, ReconcileEventView::Ran(_)) => at(
            s,
            if s.failure is Some && !s.debug {
                ReconcileStage::Discard
            } else {
                ReconcileStage::Finished
            },
        ),
        (ReconcileStage::Discard, ReconcileEventView::Failed(_))
        | (ReconcileStage::Discard, ReconcileEventView::Saved) => at(s, ReconcileStage::Finished),
        (_, ReconcileEventView::Failed(message)) => failed(s, TransactionError::Step(message)),
        (ReconcileStage::Branch, ReconcileEventView::Ran(_)) => at(s, ReconcileStage::Unmerged),
        (ReconcileStage::Unmerged, ReconcileEventView::Ran(runs)) if runs.len() == 1 => if text::trim(
            runs[0].stdout,
        ).len() > 0 {
            failed(s, TransactionError::UnmergedIndex)
        } else {
            at(s, ReconcileStage::Snapshot)
        },
        (ReconcileStage::Snapshot, ReconcileEventView::Captured(snapshot)) => if t.previous_remote_oid
            == t.target_remote_oid {
            ReconcileView {
                stage: ReconcileStage::Finished,
                transaction: (TransactionView { snapshot, ..t }),
                outcome: (ReconcileResultView {
                    outcome: "current"@,
                    head: Some(snapshot.head),
                    ..transaction::no_result()
                }),
                ..s
            }
        } else {
            ReconcileView {
                stage: ReconcileStage::Ancestors,
                transaction: (TransactionView { snapshot, ..t }),
                ..s
            }
        },
        (ReconcileStage::Ancestors, ReconcileEventView::Ran(runs)) if runs.len() == 2 => if runs[0].code
            != 0 {
            failed(s, TransactionError::LocalDiverged)
        } else if runs[1].code != 0 {
            failed(s, TransactionError::RemoteRewritten)
        } else {
            at(s, ReconcileStage::Merges)
        },
        (ReconcileStage::Merges, ReconcileEventView::Ran(runs)) if runs.len() == 1 => if text::trim(
            runs[0].stdout,
        ).len() > 0 {
            failed(s, TransactionError::MergeCommits)
        } else {
            at(s, ReconcileStage::Identify)
        },
        (ReconcileStage::Identify, ReconcileEventView::Identified(millis, unique)) => {
            let id = transaction_id(millis, unique);
            ReconcileView {
                stage: ReconcileStage::Chain,
                transaction: (TransactionView {
                    id,
                    recovery_ref: transaction::recovery_prefix(id),
                    path: paths::joined(s.root, id + ".json"@),
                    ..t
                }),
                ..s
            }
        },
        (ReconcileStage::Chain, ReconcileEventView::Chained(chain)) => ReconcileView {
            stage: ReconcileStage::Preserve,
            chain,
            ..s
        },
        (ReconcileStage::Preserve, ReconcileEventView::Ran(_)) => at(s, ReconcileStage::Open),
        (ReconcileStage::Open, ReconcileEventView::Opened(now)) => ReconcileView {
            stage: ReconcileStage::HeadRef,
            transaction: (TransactionView { created_at: now, ..t }),
            ..s
        },
        (ReconcileStage::HeadRef, ReconcileEventView::Ran(runs)) if runs.len() == 1 => ReconcileView {
            stage: if s.debug {
                ReconcileStage::Record
            } else {
                ReconcileStage::Temporary
            },
            transaction: (TransactionView {
                head_ref: text::trim(runs[0].stdout),
                phase: "PREPARING"@,
                ..t
            }),
            ..s
        },
        (ReconcileStage::Record, ReconcileEventView::Saved) => at(s, ReconcileStage::Temporary),
        (ReconcileStage::Temporary, ReconcileEventView::Placed(temporary)) => ReconcileView {
            stage: ReconcileStage::Checkout,
            temporary,
            ..s
        },
        (ReconcileStage::Checkout, ReconcileEventView::Ran(_)) => at(s, ReconcileStage::Rebase),
        (ReconcileStage::Rebase, ReconcileEventView::Ran(runs)) if runs.len() == 1 => if runs[0].code
            != 0 {
            conflicted(s, rebase_conflict(runs[0].stderr), ReconcileStage::Abort)
        } else {
            at(s, ReconcileStage::Revisions)
        },
        (ReconcileStage::Abort, ReconcileEventView::Ran(_)) => at(s, ReconcileStage::Conflict),
        (ReconcileStage::Conflict, ReconcileEventView::Saved) => ReconcileView {
            stage: ReconcileStage::Cleanup,
            outcome: conflict_result(t),
            ..s
        },
        (ReconcileStage::Revisions, ReconcileEventView::Ran(runs)) if runs.len() == 3 => ReconcileView {
            stage: ReconcileStage::Trees,
            transaction: (TransactionView {
                candidate: Some(
                    CandidateView {
                        working_commit: text::trim(runs[0].stdout),
                        index_commit: text::trim(runs[1].stdout),
                        real_head: text::trim(runs[2].stdout),
                        ..transaction::no_candidate()
                    },
                ),
                ..t
            }),
            ..s
        },
        (ReconcileStage::Trees, ReconcileEventView::Ran(runs)) if runs.len() == 2 => ReconcileView {
            stage: if s.debug {
                ReconcileStage::KeepCandidate
            } else {
                ReconcileStage::Recapture
            },
            transaction: (TransactionView {
                candidate: Some(
                    CandidateView {
                        working_tree: text::trim(runs[0].stdout),
                        index_tree: text::trim(runs[1].stdout),
                        ..transaction::candidate_of(t)
                    },
                ),
                ..t
            }),
            ..s
        },
        (ReconcileStage::KeepCandidate, ReconcileEventView::Saved) => at(
            s,
            ReconcileStage::Recapture,
        ),
        (ReconcileStage::Recapture, ReconcileEventView::Captured(latest)) => if latest
            != t.snapshot {
            conflicted(s, changed_conflict(), ReconcileStage::Conflict)
        } else {
            at(s, ReconcileStage::Incoming)
        },
        (ReconcileStage::Incoming, ReconcileEventView::Listed(paths, untracked)) => {
            let hits = git_state::collisions(untracked, paths);
            if hits.len() > 0 {
                conflicted(s, collision_conflict(hits), ReconcileStage::Conflict)
            } else {
                ReconcileView {
                    stage: ReconcileStage::Installing,
                    transaction: (TransactionView { phase: "INSTALLING"@, ..t }),
                    ..s
                }
            }
        },
        (ReconcileStage::Installing, ReconcileEventView::Saved) => at(s, ReconcileStage::Install),
        (ReconcileStage::Install, ReconcileEventView::Ran(_)) => at(s, ReconcileStage::Complete),
        (ReconcileStage::Complete, ReconcileEventView::Clock(now)) => ReconcileView {
            stage: ReconcileStage::Settle,
            transaction: (TransactionView {
                phase: "COMPLETED"@,
                completed_at: Some(now),
                ..t
            }),
            ..s
        },
        (ReconcileStage::Settle, ReconcileEventView::Saved) => at(s, ReconcileStage::Changed),
        (ReconcileStage::Changed, ReconcileEventView::Ran(runs)) if runs.len() == 1 => ReconcileView {
            stage: ReconcileStage::Cleanup,
            outcome: applied_result(t, runs[0].stdout),
            ..s
        },
        _ => s,
    }
}

fn one_call(call: GitCall) -> (r: Vec<GitCall>)
    ensures
        transaction::calls(r@) == seq![call@],
{
    let r = vec![call];
    assert(transaction::calls(r@) =~= seq![call@]);
    r
}

fn two_calls(a: GitCall, b: GitCall) -> (r: Vec<GitCall>)
    ensures
        transaction::calls(r@) == seq![a@, b@],
{
    let r = vec![a, b];
    assert(transaction::calls(r@) =~= seq![a@, b@]);
    r
}

fn three_calls(a: GitCall, b: GitCall, c: GitCall) -> (r: Vec<GitCall>)
    ensures
        transaction::calls(r@) == seq![a@, b@, c@],
{
    let r = vec![a, b, c];
    assert(transaction::calls(r@) =~= seq![a@, b@, c@]);
    r
}

/// The check of a captured worktree, and of incoming paths against the files that Git does not
/// track, before anything is installed: the conflict, if there is one.
pub fn install_candidate(
    snapshot: &WorkspaceSnapshot,
    latest: &WorkspaceSnapshot,
    incoming: &Vec<String>,
    untracked: &Vec<String>,
) -> (r: Option<TransactionConflict>)
    ensures
        match r {
            Some(conflict) => {
                ||| latest@ != snapshot@ && conflict@ == changed_conflict()
                ||| latest@ == snapshot@ && git_state::collisions(
                    text::views(untracked@),
                    text::views(incoming@),
                ).len() > 0 && conflict@ == collision_conflict(
                    git_state::collisions(text::views(untracked@), text::views(incoming@)),
                )
            },
            None => latest@ == snapshot@ && git_state::collisions(
                text::views(untracked@),
                text::views(incoming@),
            ).len() == 0,
        },
{
    if !latest.same(snapshot) {
        return Some(rejected());
    }
    collided(untracked, incoming)
}

fn rejected() -> (r: TransactionConflict)
    ensures
        r@ == changed_conflict(),
{
    let r = TransactionConflict {
        kind: "install-rejected".to_owned(),
        paths: Vec::new(),
        detail: "workspace changed while reconciliation was prepared; retry at a new lease boundary".to_owned(),
    };
    assert(text::views(r.paths@) =~= Seq::empty());
    r
}

fn collided(untracked: &Vec<String>, incoming: &Vec<String>) -> (r: Option<TransactionConflict>)
    ensures
        match r {
            Some(conflict) => git_state::collisions(text::views(untracked@), text::views(incoming@)).len() > 0 && conflict@
                == collision_conflict(git_state::collisions(text::views(untracked@), text::views(incoming@))),
            None => git_state::collisions(text::views(untracked@), text::views(incoming@)).len() == 0,
        },
{
    let hits = find_untracked_collisions(untracked, incoming);
    assert(text::views(hits@).len() == hits.len());
    if hits.len() == 0 {
        return None;
    }
    let names = join_text(&hits, ", ");
    Some(
        TransactionConflict {
            kind: "untracked-collision".to_owned(),
            detail: cat2("incoming tracked paths collide with untracked files: ", names.as_str()),
            paths: hits,
        },
    )
}

fn rebase_refused(stderr: &str) -> (r: TransactionConflict)
    ensures
        r@ == rebase_conflict(stderr@),
{
    let end = tail_text(stderr, 4000);
    let r = TransactionConflict {
        kind: "git-rebase".to_owned(),
        paths: Vec::new(),
        detail: trimmed(end.as_str()),
    };
    assert(text::views(r.paths@) =~= Seq::empty());
    r
}

impl Reconcile {
    fn rebase(&self) -> (r: GitCall)
        ensures
            r@ == rebase_call(self@),
    {
        let branch = cat2("resync-candidate-", self.transaction.id.as_str());
        let env = vec![
            ("GIT_SEQUENCE_EDITOR".to_owned(), ":".to_owned()),
            ("GIT_EDITOR".to_owned(), ":".to_owned()),
            ("GIT_COMMITTER_NAME".to_owned(), "RepoSync Reconciler".to_owned()),
            ("GIT_COMMITTER_EMAIL".to_owned(), "reconcile@reposync.local".to_owned()),
        ];
        let options = RunOptions { cwd: None, env, input: None, allow_failure: true };
        let r = git(
            self.temporary.as_str(),
            words8(
                "-c",
                "core.hooksPath=/dev/null",
                "rebase",
                "--keep-empty",
                "--onto",
                self.transaction.target_remote_oid.as_str(),
                self.transaction.previous_remote_oid.as_str(),
                branch.as_str(),
            ),
            options,
        );
        assert(process::pairs(env@) =~= rebase_call(self@).options.env);
        r
    }

    fn checkout(&self) -> (r: Vec<GitCall>)
        ensures
            transaction::calls(r@) == checkout_calls(self@),
    {
        let branch = cat2("resync-candidate-", self.transaction.id.as_str());
        two_calls(
            git_strict(
                self.transaction.project_path.as_str(),
                words7(
                    "-c",
                    "core.hooksPath=/dev/null",
                    "worktree",
                    "add",
                    "--detach",
                    self.temporary.as_str(),
                    self.chain.working_commit.as_str(),
                ),
            ),
            git_strict(
                self.temporary.as_str(),
                words5("-c", "core.hooksPath=/dev/null", "switch", "-c", branch.as_str()),
            ),
        )
    }

    fn cleanup(&self) -> (r: Vec<GitCall>)
        ensures
            transaction::calls(r@) == cleanup_calls(self@),
    {
        let branch = cat2("resync-candidate-", self.transaction.id.as_str());
        two_calls(
            git_lenient(
                self.transaction.project_path.as_str(),
                words4("worktree", "remove", "--force", self.temporary.as_str()),
            ),
            git_lenient(
                self.transaction.project_path.as_str(),
                words3("branch", "-D", branch.as_str()),
            ),
        )
    }

    fn install(&self) -> (r: Vec<GitCall>)
        ensures
            transaction::calls(r@) == install_calls(self@.transaction),
    {
        let candidate = self.transaction.prepared();
        let path = self.transaction.project_path.as_str();
        three_calls(
            git_strict(
                path,
                words4("read-tree", "--reset", "-u", candidate.working_tree.as_str()),
            ),
            git_strict(path, words2("read-tree", candidate.index_tree.as_str())),
            git_strict(
                path,
                words4(
                    "update-ref",
                    self.transaction.head_ref.as_str(),
                    candidate.real_head.as_str(),
                    self.transaction.snapshot.head.as_str(),
                ),
            ),
        )
    }

    /// What is to be done next.
    pub fn request(&self) -> (r: ReconcileAction)
        ensures
            r@ == requested(self@),
    {
        let t = &self.transaction;
        let path = t.project_path.as_str();
        match self.stage {
            ReconcileStage::Branch => ReconcileAction::Git(
                one_call(git_strict(path, words3("symbolic-ref", "--short", "HEAD"))),
            ),
            ReconcileStage::Unmerged => ReconcileAction::Git(
                one_call(git_strict(path, words2("ls-files", "--unmerged"))),
            ),
            ReconcileStage::Snapshot => ReconcileAction::Capture,
            ReconcileStage::Ancestors => ReconcileAction::Git(
                two_calls(
                    is_ancestor(path, t.previous_remote_oid.as_str(), t.snapshot.head.as_str()),
                    is_ancestor(
                        path,
                        t.previous_remote_oid.as_str(),
                        t.target_remote_oid.as_str(),
                    ),
                ),
            ),
            ReconcileStage::Merges => {
                let range = cat3(
                    t.previous_remote_oid.as_str(),
                    "..",
                    t.snapshot.head.as_str(),
                );
                ReconcileAction::Git(
                    one_call(git_strict(path, words3("rev-list", "--merges", range.as_str()))),
                )
            },
            ReconcileStage::Identify => ReconcileAction::Identify,
            ReconcileStage::Chain => ReconcileAction::Chain,
            ReconcileStage::Preserve => ReconcileAction::Git(
                write_recovery_refs(
                    path,
                    t.recovery_ref.as_str(),
                    t.snapshot.head.as_str(),
                    &self.chain,
                ),
            ),
            ReconcileStage::Open => ReconcileAction::Open(self.root.clone()),
            ReconcileStage::HeadRef => ReconcileAction::Git(
                one_call(git_strict(path, words2("symbolic-ref", "HEAD"))),
            ),
            ReconcileStage::Record => ReconcileAction::SaveDebug(t.copy()),
            ReconcileStage::Temporary => ReconcileAction::Temporary,
            ReconcileStage::Checkout => ReconcileAction::Git(self.checkout()),
            ReconcileStage::Rebase => ReconcileAction::Git(one_call(self.rebase())),
            ReconcileStage::Abort => ReconcileAction::Git(
                one_call(
                    git_lenient(
                        self.temporary.as_str(),
                        words4("-c", "core.hooksPath=/dev/null", "rebase", "--abort"),
                    ),
                ),
            ),
            ReconcileStage::Conflict => ReconcileAction::Save(t.copy()),
            ReconcileStage::Revisions => ReconcileAction::Git(
                three_calls(
                    git_strict(self.temporary.as_str(), words2("rev-parse", "HEAD")),
                    git_strict(self.temporary.as_str(), words2("rev-parse", "HEAD^")),
                    git_strict(self.temporary.as_str(), words2("rev-parse", "HEAD^^")),
                ),
            ),
            ReconcileStage::Trees => {
                let candidate = t.prepared();
                let working = cat2(candidate.working_commit.as_str(), "^{tree}");
                let index = cat2(candidate.index_commit.as_str(), "^{tree}");
                ReconcileAction::Git(
                    two_calls(
                        git_strict(self.temporary.as_str(), words2("rev-parse", working.as_str())),
                        git_strict(self.temporary.as_str(), words2("rev-parse", index.as_str())),
                    ),
                )
            },
            ReconcileStage::KeepCandidate => ReconcileAction::SaveDebug(t.copy()),
            ReconcileStage::Recapture => ReconcileAction::Capture,
            ReconcileStage::Incoming => ReconcileAction::Incoming(t.prepared().working_tree),
            ReconcileStage::Installing => ReconcileAction::Save(t.copy()),
            ReconcileStage::Install => ReconcileAction::Git(self.install()),
            ReconcileStage::Complete => ReconcileAction::Clock,
            ReconcileStage::Settle => if self.retention.debug_history {
                ReconcileAction::SaveDebug(t.copy())
            } else {
                ReconcileAction::Remove(t.copy())
            },
            ReconcileStage::Changed => ReconcileAction::Git(
                one_call(
                    git_strict(
                        path,
                        words5(
                            "diff",
                            "--name-only",
                            "-z",
                            t.previous_remote_oid.as_str(),
                            t.target_remote_oid.as_str(),
                        ),
                    ),
                ),
            ),
            ReconcileStage::Cleanup => ReconcileAction::Git(self.cleanup()),
            ReconcileStage::Discard => ReconcileAction::Remove(t.copy()),
            ReconcileStage::Finished => match &self.failure {
                Some(e) => ReconcileAction::Fail(copy_error(e)),
                None => ReconcileAction::Return(self.outcome.copy()),
            },
        }
    }

    fn fail(&mut self, e: TransactionError)
        ensures
            final(self)@ == failed(old(self)@, e),
    {
        let worktree = match self.stage {
            ReconcileStage::Checkout
            | ReconcileStage::Rebase
            | ReconcileStage::Abort
            | ReconcileStage::Conflict
            | ReconcileStage::Revisions
            | ReconcileStage::Trees
            | ReconcileStage::KeepCandidate
            | ReconcileStage::Recapture
            | ReconcileStage::Incoming
            | ReconcileStage::Installing
            | ReconcileStage::Install
            | ReconcileStage::Complete
            | ReconcileStage::Settle
            | ReconcileStage::Changed => true,
            _ => false,
        };
        self.failure = Some(e);
        self.stage = if worktree {
            ReconcileStage::Cleanup
        } else {
            ReconcileStage::Finished
        };
    }

    fn conflict(&mut self, conflict: TransactionConflict, stage: ReconcileStage)
        ensures
            final(self)@ == conflicted(old(self)@, conflict@, stage),
    {
        self.transaction.phase = "CONFLICTED".to_owned();
        self.transaction.conflict = Some(conflict);
        self.stage = stage;
    }

    fn captured(&mut self, snapshot: WorkspaceSnapshot)
        ensures
            final(self)@ == advanced(old(self)@, ReconcileEventView::Captured(snapshot@)),
    {
        proof {
            reveal(advanced);
        }
        match self.stage {
            ReconcileStage::Snapshot => {
                if same_text(
                    self.transaction.previous_remote_oid.as_str(),
                    self.transaction.target_remote_oid.as_str(),
                ) {
                    let mut outcome = empty_result();
                    outcome.outcome = "current".to_owned();
                    outcome.head = Some(snapshot.head.clone());
                    self.outcome = outcome;
                    self.transaction.snapshot = snapshot;
                    self.stage = ReconcileStage::Finished;
                } else {
                    self.transaction.snapshot = snapshot;
                    self.stage = ReconcileStage::Ancestors;
                }
            },
            ReconcileStage::Recapture => {
                if !snapshot.same(&self.transaction.snapshot) {
                    self.conflict(rejected(), ReconcileStage::Conflict);
                } else {
                    self.stage = ReconcileStage::Incoming;
                }
            },
            _ => {},
        }
    }

    fn saved(&mut self)
        ensures
            final(self)@ == advanced(old(self)@, ReconcileEventView::Saved),
    {
        proof {
            reveal(advanced);
        }
        match self.stage {
            ReconcileStage::Record => {
                self.stage = ReconcileStage::Temporary;
            },
            ReconcileStage::Conflict => {
                let mut outcome = empty_result();
                outcome.outcome = "conflict".to_owned();
                outcome.transaction_id = Some(self.transaction.id.clone());
                outcome.recovery_ref = Some(self.transaction.recovery_ref.clone());
                match &self.transaction.conflict {
                    Some(conflict) => {
                        outcome.detail = Some(conflict.detail.clone());
                        outcome.paths = copy_list(&conflict.paths);
                    },
                    None => {
                        outcome.detail = Some(String::new());
                        assert(text::views(outcome.paths@) =~= Seq::empty());
                    },
                }
                self.outcome = outcome;
                self.stage = ReconcileStage::Cleanup;
            },
            ReconcileStage::KeepCandidate => {
                self.stage = ReconcileStage::Recapture;
            },
            ReconcileStage::Installing => {
                self.stage = ReconcileStage::Install;
            },
            ReconcileStage::Settle => {
                self.stage = ReconcileStage::Changed;
            },
            ReconcileStage::Discard => {
                self.stage = ReconcileStage::Finished;
            },
            _ => {},
        }
    }

    fn ran(&mut self, runs: &Vec<RunResult>)
        ensures
            final(self)@ == advanced(
                old(self)@,
                ReconcileEventView::Ran(crate::git_state::results(runs@)),
            ),
    {
        proof {
            reveal(advanced);
        }
        let ghost done = crate::git_state::results(runs@);
        assert(done.len() == runs.len());
        assert(forall|i: int| 0 <= i < runs.len() ==> #[trigger] done[i] == runs@[i]@);
        match self.stage {
            ReconcileStage::Branch => {
                self.stage = ReconcileStage::Unmerged;
            },
            ReconcileStage::Unmerged => {
                if runs.len() == 1 {
                    let listing = trimmed(runs[0].stdout.as_str());
                    if !is_blank(listing.as_str()) {
                        self.fail(TransactionError::UnmergedIndex);
                    } else {
                        self.stage = ReconcileStage::Snapshot;
                    }
                }
            },
            ReconcileStage::Ancestors => {
                if runs.len() == 2 {
                    if runs[0].code != 0 {
                        self.fail(TransactionError::LocalDiverged);
                    } else if runs[1].code != 0 {
                        self.fail(TransactionError::RemoteRewritten);
                    } else {
                        self.stage = ReconcileStage::Merges;
                    }
                }
            },
            ReconcileStage::Merges => {
                if runs.len() == 1 {
                    let listing = trimmed(runs[0].stdout.as_str());
                    if !is_blank(listing.as_str()) {
                        self.fail(TransactionError::MergeCommits);
                    } else {
                        self.stage = ReconcileStage::Identify;
                    }
                }
            },
            ReconcileStage::Preserve => {
                self.stage = ReconcileStage::Open;
            },
            ReconcileStage::HeadRef => {
                if runs.len() == 1 {
                    self.transaction.head_ref = trimmed(runs[0].stdout.as_str());
                    self.transaction.phase = "PREPARING".to_owned();
                    self.stage = if self.retention.debug_history {
                        ReconcileStage::Record
                    } else {
                        ReconcileStage::Temporary
                    };
                }
            },
            ReconcileStage::Checkout => {
                self.stage = ReconcileStage::Rebase;
            },
            ReconcileStage::Rebase => {
                if runs.len() == 1 {
                    if runs[0].code != 0 {
                        let conflict = rebase_refused(runs[0].stderr.as_str());
                        self.conflict(conflict, ReconcileStage::Abort);
                    } else {
                        self.stage = ReconcileStage::Revisions;
                    }
                }
            },
            ReconcileStage::Abort => {
                self.stage = ReconcileStage::Conflict;
            },
            ReconcileStage::Revisions => {
                if runs.len() == 3 {
                    self.transaction.candidate = Some(
                        Candidate {
                            working_commit: trimmed(runs[0].stdout.as_str()),
                            index_commit: trimmed(runs[1].stdout.as_str()),
                            real_head: trimmed(runs[2].stdout.as_str()),
                            working_tree: String::new(),
                            index_tree: String::new(),
                        },
                    );
                    self.stage = ReconcileStage::Trees;
                }
            },
            ReconcileStage::Trees => {
                if runs.len() == 2 {
                    let mut candidate = self.transaction.prepared();
                    candidate.working_tree = trimmed(runs[0].stdout.as_str());
                    candidate.index_tree = trimmed(runs[1].stdout.as_str());
                    self.transaction.candidate = Some(candidate);
                    self.stage = if self.retention.debug_history {
                        ReconcileStage::KeepCandidate
                    } else {
                        ReconcileStage::Recapture
                    };
                }
            },
            ReconcileStage::Install => {
                self.stage = ReconcileStage::Complete;
            },
            ReconcileStage::Changed => {
                if runs.len() == 1 {
                    let mut outcome = empty_result();
                    outcome.outcome = "applied".to_owned();
                    outcome.transaction_id = Some(self.transaction.id.clone());
                    outcome.old_head = Some(self.transaction.snapshot.head.clone());
                    outcome.new_head = Some(self.transaction.prepared().real_head);
                    outcome.changed_paths = parse_paths(runs[0].stdout.as_str());
                    self.outcome = outcome;
                    self.stage = ReconcileStage::Cleanup;
                }
            },
            ReconcileStage::Cleanup => {
                self.cleaned();
            },
            _ => {},
        }
    }

    fn cleaned(&mut self)
        requires
            old(self).stage == ReconcileStage::Cleanup,
        ensures
            final(self)@ == at(
                old(self)@,
                if old(self).failure is Some && !old(self).retention.debug_history {
                    ReconcileStage::Discard
                } else {
                    ReconcileStage::Finished
                },
            ),
    {
        self.stage = if self.failure.is_some() && !self.retention.debug_history {
            ReconcileStage::Discard
        } else {
            ReconcileStage::Finished
        };
    }

    fn broke(&mut self, message: String)
        ensures
            final(self)@ == advanced(old(self)@, ReconcileEventView::Failed(message)),
    {
        proof {
            reveal(advanced);
        }
        match self.stage {
            ReconcileStage::Finished => {},
            ReconcileStage::Branch => {
                self.fail(TransactionError::DetachedHead);
            },
            ReconcileStage::Cleanup => {
                self.cleaned();
            },
            ReconcileStage::Discard => {
                self.stage = ReconcileStage::Finished;
            },
            _ => {
                self.fail(TransactionError::Step(message));
            },
        }
    }

    /// Takes what came of the step that was asked for.
    pub fn advance(&mut self, event: ReconcileEvent)
        ensures
            final(self)@ == advanced(old(self)@, event@),
    {
        proof {
            reveal(advanced);
        }
        match event {
            ReconcileEvent::Failed(message) => {
                self.broke(message);
            },
            ReconcileEvent::Ran(runs) => {
                self.ran(&runs);
            },
            ReconcileEvent::Captured(snapshot) => {
                self.captured(snapshot);
            },
            ReconcileEvent::Saved => {
                self.saved();
            },
            ReconcileEvent::Identified(millis, unique) => {
                if self.stage == ReconcileStage::Identify {
                    let number = signed_text(millis);
                    let id = cat3(number.as_str(), "-", unique.as_str());
                    let name = cat2(id.as_str(), ".json");
                    self.transaction.recovery_ref = cat2("refs/resync/recovery/", id.as_str());
                    self.transaction.path = join_path(self.root.as_str(), name.as_str());
                    self.transaction.id = id;
                    self.stage = ReconcileStage::Chain;
                }
            },
            ReconcileEvent::Chained(chain) => {
                if self.stage == ReconcileStage::Chain {
                    self.chain = chain;
                    self.stage = ReconcileStage::Preserve;
                }
            },
            ReconcileEvent::Opened(now) => {
                if self.stage == ReconcileStage::Open {
                    self.transaction.created_at = now;
                    self.stage = ReconcileStage::HeadRef;
                }
            },
            ReconcileEvent::Placed(temporary) => {
                if self.stage == ReconcileStage::Temporary {
                    self.temporary = temporary;
                    self.stage = ReconcileStage::Checkout;
                }
            },
            ReconcileEvent::Listed(paths, untracked) => {
                if self.stage == ReconcileStage::Incoming {
                    match collided(&untracked, &paths) {
                        Some(conflict) => {
                            self.conflict(conflict, ReconcileStage::Conflict);
                        },
                        None => {
                            self.transaction.phase = "INSTALLING".to_owned();
                            self.stage = ReconcileStage::Installing;
                        },
                    }
                }
            },
            ReconcileEvent::Clock(now) => {
                if self.stage == ReconcileStage::Complete {
                    self.transaction.phase = "COMPLETED".to_owned();
                    self.transaction.completed_at = Some(now);
                    self.stage = ReconcileStage::Settle;
                }
            },
        }
    }
}

/// A move after a sequence of events.
pub open spec fn replayed(s: ReconcileView, events: Seq<ReconcileEventView>) -> ReconcileView
    decreases events.len(),
{
    if events.len() == 0 {
        s
    } else {
        advanced(replayed(s, events.drop_last()), events.last())
    }
}

/// At event `i` the worktree was found as it was when the move began.
pub open spec fn found_unchanged(
    s: ReconcileView,
    events: Seq<ReconcileEventView>,
    i: int,
    snapshot: WorkspaceSnapshotView,
) -> bool {
    &&& 0 <= i < events.len()
    &&& replayed(s, events.take(i)).stage == ReconcileStage::Recapture
    &&& events[i] == ReconcileEventView::Captured(snapshot)
}

/// At event `j` no untracked file was in the way of an incoming one.
pub open spec fn found_clear(
    s: ReconcileView,
    events: Seq<ReconcileEventView>,
    j: int,
) -> bool {
    &&& 0 <= j < events.len()
    &&& replayed(s, events.take(j)).stage == ReconcileStage::Incoming
    &&& events[j] matches ReconcileEventView::Listed(paths, untracked)
    &&& git_state::collisions(untracked, paths).len() == 0
}

proof fn lemma_check_steps(s: ReconcileView, e: ReconcileEventView)
    ensures
        ({
            let now = advanced(s, e);
            let same = now.transaction.snapshot == s.transaction.snapshot;
            &&& now.stage == ReconcileStage::Incoming ==> same && (s.stage
                == ReconcileStage::Incoming || (s.stage == ReconcileStage::Recapture && e
                == ReconcileEventView::Captured(s.transaction.snapshot)))
            &&& now.stage == ReconcileStage::Install ==> same && (s.stage == ReconcileStage::Install
                || s.stage == ReconcileStage::Installing)
            &&& now.stage == ReconcileStage::Installing && s.stage != ReconcileStage::Installing
                ==> {
                &&& same
                &&& s.stage == ReconcileStage::Incoming
                &&& e matches ReconcileEventView::Listed(paths, untracked)
                &&& git_state::collisions(untracked, paths).len() == 0
            }
            &&& s.stage == ReconcileStage::Installing ==> same
        }),
{
    reveal(advanced);
}

proof fn lemma_found_earlier(
    s: ReconcileView,
    events: Seq<ReconcileEventView>,
    i: int,
    snapshot: WorkspaceSnapshotView,
)
    requires
        events.len() > 0,
    ensures
        found_unchanged(s, events.drop_last(), i, snapshot) ==> found_unchanged(
            s,
            events,
            i,
            snapshot,
        ),
        found_clear(s, events.drop_last(), i) ==> found_clear(s, events, i),
{
    if 0 <= i < events.len() - 1 {
        assert(events.take(i) =~= events.drop_last().take(i));
    }
}

proof fn lemma_checks(s: ReconcileView, events: Seq<ReconcileEventView>)
    requires
        s.stage == ReconcileStage::Branch,
    ensures
        ({
            let now = replayed(s, events);
            let snapshot = now.transaction.snapshot;
            &&& now.stage == ReconcileStage::Incoming ==> exists|i: int|
                found_unchanged(s, events, i, snapshot)
            &&& now.stage == ReconcileStage::Installing || now.stage == ReconcileStage::Install
                ==> exists|i: int, j: int|
                i < j && #[trigger] found_unchanged(s, events, i, snapshot)
                    && #[trigger] found_clear(s, events, j)
        }),
    decreases events.len(),
{
    if events.len() > 0 {
        let before = events.drop_last();
        lemma_checks(s, before);
        let was = replayed(s, before);
        let now = replayed(s, events);
        let snapshot = now.transaction.snapshot;
        let last = events.len() - 1;
        assert(events.take(last) =~= before);
        lemma_check_steps(was, events.last());
        if now.stage == ReconcileStage::Incoming {
            if was.stage == ReconcileStage::Incoming {
                let i = choose|i: int| found_unchanged(s, before, i, snapshot);
                lemma_found_earlier(s, events, i, snapshot);
            } else {
                assert(found_unchanged(s, events, last, snapshot));
            }
        }
        if now.stage == ReconcileStage::Installing || now.stage == ReconcileStage::Install {
            if was.stage == ReconcileStage::Incoming {
                let i = choose|i: int| found_unchanged(s, before, i, snapshot);
                lemma_found_earlier(s, events, i, snapshot);
                assert(found_clear(s, events, last));
            } else {
                let (i, j) = choose|i: int, j: int|
                    i < j && #[trigger] found_unchanged(s, before, i, snapshot)
                        && #[trigger] found_clear(s, before, j);
                lemma_found_earlier(s, events, i, snapshot);
                lemma_found_earlier(s, events, j, snapshot);
            }
        }
    }
}

/// Nothing is installed into a worktree before it was found unchanged since its snapshot, and
/// after that no untracked file in the way of an incoming one.
pub proof fn law_install_follows_checks(s: ReconcileView, events: Seq<ReconcileEventView>)
    requires
        s.stage == ReconcileStage::Branch,
        replayed(s, events).stage == ReconcileStage::Install,
    ensures
        exists|i: int, j: int|
            i < j && #[trigger] found_unchanged(
                s,
                events,
                i,
                replayed(s, events).transaction.snapshot,
            ) && #[trigger] found_clear(s, events, j),
{
    lemma_checks(s, events);
}

/// A move that reached the installation at some point.
pub open spec fn installed(s: ReconcileView, events: Seq<ReconcileEventView>) -> bool {
    exists|k: int|
        0 <= k <= events.len() && (#[trigger] replayed(s, events.take(k))).stage
            == ReconcileStage::Install
}

/// The stages from the installation on.
pub open spec fn from_install(stage: ReconcileStage) -> bool {
    rank(stage) >= rank(ReconcileStage::Install)
}

proof fn lemma_install_steps(s: ReconcileView, e: ReconcileEventView)
    ensures
        ({
            let now = advanced(s, e);
            &&& from_install(s.stage) ==> from_install(now.stage)
            &&& from_install(s.stage) ==> now.outcome == s.outcome || now.outcome.outcome
                == "applied"@
            &&& now.stage == ReconcileStage::Install ==> now.outcome == s.outcome
            &&& now.stage != ReconcileStage::Cleanup && now.stage != ReconcileStage::Discard
                && now.stage != ReconcileStage::Finished ==> now.outcome == s.outcome && s.stage
                != ReconcileStage::Cleanup && s.stage != ReconcileStage::Discard && s.stage
                != ReconcileStage::Finished
        }),
{
    reveal(advanced);
}

proof fn lemma_after_install(s: ReconcileView, events: Seq<ReconcileEventView>)
    requires
        s.stage == ReconcileStage::Branch,
        s.outcome == transaction::no_result(),
    ensures
        ({
            let now = replayed(s, events);
            &&& installed(s, events) ==> from_install(now.stage)
            &&& installed(s, events) ==> now.outcome == transaction::no_result() || now.outcome.outcome
                == "applied"@
            &&& now.stage != ReconcileStage::Cleanup && now.stage != ReconcileStage::Discard
                && now.stage != ReconcileStage::Finished ==> now.outcome == transaction::no_result()
        }),
    decreases events.len(),
{
    if events.len() > 0 {
        let before = events.drop_last();
        lemma_after_install(s, before);
        lemma_install_steps(replayed(s, before), events.last());
        assert(events.take(events.len() - 1) =~= before);
        if installed(s, events) {
            let k = choose|k: int|
                0 <= k <= events.len() && (#[trigger] replayed(s, events.take(k))).stage
                    == ReconcileStage::Install;
            if k < events.len() {
                assert(before.take(k) =~= events.take(k));
                assert(installed(s, before));
            } else {
                assert(events.take(k) =~= events);
            }
        }
    } else if installed(s, events) {
        let k = choose|k: int|
            0 <= k <= events.len() && (#[trigger] replayed(s, events.take(k))).stage
                == ReconcileStage::Install;
        assert(events.take(k) =~= events);
    }
}

/// A move that ends in a conflict never reached the installation, so the worktree, the index and
/// the branch are as they were.
pub proof fn law_conflict_leaves_worktree(s: ReconcileView, events: Seq<ReconcileEventView>)
    requires
        s.stage == ReconcileStage::Branch,
        s.outcome == transaction::no_result(),
        replayed(s, events).outcome.outcome == "conflict"@,
    ensures
        !installed(s, events),
{
    lemma_after_install(s, events);
    reveal_strlit("conflict");
    reveal_strlit("applied");
    assert("conflict"@.len() == 8);
    assert("applied"@.len() == 7);
}

/// Where the last applied revision is the new one, a move looks at the worktree and does nothing
/// else.
pub proof fn law_same_revision_changes_nothing(s: ReconcileView, events: Seq<ReconcileEventView>)
    requires
        s.stage == ReconcileStage::Branch,
        s.transaction.previous_remote_oid == s.transaction.target_remote_oid,
    ensures
        ({
            let now = replayed(s, events);
            &&& now.stage == ReconcileStage::Branch || now.stage == ReconcileStage::Unmerged
                || now.stage == ReconcileStage::Snapshot || now.stage == ReconcileStage::Finished
            &&& now.transaction.previous_remote_oid == now.transaction.target_remote_oid
        }),
    decreases events.len(),
{
    reveal(advanced);
    if events.len() > 0 {
        law_same_revision_changes_nothing(s, events.drop_last());
    }
}

/// The place of a stage in the course of a move.
pub open spec fn rank(stage: ReconcileStage) -> nat {
    match stage {
        ReconcileStage::Branch => 0,
        ReconcileStage::Unmerged => 1,
        ReconcileStage::Snapshot => 2,
        ReconcileStage::Ancestors => 3,
        ReconcileStage::Merges => 4,
        ReconcileStage::Identify => 5,
        ReconcileStage::Chain => 6,
        ReconcileStage::Preserve => 7,
        ReconcileStage::Open => 8,
        ReconcileStage::HeadRef => 9,
        ReconcileStage::Record => 10,
        ReconcileStage::Temporary => 11,
        ReconcileStage::Checkout => 12,
        ReconcileStage::Rebase => 13,
        ReconcileStage::Revisions => 14,
        ReconcileStage::Trees => 15,
        ReconcileStage::KeepCandidate => 16,
        ReconcileStage::Recapture => 17,
        ReconcileStage::Incoming => 18,
        ReconcileStage::Abort => 19,
        ReconcileStage::Conflict => 20,
        ReconcileStage::Installing => 21,
        ReconcileStage::Install => 22,
        ReconcileStage::Complete => 23,
        ReconcileStage::Settle => 24,
        ReconcileStage::Changed => 25,
        ReconcileStage::Cleanup => 26,
        ReconcileStage::Discard => 27,
        ReconcileStage::Finished => 28,
    }
}

/// Each step that is accepted brings a move closer to its end.
pub proof fn law_moves_forward(s: ReconcileView, e: ReconcileEventView)
    ensures
        advanced(s, e) == s || rank(advanced(s, e).stage) > rank(s.stage),
{
    reveal(advanced);
}

/// A failure never ends a move while its temporary worktree stands: the clean-up comes first.
pub proof fn law_failure_cleans_up(s: ReconcileView, message: String)
    requires
        has_worktree(s.stage),
    ensures
        advanced(s, ReconcileEventView::Failed(message)).stage == ReconcileStage::Cleanup,
        advanced(s, ReconcileEventView::Failed(message)).failure is Some,
{
    reveal(advanced);
}

proof fn lemma_inputs_step(s: ReconcileView, e: ReconcileEventView)
    ensures
        ({
            let now = advanced(s, e);
            &&& now.transaction.project_path == s.transaction.project_path
            &&& now.transaction.previous_remote_oid == s.transaction.previous_remote_oid
            &&& now.transaction.target_remote_oid == s.transaction.target_remote_oid
            &&& now.debug == s.debug
            &&& now.root == s.root
        }),
{
    reveal(advanced);
}

/// What a move was asked to do, and the two revisions it is about, do not change on the way.
pub proof fn law_inputs_stay(s: ReconcileView, events: Seq<ReconcileEventView>)
    ensures
        ({
            let now = replayed(s, events);
            &&& now.transaction.project_path == s.transaction.project_path
            &&& now.transaction.previous_remote_oid == s.transaction.previous_remote_oid
            &&& now.transaction.target_remote_oid == s.transaction.target_remote_oid
            &&& now.debug == s.debug
            &&& now.root == s.root
        }),
    decreases events.len(),
{
    if events.len() > 0 {
        law_inputs_stay(s, events.drop_last());
        lemma_inputs_step(replayed(s, events.drop_last()), events.last());
    }
}

} // verus!
