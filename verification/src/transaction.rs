//! Records of moves of a worktree: what they hold, how they are recovered, and which of them stay.
use vstd::prelude::*;
use crate::collect;
use crate::history;
use crate::paths;
use crate::process;
use crate::recover;
use crate::text;
use crate::collect::Collection;
use crate::git_state::{
    SyntheticChain, SyntheticChainView, WorkspaceSnapshot, WorkspaceSnapshotView,
};
use crate::history::keep_newest;
use crate::paths::{components_of, file_name, has_path, join_path, ordered_paths, same_path};
use crate::process::{
    git, git_lenient, git_strict, words2, words3, words4, GitCall, GitCallView, Next, RunOptions,
    RunOptionsView, RunResult,
};
use crate::reconcile::{Reconcile, ReconcileStage, ReconcileView};
use crate::recover::Recover;
use crate::text::{
    any_space, cat2, cat3, copy_list, copy_option, has_prefix, is_blank, keep_nonempty, lines_of,
    same_text,
};

verus! {


/// The commits and trees that a rebase gave.
#[derive(Debug, Clone, PartialEq, Eq)]
pub struct Candidate {
    pub working_commit: String,
    pub index_commit: String,
    pub real_head: String,
    pub working_tree: String,
    pub index_tree: String,
}

/// What a [`Candidate`] holds.
pub struct CandidateView {
    pub working_commit: Seq<char>,
    pub index_commit: Seq<char>,
    pub real_head: Seq<char>,
    pub working_tree: Seq<char>,
    pub index_tree: Seq<char>,
}

impl View for Candidate {
    type V = CandidateView;

    open spec fn view(&self) -> CandidateView {
        CandidateView {
            working_commit: self.working_commit@,
            index_commit: self.index_commit@,
            real_head: self.real_head@,
            working_tree: self.working_tree@,
            index_tree: self.index_tree@,
        }
    }
}

impl Candidate {
    /// A second value with the same contents.
    pub fn copy(&self) -> (r: Self)
        ensures
            r@ == self@,
    {
        Candidate {
            working_commit: self.working_commit.clone(),
            index_commit: self.index_commit.clone(),
            real_head: self.real_head.clone(),
            working_tree: self.working_tree.clone(),
            index_tree: self.index_tree.clone(),
        }
    }
}

/// Why a transaction did not change the worktree.
#[derive(Debug, Clone, Default, PartialEq, Eq)]
pub struct TransactionConflict {
    pub kind: String,
    pub paths: Vec<String>,
    pub detail: String,
}

/// What a [`TransactionConflict`] holds.
pub struct TransactionConflictView {
    pub kind: Seq<char>,
    pub paths: Seq<Seq<char>>,
    pub detail: Seq<char>,
}

impl View for TransactionConflict {
    type V = TransactionConflictView;

    open spec fn view(&self) -> TransactionConflictView {
        TransactionConflictView {
            kind: self.kind@,
            paths: text::views(self.paths@),
            detail: self.detail@,
        }
    }
}

impl TransactionConflict {
    /// A second value with the same contents.
    pub fn copy(&self) -> (r: Self)
        ensures
            r@ == self@,
    {
        TransactionConflict {
            kind: self.kind.clone(),
            paths: copy_list(&self.paths),
            detail: self.detail.clone(),
        }
    }
}

/// The record of one move of a worktree.
#[derive(Debug, Clone, PartialEq, Eq)]
pub struct Transaction {
    pub id: String,
    pub project_path: String,
    pub previous_remote_oid: String,
    pub target_remote_oid: String,
    pub snapshot: WorkspaceSnapshot,
    pub recovery_ref: String,
    pub head_ref: String,
    pub phase: String,
    pub created_at: String,
    pub path: String,
    pub candidate: Option<Candidate>,
    pub conflict: Option<TransactionConflict>,
    pub completed_at: Option<String>,
    pub recovered_at: Option<String>,
}

/// What a [`Transaction`] holds.
pub struct TransactionView {
    pub id: Seq<char>,
    pub project_path: Seq<char>,
    pub previous_remote_oid: Seq<char>,
    pub target_remote_oid: Seq<char>,
    pub snapshot: WorkspaceSnapshotView,
    pub recovery_ref: Seq<char>,
    pub head_ref: Seq<char>,
    pub phase: Seq<char>,
    pub created_at: Seq<char>,
    pub path: Seq<char>,
    pub candidate: Option<CandidateView>,
    pub conflict: Option<TransactionConflictView>,
    pub completed_at: Option<Seq<char>>,
    pub recovered_at: Option<Seq<char>>,
}

impl View for Transaction {
    type V = TransactionView;

    open spec fn view(&self) -> TransactionView {
        TransactionView {
            id: self.id@,
            project_path: self.project_path@,
            previous_remote_oid: self.previous_remote_oid@,
            target_remote_oid: self.target_remote_oid@,
            snapshot: self.snapshot@,
            recovery_ref: self.recovery_ref@,
            head_ref: self.head_ref@,
            phase: self.phase@,
            created_at: self.created_at@,
            path: self.path@,
            candidate: match self.candidate {
                Some(v) => Some(v@),
                None => None,
            },
            conflict: match self.conflict {
                Some(v) => Some(v@),
                None => None,
            },
            completed_at: text::opt_view(self.completed_at),
            recovered_at: text::opt_view(self.recovered_at),
        }
    }
}

impl Transaction {
    /// A second value with the same contents.
    pub fn copy(&self) -> (r: Self)
        ensures
            r@ == self@,
    {
        Transaction {
            id: self.id.clone(),
            project_path: self.project_path.clone(),
            previous_remote_oid: self.previous_remote_oid.clone(),
            target_remote_oid: self.target_remote_oid.clone(),
            snapshot: self.snapshot.copy(),
            recovery_ref: self.recovery_ref.clone(),
            head_ref: self.head_ref.clone(),
            phase: self.phase.clone(),
            created_at: self.created_at.clone(),
            path: self.path.clone(),
            candidate: match &self.candidate {
                Some(v) => Some(v.copy()),
                None => None,
            },
            conflict: match &self.conflict {
                Some(v) => Some(v.copy()),
                None => None,
            },
            completed_at: copy_option(&self.completed_at),
            recovered_at: copy_option(&self.recovered_at),
        }
    }
}

/// What is kept of the transactions that are over.
#[derive(Debug, Clone, Copy, Default, PartialEq, Eq)]
pub struct TransactionRetention {
    pub debug_history: bool,
}

/// The most transactions that a debug history keeps.
pub const DEBUG_HISTORY_MAX_RECORDS: usize = 128;

/// The most bytes that the records of a debug history take.
pub const DEBUG_HISTORY_MAX_BYTES: u64 = 268435456;

/// The file whose presence turns the debug history on.
pub fn debug_history_marker(state_root: &str) -> (r: String)
    ensures
        r@ == paths::joined(state_root@, "transaction-debug"@),
{
    join_path(state_root, "transaction-debug")
}

/// The retention, given whether the marker is there as a file.
pub fn transaction_retention(marker_is_file: bool) -> (r: TransactionRetention)
    ensures
        r.debug_history == marker_is_file,
{
    TransactionRetention { debug_history: marker_is_file }
}

/// What came of moving a worktree.
#[derive(Debug, Clone, PartialEq, Eq)]
pub struct ReconcileResult {
    pub outcome: String,
    pub transaction_id: Option<String>,
    pub recovery_ref: Option<String>,
    pub head: Option<String>,
    pub old_head: Option<String>,
    pub new_head: Option<String>,
    pub changed_paths: Vec<String>,
    pub detail: Option<String>,
    pub paths: Vec<String>,
}

/// What a [`ReconcileResult`] holds.
pub struct ReconcileResultView {
    pub outcome: Seq<char>,
    pub transaction_id: Option<Seq<char>>,
    pub recovery_ref: Option<Seq<char>>,
    pub head: Option<Seq<char>>,
    pub old_head: Option<Seq<char>>,
    pub new_head: Option<Seq<char>>,
    pub changed_paths: Seq<Seq<char>>,
    pub detail: Option<Seq<char>>,
    pub paths: Seq<Seq<char>>,
}

impl View for ReconcileResult {
    type V = ReconcileResultView;

    open spec fn view(&self) -> ReconcileResultView {
        ReconcileResultView {
            outcome: self.outcome@,
            transaction_id: text::opt_view(self.transaction_id),
            recovery_ref: text::opt_view(self.recovery_ref),
            head: text::opt_view(self.head),
            old_head: text::opt_view(self.old_head),
            new_head: text::opt_view(self.new_head),
            changed_paths: text::views(self.changed_paths@),
            detail: text::opt_view(self.detail),
            paths: text::views(self.paths@),
        }
    }
}

impl ReconcileResult {
    /// A second value with the same contents.
    pub fn copy(&self) -> (r: Self)
        ensures
            r@ == self@,
    {
        ReconcileResult {
            outcome: self.outcome.clone(),
            transaction_id: copy_option(&self.transaction_id),
            recovery_ref: copy_option(&self.recovery_ref),
            head: copy_option(&self.head),
            old_head: copy_option(&self.old_head),
            new_head: copy_option(&self.new_head),
            changed_paths: copy_list(&self.changed_paths),
            detail: copy_option(&self.detail),
            paths: copy_list(&self.paths),
        }
    }
}

/// A result with nothing in it.
pub open spec fn no_result() -> ReconcileResultView {
    ReconcileResultView {
        outcome: Seq::empty(),
        transaction_id: None,
        recovery_ref: None,
        head: None,
        old_head: None,
        new_head: None,
        changed_paths: Seq::empty(),
        detail: None,
        paths: Seq::empty(),
    }
}

pub(crate) fn empty_result() -> (r: ReconcileResult)
    ensures
        r@ == no_result(),
{
    let r = ReconcileResult {
        outcome: String::new(),
        transaction_id: None,
        recovery_ref: None,
        head: None,
        old_head: None,
        new_head: None,
        changed_paths: Vec::new(),
        detail: None,
        paths: Vec::new(),
    };
    assert(text::views(r.changed_paths@) =~= Seq::empty());
    assert(text::views(r.paths@) =~= Seq::empty());
    r
}

/// Why a worktree could not be moved or recovered.
#[derive(Debug, Clone, PartialEq, Eq)]
pub enum TransactionError {
    /// A revision was not given.
    MissingRevisions,
    /// The worktree is on no branch, or on one without a commit.
    DetachedHead,
    /// The index holds unresolved merges.
    UnmergedIndex,
    /// The local commit does not descend from the last applied revision.
    LocalDiverged,
    /// The remote revision does not descend from the last applied revision.
    RemoteRewritten,
    /// The unpublished history holds merges.
    MergeCommits,
    /// A record is in a phase with no meaning.
    UnknownPhase(String),
    /// A record says that it is installing, with nothing to install.
    NoCandidate,
    /// The commit is neither the one before nor the one after.
    NeedsManualRecovery(String),
    /// A ref lies outside of the recovery refs.
    InvalidRecoveryRef(String),
    /// An outside step failed, for the reason given.
    Step(String),
}

/// What a [`TransactionError`] says.
pub open spec fn error_text(e: TransactionError) -> Seq<char> {
    match e {
        TransactionError::MissingRevisions => "previousRemoteOid and targetRemoteOid are required"@,
        TransactionError::DetachedHead => {
            "detached or unborn HEAD is unsupported in RepoSync V1"@
        },
        TransactionError::UnmergedIndex => {
            "an unmerged index is unsupported; resolve or abort the existing Git operation first"@
        },
        TransactionError::LocalDiverged => {
            "local HEAD does not descend from the last applied remote revision"@
        },
        TransactionError::RemoteRewritten => {
            "remote branch was rewritten or does not descend from the last applied revision"@
        },
        TransactionError::MergeCommits => {
            "merge commits in unpublished local history are unsupported in RepoSync V1"@
        },
        TransactionError::UnknownPhase(phase) => "unknown transaction phase "@ + phase@,
        TransactionError::NoCandidate => "installing transaction has no candidate"@,
        TransactionError::NeedsManualRecovery(name) => "transaction "@ + name@
            + " needs manual recovery; HEAD matches neither preserved state"@,
        TransactionError::InvalidRecoveryRef(reference) => {
            "refusing to operate on invalid recovery ref "@ + reference@
        },
        TransactionError::Step(message) => message@,
    }
}

impl TransactionError {
    /// The message of the error.
    pub fn message(&self) -> (r: String)
        ensures
            r@ == error_text(*self),
    {
        match self {
            TransactionError::MissingRevisions => {
                "previousRemoteOid and targetRemoteOid are required".to_owned()
            },
            TransactionError::DetachedHead => {
                "detached or unborn HEAD is unsupported in RepoSync V1".to_owned()
            },
            TransactionError::UnmergedIndex => {
                "an unmerged index is unsupported; resolve or abort the existing Git operation first".to_owned()
            },
            TransactionError::LocalDiverged => {
                "local HEAD does not descend from the last applied remote revision".to_owned()
            },
            TransactionError::RemoteRewritten => {
                "remote branch was rewritten or does not descend from the last applied revision".to_owned()
            },
            TransactionError::MergeCommits => {
                "merge commits in unpublished local history are unsupported in RepoSync V1".to_owned()
            },
            TransactionError::UnknownPhase(phase) => {
                cat2("unknown transaction phase ", phase.as_str())
            },
            TransactionError::NoCandidate => "installing transaction has no candidate".to_owned(),
            TransactionError::NeedsManualRecovery(name) => {
                cat3(
                    "transaction ",
                    name.as_str(),
                    " needs manual recovery; HEAD matches neither preserved state",
                )
            },
            TransactionError::InvalidRecoveryRef(reference) => {
                cat2("refusing to operate on invalid recovery ref ", reference.as_str())
            },
            TransactionError::Step(message) => message.clone(),
        }
    }
}

/// A transaction about which only the worktree and the two revisions are known.
pub open spec fn unprepared(
    path: Seq<char>,
    previous: Seq<char>,
    target: Seq<char>,
) -> TransactionView {
    TransactionView {
        id: Seq::empty(),
        project_path: path,
        previous_remote_oid: previous,
        target_remote_oid: target,
        snapshot: (WorkspaceSnapshotView {
            head: Seq::empty(),
            index_tree: Seq::empty(),
            working_tree: Seq::empty(),
            untracked: Seq::empty(),
        }),
        recovery_ref: Seq::empty(),
        head_ref: Seq::empty(),
        phase: Seq::empty(),
        created_at: Seq::empty(),
        path: Seq::empty(),
        candidate: None,
        conflict: None,
        completed_at: None,
        recovered_at: None,
    }
}

/// The start of a move.
pub open spec fn started(
    path: Seq<char>,
    previous: Seq<char>,
    target: Seq<char>,
    root: Seq<char>,
    debug: bool,
) -> ReconcileView {
    let missing = previous.len() == 0 || target.len() == 0;
    ReconcileView {
        stage: if missing {
            ReconcileStage::Finished
        } else {
            ReconcileStage::Branch
        },
        transaction: unprepared(path, previous, target),
        debug,
        root,
        chain: (SyntheticChainView { index_commit: Seq::empty(), working_commit: Seq::empty() }),
        temporary: Seq::empty(),
        outcome: no_result(),
        failure: if missing {
            Some(TransactionError::MissingRevisions)
        } else {
            None
        },
    }
}

/// Starts to move a worktree, keeping no history.
pub fn reconcile_workspace(
    project_path: &str,
    previous_remote_oid: &str,
    target_remote_oid: &str,
    transaction_root: &str,
) -> (r: Reconcile)
    ensures
        r@ == started(
            project_path@,
            previous_remote_oid@,
            target_remote_oid@,
            transaction_root@,
            false,
        ),
{
    reconcile_workspace_with_retention(
        project_path,
        previous_remote_oid,
        target_remote_oid,
        transaction_root,
        TransactionRetention { debug_history: false },
    )
}

/// Starts to move a worktree from the revision that was last applied to a new one.
pub fn reconcile_workspace_with_retention(
    project_path: &str,
    previous_remote_oid: &str,
    target_remote_oid: &str,
    transaction_root: &str,
    retention: TransactionRetention,
) -> (r: Reconcile)
    ensures
        r@ == started(
            project_path@,
            previous_remote_oid@,
            target_remote_oid@,
            transaction_root@,
            retention.debug_history,
        ),
{
    let missing = is_blank(previous_remote_oid) || is_blank(target_remote_oid);
    let snapshot = WorkspaceSnapshot {
        head: String::new(),
        index_tree: String::new(),
        working_tree: String::new(),
        untracked: Vec::new(),
    };
    assert(text::views(snapshot.untracked@) =~= Seq::empty());
    let transaction = Transaction {
        id: String::new(),
        project_path: project_path.to_owned(),
        previous_remote_oid: previous_remote_oid.to_owned(),
        target_remote_oid: target_remote_oid.to_owned(),
        snapshot,
        recovery_ref: String::new(),
        head_ref: String::new(),
        phase: String::new(),
        created_at: String::new(),
        path: String::new(),
        candidate: None,
        conflict: None,
        completed_at: None,
        recovered_at: None,
    };
    Reconcile {
        stage: if missing {
            ReconcileStage::Finished
        } else {
            ReconcileStage::Branch
        },
        transaction,
        retention,
        root: transaction_root.to_owned(),
        chain: SyntheticChain { index_commit: String::new(), working_commit: String::new() },
        temporary: String::new(),
        outcome: empty_result(),
        failure: if missing {
            Some(TransactionError::MissingRevisions)
        } else {
            None
        },
    }
}

/// The contents of a list of commands.
pub open spec fn calls(list: Seq<GitCall>) -> Seq<GitCallView> {
    list.map_values(|c: GitCall| c@)
}

/// The recovery refs of a transaction, without their last names.
pub open spec fn recovery_prefix(id: Seq<char>) -> Seq<char> {
    "refs/resync/recovery/"@ + id
}

/// The commands that write the recovery refs.
pub open spec fn preserve_calls(
    path: Seq<char>,
    prefix: Seq<char>,
    head: Seq<char>,
    chain: SyntheticChainView,
) -> Seq<GitCallView> {
    seq![
        process::git_in(path, seq!["update-ref"@, prefix + "/head"@, head]),
        process::git_in(path, seq!["update-ref"@, prefix + "/index"@, chain.index_commit]),
        process::git_in(path, seq!["update-ref"@, prefix + "/working"@, chain.working_commit]),
    ]
}

/// The commands that write the recovery refs of a snapshot and of its chain.
pub fn write_recovery_refs(path: &str, prefix: &str, head: &str, chain: &SyntheticChain) -> (r: Vec<
    GitCall,
>)
    ensures
        calls(r@) == preserve_calls(path@, prefix@, head@, chain@),
{
    let r = vec![
        git_strict(path, words3("update-ref", cat2(prefix, "/head").as_str(), head)),
        git_strict(
            path,
            words3("update-ref", cat2(prefix, "/index").as_str(), chain.index_commit.as_str()),
        ),
        git_strict(
            path,
            words3("update-ref", cat2(prefix, "/working").as_str(), chain.working_commit.as_str()),
        ),
    ];
    assert(calls(r@) =~= preserve_calls(path@, prefix@, head@, chain@));
    r
}

/// The commands that delete the recovery refs of a transaction.
pub open spec fn forget_calls(path: Seq<char>, prefix: Seq<char>) -> Seq<GitCallView> {
    seq![
        process::git_in(path, seq!["update-ref"@, "-d"@, prefix + "/head"@]),
        process::git_in(path, seq!["update-ref"@, "-d"@, prefix + "/index"@]),
        process::git_in(path, seq!["update-ref"@, "-d"@, prefix + "/working"@]),
    ]
}

/// The commands that delete the recovery refs of a transaction.
pub fn delete_recovery_refs(path: &str, prefix: &str) -> (r: Vec<GitCall>)
    ensures
        calls(r@) == forget_calls(path@, prefix@),
{
    let r = vec![
        git_strict(path, words3("update-ref", "-d", cat2(prefix, "/head").as_str())),
        git_strict(path, words3("update-ref", "-d", cat2(prefix, "/index").as_str())),
        git_strict(path, words3("update-ref", "-d", cat2(prefix, "/working").as_str())),
    ];
    assert(calls(r@) =~= forget_calls(path@, prefix@));
    r
}

/// Where nothing was rebased yet.
pub open spec fn no_candidate() -> CandidateView {
    CandidateView {
        working_commit: Seq::empty(),
        index_commit: Seq::empty(),
        real_head: Seq::empty(),
        working_tree: Seq::empty(),
        index_tree: Seq::empty(),
    }
}

/// The candidate of a transaction.
pub open spec fn candidate_of(t: TransactionView) -> CandidateView {
    match t.candidate {
        Some(candidate) => candidate,
        None => no_candidate(),
    }
}

impl Candidate {
    pub(crate) fn none() -> (r: Self)
        ensures
            r@ == no_candidate(),
    {
        Candidate {
            working_commit: String::new(),
            index_commit: String::new(),
            real_head: String::new(),
            working_tree: String::new(),
            index_tree: String::new(),
        }
    }
}

impl Transaction {
    pub(crate) fn prepared(&self) -> (r: Candidate)
        ensures
            r@ == candidate_of(self@),
    {
        match &self.candidate {
            Some(candidate) => candidate.copy(),
            None => Candidate::none(),
        }
    }
}

pub(crate) fn copy_error(e: &TransactionError) -> (r: TransactionError)
    ensures
        r == *e,
{
    match e {
        TransactionError::MissingRevisions => TransactionError::MissingRevisions,
        TransactionError::DetachedHead => TransactionError::DetachedHead,
        TransactionError::UnmergedIndex => TransactionError::UnmergedIndex,
        TransactionError::LocalDiverged => TransactionError::LocalDiverged,
        TransactionError::RemoteRewritten => TransactionError::RemoteRewritten,
        TransactionError::MergeCommits => TransactionError::MergeCommits,
        TransactionError::UnknownPhase(phase) => TransactionError::UnknownPhase(phase.clone()),
        TransactionError::NoCandidate => TransactionError::NoCandidate,
        TransactionError::NeedsManualRecovery(name) => {
            TransactionError::NeedsManualRecovery(name.clone())
        },
        TransactionError::InvalidRecoveryRef(reference) => {
            TransactionError::InvalidRecoveryRef(reference.clone())
        },
        TransactionError::Step(message) => TransactionError::Step(message.clone()),
    }
}

/// A ref below the recovery refs, without whitespace.
pub open spec fn valid_recovery_ref(reference: Seq<char>) -> bool {
    "refs/resync/recovery/"@.is_prefix_of(reference) && !text::has_space(reference)
}

/// Refuses a ref that is not a recovery ref.
pub fn validate_recovery_ref(reference: &str) -> (r: Result<(), TransactionError>)
    ensures
        match r {
            Ok(()) => valid_recovery_ref(reference@),
            Err(e) => {
                &&& !valid_recovery_ref(reference@)
                &&& e matches TransactionError::InvalidRecoveryRef(name)
                &&& name@ == reference@
            },
        },
{
    if !has_prefix(reference, "refs/resync/recovery/") || any_space(reference) {
        return Err(TransactionError::InvalidRecoveryRef(reference.to_owned()));
    }
    Ok(())
}

/// One line for each ref to delete.
pub open spec fn delete_lines(references: Seq<Seq<char>>) -> Seq<char>
    decreases references.len(),
{
    if references.len() == 0 {
        Seq::empty()
    } else {
        delete_lines(references.drop_last()) + "delete "@ + references.last() + "\n"@
    }
}

/// One command that deletes many refs, or none of them.
pub open spec fn batch_call(path: Seq<char>, references: Seq<Seq<char>>) -> GitCallView {
    GitCallView {
        args: seq!["update-ref"@, "--stdin"@],
        options: (RunOptionsView {
            cwd: Some(path),
            input: Some("start\n"@ + delete_lines(references) + "prepare\ncommit\n"@),
            ..process::plain_options()
        }),
    }
}

/// The command that deletes recovery refs together; refused where one of them is no recovery ref.
pub fn delete_recovery_refs_batch(project_path: &str, references: &Vec<String>) -> (r: Result<
    GitCall,
    TransactionError,
>)
    ensures
        match r {
            Ok(call) => {
                &&& forall|i: int|
                    0 <= i < references.len() ==> valid_recovery_ref((#[trigger] references@[i])@)
                &&& call@ == batch_call(project_path@, text::views(references@))
            },
            Err(e) => exists|i: int|
                #![trigger references@[i]]
                0 <= i < references.len() && !valid_recovery_ref(references@[i]@) && (
                e matches TransactionError::InvalidRecoveryRef(name) && name@ == references@[i]@)
                    && forall|j: int|
                    0 <= j < i ==> valid_recovery_ref((#[trigger] references@[j])@),
        },
{
    let mut input = "start\n".to_owned();
    let mut i: usize = 0;
    let ghost all = text::views(references@);
    assert(all.take(0) =~= Seq::empty());
    assert(input@ =~= "start\n"@ + delete_lines(all.take(0)));
    while i < references.len()
        invariant
            0 <= i <= references.len(),
            all == text::views(references@),
            input@ == "start\n"@ + delete_lines(all.take(i as int)),
            forall|j: int|
                0 <= j < i ==> valid_recovery_ref((#[trigger] references@[j])@),
        decreases references.len() - i,
    {
        match validate_recovery_ref(references[i].as_str()) {
            Ok(()) => {},
            Err(e) => {
                assert(references@[i as int]@ == all[i as int]);
                return Err(e);
            },
        }
        input.append("delete ");
        input.append(references[i].as_str());
        input.append("\n");
        assert(all.take(i + 1).drop_last() =~= all.take(i as int));
        assert(all.take(i + 1).last() == references@[i as int]@);
        assert(input@ =~= "start\n"@ + delete_lines(all.take(i + 1)));
        i += 1;
    }
    assert(all.take(i as int) =~= all);
    input.append("prepare\ncommit\n");
    let mut options = RunOptions::default();
    options.input = Some(input);
    Ok(git(project_path, words2("update-ref", "--stdin"), options))
}

/// The command that lists the recovery refs, and the refs it listed; none where Git could not.
pub fn list_recovery_refs(project_path: &str, runs: &Vec<RunResult>) -> (r: Next<
    Option<Vec<String>>,
>)
    ensures
        match r {
            Next::Run(call) => runs.len() == 0 && call@ == process::git_try(
                project_path@,
                seq!["for-each-ref"@, "--format=%(refname)"@, "refs/resync/recovery"@],
            ),
            Next::Done(Some(list)) => runs.len() > 0 && runs@[0].code == 0 && text::views(list@)
                == text::nonempty(text::lines(runs@[0].stdout@)),
            Next::Done(None) => runs.len() > 0 && runs@[0].code != 0,
        },
{
    if runs.len() == 0 {
        return Next::Run(
            git_lenient(
                project_path,
                words3("for-each-ref", "--format=%(refname)", "refs/resync/recovery"),
            ),
        );
    }
    if runs[0].code == 0 {
        Next::Done(Some(keep_nonempty(lines_of(runs[0].stdout.as_str()))))
    } else {
        Next::Done(None)
    }
}

/// A record that a collection looks at, with the bytes that it takes now and those it needs.
#[derive(Debug, Clone, PartialEq, Eq)]
pub struct GcEntry {
    pub transaction: Transaction,
    pub original_bytes: u64,
    pub compact_bytes: u64,
    pub retain: bool,
}

/// What a [`GcEntry`] holds.
pub struct GcEntryView {
    pub transaction: TransactionView,
    pub original_bytes: u64,
    pub compact_bytes: u64,
    pub retain: bool,
}

impl View for GcEntry {
    type V = GcEntryView;

    open spec fn view(&self) -> GcEntryView {
        GcEntryView {
            transaction: self.transaction@,
            original_bytes: self.original_bytes,
            compact_bytes: self.compact_bytes,
            retain: self.retain,
        }
    }
}

/// The contents of a list of entries.
pub open spec fn entry_views(entries: Seq<GcEntry>) -> Seq<GcEntryView> {
    entries.map_values(|e: GcEntry| e@)
}

/// A record that must stay: its installation may have been cut short, or its conflict is the one
/// that a project is in.
pub open spec fn must_stay(t: TransactionView, active: Seq<Seq<char>>) -> bool {
    t.phase == "INSTALLING"@ || (t.phase == "CONFLICTED"@ && paths::holds_path(active, t.project_path))
}

/// A record of the given size, to be retained where it must stay.
pub fn gc_entry(
    transaction: Transaction,
    original_bytes: u64,
    compact_bytes: u64,
    active_conflict_paths: &Vec<String>,
) -> (r: GcEntry)
    ensures
        r@ == (GcEntryView {
            transaction: transaction@,
            original_bytes,
            compact_bytes,
            retain: must_stay(transaction@, text::views(active_conflict_paths@)),
        }),
{
    let retain = same_text(transaction.phase.as_str(), "INSTALLING") || (same_text(
        transaction.phase.as_str(),
        "CONFLICTED",
    ) && has_path(active_conflict_paths, transaction.project_path.as_str()));
    GcEntry { transaction, original_bytes, compact_bytes, retain }
}

/// A record that was read, with the bytes that it takes now and those it needs.
#[derive(Debug, Clone, PartialEq, Eq)]
pub struct ScannedRecord {
    pub transaction: Transaction,
    pub original_bytes: u64,
    pub compact_bytes: u64,
}

/// What a [`ScannedRecord`] holds.
pub struct ScannedRecordView {
    pub transaction: TransactionView,
    pub original_bytes: u64,
    pub compact_bytes: u64,
}

impl View for ScannedRecord {
    type V = ScannedRecordView;

    open spec fn view(&self) -> ScannedRecordView {
        ScannedRecordView {
            transaction: self.transaction@,
            original_bytes: self.original_bytes,
            compact_bytes: self.compact_bytes,
        }
    }
}

/// The contents of a list of records.
pub open spec fn record_views(records: Seq<ScannedRecord>) -> Seq<ScannedRecordView> {
    records.map_values(|r: ScannedRecord| r@)
}

/// The entry of a record, to be retained where it must stay.
pub open spec fn scanned_entry(r: ScannedRecordView, active: Seq<Seq<char>>) -> GcEntryView {
    GcEntryView {
        transaction: r.transaction,
        original_bytes: r.original_bytes,
        compact_bytes: r.compact_bytes,
        retain: must_stay(r.transaction, active),
    }
}

/// The entries of records, those retained that must stay.
pub open spec fn scanned_entries(
    records: Seq<ScannedRecordView>,
    active: Seq<Seq<char>>,
) -> Seq<GcEntryView> {
    records.map_values(|r: ScannedRecordView| scanned_entry(r, active))
}

/// The entries of records, those retained that must stay or that a debug history keeps.
pub open spec fn collected(
    records: Seq<ScannedRecordView>,
    active: Seq<Seq<char>>,
    debug: bool,
) -> Seq<GcEntryView> {
    selected(scanned_entries(records, active), debug)
}

/// The bytes that the first `n` records take.
pub open spec fn scanned_bytes(records: Seq<ScannedRecordView>, n: int) -> int
    decreases n,
{
    if n <= 0 {
        0
    } else {
        scanned_bytes(records, n - 1) + records[n - 1].original_bytes
    }
}

/// Decides which records a collection retains, and which projects it is about.
pub fn gc_entries(
    records: &Vec<ScannedRecord>,
    managed_project_paths: &Vec<String>,
    active_conflict_paths: &Vec<String>,
    retention: TransactionRetention,
) -> (r: (Vec<GcEntry>, Vec<String>))
    ensures
        entry_views(r.0@) == collected(
            record_views(records@),
            text::views(active_conflict_paths@),
            retention.debug_history,
        ),
        paths::is_path_set(
            text::views(r.1@),
            concerned(text::views(managed_project_paths@), entry_views(r.0@)),
        ),
{
    let ghost all = scanned_entries(record_views(records@), text::views(active_conflict_paths@));
    let mut entries: Vec<GcEntry> = Vec::new();
    let mut i: usize = 0;
    assert(entry_views(entries@) =~= all.take(0));
    while i < records.len()
        invariant
            0 <= i <= records.len(),
            all == scanned_entries(record_views(records@), text::views(active_conflict_paths@)),
            entry_views(entries@) == all.take(i as int),
        decreases records.len() - i,
    {
        let ghost before = entries@;
        let record = &records[i];
        let entry = gc_entry(
            record.transaction.copy(),
            record.original_bytes,
            record.compact_bytes,
            active_conflict_paths,
        );
        assert(record_views(records@)[i as int] == records@[i as int]@);
        assert(entry@ == all[i as int]);
        entries.push(entry);
        assert(entry_views(entries@) =~= entry_views(before).push(entry@));
        assert(all.take(i + 1) =~= all.take(i as int).push(all[i as int]));
        i += 1;
    }
    assert(all.take(i as int) =~= all);
    gc_select(&mut entries, retention);
    let paths = gc_project_paths(managed_project_paths, &entries);
    (entries, paths)
}

/// When each record was created.
pub open spec fn entry_ages(entries: Seq<GcEntryView>) -> Seq<Seq<char>> {
    entries.map_values(|e: GcEntryView| e.transaction.created_at)
}

/// The bytes that each record needs.
pub open spec fn entry_sizes(entries: Seq<GcEntryView>) -> Seq<u64> {
    entries.map_values(|e: GcEntryView| e.compact_bytes)
}

/// The records that nothing retains yet.
pub open spec fn entry_free(entries: Seq<GcEntryView>) -> Seq<bool> {
    entries.map_values(|e: GcEntryView| !e.retain)
}

/// The records after a bounded history has retained what it keeps, where there is one.
pub open spec fn selected(entries: Seq<GcEntryView>, debug: bool) -> Seq<GcEntryView> {
    if debug {
        let kept = history::bounded_history(
            entry_ages(entries),
            entry_sizes(entries),
            entry_free(entries),
            0,
        ).flags;
        Seq::new(
            entries.len(),
            |i: int| GcEntryView { retain: entries[i].retain || kept[i], ..entries[i] },
        )
    } else {
        entries
    }
}

/// Retains what the debug history keeps of the records that nothing else retains.
pub fn gc_select(entries: &mut Vec<GcEntry>, retention: TransactionRetention)
    ensures
        entry_views(final(entries)@) == selected(
            entry_views(old(entries)@),
            retention.debug_history,
        ),
{
    if !retention.debug_history {
        return;
    }
    let ghost before = entry_views(entries@);
    let mut ages: Vec<String> = Vec::new();
    let mut sizes: Vec<u64> = Vec::new();
    let mut free: Vec<bool> = Vec::new();
    let mut i: usize = 0;
    assert(text::views(ages@) =~= entry_ages(before).take(0));
    assert(sizes@ =~= entry_sizes(before).take(0));
    assert(free@ =~= entry_free(before).take(0));
    while i < entries.len()
        invariant
            0 <= i <= entries.len(),
            before == entry_views(entries@),
            ages.len() == i,
            text::views(ages@) == entry_ages(before).take(i as int),
            sizes@ == entry_sizes(before).take(i as int),
            free@ == entry_free(before).take(i as int),
        decreases entries.len() - i,
    {
        let ghost old_ages = ages@;
        ages.push(entries[i].transaction.created_at.clone());
        sizes.push(entries[i].compact_bytes);
        free.push(!entries[i].retain);
        assert(before[i as int] == entries@[i as int]@);
        i += 1;
        assert(text::views(ages@) =~= text::views(old_ages).push(before[i - 1].transaction.created_at));
        assert(entry_ages(before).take(i as int) =~= entry_ages(before).take(i - 1).push(
            before[i - 1].transaction.created_at,
        ));
        assert(entry_sizes(before).take(i as int) =~= entry_sizes(before).take(i - 1).push(
            before[i - 1].compact_bytes,
        ));
        assert(entry_free(before).take(i as int) =~= entry_free(before).take(i - 1).push(
            !before[i - 1].retain,
        ));
    }
    assert(entry_ages(before).take(i as int) =~= entry_ages(before));
    assert(entry_sizes(before).take(i as int) =~= entry_sizes(before));
    assert(entry_free(before).take(i as int) =~= entry_free(before));
    let kept = keep_newest(&ages, &sizes, &free, 0);
    let ghost goal = selected(before, true);
    let mut k: usize = 0;
    while k < entries.len()
        invariant
            0 <= k <= entries.len(),
            kept.len() == entries.len() == before.len() == goal.len(),
            goal == selected(before, true),
            kept@ == history::bounded_history(
                entry_ages(before),
                entry_sizes(before),
                entry_free(before),
                0,
            ).flags,
            forall|j: int| 0 <= j < k ==> (#[trigger] entries@[j])@ == goal[j],
            forall|j: int| k <= j < entries.len() ==> (#[trigger] entries@[j])@ == before[j],
        decreases entries.len() - k,
    {
        if kept[k] {
            entries[k].retain = true;
        }
        assert(entries@[k as int]@ == goal[k as int]);
        k += 1;
    }
    assert(entry_views(entries@) =~= goal);
}

/// The projects that a collection is about: the managed ones, then those that the records name.
pub open spec fn concerned(managed: Seq<Seq<char>>, entries: Seq<GcEntryView>) -> Seq<Seq<char>> {
    managed + entries.map_values(|e: GcEntryView| e.transaction.project_path)
}

/// The projects whose recovery refs a collection looks at, in the order of their paths, each once.
pub fn gc_project_paths(managed_project_paths: &Vec<String>, entries: &Vec<GcEntry>) -> (r: Vec<
    String,
>)
    ensures
        paths::is_path_set(
            text::views(r@),
            concerned(text::views(managed_project_paths@), entry_views(entries@)),
        ),
{
    let mut all = copy_list(managed_project_paths);
    let ghost managed = text::views(managed_project_paths@);
    let ghost records = entry_views(entries@);
    let mut i: usize = 0;
    assert(text::views(all@) =~= concerned(managed, records.take(0)));
    while i < entries.len()
        invariant
            0 <= i <= entries.len(),
            records == entry_views(entries@),
            text::views(all@) == concerned(managed, records.take(i as int)),
        decreases entries.len() - i,
    {
        let ghost before = text::views(all@);
        let path = entries[i].transaction.project_path.clone();
        all.push(path);
        assert(text::views(all@) =~= before.push(path@));
        assert(records[i as int] == entries@[i as int]@);
        assert(records.take(i + 1) =~= records.take(i as int).push(records[i as int]));
        assert(concerned(managed, records.take(i + 1)) =~= before.push(
            records[i as int].transaction.project_path,
        ));
        i += 1;
    }
    assert(records.take(i as int) =~= records);
    ordered_paths(&all)
}

/// A ref that a retained record of the project at `path` needs.
pub open spec fn is_required(
    entries: Seq<GcEntryView>,
    path: Seq<char>,
    reference: Seq<char>,
) -> bool {
    exists|i: int|
        0 <= i < entries.len() && #[trigger] needs_ref(entries[i], path, reference)
}

/// A ref that one retained record needs.
pub open spec fn needs_ref(e: GcEntryView, path: Seq<char>, reference: Seq<char>) -> bool {
    e.retain && paths::same_place(e.transaction.project_path, path) && (reference
        == e.transaction.recovery_ref + "/head"@ || reference == e.transaction.recovery_ref
        + "/index"@ || reference == e.transaction.recovery_ref + "/working"@)
}

/// The refs that no retained record needs, in order.
pub open spec fn unneeded(
    entries: Seq<GcEntryView>,
    path: Seq<char>,
    refs: Seq<Seq<char>>,
) -> Seq<Seq<char>> {
    refs.filter(|r: Seq<char>| !is_required(entries, path, r))
}

fn required(entries: &Vec<GcEntry>, path: &str, reference: &str) -> (r: bool)
    ensures
        r == is_required(entry_views(entries@), path@, reference@),
{
    let ghost all = entry_views(entries@);
    let mut i: usize = 0;
    while i < entries.len()
        invariant
            0 <= i <= entries.len(),
            all == entry_views(entries@),
            forall|j: int| 0 <= j < i ==> !#[trigger] needs_ref(all[j], path@, reference@),
        decreases entries.len() - i,
    {
        assert(all[i as int] == entries@[i as int]@);
        let t = &entries[i].transaction;
        if entries[i].retain && same_path(t.project_path.as_str(), path) {
            let head = cat2(t.recovery_ref.as_str(), "/head");
            let index = cat2(t.recovery_ref.as_str(), "/index");
            let working = cat2(t.recovery_ref.as_str(), "/working");
            if same_text(reference, head.as_str()) || same_text(reference, index.as_str())
                || same_text(reference, working.as_str()) {
                assert(needs_ref(all[i as int], path@, reference@));
                return true;
            }
        }
        i += 1;
    }
    false
}

fn keep_unneeded(entries: &Vec<GcEntry>, path: &str, refs: &Vec<String>) -> (r: Vec<String>)
    ensures
        text::views(r@) == unneeded(entry_views(entries@), path@, text::views(refs@)),
        r.len() <= refs.len(),
{
    let ghost all = text::views(refs@);
    let ghost keep = |r: Seq<char>| !is_required(entry_views(entries@), path@, r);
    let mut r: Vec<String> = Vec::new();
    let mut i: usize = 0;
    assert(all.take(0) =~= Seq::empty());
    assert(all.take(0).filter(keep) =~= Seq::empty()) by {
        reveal(Seq::filter);
    }
    while i < refs.len()
        invariant
            0 <= i <= refs.len(),
            all == text::views(refs@),
            r.len() <= i,
            keep == (|r: Seq<char>| !is_required(entry_views(entries@), path@, r)),
            text::views(r@) == all.take(i as int).filter(keep),
        decreases refs.len() - i,
    {
        let ghost next = all.take(i + 1);
        assert(next.drop_last() =~= all.take(i as int));
        assert(next.last() == refs@[i as int]@);
        reveal(Seq::filter);
        let ghost before = r@;
        if !required(entries, path, refs[i].as_str()) {
            r.push(refs[i].clone());
            assert(text::views(r@) =~= text::views(before).push(refs@[i as int]@));
        }
        i += 1;
    }
    assert(all.take(i as int) =~= all);
    r
}

/// What a collection found and did.
#[derive(Debug, Clone, Copy, PartialEq, Eq)]
pub struct TransactionGcReport {
    pub dry_run: bool,
    pub debug_history: bool,
    pub scanned: usize,
    pub retained: usize,
    pub removed: usize,
    pub compacted: usize,
    pub invalid_retained: usize,
    pub recovery_refs_prunable: usize,
    pub recovery_refs_removed: usize,
    pub recovery_refs_skipped: usize,
    pub bytes_reclaimed: u64,
}

/// The refs of one project that are to be deleted.
#[derive(Debug, Clone, PartialEq, Eq)]
pub struct RefDeletion {
    pub project_path: String,
    pub references: Vec<String>,
}

/// What a collection is to do, and its report once that is done.
#[derive(Debug, Clone, PartialEq, Eq)]
pub struct GcPlan {
    pub report: TransactionGcReport,
    /// The refs to delete, by project.
    pub deletions: Vec<RefDeletion>,
    /// The entries whose records are to be written anew, where they are retained, or to be removed.
    pub changes: Vec<usize>,
}

/// What a [`GcPlan`] holds.
#[verifier::ext_equal]
pub struct GcPlanView {
    pub report: TransactionGcReport,
    pub deletions: Seq<(Seq<char>, Seq<Seq<char>>)>,
    pub changes: Seq<int>,
}

impl View for GcPlan {
    type V = GcPlanView;

    open spec fn view(&self) -> GcPlanView {
        GcPlanView {
            report: self.report,
            deletions: deletion_views(self.deletions@),
            changes: history::indices(self.changes@),
        }
    }
}

/// A retained record that takes more bytes than it needs.
pub open spec fn compactable(e: GcEntryView) -> bool {
    e.retain && e.compact_bytes < e.original_bytes
}

/// A record that a collection writes anew or removes.
pub open spec fn is_changed(e: GcEntryView) -> bool {
    !e.retain || compactable(e)
}

/// The number of entries among the first `n` that satisfy a condition.
pub open spec fn tally(
    entries: Seq<GcEntryView>,
    condition: spec_fn(GcEntryView) -> bool,
    n: int,
) -> nat
    decreases n,
{
    if n <= 0 {
        0
    } else {
        tally(entries, condition, n - 1) + if condition(entries[n - 1]) {
            1nat
        } else {
            0nat
        }
    }
}

/// The indices among the first `n` whose entries satisfy a condition, in order.
pub open spec fn chosen(
    entries: Seq<GcEntryView>,
    condition: spec_fn(GcEntryView) -> bool,
    n: int,
) -> Seq<int>
    decreases n,
{
    if n <= 0 {
        Seq::empty()
    } else if condition(entries[n - 1]) {
        chosen(entries, condition, n - 1).push(n - 1)
    } else {
        chosen(entries, condition, n - 1)
    }
}

/// The bytes that one entry gives back.
pub open spec fn entry_reclaims(e: GcEntryView) -> int {
    if !e.retain {
        e.original_bytes as int
    } else if e.compact_bytes < e.original_bytes {
        e.original_bytes - e.compact_bytes
    } else {
        0
    }
}

/// The bytes that the first `n` entries give back.
pub open spec fn reclaims(entries: Seq<GcEntryView>, n: int) -> int
    decreases n,
{
    if n <= 0 {
        0
    } else {
        reclaims(entries, n - 1) + entry_reclaims(entries[n - 1])
    }
}

/// The contents of the lists of refs that projects were found to have.
pub open spec fn ref_views(refs: Seq<Option<Vec<String>>>) -> Seq<Option<Seq<Seq<char>>>> {
    refs.map_values(|list: Option<Vec<String>>| list_view(list))
}

/// The contents of a list that may be missing.
pub open spec fn list_view(list: Option<Vec<String>>) -> Option<Seq<Seq<char>>> {
    match list {
        Some(list) => Some(text::views(list@)),
        None => None,
    }
}

/// The refs that a project was found to have, if it could be asked.
pub open spec fn found_refs(refs: Seq<Option<Seq<Seq<char>>>>, i: int) -> Seq<Seq<char>> {
    match refs[i] {
        Some(list) => list,
        None => Seq::empty(),
    }
}

/// The number of refs of the first `n` projects that no retained record needs.
pub open spec fn unneeded_count(
    entries: Seq<GcEntryView>,
    paths: Seq<Seq<char>>,
    refs: Seq<Option<Seq<Seq<char>>>>,
    n: int,
) -> nat
    decreases n,
{
    if n <= 0 {
        0
    } else {
        unneeded_count(entries, paths, refs, n - 1) + unneeded(
            entries,
            paths[n - 1],
            found_refs(refs, n - 1),
        ).len()
    }
}

/// The deletions for the first `n` projects, where there is something to delete.
pub open spec fn deletions_for(
    entries: Seq<GcEntryView>,
    paths: Seq<Seq<char>>,
    refs: Seq<Option<Seq<Seq<char>>>>,
    n: int,
) -> Seq<(Seq<char>, Seq<Seq<char>>)>
    decreases n,
{
    if n <= 0 {
        Seq::empty()
    } else {
        let before = deletions_for(entries, paths, refs, n - 1);
        let list = unneeded(entries, paths[n - 1], found_refs(refs, n - 1));
        if list.len() > 0 {
            before.push((paths[n - 1], list))
        } else {
            before
        }
    }
}

/// The contents of a list of deletions.
pub open spec fn deletion_views(list: Seq<RefDeletion>) -> Seq<(Seq<char>, Seq<Seq<char>>)> {
    list.map_values(|d: RefDeletion| (d.project_path@, text::views(d.references@)))
}

/// The first ref of a retained record, from position `i`, that is no recovery ref.
pub open spec fn bad_ref(entries: Seq<GcEntryView>, i: int) -> Option<Seq<char>>
    decreases entries.len() - i,
{
    if i >= entries.len() {
        None
    } else if entries[i].retain && !valid_recovery_ref(entries[i].transaction.recovery_ref) {
        Some(entries[i].transaction.recovery_ref)
    } else {
        bad_ref(entries, i + 1)
    }
}

/// The plan of a collection. Records that could not be read stay, and while there are any no ref is
/// deleted, since they may need it. A trial run changes nothing.
pub open spec fn planned(
    entries: Seq<GcEntryView>,
    invalid_retained: usize,
    paths: Seq<Seq<char>>,
    refs: Seq<Option<Seq<Seq<char>>>>,
    debug: bool,
    dry_run: bool,
) -> GcPlanView {
    let n = entries.len() as int;
    let loose = unneeded_count(entries, paths, refs, paths.len() as int);
    GcPlanView {
        report: TransactionGcReport {
            dry_run,
            debug_history: debug,
            scanned: (n + invalid_retained) as usize,
            retained: (tally(entries, |e: GcEntryView| e.retain, n) + invalid_retained) as usize,
            removed: tally(entries, |e: GcEntryView| !e.retain, n) as usize,
            compacted: tally(entries, |e: GcEntryView| compactable(e), n) as usize,
            invalid_retained,
            recovery_refs_prunable: if invalid_retained == 0 {
                loose as usize
            } else {
                0
            },
            recovery_refs_removed: if invalid_retained == 0 && !dry_run {
                loose as usize
            } else {
                0
            },
            recovery_refs_skipped: if invalid_retained == 0 {
                0
            } else {
                loose as usize
            },
            bytes_reclaimed: reclaims(entries, n) as u64,
        },
        deletions: if invalid_retained == 0 && !dry_run {
            deletions_for(entries, paths, refs, paths.len() as int)
        } else {
            Seq::empty()
        },
        changes: if dry_run {
            Seq::empty()
        } else {
            chosen(entries, |e: GcEntryView| is_changed(e), n)
        },
    }
}

/// The number of refs that the projects were found to have.
pub open spec fn refs_total(refs: Seq<Option<Seq<Seq<char>>>>, n: int) -> nat
    decreases n,
{
    if n <= 0 {
        0
    } else {
        refs_total(refs, n - 1) + found_refs(refs, n - 1).len()
    }
}

/// Plans a collection, once the refs of its projects are known; refused where a retained record
/// names no recovery ref.
pub fn gc_plan(
    entries: &Vec<GcEntry>,
    invalid_retained: usize,
    project_paths: &Vec<String>,
    refs: &Vec<Option<Vec<String>>>,
    retention: TransactionRetention,
    dry_run: bool,
) -> (r: Result<GcPlan, TransactionError>)
    requires
        refs.len() == project_paths.len(),
        entries.len() + invalid_retained <= usize::MAX,
        refs_total(ref_views(refs@), refs.len() as int) <= usize::MAX,
        reclaims(entry_views(entries@), entries.len() as int) <= u64::MAX,
    ensures
        match r {
            Err(e) => {
                &&& e matches TransactionError::InvalidRecoveryRef(name)
                &&& bad_ref(entry_views(entries@), 0) == Some(name@)
            },
            Ok(plan) => {
                &&& bad_ref(entry_views(entries@), 0) is None
                &&& plan@ == planned(
                    entry_views(entries@),
                    invalid_retained,
                    text::views(project_paths@),
                    ref_views(refs@),
                    retention.debug_history,
                    dry_run,
                )
                &&& plan.report.scanned == plan.report.retained + plan.report.removed
            },
        },
{
    let ghost all = entry_views(entries@);
    let ghost stays = |e: GcEntryView| e.retain;
    let ghost goes = |e: GcEntryView| !e.retain;
    let ghost shrinks = |e: GcEntryView| compactable(e);
    let ghost changed = |e: GcEntryView| is_changed(e);
    let mut retained: usize = 0;
    let mut removed: usize = 0;
    let mut compacted: usize = 0;
    let mut bytes: u64 = 0;
    let mut changes: Vec<usize> = Vec::new();
    let mut i: usize = 0;
    assert(history::indices(changes@) =~= Seq::empty());
    while i < entries.len()
        invariant
            0 <= i <= entries.len(),
            all == entry_views(entries@),
            stays == (|e: GcEntryView| e.retain),
            goes == (|e: GcEntryView| !e.retain),
            shrinks == (|e: GcEntryView| compactable(e)),
            changed == (|e: GcEntryView| is_changed(e)),
            reclaims(all, entries.len() as int) <= u64::MAX,
            retained == tally(all, stays, i as int),
            removed == tally(all, goes, i as int),
            compacted == tally(all, shrinks, i as int),
            retained + removed == i,
            compacted <= i,
            bytes == reclaims(all, i as int),
            history::indices(changes@) == if dry_run {
                Seq::empty()
            } else {
                chosen(all, changed, i as int)
            },
            bad_ref(all, 0) == bad_ref(all, i as int),
        decreases entries.len() - i,
    {
        let entry = &entries[i];
        assert(all[i as int] == entries@[i as int]@);
        proof {
            lemma_reclaims_grow(all, i + 1, entries.len() as int);
        }
        let ghost before = changes@;
        if entry.retain {
            match validate_recovery_ref(entry.transaction.recovery_ref.as_str()) {
                Ok(()) => {},
                Err(e) => {
                    return Err(e);
                },
            }
            retained += 1;
            if entry.compact_bytes < entry.original_bytes {
                compacted += 1;
                bytes += entry.original_bytes - entry.compact_bytes;
            }
        } else {
            removed += 1;
            bytes += entry.original_bytes;
        }
        if !dry_run && (!entry.retain || entry.compact_bytes < entry.original_bytes) {
            changes.push(i);
            assert(history::indices(changes@) =~= history::indices(before).push(i as int));
        }
        i += 1;
    }
    let ghost paths = text::views(project_paths@);
    let ghost seen = ref_views(refs@);
    let mut loose: usize = 0;
    let mut deletions: Vec<RefDeletion> = Vec::new();
    let mut k: usize = 0;
    assert(deletion_views(deletions@) =~= Seq::empty());
    while k < project_paths.len()
        invariant
            0 <= k <= project_paths.len() == refs.len(),
            all == entry_views(entries@),
            paths == text::views(project_paths@),
            seen == ref_views(refs@),
            refs_total(seen, refs.len() as int) <= usize::MAX,
            loose == unneeded_count(all, paths, seen, k as int),
            loose <= refs_total(seen, k as int),
            deletion_views(deletions@) == if invalid_retained == 0 && !dry_run {
                deletions_for(all, paths, seen, k as int)
            } else {
                Seq::empty()
            },
        decreases project_paths.len() - k,
    {
        assert(paths[k as int] == project_paths@[k as int]@);
        assert(seen[k as int] == list_view(refs@[k as int]));
        proof {
            lemma_refs_total_grow(seen, k + 1, refs.len() as int);
        }
        match &refs[k] {
            Some(list) => {
                let unneeded_refs = keep_unneeded(entries, project_paths[k].as_str(), list);
                assert(text::views(unneeded_refs@).len() == unneeded_refs.len());
                assert(found_refs(seen, k as int).len() == list.len());
                loose += unneeded_refs.len();
                if invalid_retained == 0 && !dry_run && unneeded_refs.len() > 0 {
                    let ghost before = deletions@;
                    deletions.push(
                        RefDeletion {
                            project_path: project_paths[k].clone(),
                            references: unneeded_refs,
                        },
                    );
                    assert(deletion_views(deletions@) =~= deletion_views(before).push(
                        (paths[k as int], text::views(unneeded_refs@)),
                    ));
                }
            },
            None => {
                assert(unneeded(all, paths[k as int], Seq::empty()) =~= Seq::empty()) by {
                    reveal(Seq::filter);
                }
            },
        }
        k += 1;
    }
    let plan = GcPlan {
        report: TransactionGcReport {
            dry_run,
            debug_history: retention.debug_history,
            scanned: entries.len() + invalid_retained,
            retained: retained + invalid_retained,
            removed,
            compacted,
            invalid_retained,
            recovery_refs_prunable: if invalid_retained == 0 {
                loose
            } else {
                0
            },
            recovery_refs_removed: if invalid_retained == 0 && !dry_run {
                loose
            } else {
                0
            },
            recovery_refs_skipped: if invalid_retained == 0 {
                0
            } else {
                loose
            },
            bytes_reclaimed: bytes,
        },
        deletions,
        changes,
    };
    assert(plan@ =~= planned(
        all,
        invalid_retained,
        paths,
        seen,
        retention.debug_history,
        dry_run,
    ));
    Ok(plan)
}

proof fn lemma_collected_bytes(
    records: Seq<ScannedRecordView>,
    active: Seq<Seq<char>>,
    debug: bool,
    n: int,
)
    requires
        0 <= n <= records.len(),
    ensures
        reclaims(collected(records, active, debug), n) <= scanned_bytes(records, n),
    decreases n,
{
    if n > 0 {
        lemma_collected_bytes(records, active, debug, n - 1);
        assert(scanned_entries(records, active)[n - 1] == scanned_entry(records[n - 1], active));
    }
}

pub(crate) proof fn lemma_chosen(
    entries: Seq<GcEntryView>,
    condition: spec_fn(GcEntryView) -> bool,
    n: int,
    k: int,
)
    requires
        0 <= k < chosen(entries, condition, n).len(),
    ensures
        0 <= chosen(entries, condition, n)[k] < n,
        condition(entries[chosen(entries, condition, n)[k]]),
    decreases n,
{
    if n > 0 && k < chosen(entries, condition, n - 1).len() {
        lemma_chosen(entries, condition, n - 1, k);
    }
}

pub(crate) proof fn lemma_deletion(
    entries: Seq<GcEntryView>,
    paths: Seq<Seq<char>>,
    refs: Seq<Option<Seq<Seq<char>>>>,
    n: int,
    d: int,
)
    requires
        0 <= n <= paths.len(),
        0 <= d < deletions_for(entries, paths, refs, n).len(),
    ensures
        exists|p: int|
            #![trigger paths[p]]
            0 <= p < n && deletions_for(entries, paths, refs, n)[d] == (
                paths[p],
                unneeded(entries, paths[p], found_refs(refs, p)),
            ),
    decreases n,
{
    let before = deletions_for(entries, paths, refs, n - 1);
    if n > 0 && d < before.len() {
        lemma_deletion(entries, paths, refs, n - 1, d);
        let p = choose|p: int|
            #![trigger paths[p]]
            0 <= p < n - 1 && before[d] == (
                paths[p],
                unneeded(entries, paths[p], found_refs(refs, p)),
            );
        assert(0 <= p < n && deletions_for(entries, paths, refs, n)[d] == (
            paths[p],
            unneeded(entries, paths[p], found_refs(refs, p)),
        ));
    } else if n > 0 {
        let p = n - 1;
        assert(deletions_for(entries, paths, refs, n)[d] == (
            paths[p],
            unneeded(entries, paths[p], found_refs(refs, p)),
        ));
    }
}

/// Starts a collection of the records that were read, beside a number that could not be: the
/// projects are the managed ones and those that the records name.
pub fn gc_transactions(
    records: &Vec<ScannedRecord>,
    invalid_retained: usize,
    managed_project_paths: &Vec<String>,
    active_conflict_paths: &Vec<String>,
    retention: TransactionRetention,
    dry_run: bool,
) -> (r: Collection)
    requires
        records.len() + invalid_retained <= usize::MAX,
        scanned_bytes(record_views(records@), records.len() as int) <= u64::MAX,
    ensures
        r@ == collect::collect_start(
            collected(
                record_views(records@),
                text::views(active_conflict_paths@),
                retention.debug_history,
            ),
            invalid_retained,
            r@.paths,
            retention,
            dry_run,
        ),
        paths::is_path_set(
            r@.paths,
            concerned(text::views(managed_project_paths@), r@.entries),
        ),
        collect::collect_valid(r@),
{
    let (entries, project_paths) = gc_entries(
        records,
        managed_project_paths,
        active_conflict_paths,
        retention,
    );
    proof {
        lemma_collected_bytes(
            record_views(records@),
            text::views(active_conflict_paths@),
            retention.debug_history,
            records.len() as int,
        );
        assert(entry_views(entries@).len() == entries.len());
        assert(record_views(records@).len() == records.len());
    }
    collect::start(entries, invalid_retained, project_paths, retention, dry_run)
}

/// A trial run plans no change, and reports what a run that changes things reports, but for the
/// refs that were deleted.
pub proof fn law_trial_reports_the_same(
    entries: Seq<GcEntryView>,
    invalid_retained: usize,
    paths: Seq<Seq<char>>,
    refs: Seq<Option<Seq<Seq<char>>>>,
    debug: bool,
)
    ensures
        ({
            let trial = planned(entries, invalid_retained, paths, refs, debug, true);
            let run = planned(entries, invalid_retained, paths, refs, debug, false);
            &&& trial.deletions.len() == 0
            &&& trial.changes.len() == 0
            &&& trial.report == (TransactionGcReport {
                dry_run: true,
                recovery_refs_removed: 0,
                ..run.report
            })
        }),
{
}

pub(crate) proof fn lemma_reclaims_grow(entries: Seq<GcEntryView>, a: int, b: int)
    requires
        0 <= a <= b,
    ensures
        0 <= reclaims(entries, a) <= reclaims(entries, b),
    decreases b,
{
    if a < b {
        lemma_reclaims_grow(entries, a, b - 1);
    } else if a > 0 {
        lemma_reclaims_grow(entries, a - 1, a - 1);
    }
}

pub(crate) proof fn lemma_refs_total_grow(refs: Seq<Option<Seq<Seq<char>>>>, a: int, b: int)
    requires
        0 <= a <= b,
    ensures
        refs_total(refs, a) <= refs_total(refs, b),
    decreases b,
{
    if a < b {
        lemma_refs_total_grow(refs, a, b - 1);
    }
}

/// A record that a collection retains keeps its recovery refs: none of them is among those to be
/// deleted.
pub proof fn law_retained_refs_stay(
    entries: Seq<GcEntryView>,
    i: int,
    refs: Seq<Seq<char>>,
    suffix: Seq<char>,
)
    requires
        0 <= i < entries.len(),
        entries[i].retain,
        suffix == "/head"@ || suffix == "/index"@ || suffix == "/working"@,
    ensures
        !unneeded(entries, entries[i].transaction.project_path, refs).contains(
            entries[i].transaction.recovery_ref + suffix,
        ),
{
    let path = entries[i].transaction.project_path;
    let reference = entries[i].transaction.recovery_ref + suffix;
    assert(needs_ref(entries[i], path, reference));
    let keep = |r: Seq<char>| !is_required(entries, path, r);
    let left = unneeded(entries, path, refs);
    if left.contains(reference) {
        let k = choose|k: int| 0 <= k < left.len() && left[k] == reference;
        refs.lemma_filter_pred(keep, k);
        assert(keep(left[k]));
    }
}

/// A record whose installation may have been cut short, or whose conflict is active, is retained
/// by every collection.
pub proof fn law_needed_records_stay(
    records: Seq<ScannedRecordView>,
    active: Seq<Seq<char>>,
    debug: bool,
    i: int,
)
    requires
        0 <= i < records.len(),
        must_stay(records[i].transaction, active),
    ensures
        collected(records, active, debug)[i].retain,
        collected(records, active, debug)[i].transaction == records[i].transaction,
{
    assert(scanned_entries(records, active)[i] == scanned_entry(records[i], active));
}

/// A record of a history, as the pruning looks at it.
#[derive(Debug, Clone, PartialEq, Eq)]
pub struct HistoryRecord {
    pub id: String,
    pub phase: String,
    pub created_at: String,
    pub bytes: u64,
}

/// Whether pruning may remove a record: it is over, and it is not the protected one.
pub open spec fn prunable(r: HistoryRecord, protected_id: Option<Seq<char>>) -> bool {
    r.phase@ != "INSTALLING"@ && r.phase@ != "CONFLICTED"@ && protected_id != Some(r.id@)
}

/// The records that pruning removes: those that may go and that the bounded history does not
/// keep, the protected record being counted as kept.
pub fn prune_debug_history(records: &Vec<HistoryRecord>, protected_id: &Option<String>) -> (r: Vec<
    bool,
>)
    ensures
        r.len() == records.len(),
        ({
            let ages = Seq::new(records@.len(), |i: int| records@[i].created_at@);
            let sizes = Seq::new(records@.len(), |i: int| records@[i].bytes);
            let free = Seq::new(
                records@.len(),
                |i: int| prunable(records@[i], text::opt_view(*protected_id)),
            );
            let start: nat = if protected_id is Some {
                1
            } else {
                0
            };
            forall|i: int|
                0 <= i < r.len() ==> #[trigger] r@[i] == (free[i] && !history::bounded_history(
                    ages,
                    sizes,
                    free,
                    start,
                ).flags[i])
        }),
{
    let mut ages: Vec<String> = Vec::new();
    let mut sizes: Vec<u64> = Vec::new();
    let mut free: Vec<bool> = Vec::new();
    let mut i: usize = 0;
    while i < records.len()
        invariant
            0 <= i <= records.len(),
            ages.len() == i,
            sizes.len() == i,
            free.len() == i,
            forall|j: int| 0 <= j < i ==> (#[trigger] ages@[j])@ == records@[j].created_at@,
            forall|j: int| 0 <= j < i ==> #[trigger] sizes@[j] == records@[j].bytes,
            forall|j: int|
                0 <= j < i ==> #[trigger] free@[j] == prunable(records@[j], text::opt_view(*protected_id)),
        decreases records.len() - i,
    {
        let record = &records[i];
        let is_protected = match protected_id {
            Some(id) => same_text(id.as_str(), record.id.as_str()),
            None => false,
        };
        ages.push(record.created_at.clone());
        sizes.push(record.bytes);
        free.push(
            !same_text(record.phase.as_str(), "INSTALLING") && !same_text(
                record.phase.as_str(),
                "CONFLICTED",
            ) && !is_protected,
        );
        i += 1;
    }
    let start: usize = if protected_id.is_some() {
        1
    } else {
        0
    };
    let kept = keep_newest(&ages, &sizes, &free, start);
    assert(text::views(ages@) =~= Seq::new(records@.len(), |j: int| records@[j].created_at@));
    assert(sizes@ =~= Seq::new(records@.len(), |j: int| records@[j].bytes));
    assert(free@ =~= Seq::new(
        records@.len(),
        |j: int| prunable(records@[j], text::opt_view(*protected_id)),
    ));
    let mut r: Vec<bool> = Vec::new();
    let mut k: usize = 0;
    while k < records.len()
        invariant
            0 <= k <= records.len(),
            r.len() == k,
            kept.len() == free.len() == records.len(),
            forall|j: int| 0 <= j < k ==> #[trigger] r@[j] == (free@[j] && !kept@[j]),
        decreases records.len() - k,
    {
        r.push(free[k] && !kept[k]);
        k += 1;
    }
    r
}

/// Whether a conflict that was resolved leaves this record behind: it is a conflict of the same
/// project.
pub fn clear_resolved_conflicts(transaction: &Transaction, project_path: &str) -> (r: bool)
    ensures
        r == (paths::same_place(transaction.project_path@, project_path@) && transaction.phase@
            == "CONFLICTED"@),
{
    same_path(transaction.project_path.as_str(), project_path) && same_text(
        transaction.phase.as_str(),
        "CONFLICTED",
    )
}

/// The command that says where the recovery refs of a project are kept as files.
pub fn recovery_directory(project_path: &str) -> (r: GitCall)
    ensures
        r@ == process::git_in(
            project_path@,
            seq!["rev-parse"@, "--path-format=absolute"@, "--git-path"@, "refs/resync/recovery"@],
        ),
{
    git_strict(
        project_path,
        words4("rev-parse", "--path-format=absolute", "--git-path", "refs/resync/recovery"),
    )
}

/// Deeper paths before shallower ones.
pub open spec fn deepest_first(paths: Seq<Seq<char>>) -> bool {
    forall|i: int, j: int|
        0 <= i < j < paths.len() ==> paths::components(#[trigger] paths[i]).len() >= paths::components(
            #[trigger] paths[j],
        ).len()
}

/// Directories in the order in which they can be removed when they are empty: what lies deeper
/// comes first.
pub fn remove_empty_recovery_directories(directories: &Vec<String>) -> (r: Vec<String>)
    ensures
        deepest_first(text::views(r@)),
        text::views(r@).to_multiset() == text::views(directories@).to_multiset(),
{
    let mut r: Vec<String> = Vec::new();
    let ghost all = text::views(directories@);
    let mut i: usize = 0;
    assert(text::views(r@) =~= all.take(0));
    while i < directories.len()
        invariant
            0 <= i <= directories.len(),
            all == text::views(directories@),
            deepest_first(text::views(r@)),
            text::views(r@).to_multiset() == all.take(i as int).to_multiset(),
        decreases directories.len() - i,
    {
        let ghost before = text::views(r@);
        assert(all[i as int] == directories@[i as int]@);
        let deep = components_of(directories[i].as_str());
        let mut p: usize = r.len();
        let mut searching = true;
        while searching && p > 0
            invariant
                0 <= p <= r.len(),
                text::views(deep@) == paths::components(all[i as int]),
                before == text::views(r@),
                deepest_first(before),
                forall|j: int|
                    p <= j < r.len() ==> paths::components(#[trigger] before[j]).len() < deep.len(),
                !searching ==> p == 0 || paths::components(before[p - 1]).len() >= deep.len(),
            decreases p, searching as int,
        {
            let other = components_of(r[p - 1].as_str());
            assert(before[p - 1] == r@[p - 1]@);
            assert(text::views(other@).len() == other.len());
            if other.len() < deep.len() {
                p -= 1;
            } else {
                searching = false;
            }
        }
        r.insert(p, directories[i].clone());
        let ghost after = text::views(r@);
        assert(after =~= before.insert(p as int, all[i as int]));
        assert(text::views(deep@).len() == deep.len());
        assert forall|a: int, b: int| 0 <= a < b < after.len() implies paths::components(
            #[trigger] after[a],
        ).len() >= paths::components(#[trigger] after[b]).len() by {
            let x = if a < p {
                a
            } else {
                a - 1
            };
            let y = if b < p {
                b
            } else {
                b - 1
            };
            if a != p && b != p {
                assert(paths::components(before[x]).len() >= paths::components(before[y]).len());
            } else if b == p {
                assert(paths::components(before[a]).len() >= paths::components(before[p - 1]).len());
            } else {
                assert(paths::components(before[y]).len() < deep.len());
            }
        }
        proof {
            vstd::seq_lib::to_multiset_insert(before, p as int, all[i as int]);
            vstd::seq_lib::to_multiset_build(all.take(i as int), all[i as int]);
            assert(all.take(i + 1) =~= all.take(i as int).push(all[i as int]));
        }
        i += 1;
    }
    assert(all.take(i as int) =~= all);
    r
}

/// What is to be done with a transaction that was found on disk.
#[derive(Debug, Clone, Copy, PartialEq, Eq, Structural)]
pub enum Recovery {
    /// Nothing: no worktree was touched.
    Leave,
    /// It is over; settle it.
    Finalize,
    /// It was installing; capture the worktree and ask again.
    Inspect,
    /// Its candidate is in place; complete and settle it.
    Complete,
    /// Its candidate is not in place; put the snapshot back and settle it.
    RollBack,
}

/// What is to be done with a transaction, given its worktree where that was captured.
pub open spec fn recovery(
    t: TransactionView,
    current: Option<WorkspaceSnapshotView>,
) -> Option<Recovery> {
    if t.phase == "PREPARING"@ || t.phase == "CONFLICTED"@ {
        Some(Recovery::Leave)
    } else if t.phase == "COMPLETED"@ || t.phase == "ROLLED_BACK"@ {
        Some(Recovery::Finalize)
    } else if t.phase != "INSTALLING"@ {
        None
    } else if current is None {
        Some(Recovery::Inspect)
    } else if t.candidate is None {
        None
    } else if current->0.head == candidate_of(t).real_head {
        Some(Recovery::Complete)
    } else if current->0.head == t.snapshot.head {
        Some(Recovery::RollBack)
    } else {
        None
    }
}

/// Decides how an interrupted transaction is recovered; its record was found at `path`.
pub fn decide_recovery(
    path: &str,
    transaction: &Transaction,
    current: &Option<WorkspaceSnapshot>,
) -> (r: Result<Recovery, TransactionError>)
    ensures
        ({
            let now = match *current {
                Some(snapshot) => Some(snapshot@),
                None => None,
            };
            match r {
                Ok(what) => recovery(transaction@, now) == Some(what),
                Err(e) => recovery(transaction@, now) is None && match e {
                    TransactionError::UnknownPhase(phase) => phase@ == transaction.phase@
                        && transaction.phase@ != "INSTALLING"@,
                    TransactionError::NoCandidate => transaction.phase@ == "INSTALLING"@
                        && transaction.candidate is None,
                    TransactionError::NeedsManualRecovery(name) => transaction.phase@
                        == "INSTALLING"@ && transaction.candidate is Some && name@ == match paths::last_name(
                        path@,
                    ) {
                        Some(file) => file,
                        None => Seq::empty(),
                    },
                    _ => false,
                },
            }
        }),
{
    let phase = transaction.phase.as_str();
    if same_text(phase, "PREPARING") || same_text(phase, "CONFLICTED") {
        return Ok(Recovery::Leave);
    }
    if same_text(phase, "COMPLETED") || same_text(phase, "ROLLED_BACK") {
        return Ok(Recovery::Finalize);
    }
    if !same_text(phase, "INSTALLING") {
        return Err(TransactionError::UnknownPhase(transaction.phase.clone()));
    }
    match current {
        None => Ok(Recovery::Inspect),
        Some(snapshot) => match &transaction.candidate {
            None => Err(TransactionError::NoCandidate),
            Some(candidate) => {
                if same_text(snapshot.head.as_str(), candidate.real_head.as_str()) {
                    return Ok(Recovery::Complete);
                }
                if same_text(snapshot.head.as_str(), transaction.snapshot.head.as_str()) {
                    return Ok(Recovery::RollBack);
                }
                let name = match file_name(path) {
                    Some(name) => name,
                    None => String::new(),
                };
                Err(TransactionError::NeedsManualRecovery(name))
            },
        },
    }
}

/// The commands that put a snapshot back.
pub open spec fn rollback_calls(t: TransactionView) -> Seq<GitCallView> {
    seq![
        process::git_in(t.project_path, seq!["read-tree"@, "--reset"@, "-u"@, t.snapshot.working_tree]),
        process::git_in(t.project_path, seq!["read-tree"@, t.snapshot.index_tree]),
    ]
}

/// What becomes of a transaction that is over.
#[derive(Debug, Clone, Copy, PartialEq, Eq, Structural)]
pub enum Settlement {
    /// Its record is written, and the debug history is pruned.
    Keep,
    /// Its recovery refs and its record are removed.
    Remove,
}

/// Only a debug history keeps a transaction that is over.
pub fn finalize_recovered_transaction(retention: TransactionRetention) -> (r: Settlement)
    ensures
        r == if retention.debug_history {
            Settlement::Keep
        } else {
            Settlement::Remove
        },
{
    if retention.debug_history {
        Settlement::Keep
    } else {
        Settlement::Remove
    }
}

/// A transaction that was recovered at a point in time: completed, or rolled back.
pub open spec fn marked(t: TransactionView, what: Recovery, now: Seq<char>) -> TransactionView {
    TransactionView {
        phase: if what == Recovery::Complete {
            "COMPLETED"@
        } else {
            "ROLLED_BACK"@
        },
        recovered_at: Some(now),
        ..t
    }
}

/// Starts the recovery of the transaction whose record was found at `path`.
pub fn recover_transaction(path: &str, transaction: Transaction) -> (r: Recover)
    ensures
        r@ == recover::recover_start(
            path@,
            transaction@,
            TransactionRetention { debug_history: false },
        ),
        recover::recover_consistent(r@),
{
    recover_transaction_with_retention(
        path,
        transaction,
        TransactionRetention { debug_history: false },
    )
}

/// Starts the recovery of the transaction whose record was found at `path`, with what is kept of
/// transactions that are over.
pub fn recover_transaction_with_retention(
    path: &str,
    transaction: Transaction,
    retention: TransactionRetention,
) -> (r: Recover)
    ensures
        r@ == recover::recover_start(path@, transaction@, retention),
        recover::recover_consistent(r@),
{
    recover::start(path, transaction, retention)
}

impl Transaction {
    /// The commands that put the snapshot of the transaction back.
    pub fn rollback(&self) -> (r: Vec<GitCall>)
        ensures
            calls(r@) == rollback_calls(self@),
    {
        let path = self.project_path.as_str();
        let r = vec![
            git_strict(
                path,
                words4("read-tree", "--reset", "-u", self.snapshot.working_tree.as_str()),
            ),
            git_strict(path, words2("read-tree", self.snapshot.index_tree.as_str())),
        ];
        assert(calls(r@) =~= rollback_calls(self@));
        r
    }

    /// Marks an interrupted transaction as completed or as rolled back.
    pub fn recovered(&mut self, what: Recovery, now: &str)
        requires
            what == Recovery::Complete || what == Recovery::RollBack,
        ensures
            final(self)@ == marked(old(self)@, what, now@),
    {
        if what == Recovery::Complete {
            self.phase = "COMPLETED".to_owned();
        } else {
            self.phase = "ROLLED_BACK".to_owned();
        }
        self.recovered_at = Some(now.to_owned());
    }
}

pub(crate) proof fn lemma_phases()
    ensures
        "INSTALLING"@ != "PREPARING"@,
        "INSTALLING"@ != "CONFLICTED"@,
        "INSTALLING"@ != "COMPLETED"@,
        "INSTALLING"@ != "ROLLED_BACK"@,
{
    reveal_strlit("INSTALLING");
    reveal_strlit("PREPARING");
    reveal_strlit("CONFLICTED");
    reveal_strlit("COMPLETED");
    reveal_strlit("ROLLED_BACK");
    assert("INSTALLING"@[0] == 'I' && "CONFLICTED"@[0] == 'C');
}

/// Recovery never guesses: where the commit of the worktree is neither the one before the
/// installation nor the one after it, nothing is done.
pub proof fn law_recovery_does_not_guess(t: TransactionView, current: WorkspaceSnapshotView)
    requires
        t.phase == "INSTALLING"@,
        current.head != candidate_of(t).real_head,
        current.head != t.snapshot.head,
    ensures
        recovery(t, Some(current)) is None,
{
    lemma_phases();
}

/// A recovered transaction is over: recovering it once more only settles it.
pub proof fn law_recovery_is_final(t: TransactionView, current: Option<WorkspaceSnapshotView>)
    requires
        t.phase == "COMPLETED"@ || t.phase == "ROLLED_BACK"@,
    ensures
        recovery(t, current) == Some(Recovery::Finalize),
{
    reveal_strlit("PREPARING");
    reveal_strlit("CONFLICTED");
    reveal_strlit("COMPLETED");
    reveal_strlit("ROLLED_BACK");
    assert("PREPARING"@[0] == 'P' && "COMPLETED"@[0] == 'C' && "CONFLICTED"@.len() == 10
        && "COMPLETED"@.len() == 9 && "ROLLED_BACK"@.len() == 11);
}

} // verus!
