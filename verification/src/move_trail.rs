//! What every move of a worktree goes through: which commands it runs, in which order, on whose
//! answers, before anything is put in place.
use vstd::prelude::*;
use crate::git_state;
use crate::paths;
use crate::process;
use crate::reconcile;
use crate::text;
use crate::transaction;
use crate::git_state::{SyntheticChainView, WorkspaceSnapshotView};
use crate::process::{GitCallView, RunOptionsView, RunResultView};
use crate::reconcile::{ReconcileActionView, ReconcileEventView, ReconcileStage, ReconcileView};
use crate::state::Conflict;
use crate::transaction::{
    CandidateView, ReconcileResultView, TransactionConflictView, TransactionError, TransactionView,
};

verus! {

/// What a move begins with.
pub struct MoveOf {
    pub path: Seq<char>,
    pub previous: Seq<char>,
    pub target: Seq<char>,
    pub root: Seq<char>,
    pub debug: bool,
}

/// Where in a run of events each step of a move was answered.
pub struct Trail {
    pub branch: int,
    pub unmerged: int,
    pub captured: int,
    pub related: int,
    pub merges: int,
    pub named: int,
    pub chained: int,
    pub kept: int,
    pub opened: int,
    pub head_ref: int,
    /// Where the prepared move was recorded, if a history is kept.
    pub written: int,
    pub placed: int,
    pub checked_out: int,
    pub rebased: int,
    pub revisions: int,
    pub trees: int,
    /// Where the rebased move was recorded, if a history is kept.
    pub rewritten: int,
    pub recaptured: int,
    pub listed: int,
    pub noted: int,
    pub installed: int,
    pub completed: int,
    pub settled: int,
    pub changed: int,
    /// What ended the move in a conflict.
    pub cause: int,
    /// Where the conflict was recorded.
    pub recorded: int,
    /// Where the temporary directory was given up.
    pub cleaned: int,
    /// What ended the move in an error.
    pub fault: int,
}

/// The start of a move.
pub open spec fn begun(m: MoveOf) -> ReconcileView {
    transaction::started(m.path, m.previous, m.target, m.root, m.debug)
}

/// What the move asked for before event `i`.
#[verifier::opaque]
pub open spec fn asked(m: MoveOf, events: Seq<ReconcileEventView>, i: int) -> ReconcileActionView {
    reconcile::requested(reconcile::replayed(begun(m), events.take(i)))
}

/// The results of the commands of an event.
pub open spec fn runs_of(e: ReconcileEventView) -> Seq<RunResultView> {
    match e {
        ReconcileEventView::Ran(runs) => runs,
        _ => Seq::empty(),
    }
}

/// What the `k`th command of an event printed, without the space around it.
pub open spec fn answer_of(e: ReconcileEventView, k: int) -> Seq<char> {
    text::trim(runs_of(e)[k].stdout)
}

/// The worktree that an event captured.
pub open spec fn seen_in(e: ReconcileEventView) -> WorkspaceSnapshotView {
    e->Captured_0
}

/// The name that an event gives to a transaction: the milliseconds, a dash, and the unique name.
pub open spec fn name_in(e: ReconcileEventView) -> Seq<char> {
    text::signed_decimal(e->Identified_0) + "-"@ + e->Identified_1
}

/// The two commits of an event that preserve a worktree.
pub open spec fn chain_in(e: ReconcileEventView) -> SyntheticChainView {
    e->Chained_0
}

/// The directory of an event.
pub open spec fn place_in(e: ReconcileEventView) -> Seq<char> {
    e->Placed_0
}

/// At event `i` the worktree turned out to be on a branch.
pub open spec fn branch_at(m: MoveOf, events: Seq<ReconcileEventView>, i: int) -> bool {
    &&& 0 <= i < events.len()
    &&& asked(m, events, i) == ReconcileActionView::Git(
        seq![process::must_run(m.path, seq!["symbolic-ref"@, "--short"@, "HEAD"@])],
    )
    &&& events[i] is Ran
}

/// At event `i` the index held no unresolved merge.
pub open spec fn unmerged_at(m: MoveOf, events: Seq<ReconcileEventView>, i: int) -> bool {
    &&& 0 <= i < events.len()
    &&& asked(m, events, i) == ReconcileActionView::Git(
        seq![process::must_run(m.path, seq!["ls-files"@, "--unmerged"@])],
    )
    &&& events[i] is Ran
    &&& runs_of(events[i]).len() == 1
    &&& answer_of(events[i], 0).len() == 0
}

/// At event `i` the worktree was captured.
pub open spec fn captured_at(m: MoveOf, events: Seq<ReconcileEventView>, i: int) -> bool {
    &&& 0 <= i < events.len()
    &&& asked(m, events, i) == ReconcileActionView::Capture
    &&& events[i] is Captured
}

/// At event `i` Git was asked whether the captured commit and the new revision both descend from
/// the last applied revision.
pub open spec fn relation_asked(
    m: MoveOf,
    events: Seq<ReconcileEventView>,
    captured: int,
    i: int,
) -> bool {
    &&& 0 <= i < events.len()
    &&& asked(m, events, i) == ReconcileActionView::Git(
        seq![
            process::may_fail(
                m.path,
                seq!["merge-base"@, "--is-ancestor"@, m.previous, seen_in(events[captured]).head],
            ),
            process::may_fail(m.path, seq!["merge-base"@, "--is-ancestor"@, m.previous, m.target]),
        ],
    )
    &&& events[i] is Ran
    &&& runs_of(events[i]).len() == 2
}

/// At event `i` Git said that both of them do.
pub open spec fn related_at(
    m: MoveOf,
    events: Seq<ReconcileEventView>,
    captured: int,
    i: int,
) -> bool {
    &&& relation_asked(m, events, captured, i)
    &&& runs_of(events[i])[0].code == 0
    &&& runs_of(events[i])[1].code == 0
}

/// At event `i` the merges since the last applied revision were listed.
pub open spec fn merges_asked(
    m: MoveOf,
    events: Seq<ReconcileEventView>,
    captured: int,
    i: int,
) -> bool {
    &&& 0 <= i < events.len()
    &&& asked(m, events, i) == ReconcileActionView::Git(
        seq![
            process::must_run(
                m.path,
                seq!["rev-list"@, "--merges"@, m.previous + ".."@ + seen_in(events[captured]).head],
            ),
        ],
    )
    &&& events[i] is Ran
    &&& runs_of(events[i]).len() == 1
}

/// At event `i` there was none.
pub open spec fn merges_at(
    m: MoveOf,
    events: Seq<ReconcileEventView>,
    captured: int,
    i: int,
) -> bool {
    merges_asked(m, events, captured, i) && answer_of(events[i], 0).len() == 0
}

/// At event `i` the move was named.
pub open spec fn named_at(m: MoveOf, events: Seq<ReconcileEventView>, i: int) -> bool {
    &&& 0 <= i < events.len()
    &&& asked(m, events, i) == ReconcileActionView::Identify
    &&& events[i] is Identified
}

/// At event `i` the captured worktree was preserved as commits.
pub open spec fn chained_at(m: MoveOf, events: Seq<ReconcileEventView>, i: int) -> bool {
    &&& 0 <= i < events.len()
    &&& asked(m, events, i) == ReconcileActionView::Chain
    &&& events[i] is Chained
}

/// At event `i` the captured commit and the two that preserve the index and the files were put
/// under refs of their own.
pub open spec fn kept_at(
    m: MoveOf,
    events: Seq<ReconcileEventView>,
    captured: int,
    named: int,
    chained: int,
    i: int,
) -> bool {
    let prefix = "refs/resync/recovery/"@ + name_in(events[named]);
    &&& 0 <= i < events.len()
    &&& asked(m, events, i) == ReconcileActionView::Git(
        seq![
            process::must_run(
                m.path,
                seq!["update-ref"@, prefix + "/head"@, seen_in(events[captured]).head],
            ),
            process::must_run(
                m.path,
                seq!["update-ref"@, prefix + "/index"@, chain_in(events[chained]).index_commit],
            ),
            process::must_run(
                m.path,
                seq!["update-ref"@, prefix + "/working"@, chain_in(events[chained]).working_commit],
            ),
        ],
    )
    &&& events[i] is Ran
}

/// At event `i` the directory of the records was there.
pub open spec fn opened_at(m: MoveOf, events: Seq<ReconcileEventView>, i: int) -> bool {
    &&& 0 <= i < events.len()
    &&& asked(m, events, i) == ReconcileActionView::Open(m.root)
    &&& events[i] is Opened
}

/// At event `i` Git named the branch of the worktree in full.
pub open spec fn head_ref_at(m: MoveOf, events: Seq<ReconcileEventView>, i: int) -> bool {
    &&& 0 <= i < events.len()
    &&& asked(m, events, i) == ReconcileActionView::Git(
        seq![process::must_run(m.path, seq!["symbolic-ref"@, "HEAD"@])],
    )
    &&& events[i] is Ran
    &&& runs_of(events[i]).len() == 1
}

/// At event `i` the prepared move was recorded for the history.
pub open spec fn written_at(
    m: MoveOf,
    events: Seq<ReconcileEventView>,
    named: int,
    i: int,
) -> bool {
    &&& 0 <= i < events.len()
    &&& asked(m, events, i) is SaveDebug
    &&& asked(m, events, i)->SaveDebug_0.phase == "PREPARING"@
    &&& asked(m, events, i)->SaveDebug_0.id == name_in(events[named])
    &&& events[i] is Saved
}

/// At event `i` a temporary directory was made.
pub open spec fn placed_at(m: MoveOf, events: Seq<ReconcileEventView>, i: int) -> bool {
    &&& 0 <= i < events.len()
    &&& asked(m, events, i) == ReconcileActionView::Temporary
    &&& events[i] is Placed
}

/// At event `i` the commit that preserves the files was checked out in the temporary directory, on
/// a branch of its own.
pub open spec fn checked_out_at(
    m: MoveOf,
    events: Seq<ReconcileEventView>,
    named: int,
    chained: int,
    placed: int,
    i: int,
) -> bool {
    &&& 0 <= i < events.len()
    &&& asked(m, events, i) == ReconcileActionView::Git(
        seq![
            process::must_run(
                m.path,
                seq![
                    "-c"@,
                    "core.hooksPath=/dev/null"@,
                    "worktree"@,
                    "add"@,
                    "--detach"@,
                    place_in(events[placed]),
                    chain_in(events[chained]).working_commit,
                ],
            ),
            process::must_run(
                place_in(events[placed]),
                seq![
                    "-c"@,
                    "core.hooksPath=/dev/null"@,
                    "switch"@,
                    "-c"@,
                    "resync-candidate-"@ + name_in(events[named]),
                ],
            ),
        ],
    )
    &&& events[i] is Ran
}

/// At event `i` what lies between the last applied revision and the temporary branch was rebased
/// onto the new revision, in the temporary directory, without hooks and without an editor.
pub open spec fn rebase_asked(
    m: MoveOf,
    events: Seq<ReconcileEventView>,
    named: int,
    placed: int,
    i: int,
) -> bool {
    &&& 0 <= i < events.len()
    &&& asked(m, events, i) == ReconcileActionView::Git(
        seq![
            (GitCallView {
                args: seq![
                    "-c"@,
                    "core.hooksPath=/dev/null"@,
                    "rebase"@,
                    "--keep-empty"@,
                    "--onto"@,
                    m.target,
                    m.previous,
                    "resync-candidate-"@ + name_in(events[named]),
                ],
                options: (RunOptionsView {
                    cwd: Some(place_in(events[placed])),
                    env: seq![
                        ("GIT_SEQUENCE_EDITOR"@, ":"@),
                        ("GIT_EDITOR"@, ":"@),
                        ("GIT_COMMITTER_NAME"@, "RepoSync Reconciler"@),
                        ("GIT_COMMITTER_EMAIL"@, "reconcile@reposync.local"@),
                    ],
                    input: None,
                    allow_failure: true,
                }),
            }),
        ],
    )
    &&& events[i] is Ran
    &&& runs_of(events[i]).len() == 1
}

/// At event `i` that rebase succeeded.
pub open spec fn rebased_at(
    m: MoveOf,
    events: Seq<ReconcileEventView>,
    named: int,
    placed: int,
    i: int,
) -> bool {
    rebase_asked(m, events, named, placed, i) && runs_of(events[i])[0].code == 0
}

/// At event `i` Git named the commit of the temporary directory, its parent, and the parent of
/// that one.
pub open spec fn revisions_at(
    m: MoveOf,
    events: Seq<ReconcileEventView>,
    placed: int,
    i: int,
) -> bool {
    &&& 0 <= i < events.len()
    &&& asked(m, events, i) == ReconcileActionView::Git(
        seq![
            process::must_run(place_in(events[placed]), seq!["rev-parse"@, "HEAD"@]),
            process::must_run(place_in(events[placed]), seq!["rev-parse"@, "HEAD^"@]),
            process::must_run(place_in(events[placed]), seq!["rev-parse"@, "HEAD^^"@]),
        ],
    )
    &&& events[i] is Ran
    &&& runs_of(events[i]).len() == 3
}

/// At event `i` Git named the trees of the commit of the temporary directory and of its parent.
pub open spec fn trees_at(
    m: MoveOf,
    events: Seq<ReconcileEventView>,
    placed: int,
    revisions: int,
    i: int,
) -> bool {
    &&& 0 <= i < events.len()
    &&& asked(m, events, i) == ReconcileActionView::Git(
        seq![
            process::must_run(
                place_in(events[placed]),
                seq!["rev-parse"@, answer_of(events[revisions], 0) + "^{tree}"@],
            ),
            process::must_run(
                place_in(events[placed]),
                seq!["rev-parse"@, answer_of(events[revisions], 1) + "^{tree}"@],
            ),
        ],
    )
    &&& events[i] is Ran
    &&& runs_of(events[i]).len() == 2
}

/// At event `i` the worktree was captured again, and was as before.
pub open spec fn recaptured_at(
    m: MoveOf,
    events: Seq<ReconcileEventView>,
    captured: int,
    i: int,
) -> bool {
    captured_at(m, events, i) && seen_in(events[i]) == seen_in(events[captured])
}

/// At event `i` the paths of the tree to put in place were listed, and the files that Git does not
/// track.
pub open spec fn listing_asked(
    m: MoveOf,
    events: Seq<ReconcileEventView>,
    trees: int,
    i: int,
) -> bool {
    &&& 0 <= i < events.len()
    &&& asked(m, events, i) == ReconcileActionView::Incoming(answer_of(events[trees], 0))
    &&& events[i] is Listed
}

/// At event `i` none of the untracked files was in the way of an incoming one.
pub open spec fn listed_at(
    m: MoveOf,
    events: Seq<ReconcileEventView>,
    trees: int,
    i: int,
) -> bool {
    &&& listing_asked(m, events, trees, i)
    &&& forall|u: Seq<char>, p: Seq<char>| #[trigger]
        events[i]->Listed_1.contains(u) && #[trigger] events[i]->Listed_0.contains(p)
            ==> !git_state::in_the_way(u, p)
}

/// The record of a move that is about to be put in place: what was there, and what is to be there.
pub open spec fn record_of_install(
    m: MoveOf,
    events: Seq<ReconcileEventView>,
    h: Trail,
    t: TransactionView,
) -> bool {
    &&& t.id == name_in(events[h.named])
    &&& t.project_path == m.path
    &&& t.previous_remote_oid == m.previous
    &&& t.target_remote_oid == m.target
    &&& t.snapshot == seen_in(events[h.captured])
    &&& t.recovery_ref == "refs/resync/recovery/"@ + name_in(events[h.named])
    &&& t.head_ref == answer_of(events[h.head_ref], 0)
    &&& t.created_at == events[h.opened]->Opened_0
    &&& t.path == paths::joined(m.root, name_in(events[h.named]) + ".json"@)
    &&& t.candidate == Some(
        CandidateView {
            working_commit: answer_of(events[h.revisions], 0),
            index_commit: answer_of(events[h.revisions], 1),
            real_head: answer_of(events[h.revisions], 2),
            working_tree: answer_of(events[h.trees], 0),
            index_tree: answer_of(events[h.trees], 1),
        },
    )
}

/// At event `i` the record was written that says that the move is being put in place.
pub open spec fn noted_at(
    m: MoveOf,
    events: Seq<ReconcileEventView>,
    i: int,
) -> bool {
    &&& 0 <= i < events.len()
    &&& asked(m, events, i) is Save
    &&& asked(m, events, i)->Save_0.phase == "INSTALLING"@
    &&& events[i] is Saved
}

/// The commands that put a move in place: the files are those of the tree of the rebased commit,
/// the index is the tree of its parent, and the branch goes from the captured commit to the parent
/// of that parent.
pub open spec fn install_orders(
    m: MoveOf,
    events: Seq<ReconcileEventView>,
    h: Trail,
) -> Seq<GitCallView> {
    seq![
        process::must_run(
            m.path,
            seq!["read-tree"@, "--reset"@, "-u"@, answer_of(events[h.trees], 0)],
        ),
        process::must_run(m.path, seq!["read-tree"@, answer_of(events[h.trees], 1)]),
        process::must_run(
            m.path,
            seq![
                "update-ref"@,
                answer_of(events[h.head_ref], 0),
                answer_of(events[h.revisions], 2),
                seen_in(events[h.captured]).head,
            ],
        ),
    ]
}

/// At event `i` the move was put in place.
pub open spec fn installed_at(
    m: MoveOf,
    events: Seq<ReconcileEventView>,
    h: Trail,
    i: int,
) -> bool {
    &&& 0 <= i < events.len()
    &&& asked(m, events, i) == ReconcileActionView::Git(install_orders(m, events, h))
    &&& events[i] is Ran
}

/// At event `i` the clock was read.
pub open spec fn completed_at(m: MoveOf, events: Seq<ReconcileEventView>, i: int) -> bool {
    &&& 0 <= i < events.len()
    &&& asked(m, events, i) == ReconcileActionView::Clock
    &&& events[i] is Clock
}

/// At event `i` the record of the finished move was kept, where a history is kept, and else removed
/// with its refs.
pub open spec fn settled_at(
    m: MoveOf,
    events: Seq<ReconcileEventView>,
    completed: int,
    i: int,
) -> bool {
    &&& 0 <= i < events.len()
    &&& match asked(m, events, i) {
        ReconcileActionView::SaveDebug(t) => m.debug && t.phase == "COMPLETED"@ && t.completed_at
            == Some(events[completed]->Clock_0),
        ReconcileActionView::Remove(t) => !m.debug && t.phase == "COMPLETED"@ && t.completed_at
            == Some(events[completed]->Clock_0),
        _ => false,
    }
    &&& events[i] is Saved
}

/// At event `i` the paths were listed that differ between the two revisions.
pub open spec fn changed_at(m: MoveOf, events: Seq<ReconcileEventView>, i: int) -> bool {
    &&& 0 <= i < events.len()
    &&& asked(m, events, i) == ReconcileActionView::Git(
        seq![process::must_run(m.path, seq!["diff"@, "--name-only"@, "-z"@, m.previous, m.target])],
    )
    &&& events[i] is Ran
    &&& runs_of(events[i]).len() == 1
}

/// The `k`th step of a move took place, after the one before it.
#[verifier::opaque]
pub open spec fn step(m: MoveOf, events: Seq<ReconcileEventView>, h: Trail, k: int) -> bool {
    if k == 1 {
        m.previous.len() > 0 && m.target.len() > 0 && branch_at(m, events, h.branch)
    } else if k == 2 {
        h.branch < h.unmerged && unmerged_at(m, events, h.unmerged)
    } else if k == 3 {
        h.unmerged < h.captured && captured_at(m, events, h.captured)
    } else if k == 4 {
        m.previous != m.target && h.captured < h.related && related_at(
            m,
            events,
            h.captured,
            h.related,
        )
    } else if k == 5 {
        h.related < h.merges && merges_at(m, events, h.captured, h.merges)
    } else if k == 6 {
        h.merges < h.named && named_at(m, events, h.named)
    } else if k == 7 {
        h.named < h.chained && chained_at(m, events, h.chained)
    } else if k == 8 {
        h.chained < h.kept && kept_at(m, events, h.captured, h.named, h.chained, h.kept)
    } else if k == 9 {
        h.kept < h.opened && opened_at(m, events, h.opened)
    } else if k == 10 {
        h.opened < h.head_ref && head_ref_at(m, events, h.head_ref)
    } else if k == 11 {
        h.head_ref < h.placed && placed_at(m, events, h.placed) && (m.debug ==> h.head_ref
            < h.written < h.placed && written_at(m, events, h.named, h.written))
    } else if k == 12 {
        h.placed < h.checked_out && checked_out_at(
            m,
            events,
            h.named,
            h.chained,
            h.placed,
            h.checked_out,
        )
    } else if k == 13 {
        h.checked_out < h.rebased && rebased_at(m, events, h.named, h.placed, h.rebased)
    } else if k == 14 {
        h.rebased < h.revisions && revisions_at(m, events, h.placed, h.revisions)
    } else if k == 15 {
        h.revisions < h.trees && trees_at(m, events, h.placed, h.revisions, h.trees)
    } else if k == 16 {
        h.trees < h.recaptured && recaptured_at(m, events, h.captured, h.recaptured) && (m.debug
            ==> h.trees < h.rewritten < h.recaptured && written_at(
            m,
            events,
            h.named,
            h.rewritten,
        ))
    } else if k == 17 {
        h.recaptured < h.listed && listed_at(m, events, h.trees, h.listed)
    } else if k == 18 {
        h.listed < h.noted && noted_at(m, events, h.noted) && record_of_install(
            m,
            events,
            h,
            asked(m, events, h.noted)->Save_0,
        )
    } else if k == 19 {
        h.noted < h.installed && installed_at(m, events, h, h.installed)
    } else if k == 20 {
        h.installed < h.completed && completed_at(m, events, h.completed)
    } else if k == 21 {
        h.completed < h.settled && settled_at(m, events, h.completed, h.settled)
    } else {
        h.settled < h.changed && changed_at(m, events, h.changed)
    }
}

/// The first `n` steps of a move took place, in this order.
pub open spec fn trail(m: MoveOf, events: Seq<ReconcileEventView>, h: Trail, n: int) -> bool {
    forall|k: int| 1 <= k <= n ==> #[trigger] step(m, events, h, k)
}

proof fn lemma_asked_earlier(m: MoveOf, events: Seq<ReconcileEventView>, i: int)
    requires
        0 <= i < events.len() - 1,
    ensures
        asked(m, events.drop_last(), i) == asked(m, events, i),
        events.drop_last()[i] == events[i],
{
    reveal(asked);
    assert(events.drop_last().take(i) =~= events.take(i));
}

/// The last event a step looks at.
spec fn place_of(h: Trail, k: int) -> int {
    if k == 1 {
        h.branch
    } else if k == 2 {
        h.unmerged
    } else if k == 3 {
        h.captured
    } else if k == 4 {
        h.related
    } else if k == 5 {
        h.merges
    } else if k == 6 {
        h.named
    } else if k == 7 {
        h.chained
    } else if k == 8 {
        h.kept
    } else if k == 9 {
        h.opened
    } else if k == 10 {
        h.head_ref
    } else if k == 11 {
        h.placed
    } else if k == 12 {
        h.checked_out
    } else if k == 13 {
        h.rebased
    } else if k == 14 {
        h.revisions
    } else if k == 15 {
        h.trees
    } else if k == 16 {
        h.recaptured
    } else if k == 17 {
        h.listed
    } else if k == 18 {
        h.noted
    } else if k == 19 {
        h.installed
    } else if k == 20 {
        h.completed
    } else if k == 21 {
        h.settled
    } else {
        h.changed
    }
}

proof fn lemma_step_place(m: MoveOf, events: Seq<ReconcileEventView>, h: Trail, k: int)
    requires
        1 <= k <= 22,
        step(m, events, h, k),
    ensures
        0 <= place_of(h, k) < events.len(),
{
    reveal(step);
}

proof fn lemma_places(m: MoveOf, events: Seq<ReconcileEventView>, h: Trail, n: int)
    requires
        n <= 22,
        trail(m, events, h, n),
    ensures
        n >= 3 ==> 0 <= h.captured < events.len(),
        n >= 6 ==> 0 <= h.named < events.len(),
        n >= 7 ==> 0 <= h.chained < events.len(),
        n >= 9 ==> 0 <= h.opened < events.len(),
        n >= 10 ==> 0 <= h.head_ref < events.len(),
        n >= 11 ==> 0 <= h.placed < events.len(),
        n >= 14 ==> 0 <= h.revisions < events.len(),
        n >= 15 ==> 0 <= h.trees < events.len(),
        n >= 20 ==> 0 <= h.completed < events.len(),
        n >= 22 ==> 0 <= h.changed < events.len(),
{
    assert forall|k: int| 1 <= k <= n implies 0 <= #[trigger] place_of(h, k) < events.len() by {
        assert(step(m, events, h, k));
        lemma_step_place(m, events, h, k);
    }
    let places = (
        place_of(h, 3),
        place_of(h, 6),
        place_of(h, 7),
        place_of(h, 9),
        place_of(h, 10),
        place_of(h, 11),
        place_of(h, 14),
        place_of(h, 15),
        place_of(h, 20),
        place_of(h, 22),
    );
}

proof fn lemma_step_grows(m: MoveOf, events: Seq<ReconcileEventView>, h: Trail, k: int)
    requires
        events.len() > 0,
        1 <= k <= 22,
        trail(m, events.drop_last(), h, k),
    ensures
        step(m, events, h, k),
{
    let before = events.drop_last();
    assert(step(m, before, h, k));
    lemma_places(m, before, h, k);
    lemma_step_place(m, before, h, k);
    lemma_asked_earlier(m, events, place_of(h, k));
    if 0 <= h.written < before.len() {
        lemma_asked_earlier(m, events, h.written);
    }
    if 0 <= h.rewritten < before.len() {
        lemma_asked_earlier(m, events, h.rewritten);
    }
    reveal(step);
}

proof fn lemma_trail_grows(m: MoveOf, events: Seq<ReconcileEventView>, h: Trail, n: int)
    requires
        events.len() > 0,
        n <= 22,
        trail(m, events.drop_last(), h, n),
    ensures
        trail(m, events, h, n),
{
    assert forall|k: int| 1 <= k <= n implies #[trigger] step(m, events, h, k) by {
        lemma_step_grows(m, events, h, k);
    }
}

/// How many steps of a move lie behind its stage.
pub open spec fn depth(stage: ReconcileStage) -> int {
    match stage {
        ReconcileStage::Branch => 0,
        ReconcileStage::Unmerged => 1,
        ReconcileStage::Snapshot => 2,
        ReconcileStage::Ancestors => 3,
        ReconcileStage::Merges => 4,
        ReconcileStage::Identify => 5,
        ReconcileStage::Chain => 6,
        ReconcileStage::Preserve => 7,
        ReconcileStage::Open => 8,
        ReconcileStage::HeadRef => 9,
        ReconcileStage::Record => 10,
        ReconcileStage::Temporary => 10,
        ReconcileStage::Checkout => 11,
        ReconcileStage::Rebase => 12,
        ReconcileStage::Abort => 12,
        ReconcileStage::Conflict => 12,
        ReconcileStage::Revisions => 13,
        ReconcileStage::Trees => 14,
        ReconcileStage::KeepCandidate => 15,
        ReconcileStage::Recapture => 15,
        ReconcileStage::Incoming => 16,
        ReconcileStage::Installing => 17,
        ReconcileStage::Install => 18,
        ReconcileStage::Complete => 19,
        ReconcileStage::Settle => 20,
        ReconcileStage::Changed => 21,
        ReconcileStage::Cleanup => 11,
        ReconcileStage::Discard => 11,
        ReconcileStage::Finished => 0,
    }
}

/// What a move has recorded for the history.
spec fn history_known(
    m: MoveOf,
    events: Seq<ReconcileEventView>,
    h: Trail,
    now: ReconcileView,
) -> bool {
    &&& now.stage is Record || now.stage is KeepCandidate ==> m.debug
    &&& now.stage is Temporary && m.debug ==> h.head_ref < h.written && written_at(
        m,
        events,
        h.named,
        h.written,
    )
    &&& now.stage is Recapture && m.debug ==> h.trees < h.rewritten && written_at(
        m,
        events,
        h.named,
        h.rewritten,
    )
}

/// What a move knows is what its steps answered.
spec fn known(m: MoveOf, events: Seq<ReconcileEventView>, h: Trail, now: ReconcileView) -> bool {
    let n = depth(now.stage);
    let t = now.transaction;
    &&& t.project_path == m.path
    &&& t.previous_remote_oid == m.previous
    &&& t.target_remote_oid == m.target
    &&& now.root == m.root
    &&& now.debug == m.debug
    &&& now.stage !is Finished ==> m.previous.len() > 0 && m.target.len() > 0
    &&& n >= 3 ==> m.previous != m.target && t.snapshot == seen_in(events[h.captured])
    &&& n >= 6 ==> t.id == name_in(events[h.named]) && t.recovery_ref
        == "refs/resync/recovery/"@ + name_in(events[h.named])
        && t.path == paths::joined(m.root, name_in(events[h.named]) + ".json"@)
    &&& n >= 7 ==> now.chain == chain_in(events[h.chained])
    &&& n >= 9 ==> t.created_at == events[h.opened]->Opened_0
    &&& 10 <= n <= 16 && now.stage !is Abort && now.stage !is Conflict && now.stage !is Cleanup
        && now.stage !is Discard ==> t.phase == "PREPARING"@
    &&& history_known(m, events, h, now)
    &&& n >= 10 ==> t.head_ref == answer_of(events[h.head_ref], 0)
    &&& n >= 11 ==> now.temporary == place_in(events[h.placed])
    &&& n >= 14 ==> t.candidate is Some && t.candidate->0.working_commit == answer_of(
        events[h.revisions],
        0,
    ) && t.candidate->0.index_commit == answer_of(events[h.revisions], 1)
        && t.candidate->0.real_head == answer_of(events[h.revisions], 2)
    &&& n >= 15 ==> t.candidate->0.working_tree == answer_of(events[h.trees], 0)
        && t.candidate->0.index_tree == answer_of(events[h.trees], 1)
    &&& n == 17 ==> t.phase == "INSTALLING"@
    &&& n == 20 ==> t.phase == "COMPLETED"@ && t.completed_at == Some(
        events[h.completed]->Clock_0,
    )
}

/// Why a move ended in a conflict: the rebase failed, and its last words are the detail; the
/// worktree was no longer as it was captured; or untracked files were in the way of incoming ones.
pub open spec fn conflict_cause(
    m: MoveOf,
    events: Seq<ReconcileEventView>,
    h: Trail,
    c: TransactionConflictView,
) -> bool {
    ||| {
        let errors = runs_of(events[h.cause])[0].stderr;
        &&& trail(m, events, h, 12)
        &&& h.checked_out < h.cause
        &&& rebase_asked(m, events, h.named, h.placed, h.cause)
        &&& runs_of(events[h.cause])[0].code != 0
        &&& c.kind == "git-rebase"@
        &&& c.paths == Seq::<Seq<char>>::empty()
        &&& c.detail == text::trim(
            if errors.len() <= 4000 {
                errors
            } else {
                errors.skip(errors.len() - 4000)
            },
        )
    }
    ||| {
        &&& trail(m, events, h, 15)
        &&& h.trees < h.cause
        &&& captured_at(m, events, h.cause)
        &&& seen_in(events[h.cause]) != seen_in(events[h.captured])
        &&& c.kind == "install-rejected"@
        &&& c.paths == Seq::<Seq<char>>::empty()
        &&& c.detail
            == "workspace changed while reconciliation was prepared; retry at a new lease boundary"@
    }
    ||| {
        &&& trail(m, events, h, 16)
        &&& h.recaptured < h.cause
        &&& listing_asked(m, events, h.trees, h.cause)
        &&& c.kind == "untracked-collision"@
        &&& c.paths.len() > 0
        &&& forall|u: Seq<char>| #[trigger]
            c.paths.contains(u) <==> (events[h.cause]->Listed_1.contains(u) && exists|
                p: Seq<char>,
            |
                events[h.cause]->Listed_0.contains(p) && #[trigger] git_state::in_the_way(u, p))
        &&& c.detail == "incoming tracked paths collide with untracked files: "@ + text::join(
            c.paths,
            ", "@,
        )
    }
}

/// A move onto the revision that is already applied: the captured commit stays.
pub open spec fn ended_current(
    m: MoveOf,
    events: Seq<ReconcileEventView>,
    h: Trail,
    r: ReconcileResultView,
) -> bool {
    &&& trail(m, events, h, 3)
    &&& m.previous == m.target
    &&& r == (ReconcileResultView {
        outcome: "current"@,
        transaction_id: None,
        recovery_ref: None,
        head: Some(seen_in(events[h.captured]).head),
        old_head: None,
        new_head: None,
        changed_paths: Seq::empty(),
        detail: None,
        paths: Seq::empty(),
    })
}

/// A move that ended in a conflict, which was recorded; the result names the refs that preserve
/// the worktree.
pub open spec fn ended_conflict(
    m: MoveOf,
    events: Seq<ReconcileEventView>,
    h: Trail,
    r: ReconcileResultView,
) -> bool {
    &&& trail(m, events, h, 12)
    &&& h.cause < h.recorded < events.len()
    &&& events[h.recorded] is Saved
    &&& asked(m, events, h.recorded) is Save
    &&& asked(m, events, h.recorded)->Save_0.phase == "CONFLICTED"@
    &&& asked(m, events, h.recorded)->Save_0.id == name_in(events[h.named])
    &&& asked(m, events, h.recorded)->Save_0.conflict is Some
    &&& {
        let c = asked(m, events, h.recorded)->Save_0.conflict->0;
        &&& conflict_cause(m, events, h, c)
        &&& r == (ReconcileResultView {
            outcome: "conflict"@,
            transaction_id: Some(name_in(events[h.named])),
            recovery_ref: Some("refs/resync/recovery/"@ + name_in(events[h.named])),
            head: None,
            old_head: None,
            new_head: None,
            changed_paths: Seq::empty(),
            detail: Some(c.detail),
            paths: c.paths,
        })
    }
}

/// A move that was put in place: the result names the captured commit, the parent of the synthetic
/// index commit as the new head, and the paths that differ between the revisions.
pub open spec fn ended_applied(
    m: MoveOf,
    events: Seq<ReconcileEventView>,
    h: Trail,
    r: ReconcileResultView,
) -> bool {
    &&& trail(m, events, h, 22)
    &&& r == (ReconcileResultView {
        outcome: "applied"@,
        transaction_id: Some(name_in(events[h.named])),
        recovery_ref: None,
        head: None,
        old_head: Some(seen_in(events[h.captured]).head),
        new_head: Some(answer_of(events[h.revisions], 2)),
        changed_paths: git_state::listed_paths(runs_of(events[h.changed])[0].stdout),
        detail: None,
        paths: Seq::empty(),
    })
}

/// The temporary directory and its branch were given up.
pub open spec fn cleaned_at(
    m: MoveOf,
    events: Seq<ReconcileEventView>,
    named: int,
    placed: int,
    i: int,
) -> bool {
    &&& 0 <= i < events.len()
    &&& asked(m, events, i) == ReconcileActionView::Git(
        seq![
            process::may_fail(m.path, seq!["worktree"@, "remove"@, "--force"@, place_in(events[placed])]),
            process::may_fail(m.path, seq!["branch"@, "-D"@, "resync-candidate-"@ + name_in(events[named])]),
        ],
    )
}

/// A move that ended with a result: at once, or after the temporary directory was given up.
pub open spec fn ended(
    m: MoveOf,
    events: Seq<ReconcileEventView>,
    h: Trail,
    r: ReconcileResultView,
) -> bool {
    ||| ended_current(m, events, h, r)
    ||| {
        &&& ended_conflict(m, events, h, r) || ended_applied(m, events, h, r)
        &&& cleaned_at(m, events, h.named, h.placed, h.cleaned)
    }
}

/// Why a move ended in an error.
pub open spec fn fault_cause(
    m: MoveOf,
    events: Seq<ReconcileEventView>,
    h: Trail,
    e: TransactionError,
) -> bool {
    let i = h.fault;
    match e {
        TransactionError::MissingRevisions => m.previous.len() == 0 || m.target.len() == 0,
        TransactionError::DetachedHead => {
            &&& 0 <= i < events.len()
            &&& asked(m, events, i) == ReconcileActionView::Git(
                seq![process::must_run(m.path, seq!["symbolic-ref"@, "--short"@, "HEAD"@])],
            )
            &&& events[i] is Failed
        },
        TransactionError::UnmergedIndex => {
            &&& 0 <= i < events.len()
            &&& asked(m, events, i) == ReconcileActionView::Git(
                seq![process::must_run(m.path, seq!["ls-files"@, "--unmerged"@])],
            )
            &&& runs_of(events[i]).len() == 1
            &&& answer_of(events[i], 0).len() > 0
        },
        TransactionError::LocalDiverged => {
            &&& trail(m, events, h, 3)
            &&& h.captured < i
            &&& relation_asked(m, events, h.captured, i)
            &&& runs_of(events[i])[0].code != 0
        },
        TransactionError::RemoteRewritten => {
            &&& trail(m, events, h, 3)
            &&& h.captured < i
            &&& relation_asked(m, events, h.captured, i)
            &&& runs_of(events[i])[0].code == 0
            &&& runs_of(events[i])[1].code != 0
        },
        TransactionError::MergeCommits => {
            &&& trail(m, events, h, 4)
            &&& h.related < i
            &&& merges_asked(m, events, h.captured, i)
            &&& answer_of(events[i], 0).len() > 0
        },
        TransactionError::Step(message) => {
            &&& 0 <= i < events.len()
            &&& events[i] == ReconcileEventView::Failed(message)
        },
        _ => false,
    }
}

/// A move ends as its steps say.
spec fn ends(m: MoveOf, events: Seq<ReconcileEventView>, h: Trail, now: ReconcileView) -> bool {
    let over = now.stage is Cleanup || now.stage is Discard || now.stage is Finished;
    &&& now.failure is Some ==> over && fault_cause(m, events, h, now.failure->0)
    &&& over && now.failure is None ==> {
        ||| now.stage is Finished && ended_current(m, events, h, now.outcome)
        ||| {
            &&& ended_conflict(m, events, h, now.outcome) || ended_applied(
                m,
                events,
                h,
                now.outcome,
            )
            &&& now.stage !is Cleanup ==> cleaned_at(m, events, h.named, h.placed, h.cleaned)
        }
    }
    &&& now.stage is Abort || now.stage is Conflict ==> {
        &&& now.transaction.phase == "CONFLICTED"@
        &&& now.transaction.conflict is Some
        &&& conflict_cause(m, events, h, now.transaction.conflict->0)
        &&& h.cause < events.len()
    }
}

spec fn faithful(m: MoveOf, events: Seq<ReconcileEventView>, h: Trail) -> bool {
    let now = reconcile::replayed(begun(m), events);
    &&& trail(m, events, h, depth(now.stage))
    &&& known(m, events, h, now)
    &&& ends(m, events, h, now)
}

/// Where the step that is answered last stands in a trail.
spec fn noticed(h: Trail, was: ReconcileView, last: int) -> Trail {
    let h = if was.failure is None {
        Trail { fault: last, ..h }
    } else {
        h
    };
    match was.stage {
        ReconcileStage::Branch => Trail { branch: last, ..h },
        ReconcileStage::Unmerged => Trail { unmerged: last, ..h },
        ReconcileStage::Snapshot => Trail { captured: last, ..h },
        ReconcileStage::Ancestors => Trail { related: last, ..h },
        ReconcileStage::Merges => Trail { merges: last, ..h },
        ReconcileStage::Identify => Trail { named: last, ..h },
        ReconcileStage::Chain => Trail { chained: last, ..h },
        ReconcileStage::Preserve => Trail { kept: last, ..h },
        ReconcileStage::Open => Trail { opened: last, ..h },
        ReconcileStage::HeadRef => Trail { head_ref: last, ..h },
        ReconcileStage::Record => Trail { written: last, ..h },
        ReconcileStage::KeepCandidate => Trail { rewritten: last, ..h },
        ReconcileStage::Temporary => Trail { placed: last, ..h },
        ReconcileStage::Checkout => Trail { checked_out: last, ..h },
        ReconcileStage::Rebase => Trail { rebased: last, cause: last, ..h },
        ReconcileStage::Revisions => Trail { revisions: last, ..h },
        ReconcileStage::Trees => Trail { trees: last, ..h },
        ReconcileStage::Recapture => Trail { recaptured: last, cause: last, ..h },
        ReconcileStage::Incoming => Trail { listed: last, cause: last, ..h },
        ReconcileStage::Installing => Trail { noted: last, ..h },
        ReconcileStage::Install => Trail { installed: last, ..h },
        ReconcileStage::Complete => Trail { completed: last, ..h },
        ReconcileStage::Settle => Trail { settled: last, ..h },
        ReconcileStage::Changed => Trail { changed: last, ..h },
        ReconcileStage::Conflict => Trail { recorded: last, ..h },
        ReconcileStage::Cleanup => Trail { cleaned: last, ..h },
        _ => h,
    }
}

proof fn lemma_known_grows(
    m: MoveOf,
    events: Seq<ReconcileEventView>,
    h: Trail,
    now: ReconcileView,
)
    requires
        events.len() > 0,
        trail(m, events.drop_last(), h, depth(now.stage)),
        known(m, events.drop_last(), h, now),
    ensures
        known(m, events, h, now),
{
    let before = events.drop_last();
    lemma_places(m, before, h, depth(now.stage));
    if 0 <= h.written < before.len() {
        lemma_asked_earlier(m, events, h.written);
    }
    if 0 <= h.rewritten < before.len() {
        lemma_asked_earlier(m, events, h.rewritten);
    }
}

proof fn lemma_cause_grows(
    m: MoveOf,
    events: Seq<ReconcileEventView>,
    h: Trail,
    c: TransactionConflictView,
)
    requires
        events.len() > 0,
        conflict_cause(m, events.drop_last(), h, c),
    ensures
        conflict_cause(m, events, h, c),
{
    let before = events.drop_last();
    assert(0 <= h.cause < before.len());
    lemma_asked_earlier(m, events, h.cause);
    if trail(m, before, h, 12) {
        lemma_trail_grows(m, events, h, 12);
        lemma_places(m, before, h, 12);
    }
    if trail(m, before, h, 15) {
        lemma_trail_grows(m, events, h, 15);
        lemma_places(m, before, h, 15);
    }
    if trail(m, before, h, 16) {
        lemma_trail_grows(m, events, h, 16);
        lemma_places(m, before, h, 16);
    }
}

proof fn lemma_ended_grows(
    m: MoveOf,
    events: Seq<ReconcileEventView>,
    h: Trail,
    r: ReconcileResultView,
)
    requires
        events.len() > 0,
    ensures
        ended_current(m, events.drop_last(), h, r) ==> ended_current(m, events, h, r),
        ended_conflict(m, events.drop_last(), h, r) ==> ended_conflict(m, events, h, r),
        ended_applied(m, events.drop_last(), h, r) ==> ended_applied(m, events, h, r),
{
    let before = events.drop_last();
    if ended_current(m, before, h, r) {
        lemma_trail_grows(m, events, h, 3);
        lemma_places(m, before, h, 3);
    }
    if ended_conflict(m, before, h, r) {
        lemma_trail_grows(m, events, h, 12);
        lemma_places(m, before, h, 12);
        lemma_asked_earlier(m, events, h.recorded);
        lemma_cause_grows(m, events, h, asked(m, before, h.recorded)->Save_0.conflict->0);
    }
    if ended_applied(m, before, h, r) {
        lemma_trail_grows(m, events, h, 22);
        lemma_places(m, before, h, 22);
    }
}

proof fn lemma_fault_grows(
    m: MoveOf,
    events: Seq<ReconcileEventView>,
    h: Trail,
    e: TransactionError,
)
    requires
        events.len() > 0,
        fault_cause(m, events.drop_last(), h, e),
    ensures
        fault_cause(m, events, h, e),
{
    let before = events.drop_last();
    if 0 <= h.fault < before.len() {
        lemma_asked_earlier(m, events, h.fault);
    }
    if trail(m, before, h, 3) {
        lemma_trail_grows(m, events, h, 3);
        lemma_places(m, before, h, 3);
    }
    if trail(m, before, h, 4) {
        lemma_trail_grows(m, events, h, 4);
    }
}

proof fn lemma_ends_grows(
    m: MoveOf,
    events: Seq<ReconcileEventView>,
    h: Trail,
    now: ReconcileView,
)
    requires
        events.len() > 0,
        trail(m, events.drop_last(), h, depth(now.stage)),
        ends(m, events.drop_last(), h, now),
    ensures
        ends(m, events, h, now),
{
    let before = events.drop_last();
    lemma_ended_grows(m, events, h, now.outcome);
    if now.failure is Some {
        lemma_fault_grows(m, events, h, now.failure->0);
    }
    if now.stage is Abort || now.stage is Conflict {
        lemma_cause_grows(m, events, h, now.transaction.conflict->0);
    }
    if cleaned_at(m, before, h.named, h.placed, h.cleaned) {
        lemma_asked_earlier(m, events, h.cleaned);
        if ended_conflict(m, before, h, now.outcome) {
            lemma_places(m, before, h, 12);
        }
        if ended_applied(m, before, h, now.outcome) {
            lemma_places(m, before, h, 22);
        }
    }
}

/// The stages from which a move is no longer put in place.
spec fn is_over(stage: ReconcileStage) -> bool {
    stage is Abort || stage is Conflict || stage is Cleanup || stage is Discard
        || stage is Finished
}

/// What was noticed before stays as it was.
proof fn lemma_noticed(
    m: MoveOf,
    events: Seq<ReconcileEventView>,
    h: Trail,
    was: ReconcileView,
    last: int,
    k: int,
)
    requires
        1 <= k <= 22,
        k <= depth(was.stage) || is_over(was.stage),
        step(m, events, h, k),
    ensures
        step(m, events, noticed(h, was, last), k),
{
    reveal(step);
}

proof fn lemma_noticed_trail(
    m: MoveOf,
    events: Seq<ReconcileEventView>,
    h: Trail,
    was: ReconcileView,
    last: int,
    n: int,
)
    requires
        n <= 22,
        n <= depth(was.stage) || is_over(was.stage),
        trail(m, events, h, n),
    ensures
        trail(m, events, noticed(h, was, last), n),
{
    assert forall|k: int| 1 <= k <= n implies #[trigger] step(
        m,
        events,
        noticed(h, was, last),
        k,
    ) by {
        assert(step(m, events, h, k));
        lemma_noticed(m, events, h, was, last, k);
    }
}

/// A move before its next step.
spec fn about_to_step(
    m: MoveOf,
    events: Seq<ReconcileEventView>,
    h: Trail,
    was: ReconcileView,
) -> bool {
    &&& events.len() > 0
    &&& was == reconcile::replayed(begun(m), events.drop_last())
    &&& trail(m, events, h, depth(was.stage))
    &&& forall|k: int| 1 <= k <= depth(was.stage) ==> #[trigger] place_of(h, k) < events.len() - 1
    &&& known(m, events, h, was)
    &&& was.stage is Temporary && m.debug ==> h.written < events.len() - 1
    &&& was.stage is Recapture && m.debug ==> h.rewritten < events.len() - 1
}

/// A move after that step.
spec fn stepped(
    m: MoveOf,
    events: Seq<ReconcileEventView>,
    h: Trail,
    was: ReconcileView,
) -> bool {
    let now = reconcile::replayed(begun(m), events);
    &&& depth(now.stage) <= depth(was.stage) + 1
    &&& depth(now.stage) == depth(was.stage) + 1 ==> step(
        m,
        events,
        noticed(h, was, events.len() - 1),
        depth(was.stage) + 1,
    )
}

proof fn lemma_clear(untracked: Seq<Seq<char>>, paths: Seq<Seq<char>>)
    ensures
        git_state::collisions(untracked, paths).len() == 0 ==> forall|u: Seq<char>, p: Seq<char>| #[trigger]
            untracked.contains(u) && #[trigger] paths.contains(p) ==> !git_state::in_the_way(u, p),
{
    git_state::law_collisions_are_those_in_the_way(untracked, paths);
    let hits = git_state::collisions(untracked, paths);
    if hits.len() == 0 {
        assert forall|u: Seq<char>, p: Seq<char>| #[trigger]
            untracked.contains(u) && #[trigger] paths.contains(p) implies !git_state::in_the_way(u, p) by {
            assert(!hits.contains(u));
        }
    }
}

proof fn lemma_first_steps(m: MoveOf, events: Seq<ReconcileEventView>, h: Trail, was: ReconcileView)
    requires
        about_to_step(m, events, h, was),
        was.stage is Branch
            || was.stage is Unmerged
            || was.stage is Snapshot
            || was.stage is Ancestors
            || was.stage is Merges
            || was.stage is Identify
            || was.stage is Chain
            || was.stage is Preserve
            || was.stage is Open
            || was.stage is HeadRef,
    ensures
        stepped(m, events, h, was),
{
    let last = events.len() - 1;
    assert(events.take(last) =~= events.drop_last());
    assert(asked(m, events, last) == reconcile::requested(was)) by {
        reveal(asked);
    }
    assert(place_of(h, depth(was.stage)) < last || depth(was.stage) < 1);
    reveal(reconcile::advanced);
    reveal(step);
}

proof fn lemma_middle_steps(m: MoveOf, events: Seq<ReconcileEventView>, h: Trail, was: ReconcileView)
    requires
        about_to_step(m, events, h, was),
        was.stage is Record
            || was.stage is Temporary
            || was.stage is Checkout
            || was.stage is Rebase
            || was.stage is Abort
            || was.stage is Conflict
            || was.stage is Revisions
            || was.stage is Trees
            || was.stage is KeepCandidate,
    ensures
        stepped(m, events, h, was),
{
    let last = events.len() - 1;
    assert(events.take(last) =~= events.drop_last());
    assert(asked(m, events, last) == reconcile::requested(was)) by {
        reveal(asked);
    }
    assert(place_of(h, depth(was.stage)) < last || depth(was.stage) < 1);
    reveal(reconcile::advanced);
    reveal(step);
}

proof fn lemma_last_steps(m: MoveOf, events: Seq<ReconcileEventView>, h: Trail, was: ReconcileView)
    requires
        about_to_step(m, events, h, was),
        was.stage is Recapture
            || was.stage is Incoming
            || was.stage is Installing
            || was.stage is Install
            || was.stage is Complete
            || was.stage is Settle
            || was.stage is Changed
            || was.stage is Cleanup
            || was.stage is Discard
            || was.stage is Finished,
    ensures
        stepped(m, events, h, was),
{
    let last = events.len() - 1;
    assert(events.take(last) =~= events.drop_last());
    assert(asked(m, events, last) == reconcile::requested(was)) by {
        reveal(asked);
    }
    assert(place_of(h, depth(was.stage)) < last || depth(was.stage) < 1);
    if was.stage is Incoming && events[last] is Listed {
        lemma_clear(events[last]->Listed_1, events[last]->Listed_0);
    }
    reveal(reconcile::advanced);
    reveal(step);
}

proof fn lemma_next_step(m: MoveOf, events: Seq<ReconcileEventView>, h: Trail, was: ReconcileView)
    requires
        about_to_step(m, events, h, was),
    ensures
        stepped(m, events, h, was),
{
    if was.stage is Branch
        || was.stage is Unmerged
        || was.stage is Snapshot
        || was.stage is Ancestors
        || was.stage is Merges
        || was.stage is Identify
        || was.stage is Chain
        || was.stage is Preserve
        || was.stage is Open
        || was.stage is HeadRef {
        lemma_first_steps(m, events, h, was);
    } else if was.stage is Record
        || was.stage is Temporary
        || was.stage is Checkout
        || was.stage is Rebase
        || was.stage is Abort
        || was.stage is Conflict
        || was.stage is Revisions
        || was.stage is Trees
        || was.stage is KeepCandidate {
        lemma_middle_steps(m, events, h, was);
    } else {
        lemma_last_steps(m, events, h, was);
    }
}

proof fn lemma_known_step(m: MoveOf, events: Seq<ReconcileEventView>, h: Trail, was: ReconcileView)
    requires
        about_to_step(m, events, h, was),
    ensures
        known(m, events, noticed(h, was, events.len() - 1), reconcile::replayed(begun(m), events)),
{
    let last = events.len() - 1;
    assert(events.take(last) =~= events.drop_last());
    assert(asked(m, events, last) == reconcile::requested(was)) by {
        reveal(asked);
    }
    assert(depth(was.stage) >= 10 ==> place_of(h, 10) < last);
    assert(depth(was.stage) >= 15 ==> place_of(h, 15) < last);
    let now = reconcile::replayed(begun(m), events);
    let r = noticed(h, was, last);
    assert(now == reconcile::advanced(was, events[last]));
    assert(history_known(m, events, r, now)) by {
        reveal(reconcile::advanced);
    }
    reveal(reconcile::advanced);
}

proof fn lemma_cause_noticed(
    m: MoveOf,
    events: Seq<ReconcileEventView>,
    h: Trail,
    was: ReconcileView,
    last: int,
    c: TransactionConflictView,
)
    requires
        is_over(was.stage),
        conflict_cause(m, events, h, c),
    ensures
        conflict_cause(m, events, noticed(h, was, last), c),
{
    if trail(m, events, h, 12) {
        lemma_noticed_trail(m, events, h, was, last, 12);
    }
    if trail(m, events, h, 15) {
        lemma_noticed_trail(m, events, h, was, last, 15);
    }
    if trail(m, events, h, 16) {
        lemma_noticed_trail(m, events, h, was, last, 16);
    }
}

proof fn lemma_ended_noticed(
    m: MoveOf,
    events: Seq<ReconcileEventView>,
    h: Trail,
    was: ReconcileView,
    last: int,
    r: ReconcileResultView,
)
    requires
        is_over(was.stage),
        was.stage !is Conflict,
    ensures
        ended_current(m, events, h, r) ==> ended_current(m, events, noticed(h, was, last), r),
        ended_conflict(m, events, h, r) ==> ended_conflict(m, events, noticed(h, was, last), r),
        ended_applied(m, events, h, r) ==> ended_applied(m, events, noticed(h, was, last), r),
{
    if ended_current(m, events, h, r) {
        lemma_noticed_trail(m, events, h, was, last, 3);
    }
    if ended_conflict(m, events, h, r) {
        lemma_noticed_trail(m, events, h, was, last, 12);
        lemma_cause_noticed(
            m,
            events,
            h,
            was,
            last,
            asked(m, events, h.recorded)->Save_0.conflict->0,
        );
    }
    if ended_applied(m, events, h, r) {
        lemma_noticed_trail(m, events, h, was, last, 22);
    }
}

proof fn lemma_fault_noticed(
    m: MoveOf,
    events: Seq<ReconcileEventView>,
    h: Trail,
    was: ReconcileView,
    last: int,
    e: TransactionError,
)
    requires
        is_over(was.stage),
        was.failure is Some,
        fault_cause(m, events, h, e),
    ensures
        fault_cause(m, events, noticed(h, was, last), e),
{
    if trail(m, events, h, 3) {
        lemma_noticed_trail(m, events, h, was, last, 3);
    }
    if trail(m, events, h, 4) {
        lemma_noticed_trail(m, events, h, was, last, 4);
    }
}

/// A step of a move that is under way, and what it can end in.
proof fn lemma_ends_early(m: MoveOf, events: Seq<ReconcileEventView>, h: Trail, was: ReconcileView)
    requires
        events.len() > 0,
        was == reconcile::replayed(begun(m), events.drop_last()),
        !is_over(was.stage),
        trail(m, events, h, depth(was.stage)),
        trail(
            m,
            events,
            noticed(h, was, events.len() - 1),
            depth(reconcile::replayed(begun(m), events).stage),
        ),
        forall|k: int|
            1 <= k <= depth(was.stage) ==> #[trigger] place_of(h, k) < events.len() - 1,
        known(m, events, h, was),
        ends(m, events, h, was),
    ensures
        ends(m, events, noticed(h, was, events.len() - 1), reconcile::replayed(begun(m), events)),
{
    let before = events.drop_last();
    let last = events.len() - 1;
    let now = reconcile::replayed(begun(m), events);
    let r = noticed(h, was, last);
    assert(events.take(last) =~= before);
    assert(asked(m, events, last) == reconcile::requested(was)) by {
        reveal(asked);
    }
    let places = (
        place_of(h, 3),
        place_of(h, 4),
        place_of(h, 12),
        place_of(h, 15),
        place_of(h, 16),
        place_of(h, 21),
    );
    lemma_noticed_trail(m, events, h, was, last, depth(was.stage));
    if was.stage is Incoming && events[last] is Listed {
        git_state::law_collisions_are_those_in_the_way(events[last]->Listed_1, events[last]->Listed_0);
    }
    if was.stage is Changed && events[last] is Ran && runs_of(events[last]).len() == 1 {
        assert(step(m, events, r, 22)) by {
            reveal(step);
        }
        assert(trail(m, events, r, 22));
    }
    if was.stage is Snapshot && events[last] is Captured {
        assert(step(m, events, r, 3)) by {
            reveal(step);
            assert(place_of(h, 2) < last);
        }
        assert(trail(m, events, r, 3));
    }
    reveal(reconcile::advanced);
}

/// A step of a move that is no longer put in place.
proof fn lemma_ends_late(m: MoveOf, events: Seq<ReconcileEventView>, h: Trail, was: ReconcileView)
    requires
        events.len() > 0,
        was == reconcile::replayed(begun(m), events.drop_last()),
        is_over(was.stage),
        trail(m, events, h, depth(was.stage)),
        known(m, events, h, was),
        ends(m, events, h, was),
        was.stage is Conflict ==> h.cause < events.len() - 1,
    ensures
        ends(m, events, noticed(h, was, events.len() - 1), reconcile::replayed(begun(m), events)),
{
    let before = events.drop_last();
    let last = events.len() - 1;
    assert(events.take(last) =~= before);
    assert(asked(m, events, last) == reconcile::requested(was)) by {
        reveal(asked);
    }
    if was.stage !is Conflict {
        lemma_ended_noticed(m, events, h, was, last, was.outcome);
    }
    lemma_noticed_trail(m, events, h, was, last, depth(was.stage));
    if was.failure is Some {
        lemma_fault_noticed(m, events, h, was, last, was.failure->0);
    }
    if was.stage is Abort || was.stage is Conflict {
        lemma_cause_noticed(m, events, h, was, last, was.transaction.conflict->0);
    }
    reveal(reconcile::advanced);
}

proof fn lemma_trail_step(m: MoveOf, events: Seq<ReconcileEventView>, h: Trail)
    requires
        events.len() > 0,
        faithful(m, events.drop_last(), h),
    ensures
        faithful(
            m,
            events,
            noticed(h, reconcile::replayed(begun(m), events.drop_last()), events.len() - 1),
        ),
{
    let before = events.drop_last();
    let was = reconcile::replayed(begun(m), before);
    let now = reconcile::replayed(begun(m), events);
    let last = events.len() - 1;
    let d = depth(was.stage);
    let r = noticed(h, was, last);
    assert forall|k: int| 1 <= k <= d implies #[trigger] place_of(h, k) < last by {
        assert(step(m, before, h, k));
        lemma_step_place(m, before, h, k);
    }
    lemma_trail_grows(m, events, h, d);
    lemma_known_grows(m, events, h, was);
    lemma_ends_grows(m, events, h, was);
    lemma_next_step(m, events, h, was);
    lemma_noticed_trail(m, events, h, was, last, d);
    assert(trail(m, events, r, depth(now.stage))) by {
        assert forall|k: int| 1 <= k <= depth(now.stage) implies #[trigger] step(
            m,
            events,
            r,
            k,
        ) by {}
    }
    lemma_known_step(m, events, h, was);
    if is_over(was.stage) {
        lemma_ends_late(m, events, h, was);
    } else {
        lemma_ends_early(m, events, h, was);
    }
}

proof fn lemma_trail(m: MoveOf, events: Seq<ReconcileEventView>) -> (h: Trail)
    ensures
        faithful(m, events, h),
    decreases events.len(),
{
    if events.len() == 0 {
        arbitrary()
    } else {
        let h = lemma_trail(m, events.drop_last());
        lemma_trail_step(m, events, h);
        noticed(h, reconcile::replayed(begun(m), events.drop_last()), events.len() - 1)
    }
}

/// A move puts something in place only after the captured worktree was preserved under refs of its
/// own, its history was rebased onto the new revision, and the worktree turned out to be as it was
/// captured, with no untracked file in the way. What it puts in place is what Git answered of the
/// rebased history: the files are the tree of its last commit, the index is the tree of the parent
/// of that commit, and the branch goes to the parent of that parent. So neither of the two commits
/// that stand for the files and the index ever becomes the head of the branch.
pub proof fn law_what_is_put_in_place(m: MoveOf, events: Seq<ReconcileEventView>)
    requires
        reconcile::requested(reconcile::replayed(begun(m), events)) is Git,
        exists|k: int|
            0 <= k < reconcile::requested(reconcile::replayed(begun(m), events))->Git_0.len()
                && #[trigger] reconcile::requested(reconcile::replayed(begun(m), events))->Git_0[k].args[0]
                == "read-tree"@,
    ensures
        exists|h: Trail|
            trail(m, events, h, 18) && reconcile::requested(reconcile::replayed(begun(m), events))
                == ReconcileActionView::Git(#[trigger] install_orders(m, events, h)),
{
    let h = lemma_trail(m, events);
    let now = reconcile::replayed(begun(m), events);
    reveal_strlit("read-tree");
    reveal_strlit("symbolic-ref");
    reveal_strlit("ls-files");
    reveal_strlit("merge-base");
    reveal_strlit("rev-list");
    reveal_strlit("update-ref");
    reveal_strlit("-c");
    reveal_strlit("rev-parse");
    reveal_strlit("diff");
    reveal_strlit("worktree");
    reveal_strlit("branch");
    let k = choose|k: int|
        0 <= k < reconcile::requested(now)->Git_0.len() && #[trigger] reconcile::requested(now)->Git_0[k].args[0]
            == "read-tree"@;
    assert("read-tree"@.len() == 9 && "read-tree"@[0] == 'r' && "read-tree"@[3] == 'd');
    assert("rev-parse"@[3] == '-');
    assert(now.stage is Install);
    assert(reconcile::requested(now) == ReconcileActionView::Git(install_orders(m, events, h)));
}

/// A move ends with a result only for a reason: the revision is already applied; or the rebase
/// failed, the worktree changed or an untracked file was in the way, after all of it was preserved,
/// and the conflict is recorded; or it was put in place, and the new head is what Git named as the
/// parent of the parent of the rebased commit. The temporary directory is given up before the end.
pub proof fn law_results_have_reasons(m: MoveOf, events: Seq<ReconcileEventView>)
    requires
        reconcile::requested(reconcile::replayed(begun(m), events)) is Return,
    ensures
        exists|h: Trail| #[trigger]
            ended(m, events, h, reconcile::requested(reconcile::replayed(begun(m), events))->Return_0),
{
    let h = lemma_trail(m, events);
    assert(ended(m, events, h, reconcile::requested(reconcile::replayed(begun(m), events))->Return_0));
}

/// A move ends in an error only for its reason: a revision was not given; the worktree is on no
/// branch; its index holds unresolved merges; the captured commit or the new revision does not
/// descend from the last applied one; there are merges since then; or a step failed, and its
/// message is the error.
pub proof fn law_errors_have_reasons(m: MoveOf, events: Seq<ReconcileEventView>)
    requires
        reconcile::requested(reconcile::replayed(begun(m), events)) is Fail,
    ensures
        exists|h: Trail| #[trigger]
            fault_cause(m, events, h, reconcile::requested(reconcile::replayed(begun(m), events))->Fail_0),
{
    let h = lemma_trail(m, events);
    assert(fault_cause(m, events, h, reconcile::requested(reconcile::replayed(begun(m), events))->Fail_0));
}

/// Every answer to what a move asks for takes it to another stage.
pub proof fn law_answers_are_taken(s: ReconcileView, e: ReconcileEventView)
    requires
        match reconcile::requested(s) {
            ReconcileActionView::Git(calls) => e is Ran && runs_of(e).len() == calls.len(),
            ReconcileActionView::Capture => e is Captured,
            ReconcileActionView::Identify => e is Identified,
            ReconcileActionView::Chain => e is Chained,
            ReconcileActionView::Open(_) => e is Opened,
            ReconcileActionView::Temporary => e is Placed,
            ReconcileActionView::Save(_) => e is Saved,
            ReconcileActionView::SaveDebug(_) => e is Saved,
            ReconcileActionView::Incoming(_) => e is Listed,
            ReconcileActionView::Clock => e is Clock,
            ReconcileActionView::Remove(_) => e is Saved,
            ReconcileActionView::Return(_) => false,
            ReconcileActionView::Fail(_) => false,
        } || (e is Failed && !(reconcile::requested(s) is Return) && !(reconcile::requested(s) is Fail)),
    ensures
        reconcile::advanced(s, e).stage != s.stage,
{
    reveal(reconcile::advanced);
}

/// The record of a move is kept for the history only where one is kept.
pub proof fn law_history_is_kept_on_request(m: MoveOf, events: Seq<ReconcileEventView>)
    ensures
        reconcile::requested(reconcile::replayed(begun(m), events)) is SaveDebug ==> m.debug,
{
    let h = lemma_trail(m, events);
}

} // verus!
