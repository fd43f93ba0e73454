//! The course of each operation, answer by answer: what it asks for, what it makes of the replies,
//! and how it ends.
use vstd::prelude::*;
use crate::access;
use crate::adopt;
use crate::cli;
use crate::collect;
use crate::credentials;
use crate::daemon;
use crate::digest;
use crate::enroll;
use crate::flush;
use crate::git_state;
use crate::hook_call;
use crate::hooks;
use crate::join;
use crate::json;
use crate::lock;
use crate::paths;
use crate::peer;
use crate::process;
use crate::project;
use crate::recover;
use crate::shell;
use crate::startup;
use crate::text;
use crate::transaction;
use crate::upgrade;
use crate::validation;
use crate::access::{AccessActionView, AccessEventView, AccessView};
use crate::cli::HookPlan;
use crate::collect::{CollectActionView, CollectEventView, CollectionView};
use crate::enroll::{EnrollActionView, EnrollEventView, EnrollmentView};
use crate::flush::{FlushActionView, FlushEventView, FlushView};
use crate::git_state::WorkspaceSnapshotView;
use crate::hook_call::{CallActionView, CallEventView};
use crate::identity::IdentityView;
use crate::join::{JoinActionView, JoinEventView, JoinView, PlacesView};
use crate::json::{Json, JsonView};
use crate::lock::{LockActionView, LockEventView, LockView};
use crate::peer::{PeerActionView, PeerEventView, PeerSyncView};
use crate::process::{GitCallView, RunOptionsView, RunResultView};
use crate::project::{CreateActionView, CreateEventView, ProjectCreationView};
use crate::protocol::{AdvertisedHeadView, CatalogProjectView};
use crate::provider::DiscoveryView;
use crate::recover::{RecoverActionView, RecoverEventView, RecoverView};
use crate::startup::{StartupActionView, StartupEventView, StartupView};
use crate::state::LocalProjectView;
use crate::transaction::{GcPlanView, ReconcileResultView, TransactionRetention, TransactionView};
use crate::upgrade::{UpgradeActionView, UpgradeEventView, UpgradeView};
use crate::validation::{ValidationActionView, ValidationEventView, ValidationView};



verus! {

/// A recovery decides by the phase of the record, and, where the move was being put in place, by
/// the commit that the worktree is on: at the new head the move counts as complete; at the commit of
/// the snapshot the files and then the index of the snapshot are put back; anywhere else nothing is
/// touched. The record then says what was done, and when, and is kept or removed with its refs.
pub proof fn law_course_of_recovery(
    path: Seq<char>,
    t: TransactionView,
    retention: TransactionRetention,
    current: WorkspaceSnapshotView,
    now: Seq<char>,
)
    ensures
        ({
            let s = recover::recover_start(path, t, retention);
            let seen = recover::recovered_after(s, RecoverEventView::Captured(current));
            let done = |r: RecoverView, u: TransactionView|
                {
                    &&& recover::recover_requested(r) == if retention.debug_history {
                        RecoverActionView::Keep(u)
                    } else {
                        RecoverActionView::Remove(u)
                    }
                    &&& recover::recover_requested(recover::recovered_after(r, RecoverEventView::Did))
                        == RecoverActionView::Return(u)
                };
            &&& t.phase == "PREPARING"@ || t.phase == "CONFLICTED"@ ==> recover::recover_requested(s)
                == RecoverActionView::Return(t)
            &&& t.phase == "COMPLETED"@ || t.phase == "ROLLED_BACK"@ ==> done(s, t)
            &&& t.phase != "PREPARING"@ && t.phase != "CONFLICTED"@ && t.phase != "COMPLETED"@
                && t.phase != "ROLLED_BACK"@ && t.phase != "INSTALLING"@ ==> recover::recover_requested(s)
                == RecoverActionView::Fail("unknown transaction phase "@ + t.phase)
            &&& t.phase == "INSTALLING"@ ==> {
                &&& recover::recover_requested(s) == RecoverActionView::Capture(t.project_path)
                &&& t.candidate is None ==> recover::recover_requested(seen) == RecoverActionView::Fail(
                    "installing transaction has no candidate"@,
                )
                &&& t.candidate is Some && current.head == t.candidate->0.real_head ==> {
                    &&& recover::recover_requested(seen) == RecoverActionView::Clock
                    &&& done(
                        recover::recovered_after(seen, RecoverEventView::Clock(now)),
                        TransactionView { phase: "COMPLETED"@, recovered_at: Some(now), ..t },
                    )
                }
                &&& t.candidate is Some && current.head != t.candidate->0.real_head && current.head
                    == t.snapshot.head ==> {
                    let reset = recover::recovered_after(seen, RecoverEventView::Did);
                    let back = recover::recovered_after(reset, RecoverEventView::Did);
                    &&& recover::recover_requested(seen) == RecoverActionView::Git(
                        process::must_run(
                            t.project_path,
                            seq!["read-tree"@, "--reset"@, "-u"@, t.snapshot.working_tree],
                        ),
                    )
                    &&& recover::recover_requested(reset) == RecoverActionView::Git(
                        process::must_run(t.project_path, seq!["read-tree"@, t.snapshot.index_tree]),
                    )
                    &&& recover::recover_requested(back) == RecoverActionView::Clock
                    &&& done(
                        recover::recovered_after(back, RecoverEventView::Clock(now)),
                        TransactionView { phase: "ROLLED_BACK"@, recovered_at: Some(now), ..t },
                    )
                }
                &&& t.candidate is Some && current.head != t.candidate->0.real_head && current.head
                    != t.snapshot.head ==> recover::recover_requested(seen) is Fail
            }
        }),
{
    transaction::lemma_phases();
    reveal_strlit("PREPARING");
    reveal_strlit("CONFLICTED");
    reveal_strlit("COMPLETED");
    reveal_strlit("ROLLED_BACK");
    assert("PREPARING"@.len() == 9 && "COMPLETED"@.len() == 9 && "CONFLICTED"@.len() == 10
        && "ROLLED_BACK"@.len() == 11);
    assert("PREPARING"@[0] == 'P' && "COMPLETED"@[0] == 'C');
}

/// A step of a recovery that fails ends it with its reason, and nothing else is done.
pub proof fn law_failed_recovery_stops(s: RecoverView, reason: Seq<char>)
    requires
        !(recover::recover_requested(s) is Return),
        !(recover::recover_requested(s) is Fail),
    ensures
        recover::recover_requested(recover::recovered_after(s, RecoverEventView::Failed(reason)))
            == RecoverActionView::Fail(reason),
{
}

/// A commit is validated in a worktree of its own, made of exactly that commit on no branch, in
/// which each command is run; the worktree is removed in the end, by force, whatever came of the
/// commands.
pub proof fn law_course_of_validation(
    project_path: Seq<char>,
    worktree: Seq<char>,
    candidate: Seq<char>,
    commands: Seq<Seq<Seq<char>>>,
    s: ValidationView,
    reason: Seq<char>,
)
    requires
        commands.len() > 0,
        s.project_path == project_path,
        s.worktree == worktree,
        s.candidate == candidate,
        s.validations == commands,
    ensures
        validation::validation_requested(validation::validation_start(project_path, worktree, candidate, Seq::empty()))
            == ValidationActionView::Done,
        validation::validation_requested(validation::validation_start(project_path, worktree, candidate, commands))
            == ValidationActionView::Git(
            process::must_run(
                project_path,
                seq!["worktree"@, "add"@, "--detach"@, worktree, candidate],
            ),
        ),
        validation::validation_requested(
            validation::validated(
                validation::validation_start(project_path, worktree, candidate, commands),
                ValidationEventView::Did,
            ),
        ) == ValidationActionView::Run(commands[0], worktree),
        s.stage is Run && s.at + 1 < commands.len() ==> validation::validation_requested(
            validation::validated(s, ValidationEventView::Did),
        ) == ValidationActionView::Run(commands[s.at + 1], worktree),
        s.stage is Run && s.at + 1 >= commands.len() ==> validation::validation_requested(
            validation::validated(s, ValidationEventView::Did),
        ) == ValidationActionView::Git(
            process::may_fail(project_path, seq!["worktree"@, "remove"@, "--force"@, worktree]),
        ),
        s.stage is Add || s.stage is Run ==> {
            let broken = validation::validated(s, ValidationEventView::Failed(reason));
            &&& validation::validation_requested(broken) == ValidationActionView::Git(
                process::may_fail(project_path, seq!["worktree"@, "remove"@, "--force"@, worktree]),
            )
            &&& validation::validation_requested(validation::validated(broken, ValidationEventView::Did))
                == ValidationActionView::Fail(reason)
            &&& validation::validation_requested(validation::validated(broken, ValidationEventView::Failed(worktree)))
                == ValidationActionView::Fail(reason)
        },
        s.stage is Remove && s.failure is None ==> validation::validation_requested(
            validation::validated(s, ValidationEventView::Did),
        ) == ValidationActionView::Done,
{
}

/// A capture asks for the commit, for the tree of the index, and, in an index of its own that
/// starts as that tree and takes in every change to a tracked file, for the tree of the files; and
/// for the files that Git does not track. The snapshot is what these four said.
pub proof fn law_course_of_capture(
    path: Seq<char>,
    index_file: Seq<char>,
    done: Seq<RunResultView>,
)
    ensures
        ({
            let own = |args: Seq<Seq<char>>|
                GitCallView {
                    args,
                    options: (RunOptionsView {
                        cwd: Some(path),
                        env: seq![("GIT_INDEX_FILE"@, index_file)],
                        input: None,
                        allow_failure: false,
                    }),
                };
            &&& done.len() == 0 ==> git_state::capture_call(path, index_file, done) == process::must_run(
                path,
                seq!["rev-parse"@, "--verify"@, "HEAD"@],
            )
            &&& done.len() == 1 ==> git_state::capture_call(path, index_file, done) == process::must_run(
                path,
                seq!["write-tree"@],
            )
            &&& done.len() == 2 ==> git_state::capture_call(path, index_file, done) == own(
                seq!["read-tree"@, text::trim(done[1].stdout)],
            )
            &&& done.len() == 3 ==> git_state::capture_call(path, index_file, done) == own(
                seq!["add"@, "-u"@, "--"@, "."@],
            )
            &&& done.len() == 4 ==> git_state::capture_call(path, index_file, done) == own(
                seq!["write-tree"@],
            )
            &&& done.len() == 5 ==> git_state::capture_call(path, index_file, done) == process::must_run(
                path,
                seq!["ls-files"@, "--others"@, "-z"@],
            )
            &&& git_state::captured(done).head == text::trim(done[0].stdout)
            &&& git_state::captured(done).index_tree == text::trim(done[1].stdout)
            &&& git_state::captured(done).working_tree == text::trim(done[4].stdout)
            &&& git_state::captured(done).untracked == text::nonempty(text::split(done[5].stdout, '\0'))
        }),
{
}

/// A commit that preserves a layer of a worktree has the tree of that layer, one parent, the name
/// of the recovery on it, and its message as input.
pub proof fn law_preserving_commits(
    path: Seq<char>,
    tree: Seq<char>,
    parent: Seq<char>,
    message: Seq<char>,
)
    ensures
        git_state::recovery_commit(path, tree, parent, message) == (GitCallView {
            args: seq!["commit-tree"@, tree, "-p"@, parent],
            options: (RunOptionsView {
                cwd: Some(path),
                env: seq![
                    ("GIT_AUTHOR_NAME"@, "RepoSync Recovery"@),
                    ("GIT_AUTHOR_EMAIL"@, "recovery@reposync.local"@),
                    ("GIT_COMMITTER_NAME"@, "RepoSync Recovery"@),
                    ("GIT_COMMITTER_EMAIL"@, "recovery@reposync.local"@),
                ],
                input: Some(message),
                allow_failure: false,
            }),
        }),
{
}

/// A lock is made where there is none. Where there is one, it is read: the process that it names is
/// asked for, and keeps it if it is alive; else the lock is removed and made anew, once.
pub proof fn law_course_of_a_lock(s: LockView, content: Seq<char>, reason: Seq<char>)
    ensures
        lock::lock_requested(lock::lock_start()) == LockActionView::Create,
        s.stage is Create ==> {
            &&& lock::lock_requested(s) == LockActionView::Create
            &&& s.failure is None ==> lock::lock_requested(lock::lock_after(s, LockEventView::Created))
                == LockActionView::Return
            &&& lock::lock_requested(lock::lock_after(s, LockEventView::Exists)) == LockActionView::Read
            &&& lock::lock_requested(lock::lock_after(s, LockEventView::Failed(reason)))
                == LockActionView::Fail(reason)
        },
        s.stage is Read ==> {
            &&& lock::lock_requested(lock::lock_after(s, LockEventView::Text(content))) == match daemon::parsed_i32(
                text::trim(content),
            ) {
                Some(owner) => LockActionView::Probe(owner),
                None => LockActionView::Remove,
            }
            &&& lock::lock_requested(lock::lock_after(s, LockEventView::Failed(reason)))
                == LockActionView::Remove
        },
        s.stage is Probe ==> {
            &&& lock::lock_requested(s) == LockActionView::Probe(s.owner)
            &&& lock::lock_requested(lock::lock_after(s, LockEventView::Alive(true)))
                == LockActionView::Fail(
                "RepoSync daemon is already running as PID "@ + text::signed_decimal(s.owner as int),
            )
            &&& lock::lock_requested(lock::lock_after(s, LockEventView::Alive(false)))
                == LockActionView::Remove
        },
        s.stage is Remove && s.round == 0 ==> {
            &&& lock::lock_requested(lock::lock_after(s, LockEventView::Did)) == LockActionView::Create
            &&& lock::lock_after(s, LockEventView::Did).round == 1
            &&& lock::lock_requested(lock::lock_after(s, LockEventView::Failed(reason)))
                == LockActionView::Create
            &&& lock::lock_after(s, LockEventView::Failed(reason)).round == 1
        },
        s.stage is Remove && s.round == 1 ==> {
            &&& lock::lock_requested(lock::lock_after(s, LockEventView::Did)) == LockActionView::Fail(
                "could not acquire RepoSync daemon lock"@,
            )
            &&& lock::lock_requested(lock::lock_after(s, LockEventView::Failed(reason)))
                == LockActionView::Fail("could not acquire RepoSync daemon lock"@)
        },
{
}

/// Each publication has its turn: it is delivered where it is still to be; a delivery that fails is
/// noted with its reason, first at the publication and then at its project, and the next one has
/// its turn; any other step that fails ends the run.
pub proof fn law_course_of_a_flush(
    ids: Seq<Seq<char>>,
    at: int,
    project: Seq<char>,
    reason: Seq<char>,
    s: FlushView,
)
    requires
        0 <= at < ids.len(),
        s.stage is Find,
        s.ids == ids,
        s.at == at,
    ensures
        ({
            let next = if at + 1 < ids.len() {
                FlushActionView::Find(ids[at + 1])
            } else {
                FlushActionView::Return
            };
            let found = flush::flush_after(s, FlushEventView::Found(Some(project)));
            let failed = flush::flush_after(found, FlushEventView::Failed(reason));
            let recorded = flush::flush_after(failed, FlushEventView::Did);
            &&& flush::flush_requested(flush::flush_start(ids)) == FlushActionView::Find(ids[0])
            &&& flush::flush_requested(s) == FlushActionView::Find(ids[at])
            &&& flush::flush_requested(flush::flush_after(s, FlushEventView::Found(None))) == next
            &&& flush::flush_requested(flush::flush_after(s, FlushEventView::Failed(reason)))
                == FlushActionView::Fail(reason)
            &&& flush::flush_requested(found) == FlushActionView::Deliver(ids[at])
            &&& flush::flush_requested(flush::flush_after(found, FlushEventView::Did)) == next
            &&& flush::flush_requested(failed) == FlushActionView::Record(ids[at], reason)
            &&& flush::flush_requested(flush::flush_after(failed, FlushEventView::Failed(project)))
                == FlushActionView::Fail(project)
            &&& flush::flush_requested(recorded) == FlushActionView::Mark(project, reason)
            &&& flush::flush_requested(flush::flush_after(recorded, FlushEventView::Did)) == next
            &&& flush::flush_requested(flush::flush_after(recorded, FlushEventView::Failed(project)))
                == FlushActionView::Fail(project)
        }),
{
}

/// Access follows the worktree to its branch first. A project that the remote is ahead of is moved
/// before anything is granted; then a lease is asked for and noted, unless the project is in
/// conflict; and what is granted tells the commit, the lease, and what the move changed.
pub proof fn law_course_of_access(
    id: Seq<char>,
    p: LocalProjectView,
    q: LocalProjectView,
    last: LocalProjectView,
    moved: ReconcileResultView,
    lease: Seq<char>,
    head: Seq<char>,
)
    ensures
        ({
            let s0 = access::access_start(id);
            let s1 = access::accessed(s0, AccessEventView::Did);
            let s2 = access::accessed(s1, AccessEventView::Project(p));
            let late = p.state == "REMOTE_AHEAD"@ || p.state == "WAITING_FOR_LEASES"@ || p.state
                == "RECONCILING"@;
            let s3 = if late {
                access::accessed(s2, AccessEventView::Moved(moved))
            } else {
                s2
            };
            let s4 = access::accessed(s3, AccessEventView::Project(q));
            let s5 = access::accessed(s4, AccessEventView::Leased(lease));
            let s6 = access::accessed(s5, AccessEventView::Did);
            let seen = if q.state == "CONFLICTED"@ {
                s4
            } else {
                s6
            };
            let over = access::accessed(seen, AccessEventView::Described(last, head));
            &&& access::access_requested(s0) == AccessActionView::Follow(id)
            &&& access::access_requested(s1) == AccessActionView::Look(id)
            &&& late ==> access::access_requested(s2) == AccessActionView::Move(id)
            &&& access::access_requested(s3) == AccessActionView::Look(id)
            &&& q.state != "CONFLICTED"@ ==> access::access_requested(s4) == AccessActionView::Lease(id)
                && access::access_requested(s5) == AccessActionView::Record(id, lease)
            &&& access::access_requested(seen) == AccessActionView::Describe(id)
            &&& access::access_requested(over) is Return
            &&& {
                let grant = access::access_requested(over)->Return_0;
                let branch = match last.active_branch {
                    Some(branch) => branch,
                    None => last.default_branch,
                };
                &&& grant.granted
                &&& grant.lease_id == if q.state == "CONFLICTED"@ {
                    None
                } else {
                    Some(lease)
                }
                &&& grant.reconciliation_mode == (q.state == "CONFLICTED"@)
                &&& grant.workspace_generation == last.workspace_generation
                &&& grant.branch_oid == head
                &&& grant.branch == branch
                &&& grant.remote_ref == last.remote_name + "/"@ + branch
                &&& grant.applied == (late && moved.outcome == "applied"@)
                &&& late && moved.outcome == "applied"@ ==> grant.model_message is Some
                    && grant.changed_paths.len() <= 50 && (forall|i: int|
                    0 <= i < grant.changed_paths.len() ==> #[trigger] grant.changed_paths[i]
                        == moved.changed_paths[i]) && (grant.changed_paths.len()
                    == moved.changed_paths.len() || grant.changed_paths.len() == 50)
                &&& !(late && moved.outcome == "applied"@) ==> grant.model_message is None
            }
        }),
{
    reveal_strlit("deferred");
    reveal_strlit("applied");
    assert("deferred"@.len() == 8 && "applied"@.len() == 7);
}

/// A request for access that fails at a step is refused with the reason of that step.
pub proof fn law_failed_access_is_refused(s: AccessView, reason: Seq<char>)
    requires
        access::access_valid(s),
        !(s.stage is Finished),
    ensures
        access::access_requested(access::accessed(s, AccessEventView::Failed(reason))) == AccessActionView::Fail(
            reason,
        ),
{
}

/// A daemon of the same build is used at once. One of another build is asked to end, and waited for
/// at most fifty times; then one is started, and waited for at most a hundred and fifty times; a
/// daemon of another build does not count as the one that was started.
pub proof fn law_course_of_startup(s: StartupView, answer: Json, reason: Seq<char>, own_pid: u32)
    ensures
        startup::startup_requested(startup::startup_begin(s.binary_id, own_pid)) == StartupActionView::Ping,
        startup::startup_begin(s.binary_id, own_pid).binary_id == s.binary_id,
        ({
            let own = json::text_field(answer, "binaryId"@) == Some(s.binary_id);
            let answered = startup::startup_next(s, StartupEventView::Answered(answer));
            let silent = startup::startup_next(s, StartupEventView::Silent(reason));
            &&& s.stage is Ping ==> {
                &&& own ==> startup::startup_requested(answered) == StartupActionView::Send
                &&& startup::startup_requested(silent) == StartupActionView::Start
                &&& !own ==> match json::number_field(answer, "pid"@) {
                    None => startup::startup_requested(answered) == StartupActionView::Fail(
                        "stale RepoSync daemon did not report a valid pid"@,
                    ),
                    Some(n) => if n > i32::MAX {
                        startup::startup_requested(answered) == StartupActionView::Fail(
                            "stale RepoSync daemon did not report a valid pid"@,
                        )
                    } else if s.own_pid <= i32::MAX && n == s.own_pid {
                        startup::startup_requested(answered) == StartupActionView::Fail(
                            "refusing to terminate the current RepoSync process"@,
                        )
                    } else {
                        n > 0 ==> startup::startup_requested(answered) == StartupActionView::Stop(n as i32)
                    },
                }
            }
            &&& s.stage is Stop ==> {
                &&& startup::startup_requested(s) == StartupActionView::Stop(s.pid)
                &&& startup::startup_requested(startup::startup_next(s, StartupEventView::Did))
                    == StartupActionView::PingLater
                &&& startup::startup_next(s, StartupEventView::Did).rounds == 0
                &&& startup::startup_requested(startup::startup_next(s, StartupEventView::Failed(reason)))
                    == StartupActionView::Fail(reason)
            }
            &&& s.stage is Stopping && 0 <= s.pid ==> {
                &&& startup::startup_requested(silent) == StartupActionView::Start
                &&& json::number_field(answer, "pid"@) != Some(s.pid as nat) ==> startup::startup_requested(
                    answered,
                ) == StartupActionView::Start
                &&& json::number_field(answer, "pid"@) == Some(s.pid as nat) && s.rounds < 49 ==> {
                    &&& startup::startup_requested(answered) == StartupActionView::PingLater
                    &&& answered.rounds == s.rounds + 1
                }
                &&& json::number_field(answer, "pid"@) == Some(s.pid as nat) && s.rounds >= 49
                    ==> startup::startup_requested(answered) == StartupActionView::Fail(
                    "stale RepoSync daemon "@ + text::signed_decimal(s.pid as int)
                        + " did not stop after SIGTERM"@,
                )
            }
            &&& s.stage is Start ==> {
                &&& startup::startup_requested(startup::startup_next(s, StartupEventView::Did))
                    == StartupActionView::PingLater
                &&& startup::startup_next(s, StartupEventView::Did).rounds == 0
                &&& startup::startup_requested(startup::startup_next(s, StartupEventView::Failed(reason)))
                    == StartupActionView::Fail(reason)
            }
            &&& s.stage is Starting ==> {
                &&& own ==> startup::startup_requested(answered) == StartupActionView::Send
                &&& !own ==> answered.last == Some(
                    "another RepoSync daemon with a different binary is running"@,
                )
                &&& silent.last == Some(reason)
                &&& !own && s.rounds < 149 ==> startup::startup_requested(answered)
                    == StartupActionView::PingLater && answered.rounds == s.rounds + 1
                &&& !own && s.rounds >= 149 ==> startup::startup_requested(answered)
                    == StartupActionView::Log
                &&& s.rounds < 149 ==> startup::startup_requested(silent) == StartupActionView::PingLater
                    && silent.rounds == s.rounds + 1
                &&& s.rounds >= 149 ==> startup::startup_requested(silent) == StartupActionView::Log
            }
        }),
{
}

/// A device is enrolled with the token that the provider exchanges for the one that was given, or,
/// where it exchanges none, with that one; it is kept only after the catalog was fetched with it.
pub proof fn law_course_of_enrollment(
    bootstrap: Seq<char>,
    name: Seq<char>,
    d: DiscoveryView,
    reply: Json,
    catalog: Json,
    reason: Seq<char>,
)
    requires
        d.endpoints.contains_key("enroll"@),
        d.endpoints.contains_key("catalog"@),
    ensures
        ({
            let s0 = enroll::enroll_start(bootstrap, name);
            let s1 = enroll::enrolled_after(s0, EnrollEventView::Discovered(d));
            let s2 = enroll::enrolled_after(s1, EnrollEventView::Did);
            let given = enroll::enrolled_after(s2, EnrollEventView::Replied(reply));
            let none = enroll::enrolled_after(s2, EnrollEventView::Failed(reason));
            let kept = enroll::enrolled_after(none, EnrollEventView::Replied(catalog));
            let stored = |s: EnrollmentView|
                {
                    let v = enroll::enrolled_after(s, EnrollEventView::Replied(catalog));
                    &&& enroll::enroll_requested(v) == EnrollActionView::Store
                    &&& enroll::enroll_requested(enroll::enrolled_after(v, EnrollEventView::Did))
                        == EnrollActionView::Return
                    &&& enroll::enroll_requested(enroll::enrolled_after(s, EnrollEventView::Failed(reason)))
                        == EnrollActionView::Fail(reason)
                };
            &&& enroll::enroll_requested(s0) == EnrollActionView::Discover
            &&& enroll::enroll_requested(s1) == EnrollActionView::Key
            &&& enroll::enroll_requested(s2) == EnrollActionView::Exchange(
                d.endpoints["enroll"@],
                bootstrap,
            )
            &&& json::text_field(reply, "token"@) is None ==> enroll::enroll_requested(given)
                == EnrollActionView::Fail("provider enrollment returned no token"@)
            &&& json::text_field(reply, "token"@) is Some ==> {
                &&& enroll::enroll_requested(given) == EnrollActionView::Catalog(
                    d.endpoints["catalog"@],
                    json::text_field(reply, "token"@)->0,
                )
                &&& given.document == reply@
                &&& stored(given)
            }
            &&& enroll::enroll_requested(none) == EnrollActionView::Catalog(
                d.endpoints["catalog"@],
                bootstrap,
            )
            &&& enroll::enroll_requested(kept) == EnrollActionView::Catalog(
                d.endpoints["catalog"@],
                bootstrap,
            )
            &&& stored(kept)
        }),
{
}

/// A provider that does not name where devices enroll, or where its catalog is, is refused.
pub proof fn law_incomplete_provider_is_refused(
    bootstrap: Seq<char>,
    name: Seq<char>,
    d: DiscoveryView,
)
    ensures
        ({
            let s = enroll::enrolled_after(
                enroll::enrolled_after(
                    enroll::enroll_start(bootstrap, name),
                    EnrollEventView::Discovered(d),
                ),
                EnrollEventView::Did,
            );
            &&& !d.endpoints.contains_key("enroll"@) ==> enroll::enroll_requested(s)
                == EnrollActionView::Fail("provider discovery is missing enroll endpoint"@)
            &&& d.endpoints.contains_key("enroll"@) && !d.endpoints.contains_key("catalog"@)
                ==> enroll::enroll_requested(s) == EnrollActionView::Fail(
                "provider discovery is missing catalog endpoint"@,
            )
        }),
{
    reveal_strlit("provider discovery is missing ");
    reveal_strlit("enroll");
    reveal_strlit("catalog");
    reveal_strlit(" endpoint");
    reveal_strlit("provider discovery is missing enroll endpoint");
    reveal_strlit("provider discovery is missing catalog endpoint");
    assert("provider discovery is missing "@ + "enroll"@ + " endpoint"@
        =~= "provider discovery is missing enroll endpoint"@);
    assert("provider discovery is missing "@ + "catalog"@ + " endpoint"@
        =~= "provider discovery is missing catalog endpoint"@);
}

/// A build is activated only where the program that runs is the staged one, and counts as activated
/// only where the daemon says that it has the fingerprint of the staged build; everything else
/// follows that.
pub proof fn law_course_of_an_upgrade(
    executable: Seq<char>,
    current: Seq<char>,
    staged: Seq<char>,
    answer: Json,
    fingerprint: Seq<char>,
)
    ensures
        ({
            let s0 = upgrade::upgrade_start();
            let s1 = upgrade::upgraded_after(s0, UpgradeEventView::Staged(executable));
            let s2 = upgrade::upgraded_after(s1, UpgradeEventView::Places(current, staged));
            let s3 = upgrade::upgraded_after(s2, UpgradeEventView::Did);
            let s4 = upgrade::upgraded_after(s3, UpgradeEventView::Answered(answer));
            let s5 = upgrade::upgraded_after(s4, UpgradeEventView::Digest(fingerprint));
            let s6 = upgrade::upgraded_after(s5, UpgradeEventView::Did);
            let s7 = upgrade::upgraded_after(s6, UpgradeEventView::Did);
            let s8 = upgrade::upgraded_after(s7, UpgradeEventView::Did);
            let s9 = upgrade::upgraded_after(s8, UpgradeEventView::Did);
            &&& upgrade::upgrade_requested(s0) == UpgradeActionView::Stage
            &&& upgrade::upgrade_requested(s1) == UpgradeActionView::Compare(executable)
            &&& !paths::same_place(current, staged) ==> upgrade::upgrade_requested(s2) == UpgradeActionView::Fail(
                "upgrade activation must run from the staged canonical build"@,
            )
            &&& paths::same_place(current, staged) ==> {
                &&& upgrade::upgrade_requested(s2) == UpgradeActionView::Supervise
                &&& upgrade::upgrade_requested(s3) == UpgradeActionView::Ping
                &&& upgrade::upgrade_requested(s4) == UpgradeActionView::Fingerprint(executable)
                &&& json::text_field(answer, "binaryId"@) != Some(fingerprint) ==> upgrade::upgrade_requested(s5)
                    == UpgradeActionView::Fail(
                    "RepoSync daemon did not activate the staged build identity"@,
                )
                &&& json::text_field(answer, "binaryId"@) == Some(fingerprint) ==> {
                    &&& upgrade::upgrade_requested(s5) == UpgradeActionView::Adapters
                    &&& upgrade::upgrade_requested(s6) == UpgradeActionView::Legacy
                    &&& upgrade::upgrade_requested(s7) == UpgradeActionView::Launch(executable)
                    &&& upgrade::upgrade_requested(s8) == UpgradeActionView::Prune(executable)
                    &&& upgrade::upgrade_requested(s9) == UpgradeActionView::Return
                }
            }
        }),
{
}

/// A step of an activation that fails ends it with its reason.
pub proof fn law_failed_upgrade_stops(s: UpgradeView, reason: Seq<char>)
    requires
        !(s.stage is Finished),
    ensures
        upgrade::upgrade_requested(upgrade::upgraded_after(s, UpgradeEventView::Failed(reason)))
            == UpgradeActionView::Fail(reason),
{
}

/// Before a tool is used, the daemon is asked for access to the project, for this session and this
/// call; the lease that it grants is written to the file of the call.
pub proof fn law_course_of_a_hook_before_a_tool(
    state_root: Seq<char>,
    project_id: Seq<char>,
    input: Json,
    reply: Json,
    told: bool,
    lease: Seq<char>,
)
    requires
        cli::plan_for(input) == HookPlan::Acquire,
        json::text_field(input, "hook_event_name"@) == Some("PreToolUse"@),
        json::text_field(reply, "lease_id"@) == Some(lease),
    ensures
        ({
            let s0 = hook_call::call_start(state_root, project_id, input);
            let s1 = hook_call::call_after(s0, CallEventView::Document(reply));
            let s2 = hook_call::call_after(s1, CallEventView::Did);
            let s3 = hook_call::call_after(s2, CallEventView::There(told));
            let files = cli::files_for(
                state_root,
                project_id,
                json::text_field(input, "session_id"@),
                json::text_field(input, "tool_use_id"@),
            );
            let or_null = |key: Seq<char>|
                match json::field(input, key) {
                    Some(value) => value@,
                    None => JsonView::Null,
                };
            &&& hook_call::call_requested(s0) == CallActionView::Ask(
                JsonView::Object(
                    seq![
                        ("method"@, JsonView::Text("acquireAccess"@)),
                        ("project_id"@, JsonView::Text(project_id)),
                        ("session_id"@, or_null("session_id"@)),
                        ("call_id"@, or_null("tool_use_id"@)),
                        ("access_hint"@, JsonView::Text("unknown"@)),
                    ],
                ),
            )
            &&& hook_call::call_requested(s1) == CallActionView::Directory(files.directory)
            &&& hook_call::call_requested(s2) == CallActionView::Exists(files.marker)
            &&& hook_call::call_requested(s3) == CallActionView::Write(
                files.lease,
                JsonView::Object(
                    seq![
                        ("leaseId"@, JsonView::Text(lease)),
                        ("projectId"@, JsonView::Text(project_id)),
                        ("toolUseId"@, or_null("tool_use_id"@)),
                    ],
                ),
            )
        }),
{
}

/// After a tool was used, the lease of the call is looked for in its file, then where older versions
/// kept it; the daemon is asked to take it back, and the file goes once it did. Where there is no
/// file, there is nothing to do.
pub proof fn law_course_of_a_hook_after_a_tool(
    state_root: Seq<char>,
    project_id: Seq<char>,
    input: Json,
    lease: Json,
    reply: Json,
    own: bool,
)
    requires
        cli::plan_for(input) == HookPlan::Release,
    ensures
        ({
            let files = cli::files_for(
                state_root,
                project_id,
                json::text_field(input, "session_id"@),
                json::text_field(input, "tool_use_id"@),
            );
            let back = match json::field(lease, "leaseId"@) {
                Some(value) => value@,
                None => JsonView::Null,
            };
            let place = if own {
                files.lease
            } else {
                files.legacy_lease
            };
            let s0 = hook_call::call_start(state_root, project_id, input);
            let s1 = hook_call::call_after(s0, CallEventView::There(own));
            let s2 = if own {
                s1
            } else {
                hook_call::call_after(s1, CallEventView::There(true))
            };
            let s3 = hook_call::call_after(s2, CallEventView::Document(lease));
            let s4 = hook_call::call_after(s3, CallEventView::Document(reply));
            let s5 = hook_call::call_after(s4, CallEventView::Did);
            &&& hook_call::call_requested(s0) == CallActionView::Exists(files.lease)
            &&& !own ==> hook_call::call_requested(s1) == CallActionView::Exists(files.legacy_lease)
            &&& !own ==> hook_call::call_requested(hook_call::call_after(s1, CallEventView::There(false))) is Return
            &&& hook_call::call_requested(s2) == CallActionView::Read(place)
            &&& hook_call::call_requested(s3) == CallActionView::Ask(
                JsonView::Object(
                    seq![
                        ("method"@, JsonView::Text("releaseAccess"@)),
                        ("lease_id"@, back),
                        ("outcome"@, JsonView::Text("success"@)),
                        ("mutation_hint"@, JsonView::Text("possible"@)),
                    ],
                ),
            )
            &&& hook_call::call_requested(s4) == CallActionView::Remove(place)
            &&& hook_call::call_requested(s5) is Return
        }),
{
    let s0 = hook_call::call_start(state_root, project_id, input);
    let s1 = hook_call::call_after(s0, CallEventView::There(own));
    let s2 = if own {
        s1
    } else {
        hook_call::call_after(s1, CallEventView::There(true))
    };
    assert(s0.stage is Own && s0.failure is None);
    assert(s2.stage is Read && s2.failure is None && s2.input == input);
    let s3 = hook_call::call_after(s2, CallEventView::Document(lease));
    assert(s3.stage is Ask && s3.lease == lease && s3.input == input);
    let back = match json::field(lease, "leaseId"@) {
        Some(value) => value@,
        None => JsonView::Null,
    };
    assert(hook_call::field_or_null(lease, "leaseId"@) == back);
    assert(hook_call::request_of(HookPlan::Release, project_id, input, lease) == JsonView::Object(
        seq![
            ("method"@, JsonView::Text("releaseAccess"@)),
            ("lease_id"@, back),
            ("outcome"@, JsonView::Text("success"@)),
            ("mutation_hint"@, JsonView::Text("possible"@)),
        ],
    ));
    assert(hook_call::call_requested(s3) == CallActionView::Ask(
        hook_call::request_of(HookPlan::Release, project_id, input, lease),
    ));
    let s4 = hook_call::call_after(s3, CallEventView::Document(reply));
    assert(s4.stage is Forget && s4.lease_path == s2.lease_path);
    let s5 = hook_call::call_after(s4, CallEventView::Did);
    assert(s5.stage is Finished && s5.failure is None);
}

/// The files of a session lie in a directory of its own; the file of a call is named after the
/// project and the call, and the marker of a conflict after the project.
pub proof fn law_files_of_a_session(
    state_root: Seq<char>,
    project_id: Seq<char>,
    session: Option<Seq<char>>,
    call: Option<Seq<char>>,
)
    ensures
        ({
            let files = cli::files_for(state_root, project_id, session, call);
            &&& files.directory == paths::joined(paths::joined(state_root, "codex-leases"@), cli::safe_part(session))
            &&& files.lease == paths::joined(
                files.directory,
                cli::safe_part(Some(project_id)) + "-"@ + cli::safe_part(call) + ".json"@,
            )
            &&& files.legacy_lease == paths::joined(files.directory, cli::safe_part(call) + ".json"@)
            &&& files.marker == paths::joined(
                files.directory,
                "reconciliation-"@ + cli::safe_part(Some(project_id)) + ".json"@,
            )
        }),
{
}

proof fn lemma_hosted_at(projects: Seq<CatalogProjectView>, id: Seq<char>, i: int, from: int)
    requires
        0 <= from <= i < projects.len(),
        projects[i].project_id == id,
        forall|j: int| 0 <= j < i ==> (#[trigger] projects[j]).project_id != id,
    ensures
        peer::hosted_position(projects, id, from) == Some(i),
    decreases i - from,
{
    if from < i {
        assert(projects[from].project_id != id);
        lemma_hosted_at(projects, id, i, from + 1);
    }
}

proof fn lemma_not_hosted(projects: Seq<CatalogProjectView>, id: Seq<char>, from: int)
    requires
        0 <= from,
        forall|j: int| 0 <= j < projects.len() ==> (#[trigger] projects[j]).project_id != id,
    ensures
        peer::hosted_position(projects, id, from) is None,
    decreases projects.len() - from,
{
    if from < projects.len() {
        assert(projects[from].project_id != id);
        lemma_not_hosted(projects, id, from + 1);
    }
}

proof fn lemma_head_at(heads: Seq<AdvertisedHeadView>, name: Seq<char>, i: int, from: int)
    requires
        0 <= from <= i < heads.len(),
        heads[i].name == name,
        forall|j: int| 0 <= j < i ==> (#[trigger] heads[j]).name != name,
    ensures
        adopt::head_position(heads, name, from) == Some(i),
    decreases i - from,
{
    if from < i {
        assert(heads[from].name != name);
        lemma_head_at(heads, name, i, from + 1);
    }
}

/// Another machine joins the project of this checkout at its provider. The credential for that
/// provider is used, or the configured token where that is for the same one. The project has to be
/// in the catalog, at position `i`.
pub proof fn law_course_of_a_peer_up_to_the_catalog(
    start: PeerSyncView,
    identity: IdentityView,
    found: Option<Seq<char>>,
    d: DiscoveryView,
    projects: Seq<CatalogProjectView>,
    i: int,
)
    requires
        start.stage is Identity,
        start.failure is None,
        identity.project_id is Some,
        identity.service is Some,
        0 <= i < projects.len(),
        projects[i].project_id == identity.project_id->0,
        forall|j: int|
            0 <= j < i ==> (#[trigger] projects[j]).project_id != identity.project_id->0,
    ensures
        ({
            let service = identity.service->0;
            let s1 = peer::peer_next(start, PeerEventView::Identity(identity));
            let s2 = peer::peer_next(s1, PeerEventView::Credential(found));
            let s3 = peer::peer_next(s2, PeerEventView::Discovered(d));
            let s4 = peer::peer_next(s3, PeerEventView::Catalog(projects));
            let token = if found is Some {
                found
            } else if start.server == Some(service) {
                start.server_token
            } else {
                None
            };
            &&& peer::peer_requested(start) == PeerActionView::Identity
            &&& peer::peer_requested(s1) == PeerActionView::Credential(service)
            &&& token is None ==> peer::peer_requested(s2) == PeerActionView::Fail(
                "no credential for "@ + service,
            )
            &&& token is Some ==> {
                &&& peer::peer_requested(s2) == PeerActionView::Discover(service)
                &&& peer::peer_requested(s3) == PeerActionView::Catalog(service, token->0)
                &&& peer::peer_requested(s4) == PeerActionView::Git(
                    process::must_run(identity.root, seq!["symbolic-ref"@, "--short"@, "HEAD"@]),
                )
                &&& s4.project == Some(projects[i])
                &&& s4.project_id == identity.project_id->0
                &&& s4.service == service
                &&& s4.endpoint == peer::ticket_url(d, identity.project_id->0)
            }
        }),
{
    reveal(peer::peer_next);
    lemma_hosted_at(projects, identity.project_id->0, i, 0);
}

/// The commit of this checkout is published first, unless the branch is hosted at that very commit;
/// the hosted branch must have it then. Only then a ticket is asked for.
pub proof fn law_course_of_a_peer_up_to_the_ticket(
    s: PeerSyncView,
    branch: RunResultView,
    head: RunResultView,
    k: int,
    later: Seq<CatalogProjectView>,
    i: int,
    m: int,
)
    requires
        s.stage is Branch,
        s.failure is None,
        s.project is Some,
        0 <= k < s.project->0.advertised_heads.len(),
        s.project->0.advertised_heads[k].name == text::trim(branch.stdout),
        forall|j: int|
            0 <= j < k ==> (#[trigger] s.project->0.advertised_heads[j]).name != text::trim(
                branch.stdout,
            ),
        0 <= i < later.len(),
        later[i].project_id == s.project_id,
        forall|j: int| 0 <= j < i ==> (#[trigger] later[j]).project_id != s.project_id,
        0 <= m < later[i].advertised_heads.len(),
        later[i].advertised_heads[m].name == text::trim(branch.stdout),
        forall|j: int|
            0 <= j < m ==> (#[trigger] later[i].advertised_heads[j]).name != text::trim(branch.stdout),
    ensures
        ({
            let s1 = peer::peer_next(s, PeerEventView::Ran(branch));
            let s2 = peer::peer_next(s1, PeerEventView::Ran(head));
            let s3 = peer::peer_next(s2, PeerEventView::Did);
            let s4 = peer::peer_next(s3, PeerEventView::Catalog(later));
            let commit = text::trim(head.stdout);
            &&& peer::peer_requested(s1) == PeerActionView::Git(
                process::must_run(s.root, seq!["rev-parse"@, "HEAD"@]),
            )
            &&& s.project->0.advertised_heads[k].oid == commit ==> peer::peer_requested(s2)
                == PeerActionView::Ticket(s.endpoint, s.token)
            &&& s.project->0.advertised_heads[k].oid != commit ==> {
                &&& peer::peer_requested(s2) == PeerActionView::Publish(s.project_id)
                &&& peer::peer_requested(s3) == PeerActionView::Catalog(s.service, s.token)
                &&& later[i].advertised_heads[m].oid == commit ==> peer::peer_requested(s4)
                    == PeerActionView::Ticket(s.endpoint, s.token)
                &&& later[i].advertised_heads[m].oid != commit ==> peer::peer_requested(s4)
                    == PeerActionView::Fail(
                    "hosted branch "@ + text::trim(branch.stdout)
                        + " did not advance to the current commit"@,
                )
            }
        }),
{
    reveal(peer::peer_next);
    lemma_hosted_at(later, s.project_id, i, 0);
    lemma_head_at(s.project->0.advertised_heads, text::trim(branch.stdout), k, 0);
    lemma_head_at(later[i].advertised_heads, text::trim(branch.stdout), m, 0);
}

/// With the ticket, the other machine is made to join this project at this provider, under its name,
/// and into the path that was asked for; and it has to say that it did.
pub proof fn law_course_of_a_peer_that_joins(
    s: PeerSyncView,
    reply: Json,
    program: Seq<char>,
    answer: Json,
    status: RunResultView,
    ticket: Seq<char>,
)
    requires
        s.stage is Ticket,
        s.failure is None,
        json::text_field(reply, "ticket"@) == Some(ticket),
    ensures
        ({
            let s1 = peer::peer_next(s, PeerEventView::Replied(reply));
            let s2 = if s.bootstrap {
                peer::peer_next(s1, PeerEventView::Installed(program))
            } else {
                s1
            };
            let s3 = peer::peer_next(s2, PeerEventView::Replied(answer));
            let s4 = peer::peer_next(s3, PeerEventView::Ran(status));
            let executable = if s.bootstrap {
                program
            } else {
                shell::quoted_word("resync"@)
            };
            let words = seq![
                "peer"@,
                "accept"@,
                "--provider"@,
                s.service,
                "--ticket"@,
                ticket,
                "--project"@,
                s.project_id,
                "--device-name"@,
                match s.name {
                    Some(name) => name,
                    None => s.host,
                },
            ] + match s.target_path {
                Some(path) => seq!["--into"@, path],
                None => Seq::empty(),
            };
            &&& s.bootstrap ==> peer::peer_requested(s1) == PeerActionView::Install(s.host)
            &&& peer::peer_requested(s2) == PeerActionView::Script(
                s.host,
                "set -eu\nexec "@ + executable + " "@ + text::join(
                    words.map_values(|w: Seq<char>| shell::quoted_word(w)),
                    " "@,
                ) + "\n"@,
            )
            &&& json::text_field(answer, "projectId"@) == Some(s.project_id) && json::text_field(
                answer,
                "service"@,
            ) == Some(s.service) ==> {
                &&& peer::peer_requested(s3) == PeerActionView::Git(
                    process::must_run(s.root, seq!["status"@, "--porcelain"@]),
                )
                &&& peer::peer_requested(s4) == PeerActionView::Return
                &&& s4.dirty == (text::trim(status.stdout).len() > 0)
            }
            &&& json::text_field(answer, "projectId"@) != Some(s.project_id) || json::text_field(
                answer,
                "service"@,
            ) != Some(s.service) ==> peer::peer_requested(s3) == PeerActionView::Fail(
                "peer enrolled into an unexpected project identity"@,
            )
        }),
{
    reveal(peer::peer_next);
    let base = seq![
        "peer"@,
        "accept"@,
        "--provider"@,
        s.service,
        "--ticket"@,
        ticket,
        "--project"@,
        s.project_id,
        "--device-name"@,
        match s.name {
            Some(name) => name,
            None => s.host,
        },
    ];
    assert(base + Seq::<Seq<char>>::empty() =~= base);
}

/// A machine joins with a ticket: the provider redeems it for a token, with which the catalog is
/// fetched; the project has to be in it, at position `i`. The checkout goes where it was asked for,
/// else where the project is managed, else below the home directory.
pub proof fn law_course_of_a_ticket(
    project_id: Seq<char>,
    places: PlacesView,
    d: DiscoveryView,
    reply: Json,
    generation: u64,
    projects: Seq<CatalogProjectView>,
    i: int,
)
    requires
        d.endpoints.contains_key("redeem_join_ticket"@),
        json::text_field(reply, "token"@) is Some,
        0 <= i < projects.len(),
        projects[i].project_id == project_id,
        forall|j: int| 0 <= j < i ==> (#[trigger] projects[j]).project_id != project_id,
    ensures
        ({
            let s0 = join::join_start(true, project_id, places);
            let s1 = join::joined_after(s0, JoinEventView::Discovered(d));
            let s2 = join::joined_after(s1, JoinEventView::Did);
            let s3 = join::joined_after(s2, JoinEventView::Redeemed(reply));
            let s4 = join::joined_after(s3, JoinEventView::Did);
            let s5 = join::joined_after(s4, JoinEventView::Catalog(generation, projects));
            &&& join::join_requested(s0) == JoinActionView::Discover
            &&& join::join_requested(s1) == JoinActionView::Key
            &&& join::join_requested(s2) == JoinActionView::Redeem(d.endpoints["redeem_join_ticket"@])
            &&& join::join_requested(s3) == JoinActionView::Store
            &&& join::join_requested(s4) == JoinActionView::Catalog(
                d.origin,
                json::text_field(reply, "token"@)->0,
            )
            &&& join::join_requested(s5) == JoinActionView::Look(
                if places.into is Some {
                    places.into->0
                } else if places.managed is Some {
                    places.managed->0
                } else {
                    paths::joined(
                        paths::joined(
                            paths::joined(
                                match places.home {
                                    Some(path) => path,
                                    None => "."@,
                                },
                                ".local/share/resync/checkouts"@,
                            ),
                            project_id,
                        ),
                        projects[i].name,
                    )
                },
            )
            &&& s5.generation == generation
            &&& s5.project == Some(projects[i])
        }),
{
    lemma_hosted_at(projects, project_id, i, 0);
}

/// A ticket that the provider does not redeem for a token, or for another project, is refused.
pub proof fn law_bad_tickets_are_refused(
    s: JoinView,
    d: DiscoveryView,
    generation: u64,
    projects: Seq<CatalogProjectView>,
)
    requires
        s.ticket,
        s.failure is None,
    ensures
        s.stage is Discover && !d.endpoints.contains_key("redeem_join_ticket"@) ==> join::join_requested(
            join::joined_after(
                join::joined_after(s, JoinEventView::Discovered(d)),
                JoinEventView::Did,
            ),
        ) == JoinActionView::Fail("provider discovery is missing ticket redemption endpoint"@),
        s.stage is Store && s.token is None ==> join::join_requested(join::joined_after(s, JoinEventView::Did))
            == JoinActionView::Fail("ticket enrollment returned no token"@),
        s.stage is Catalog && (forall|j: int|
            0 <= j < projects.len() ==> (#[trigger] projects[j]).project_id != s.project_id)
            ==> join::join_requested(join::joined_after(s, JoinEventView::Catalog(generation, projects)))
            == JoinActionView::Fail("join ticket did not authorize the expected project"@),
{
    if forall|j: int|
        0 <= j < projects.len() ==> (#[trigger] projects[j]).project_id != s.project_id {
        lemma_not_hosted(projects, s.project_id, 0);
    }
}

/// A machine joins with an account: the project has to be in its catalog, at position `i`, and goes
/// where it was asked for, else where it is placed.
pub proof fn law_course_of_an_account(
    project_id: Seq<char>,
    places: PlacesView,
    origin: Seq<char>,
    token: Seq<char>,
    generation: u64,
    projects: Seq<CatalogProjectView>,
    i: int,
    placed: Seq<char>,
)
    requires
        0 <= i < projects.len(),
        projects[i].project_id == project_id,
        forall|j: int| 0 <= j < i ==> (#[trigger] projects[j]).project_id != project_id,
    ensures
        ({
            let s0 = join::join_start(false, project_id, places);
            let s1 = join::joined_after(s0, JoinEventView::Authenticated(origin, token));
            let s2 = join::joined_after(s1, JoinEventView::Catalog(generation, projects));
            let s3 = join::joined_after(s2, JoinEventView::Placed(placed));
            &&& join::join_requested(s0) == JoinActionView::Authenticate
            &&& join::join_requested(s1) == JoinActionView::Catalog(origin, token)
            &&& places.into is Some ==> join::join_requested(s2) == JoinActionView::Look(
                places.into->0,
            )
            &&& places.into is None ==> join::join_requested(s2) == JoinActionView::Place
                && join::join_requested(s3) == JoinActionView::Look(placed)
            &&& s2.generation == generation
            &&& s2.project == Some(projects[i])
            &&& s2.origin == origin
        }),
{
    lemma_hosted_at(projects, project_id, i, 0);
}

/// From the destination on: it is refused where it belongs to another project, or to another
/// provider; else the project is checked out there with the token, gets its identity and its
/// configuration, and is recorded before the adapters are installed.
pub proof fn law_course_of_a_join(
    s: JoinView,
    exists: bool,
    local: LocalProjectView,
    identity: IdentityView,
)
    requires
        s.stage is Look,
        s.failure is None,
        s.token is Some,
    ensures
        ({
            let s1 = join::joined_after(s, JoinEventView::Found(exists, None));
            let s2 = if s.ticket && !exists {
                join::joined_after(s1, JoinEventView::Did)
            } else {
                s1
            };
            let s3 = join::joined_after(s2, JoinEventView::Materialized(local));
            let s4 = join::joined_after(s3, JoinEventView::Identified(identity));
            let s5 = join::joined_after(s4, JoinEventView::Did);
            let s6 = join::joined_after(s5, JoinEventView::Did);
            let s7 = join::joined_after(s6, JoinEventView::Did);
            let s8 = join::joined_after(s7, JoinEventView::Did);
            &&& s.ticket && !exists ==> join::join_requested(s1) == JoinActionView::Parent(s.destination)
            &&& join::join_requested(s2) == JoinActionView::Materialize(s.destination, s.token->0)
            &&& join::join_requested(s3) == JoinActionView::Identify(
                local.local_path,
                s.origin,
                s.project_id,
            )
            &&& join::join_requested(s4) == JoinActionView::Configure(local.local_path)
            &&& s4.local == Some(
                LocalProjectView {
                    service: identity.service,
                    checkout_id: identity.checkout_id,
                    ..local
                },
            )
            &&& join::join_requested(s5) == JoinActionView::Record(!s.ticket, s.generation)
            &&& join::join_requested(s6) == JoinActionView::Adapters(s.project_id)
            &&& s.ticket ==> join::join_requested(s7) == JoinActionView::Reload && join::join_requested(s8)
                == JoinActionView::Return
            &&& !s.ticket ==> join::join_requested(s7) == JoinActionView::Return
        }),
{
}

/// A destination with an identity is used only where it is that of the project at its provider.
pub proof fn law_foreign_destination_is_refused(s: JoinView, current: IdentityView)
    requires
        s.stage is Look,
        s.failure is None,
        current.project_id is Some,
        current.service is Some,
    ensures
        ({
            let s1 = join::joined_after(s, JoinEventView::Found(true, Some(current)));
            &&& !s.ticket ==> if current.project_id->0 == s.project_id && current.service->0
                == s.origin {
                join::join_requested(s1) is Materialize
            } else {
                join::join_requested(s1) == JoinActionView::Fail(
                    "checkout already belongs to "@ + current.service->0 + " / "@
                        + current.project_id->0
                        + "; use `resync project fork` for an independent project"@,
                )
            }
            &&& s.ticket && credentials::origin_of(current.service->0) is Some && credentials::origin_of(s.origin) is Some
                ==> if current.project_id->0 == s.project_id && credentials::origin_of(current.service->0)
                == credentials::origin_of(s.origin) {
                join::join_requested(s1) is Materialize
            } else {
                join::join_requested(s1) == JoinActionView::Fail(
                    "target path belongs to another RepoSync project; refusing to relink it"@,
                )
            }
        }),
{
}

/// A project is created from a worktree: the branch is asked for; the attempt is recorded, with the
/// key of an earlier one where there is one, before the provider is asked; the hosted project is
/// checked out at the worktree, which gets its identity; and the record goes last.
pub proof fn law_course_of_a_creation(
    root: Seq<char>,
    state_root: Seq<char>,
    prior: IdentityView,
    fork: bool,
    name: Option<Seq<char>>,
    provider: Option<Seq<char>>,
    origin: Seq<char>,
    token: Seq<char>,
    endpoint: Seq<char>,
    branch: RunResultView,
    record: JsonView,
    fresh: Seq<char>,
    project: CatalogProjectView,
    local: LocalProjectView,
    identity: IdentityView,
)
    requires
        prior.project_id is None || fork,
    ensures
        ({
            let s0 = project::create_start(root, state_root, prior, fork, name, provider);
            let s1 = project::creation_after(
                s0,
                CreateEventView::Authenticated(origin, token, Some(endpoint)),
            );
            let s2 = project::creation_after(s1, CreateEventView::Ran(branch));
            let s3 = project::creation_after(s2, CreateEventView::Record(record, fresh));
            let s4 = project::creation_after(s3, CreateEventView::Did);
            let s5 = project::creation_after(s4, CreateEventView::Created(project));
            let s6 = project::creation_after(s5, CreateEventView::Materialized(local));
            let s7 = project::creation_after(s6, CreateEventView::Identified(identity));
            let s8 = project::creation_after(s7, CreateEventView::Did);
            let s9 = project::creation_after(s8, CreateEventView::Did);
            let s10 = project::creation_after(s9, CreateEventView::Did);
            let s11 = project::creation_after(s10, CreateEventView::Did);
            let place = paths::joined(
                paths::joined(state_root, "project-creations"@),
                digest::text_digest(
                    origin + "\0"@ + root + "\0"@ + if fork {
                        "fork"@
                    } else {
                        "init"@
                    },
                ) + ".json"@,
            );
            &&& project::create_requested(s0) == CreateActionView::Authenticate(provider)
            &&& project::create_requested(s1) == CreateActionView::Git(
                process::must_run(root, seq!["symbolic-ref"@, "--short"@, "HEAD"@]),
            )
            &&& project::create_requested(s2) == CreateActionView::ReadRecord(place)
            &&& project::create_requested(s3) == CreateActionView::WriteRecord(place)
            &&& project::create_requested(s4) is Create
            &&& project::create_requested(s4)->Create_0 == endpoint
            &&& project::create_requested(s4)->Create_1 == token
            &&& name is Some ==> project::create_requested(s4)->Create_2 == name->0
            &&& name is None && paths::last_name(root) is Some ==> project::create_requested(s4)->Create_2
                == paths::last_name(root)->0
            &&& project::create_requested(s4)->Create_3 == text::trim(branch.stdout)
            &&& match hooks::member(record, "idempotencyKey"@) {
                Some(JsonView::Text(key)) => project::create_requested(s4)->Create_4 == key,
                _ => project::create_requested(s4)->Create_4 == fresh,
            }
            &&& project::create_requested(s5) == CreateActionView::Materialize(root, token)
            &&& project::create_requested(s6) == CreateActionView::Identify(
                root,
                origin,
                project.project_id,
            )
            &&& project::create_requested(s7) == CreateActionView::Configure(root)
            &&& s7.local == Some(
                LocalProjectView {
                    service: identity.service,
                    checkout_id: identity.checkout_id,
                    ..local
                },
            )
            &&& project::create_requested(s8) == CreateActionView::Register(None)
            &&& project::create_requested(s9) == CreateActionView::Adapters(project.project_id)
            &&& project::create_requested(s10) == CreateActionView::Forget(place)
            &&& project::create_requested(s11) == CreateActionView::Return
        }),
{
    reveal(project::creation_after);
}

/// A worktree that has an identity is repaired: its provider has to know the project still, at
/// position `i` of its catalog; what this machine knows of the checkout is brought up to date with
/// it, and the project is synchronized and published afterwards.
pub proof fn law_course_of_a_repair(
    root: Seq<char>,
    state_root: Seq<char>,
    prior: IdentityView,
    name: Option<Seq<char>>,
    origin: Seq<char>,
    token: Seq<char>,
    endpoint: Option<Seq<char>>,
    protocol: Seq<char>,
    generation: u64,
    projects: Seq<CatalogProjectView>,
    i: int,
    local: LocalProjectView,
)
    requires
        prior.project_id is Some,
        prior.service is Some,
        0 <= i < projects.len(),
        projects[i].project_id == prior.project_id->0,
        forall|j: int| 0 <= j < i ==> (#[trigger] projects[j]).project_id != prior.project_id->0,
    ensures
        ({
            let s0 = project::create_start(root, state_root, prior, false, name, None);
            let s1 = project::creation_after(s0, CreateEventView::Authenticated(origin, token, endpoint));
            let s2 = project::creation_after(s1, CreateEventView::Catalog(protocol, generation, projects));
            let none = project::creation_after(s2, CreateEventView::Local(Seq::empty()));
            let s3 = project::creation_after(none, CreateEventView::Materialized(local));
            let s4 = project::creation_after(s3, CreateEventView::Did);
            let s5 = project::creation_after(s4, CreateEventView::Did);
            let s6 = project::creation_after(s5, CreateEventView::Did);
            let s7 = project::creation_after(s6, CreateEventView::Did);
            let s8 = project::creation_after(s7, CreateEventView::Did);
            let id = prior.project_id->0;
            &&& project::create_requested(s0) == CreateActionView::Authenticate(prior.service)
            &&& project::create_requested(s1) == CreateActionView::Catalog(origin, token)
            &&& project::create_requested(s2) == CreateActionView::Local
            &&& project::create_requested(none) == CreateActionView::Materialize(root, token)
            &&& s3.local == Some(
                LocalProjectView {
                    remote_url: projects[i].remote_url,
                    default_branch: projects[i].default_branch,
                    server_generation: projects[i].project_generation,
                    service: prior.service,
                    checkout_id: prior.checkout_id,
                    ..local
                },
            )
            &&& project::create_requested(s3) == CreateActionView::Configure(root)
            &&& project::create_requested(s4) == CreateActionView::Register(Some(generation))
            &&& project::create_requested(s5) == CreateActionView::Adapters(id)
            &&& project::create_requested(s6) == CreateActionView::Sync(id)
            &&& project::create_requested(s7) == CreateActionView::Publish(id)
            &&& project::create_requested(s8) == CreateActionView::Return
        }),
{
    reveal(project::creation_after);
    lemma_hosted_at(projects, prior.project_id->0, i, 0);
}

/// A worktree whose project its provider does not list is not repaired.
pub proof fn law_lost_access_is_told(
    s: ProjectCreationView,
    protocol: Seq<char>,
    generation: u64,
    projects: Seq<CatalogProjectView>,
    id: Seq<char>,
)
    requires
        s.stage is Catalog,
        s.prior.project_id == Some(id),
        forall|j: int| 0 <= j < projects.len() ==> (#[trigger] projects[j]).project_id != id,
    ensures
        project::create_requested(
            project::creation_after(s, CreateEventView::Catalog(protocol, generation, projects)),
        ) == CreateActionView::Fail(
            "ACCESS_LOST: "@ + id
                + " is not owned by the active device account; verify the provider login and device registration"@,
        ),
{
    reveal(project::creation_after);
    lemma_not_hosted(projects, id, 0);
}

/// Refs are deleted together or not at all: one command that begins a transaction, names each ref
/// on a line of its own, in order, and prepares and commits it.
pub proof fn law_refs_are_deleted_together(
    path: Seq<char>,
    refs: Seq<Seq<char>>,
    more: Seq<char>,
)
    ensures
        transaction::batch_call(path, refs) == (GitCallView {
            args: seq!["update-ref"@, "--stdin"@],
            options: (RunOptionsView {
                cwd: Some(path),
                env: Seq::empty(),
                input: Some("start\n"@ + transaction::delete_lines(refs) + "prepare\ncommit\n"@),
                allow_failure: false,
            }),
        }),
        transaction::delete_lines(Seq::empty()) == Seq::<char>::empty(),
        transaction::delete_lines(refs.push(more)) == transaction::delete_lines(refs) + "delete "@ + more + "\n"@,
{
    assert(refs.push(more).drop_last() =~= refs);
}

/// A collection lists the refs of every project before it changes anything; then it deletes the refs
/// of its plan, project by project, and cleans up after each; then it writes the records that stay
/// and removes the files of the others; and in the end it reports its plan. A step that fails ends
/// it.
pub proof fn law_course_of_a_collection(
    s: CollectionView,
    plan: GcPlanView,
    reason: Seq<char>,
)
    requires
        s.plan == Some(plan),
        s.failure is None,
        0 <= s.at,
    ensures
        s.stage is List ==> collect::collect_requested(s) == CollectActionView::Refs(
            s.paths[s.refs.len() as int],
        ),
        s.stage is Delete && s.at < plan.deletions.len() ==> {
            &&& collect::collect_requested(s) == CollectActionView::Git(
                GitCallView {
                    args: seq!["update-ref"@, "--stdin"@],
                    options: (RunOptionsView {
                        cwd: Some(plan.deletions[s.at].0),
                        env: Seq::empty(),
                        input: Some(
                            "start\n"@ + transaction::delete_lines(plan.deletions[s.at].1)
                                + "prepare\ncommit\n"@,
                        ),
                        allow_failure: false,
                    }),
                },
            )
            &&& collect::collect_requested(collect::collect_after(s, CollectEventView::Did))
                == CollectActionView::Clean(plan.deletions[s.at].0)
        },
        s.stage is Clean && s.at + 1 >= plan.deletions.len() && plan.changes.len() == 0
            ==> collect::collect_requested(collect::collect_after(s, CollectEventView::Did))
            == CollectActionView::Return(plan.report),
        s.stage is Change && s.at < plan.changes.len() ==> {
            let entry = s.entries[plan.changes[s.at]];
            &&& collect::collect_requested(s) == if entry.retain {
                CollectActionView::Save(entry.transaction)
            } else {
                CollectActionView::Remove(entry.transaction.path)
            }
            &&& s.at + 1 >= plan.changes.len() ==> collect::collect_requested(
                collect::collect_after(s, CollectEventView::Did),
            ) == CollectActionView::Return(plan.report)
            &&& s.at + 1 < plan.changes.len() ==> collect::collect_after(s, CollectEventView::Did).at
                == s.at + 1 && collect::collect_after(s, CollectEventView::Did).stage is Change
        },
        !(s.stage is Finished) ==> collect::collect_requested(
            collect::collect_after(s, CollectEventView::Failed(reason)),
        ) == CollectActionView::Fail(reason),
{
}

} // verus!
