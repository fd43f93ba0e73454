use resync::access::{Access, AccessAction, AccessEvent};
use resync::clock::Timestamp;
use resync::config::ProjectConfig;
use resync::converge::{Converge, ConvergeAction, ConvergeEvent};
use resync::daemon::{
    access_state, adapter_build_id, attempts_at, complete_publication, daemon_matches_client,
    enqueue_publication, ensure_branch_transition, executable_fingerprint, find_project,
    forget_publications, has_stopped, lock_owner, migrate_projects, needs_repair,
    pending_publication, publish_outcome, queue_summary, queued_publication, reconciliation_mode,
    record_undelivered, repair_outcome, report_checkout, request_line, requeue, service_arguments,
    service_unit, should_reconcile, stale_pid, startup_failure, supervision, DaemonError, Enqueue, RequestLine, Supervision, Transition,
};
use resync::flush::{process_publications, process_publications_at, FlushAction, FlushEvent};
use resync::gate::LeaseGate;
use resync::git_state::WorkspaceSnapshot;
use resync::json::Json;
use resync::lock::{acquire_process_lock, LockAction, LockEvent, LOCK_ROUNDS};
use resync::process::RunResult;
use resync::publication::{Publication, PublicationAck, PublicationQueue};
use resync::refresh::{Refresh, RefreshAction, RefreshEvent};
use resync::remote::HeartbeatItem;
use resync::service::{Reply, ResyncDaemon};
use resync::startup::{Startup, StartupAction, StartupEvent, START_ROUNDS, STOP_ROUNDS};
use resync::state::{Conflict, LocalCatalog, LocalProject};
use resync::transaction::ReconcileResult;
use resync::validation::{
    validate_candidate, Validation, ValidationAction, ValidationEvent,
};

fn convert(value: &serde_json::Value) -> Json {
    match value {
        serde_json::Value::Null => Json::Null,
        serde_json::Value::Bool(b) => Json::Bool(*b),
        serde_json::Value::Number(n) => Json::Number(n.to_string()),
        serde_json::Value::String(s) => Json::Text(s.clone()),
        serde_json::Value::Array(items) => Json::List(items.iter().map(convert).collect()),
        serde_json::Value::Object(map) => {
            Json::Object(map.iter().map(|(k, v)| (k.clone(), convert(v))).collect())
        }
    }
}

fn json(text: &str) -> Json {
    convert(&serde_json::from_str(text).unwrap())
}

fn ran(code: i32, stdout: &str) -> RunResult {
    RunResult { code, stdout: stdout.to_owned(), stderr: String::new() }
}

fn project(id: &str) -> LocalProject {
    let mut project = LocalProject::new(id, "/work/project");
    project.remote_url = "https://provider.example/git".into();
    project.remote_name = "origin".into();
    project.default_branch = "main".into();
    project.server_generation = 1;
    project.active_branch = Some("main".into());
    project.workspace_generation = 1;
    project.state = "CURRENT".into();
    project.durability = "REMOTELY_DURABLE".into();
    project
}

fn daemon(projects: Vec<LocalProject>) -> ResyncDaemon {
    ResyncDaemon::from_parts(
        "binary".to_owned(),
        LocalCatalog { catalog_generation: 3, projects },
        PublicationQueue { version: 1, publications: vec![] },
    )
}

fn publication(id: &str, created_at: &str) -> Publication {
    Publication::with(id, "prj", &None, "main", &"a".repeat(40), &None, created_at)
}

#[test]
fn stale_daemon_builds_are_not_reused() {
    assert!(daemon_matches_client(&json(r#"{"binaryId": "current", "pid": 42}"#), "current"));
    assert!(!daemon_matches_client(&json(r#"{"binaryId": "stale", "pid": 42}"#), "current"));
    assert!(!daemon_matches_client(&json(r#"{"pid": 42}"#), "current"));
}

#[test]
fn exclusive_owners_are_serialized() {
    let mut gate = LeaseGate::new();
    assert!(gate.activity("lease"));
    assert!(gate.begin_exclusive());
    assert!(!gate.drained());
    assert!(!gate.begin_exclusive());
    assert!(!gate.activity("other"));
    assert!(gate.release("lease"));
    assert!(gate.drained());
    assert!(!gate.begin_exclusive());
    gate.end_exclusive();
    assert!(gate.begin_exclusive());
    gate.end_exclusive();
    assert!(gate.activity("other"));
    assert!(!gate.release("unknown"));
}

#[test]
fn daemon_registration_atomically_persists_a_project() {
    let mut daemon = daemon(vec![]);
    let registered = LocalProject::new("prj_registered", "/tmp/checkout");
    let request = json(
        r#"{"method": "registerProject", "project": {"projectId": "prj_registered"}, "catalog_generation": 4}"#,
    );
    match daemon.handle(&request, Some(registered)).unwrap() {
        Reply::Registered(id, generation) => {
            assert_eq!(id, "prj_registered");
            assert_eq!(generation, 4);
        }
        other => panic!("{other:?}"),
    }
    assert_eq!(daemon.catalog.catalog_generation, 4);
    assert_eq!(daemon.catalog.projects.len(), 1);
    assert_eq!(daemon.catalog.projects[0].project_id, "prj_registered");
    assert_eq!(
        daemon.project_snapshot("prj_registered").unwrap().project_id,
        "prj_registered"
    );
}

#[test]
fn conflicted_access_is_unleased_and_sync_clears_stale_conflict() {
    let head = "a".repeat(40);
    let mut stale = project("prj_stale_conflict");
    stale.advertised_heads.insert("main".to_owned(), head.clone());
    stale.state = "CONFLICTED".into();
    stale.conflict = Some(Conflict {
        kind: "reconciliation".into(),
        detail: "obsolete conflict".into(),
        paths: Vec::new(),
    });
    assert!(reconciliation_mode(&stale));
    assert!(!should_reconcile(&stale));
    let mut daemon = daemon(vec![stale]);
    let request = json(
        r#"{"method": "acquireAccess", "project_id": "prj_stale_conflict", "session_id": "session", "call_id": "call"}"#,
    );
    let id = match daemon.handle(&request, None).unwrap() {
        Reply::Acquire(id) => id,
        other => panic!("{other:?}"),
    };
    let (access, asked) = use_project(&mut daemon, &id, &head);
    assert!(access.granted);
    assert!(access.reconciliation_mode);
    assert_eq!(access.lease_id, None);
    assert_eq!(asked, vec!["follow", "look", "look", "describe"]);
    assert_eq!(daemon.lease_projects.len(), 0);
    assert_eq!(daemon.project_snapshot("prj_stale_conflict").unwrap().state, "CONFLICTED");
    let stale = daemon.catalog.projects.remove(0);

    let mut converge = Converge::new(stale);
    loop {
        let event = match converge.request() {
            ConvergeAction::Branch(_) => ConvergeEvent::Branch(Some("main".to_owned())),
            ConvergeAction::Capture(_) => ConvergeEvent::Captured(WorkspaceSnapshot {
                head: head.clone(),
                index_tree: "t".into(),
                working_tree: "t".into(),
                untracked: vec![],
            }),
            ConvergeAction::Git(_) => ConvergeEvent::Ran(ran(0, "")),
            ConvergeAction::Move(_, _, _) => panic!("nothing is to be moved"),
            ConvergeAction::Return(outcome) => {
                assert_eq!(outcome.outcome, "current");
                break;
            }
            ConvergeAction::Fail(error) => panic!("{error}"),
        };
        converge.advance(event);
    }
    assert_eq!(converge.project.state, "CURRENT");
    assert_eq!(converge.project.conflict, None);
}

#[test]
fn a_moved_project_is_recorded() {
    let mut ahead = project("prj");
    ahead.advertised_heads.insert("main".to_owned(), "b".repeat(40));
    ahead.last_applied_heads.insert("main".to_owned(), "a".repeat(40));
    ahead.state = "REMOTE_AHEAD".into();
    assert!(should_reconcile(&ahead));
    let mut converge = Converge::new(ahead);
    let mut moved = false;
    loop {
        let event = match converge.request() {
            ConvergeAction::Branch(_) => ConvergeEvent::Branch(Some("main".to_owned())),
            ConvergeAction::Capture(_) => ConvergeEvent::Captured(WorkspaceSnapshot {
                head: "a".repeat(40),
                index_tree: "t".into(),
                working_tree: "t".into(),
                untracked: vec![],
            }),
            ConvergeAction::Git(call) => {
                let ahead = call.args.contains(&"merge-base".to_owned());
                ConvergeEvent::Ran(ran(if ahead { 1 } else { 0 }, ""))
            }
            ConvergeAction::Move(path, previous, target) => {
                assert_eq!(path, "/work/project");
                assert_eq!(previous, "a".repeat(40));
                assert_eq!(target, "b".repeat(40));
                moved = true;
                let mut result = resync::converge::simple_outcome("applied");
                result.new_head = Some("b".repeat(40));
                result.changed_paths = vec!["file".to_owned()];
                ConvergeEvent::Moved(result)
            }
            ConvergeAction::Return(outcome) => {
                assert_eq!(outcome.outcome, "applied");
                break;
            }
            ConvergeAction::Fail(error) => panic!("{error}"),
        };
        converge.advance(event);
    }
    assert!(moved);
    assert_eq!(converge.project.state, "CURRENT");
    assert_eq!(converge.project.workspace_generation, 2);
    assert_eq!(
        converge.project.last_applied_heads.get("main").map(|s| s.as_str()),
        Some("b".repeat(40).as_str())
    );
}

#[test]
fn access_after_a_move_is_explained() {
    let moved = ReconcileResult {
        outcome: "applied".into(),
        transaction_id: None,
        recovery_ref: None,
        head: None,
        old_head: None,
        new_head: None,
        changed_paths: vec!["a".into(), "b".into()],
        detail: None,
        paths: vec![],
    };
    let mut access = Access::new("prj");
    let mut behind = project("prj");
    behind.state = "REMOTE_AHEAD".into();
    access.advance(AccessEvent::Did);
    access.advance(AccessEvent::Project(behind));
    assert!(matches!(access.request(), AccessAction::Move(id) if id == "prj"));
    access.advance(AccessEvent::Moved(moved));
    access.advance(AccessEvent::Project(project("prj")));
    assert!(matches!(access.request(), AccessAction::Lease(id) if id == "prj"));
    access.advance(AccessEvent::Leased("lease".to_owned()));
    match access.request() {
        AccessAction::Record(id, lease) => assert_eq!((id.as_str(), lease.as_str()), ("prj", "lease")),
        other => panic!("{other:?}"),
    }
    access.advance(AccessEvent::Did);
    access.advance(AccessEvent::Described(project("prj"), "head".to_owned()));
    let grant = match access.request() {
        AccessAction::Return(grant) => grant,
        other => panic!("{other:?}"),
    };
    assert!(grant.applied);
    assert!(!grant.reconciliation_mode);
    assert_eq!(grant.branch_oid, "head");
    assert_eq!(
        grant.model_message.as_deref(),
        Some("RepoSync advanced the workspace and preserved local work. Upstream changed: a, b.")
    );
    assert_eq!(grant.remote_ref, "origin/main");
    assert_eq!(grant.lease_id.as_deref(), Some("lease"));
}

#[test]
fn requests_are_answered_from_what_is_known() {
    let mut daemon = daemon(vec![project("prj")]);
    match daemon.handle(&json(r#"{"method": "ping"}"#), None).unwrap() {
        Reply::Pong(id) => assert_eq!(id, "binary"),
        other => panic!("{other:?}"),
    }
    match daemon
        .handle(&json(r#"{"method": "accessState", "project_id": "/work/project"}"#), None)
        .unwrap()
    {
        Reply::Access(state) => {
            assert_eq!(state.state, "current");
            assert!(!state.reconciliation_mode);
            assert_eq!(state.remote_ref, "origin/main");
        }
        other => panic!("{other:?}"),
    }
    match daemon.handle(&json(r#"{"method": "status"}"#), None).unwrap() {
        Reply::Status(list) => {
            assert_eq!(list.len(), 1);
            assert_eq!(list[0].0, 0);
            assert_eq!(list[0].1.depth, 0);
        }
        other => panic!("{other:?}"),
    }
    assert_eq!(
        daemon
            .handle(&json(r#"{"method": "accessState", "project_id": "nobody"}"#), None)
            .unwrap_err(),
        DaemonError::UnknownProject("nobody".to_owned())
    );
    assert_eq!(
        daemon.handle(&json(r#"{"method": "sync"}"#), None).unwrap_err(),
        DaemonError::MissingField("project_id".to_owned())
    );
    assert_eq!(
        daemon.handle(&json(r#"{"method": "dance"}"#), None).unwrap_err(),
        DaemonError::UnknownMethod("dance".to_owned())
    );
    assert_eq!(
        daemon.handle(&json(r#"{"method": "registerProject"}"#), None).unwrap_err(),
        DaemonError::NoProject
    );
    assert_eq!(
        daemon
            .handle(&json(r#"{"method": "releaseAccess", "lease_id": "x"}"#), None)
            .unwrap_err(),
        DaemonError::UnknownLease
    );
    daemon.lease_projects.insert("x".to_owned(), "prj".to_owned());
    match daemon
        .handle(&json(r#"{"method": "releaseAccess", "lease_id": "x"}"#), None)
        .unwrap()
    {
        Reply::Released(id) => assert_eq!(id, "prj"),
        other => panic!("{other:?}"),
    }
    assert!(!daemon.lease_projects.has("x"));
}

#[test]
fn a_left_branch_is_queued_before_the_new_one_is_recorded() {
    let mut daemon = daemon(vec![project("prj")]);
    let request = json(
        r#"{"method": "reportCheckout", "project_id": "prj", "new_branch": "next", "previous_oid": "0a0"}"#,
    );
    match daemon.handle(&request, None).unwrap() {
        Reply::Checkout(id, branch, before, oid) => {
            assert_eq!((id.as_str(), branch.as_str()), ("prj", "next"));
            assert_eq!(before.as_deref(), Some("main"));
            assert_eq!(oid, "0a0");
        }
        other => panic!("{other:?}"),
    }
    assert_eq!(daemon.catalog.projects[0].active_branch.as_deref(), Some("main"));
    daemon.record_checkout("prj", "next").unwrap();
    assert_eq!(daemon.catalog.projects[0].active_branch.as_deref(), Some("next"));
    assert_eq!(report_checkout(&Some("main".to_owned()), "next", "000"), None);
    assert_eq!(report_checkout(&Some("main".to_owned()), "main", "0a0"), None);
    assert!(daemon.record_checkout("nobody", "next").is_err());
    daemon.queue_publication("prj", publication("p1", "2026-01-01T00:00:00Z")).unwrap();
    assert_eq!(daemon.publications.publications.len(), 1);
    assert_eq!(daemon.catalog.projects[0].durability, "COMMITTED_UNPUBLISHED");
}

#[test]
fn a_branch_that_changed_unseen_is_handled() {
    let project = project("prj");
    assert!(matches!(ensure_branch_transition(&project, "main", &vec![]), Transition::Same));
    match ensure_branch_transition(&project, "next", &vec![]) {
        Transition::Probe(call) => {
            assert!(call.args.iter().any(|arg| arg.contains("refs/heads/main")))
        }
        other => panic!("{other:?}"),
    }
}

#[test]
fn commits_are_queued_once() {
    let commit = "c".repeat(40);
    let project = project("prj");
    let mut queue = PublicationQueue { version: 1, publications: vec![] };
    match enqueue_publication(&project, &queue, "main", &commit, &vec![]).unwrap() {
        Enqueue::Verify(call) => {
            assert_eq!(call.args[2], format!("{commit}^{{commit}}"));
        }
        other => panic!("{other:?}"),
    }
    assert_eq!(
        enqueue_publication(&project, &queue, "main", &commit, &vec![ran(0, "other\n")])
            .unwrap_err(),
        DaemonError::WrongCommit
    );
    let verified = vec![ran(0, &format!("{commit}\n"))];
    match enqueue_publication(&project, &queue, "main", &commit, &verified).unwrap() {
        Enqueue::Keep(call, publication) => {
            assert_eq!(call.args[0], "update-ref");
            assert!(call.args[1].starts_with("refs/resync/publications/"));
            assert!(publication.pending());
            queue.publications.push(publication);
        }
        other => panic!("{other:?}"),
    }
    match enqueue_publication(&project, &queue, "main", &commit, &verified).unwrap() {
        Enqueue::Queued(id) => assert_eq!(id, queue.publications[0].publication_id),
        other => panic!("{other:?}"),
    }
}

#[test]
fn newest_publications_are_tried_first() {
    let queue = PublicationQueue {
        version: 1,
        publications: vec![
            publication("old", "2026-01-01T00:00:00Z"),
            publication("new", "2026-01-02T00:00:00Z"),
        ],
    };
    let now = Timestamp { seconds: 0, nanos: 0 };
    assert_eq!(attempts_at(&queue, true, &now), vec!["new", "old"]);
    assert_eq!(pending_publication(&queue, "old").unwrap().publication_id, "old");
    assert!(pending_publication(&queue, "gone").is_none());
    assert!(queued_publication(&queue, "new").is_some());
    let summary = queue_summary(&queue, "prj");
    assert_eq!(summary.depth, 2);
    assert_eq!(summary.oldest.as_deref(), Some("2026-01-01T00:00:00Z"));
    assert!(publish_outcome(&queue, "prj", "main").is_err());
    assert!(publish_outcome(&queue, "prj", "other").is_ok());
}

#[test]
fn failures_are_tried_again_later() {
    let mut queue =
        PublicationQueue { version: 1, publications: vec![publication("p", "2026-01-01T00:00:00Z")] };
    let now = Timestamp { seconds: 1767225600, nanos: 0 };
    record_undelivered(&mut queue, "p", "offline", &now);
    let failed = &queue.publications[0];
    assert_eq!(failed.last_error.as_deref(), Some("offline"));
    assert!(!failed.due_at(&now));
    let later = Timestamp { seconds: 1767225600 + 3600, nanos: 0 };
    assert!(failed.due_at(&later));
    assert_eq!(attempts_at(&queue, false, &now).len(), 0);
    assert_eq!(attempts_at(&queue, false, &later).len(), 1);
    requeue(&mut queue, "p", &"d".repeat(40), &Some("e".repeat(40)), "now").unwrap();
    assert_eq!(queue.publications[0].candidate_commit_oid, "d".repeat(40));
    assert_eq!(queue.publications[0].last_error, None);
    assert!(requeue(&mut queue, "gone", "x", &None, "now").is_err());
}

#[test]
fn an_acknowledgement_covers_older_commits_of_its_branch() {
    let mut queue = PublicationQueue {
        version: 1,
        publications: vec![
            publication("old", "2026-01-01T00:00:00Z"),
            publication("new", "2026-01-02T00:00:00Z"),
            publication("newer", "2026-01-03T00:00:00Z"),
        ],
    };
    let done = queue.publications[1].copy();
    let ack = PublicationAck {
        publication_id: "new".into(),
        attempt: 1,
        project_id: "prj".into(),
        branch: "main".into(),
        accepted_oid: "a".repeat(40),
        remote_head: "a".repeat(40),
        project_generation: 7,
        durable: true,
    };
    let completion = complete_publication(&mut queue, &done, &ack, "2026-01-04T00:00:00Z");
    assert!(completion.completed.contains(&"new".to_owned()));
    assert!(completion.completed.contains(&"old".to_owned()));
    assert!(!completion.completed.contains(&"newer".to_owned()));
    assert!(completion.has_pending);
    let calls = forget_publications("/work/project", &completion.completed);
    assert_eq!(calls.len(), 2);
    assert!(calls[0].options.allow_failure);
    let mut published = project("prj");
    published.publish("main", &ack, true);
    assert_eq!(published.server_generation, 7);
    assert_eq!(
        published.advertised_heads.get("main").map(|s| s.as_str()),
        Some("a".repeat(40).as_str())
    );
}

#[test]
fn older_catalogs_are_migrated() {
    let mut old = LocalProject::new("prj", "/work");
    old.extra.insert("syncBranch".to_owned(), Json::Text("trunk".to_owned()));
    old.extra.insert("advertisedRemoteOid".to_owned(), Json::Text("a".to_owned()));
    old.extra.insert("unrelated".to_owned(), Json::Bool(true));
    let mut projects = vec![old];
    migrate_projects(&mut projects);
    assert_eq!(projects[0].default_branch, "trunk");
    assert_eq!(projects[0].advertised_heads.get("trunk").map(|s| s.as_str()), Some("a"));
    assert!(projects[0].extra.has("unrelated"));
    assert_eq!(projects[0].extra.len(), 1);
    assert_eq!(find_project(&projects, "/work").unwrap(), 0);
    assert!(find_project(&projects, "other").is_err());
    assert_eq!(access_state(&projects[0]).branch, "trunk");
}

#[test]
fn members_that_are_lost_stop_the_project() {
    let items = vec![HeartbeatItem {
        project_id: "prj".into(),
        membership: "ACCESS_LOST".into(),
        head: None,
        project_generation: 2,
    }];
    let mut refresh = Refresh::new(vec![project("prj")], items);
    let mut steps = 0;
    loop {
        steps += 1;
        assert!(steps < 20);
        let event = match refresh.request() {
            RefreshAction::Branch(_) => RefreshEvent::Branch(Some("main".to_owned())),
            RefreshAction::Fetch(_, _, _) => RefreshEvent::Fetched(None),
            RefreshAction::Git(_) => RefreshEvent::Ran(ran(0, "")),
            RefreshAction::Done => break,
            RefreshAction::Fail(error) => panic!("{error}"),
        };
        refresh.advance(event);
    }
    assert_eq!(refresh.projects[0].state, "ACCESS_LOST");
    assert!(refresh.projects[0].last_error.as_deref().unwrap().contains("no longer authorizes"));
}

#[test]
fn a_newer_head_is_reconciled() {
    let items = vec![HeartbeatItem {
        project_id: "prj".into(),
        membership: "ACTIVE".into(),
        head: Some("b".repeat(40)),
        project_generation: 2,
    }];
    let mut here = project("prj");
    here.last_applied_heads.insert("main".to_owned(), "a".repeat(40));
    let mut refresh = Refresh::new(vec![here], items);
    let mut steps = 0;
    loop {
        steps += 1;
        assert!(steps < 20);
        let event = match refresh.request() {
            RefreshAction::Branch(path) => {
                assert_eq!(path, "/work/project");
                RefreshEvent::Branch(Some("main".to_owned()))
            }
            RefreshAction::Fetch(_, _, branch) => {
                assert_eq!(branch, "main");
                RefreshEvent::Fetched(Some("b".repeat(40)))
            }
            RefreshAction::Git(call) => {
                if call.args.contains(&"merge-base".to_owned()) {
                    RefreshEvent::Ran(ran(1, ""))
                } else {
                    RefreshEvent::Ran(ran(0, &"a".repeat(40)))
                }
            }
            RefreshAction::Done => break,
            RefreshAction::Fail(error) => panic!("{error}"),
        };
        refresh.advance(event);
    }
    assert_eq!(refresh.reconcile, vec!["prj"]);
    assert_eq!(
        refresh.projects[0].advertised_heads.get("main").map(|s| s.as_str()),
        Some("b".repeat(40).as_str())
    );
}

#[test]
fn processes_and_builds_are_recognized() {
    assert_eq!(stale_pid(&json(r#"{"pid": 42}"#), 7).unwrap(), 42);
    assert_eq!(stale_pid(&json(r#"{"pid": 42}"#), 42).unwrap_err(), DaemonError::OwnProcess);
    assert_eq!(stale_pid(&json(r#"{}"#), 42).unwrap_err(), DaemonError::NoPid);
    assert!(has_stopped(&None, 42));
    assert!(has_stopped(&Some(json(r#"{"pid": 43}"#)), 42));
    assert!(!has_stopped(&Some(json(r#"{"pid": 42}"#)), 42));
    assert_eq!(lock_owner(" 42\n"), Some(42));
    assert_eq!(lock_owner("x"), None);
    assert_eq!(request_line("  \n"), RequestLine::Blank);
    assert_eq!(request_line("{}\n"), RequestLine::Request);
    assert_eq!(request_line(&"x".repeat(1024 * 1024 + 1)), RequestLine::TooLong);
    assert_eq!(
        executable_fingerprint(b"abc"),
        "ba7816bf8f01cfea414140de5dae2223b00361a396177a9cb410ff61f20015ad"
    );
    assert_eq!(adapter_build_id("1.0", "id", "/bin/resync"), "1.0:id:/bin/resync");
    assert!(needs_repair(&Json::Null, "build-one"));
    assert!(!needs_repair(&json(r#"{"buildId": "build-one"}"#), "build-one"));
    assert!(repair_outcome(&vec![]).is_ok());
    assert_eq!(
        repair_outcome(&vec!["a: x".to_owned(), "b: y".to_owned()]).unwrap_err().message(),
        "could not refresh every managed checkout: a: x; b: y"
    );
}

#[test]
fn the_daemon_is_supervised() {
    assert_eq!(supervision(true, true), Supervision::StateDir);
    assert_eq!(supervision(false, true).name(), "systemd-user");
    assert_eq!(supervision(false, false).name(), "hook-started");
    assert!(service_unit("/bin/resync").contains("ExecStart=/bin/resync daemon\n"));
    assert_eq!(service_arguments(true), vec!["--user", "restart", "resync.service"]);
    assert_eq!(service_arguments(false), vec!["--user", "enable", "--now", "resync.service"]);
    assert_eq!(
        startup_failure(&None, ""),
        "RepoSync daemon did not become ready"
    );
    assert_eq!(
        startup_failure(&Some("refused".to_owned()), "1\n2\n3\n4\n5\n6\n"),
        "refused; daemon log: 2\n3\n4\n5\n6"
    );
}

/// Carries a request for access out on what a daemon knows.
fn use_project(
    daemon: &mut ResyncDaemon,
    id: &str,
    head: &str,
) -> (resync::daemon::AccessGrant, Vec<&'static str>) {
    let copy = |daemon: &ResyncDaemon| {
        let mut seen = project(id);
        seen.state = daemon.project_snapshot(id).unwrap().state.clone();
        seen
    };
    let mut access = Access::new(id);
    let mut asked = vec![];
    loop {
        let event = match access.request() {
            AccessAction::Follow(_) => {
                asked.push("follow");
                AccessEvent::Did
            }
            AccessAction::Look(_) => {
                asked.push("look");
                AccessEvent::Project(copy(daemon))
            }
            AccessAction::Move(_) => {
                asked.push("move");
                AccessEvent::Moved(resync::converge::simple_outcome("current"))
            }
            AccessAction::Lease(_) => {
                asked.push("lease");
                AccessEvent::Leased("lease_1".to_owned())
            }
            AccessAction::Record(project_id, lease) => {
                asked.push("record");
                daemon.grant_lease(&project_id, &lease);
                AccessEvent::Did
            }
            AccessAction::Describe(_) => {
                asked.push("describe");
                AccessEvent::Described(copy(daemon), head.to_owned())
            }
            AccessAction::Return(grant) => return (grant, asked),
            AccessAction::Fail(reason) => panic!("{reason}"),
        };
        access.advance(event);
    }
}

#[test]
fn access_ties_its_lease_to_the_project() {
    let mut daemon = daemon(vec![project("prj")]);
    let (grant, asked) = use_project(&mut daemon, "prj", "head");
    assert_eq!(asked, vec!["follow", "look", "look", "lease", "record", "describe"]);
    assert_eq!(grant.lease_id.as_deref(), Some("lease_1"));
    assert!(!grant.reconciliation_mode);
    assert!(!grant.applied);
    assert_eq!(grant.model_message, None);
    match daemon
        .handle(&json(r#"{"method": "releaseAccess", "lease_id": "lease_1"}"#), None)
        .unwrap()
    {
        Reply::Released(id) => assert_eq!(id, "prj"),
        other => panic!("{other:?}"),
    }
    let mut failing = Access::new("prj");
    failing.advance(AccessEvent::Failed("no such branch".to_owned()));
    assert!(matches!(failing.request(), AccessAction::Fail(reason) if reason == "no such branch"));
}

fn commands() -> Vec<Vec<String>> {
    vec![
        vec!["cargo".to_owned(), "fmt".to_owned()],
        vec!["cargo".to_owned(), "test".to_owned()],
    ]
}

/// What a validation asks for, where the command at a position fails.
fn validation_course(mut validation: Validation, failing: usize) -> Vec<String> {
    let mut log = vec![];
    loop {
        let line = match validation.request() {
            ValidationAction::Git(call) => format!("git {}", call.args.join(" ")),
            ValidationAction::Run(words, directory) => format!("{directory}: {}", words.join(" ")),
            ValidationAction::Done => "done".to_owned(),
            ValidationAction::Fail(reason) => format!("fail {reason}"),
        };
        let over = line == "done" || line.starts_with("fail ");
        log.push(line);
        if over {
            return log;
        }
        validation.advance(if log.len() == failing {
            ValidationEvent::Failed(format!("step {failing}"))
        } else {
            ValidationEvent::Did
        });
    }
}

#[test]
fn validations_run_in_order_in_their_own_worktree() {
    let start = |list| Validation::new("/work", "/state/v", "abc", list);
    assert_eq!(
        validation_course(start(commands()), 0),
        vec![
            "git worktree add --detach /state/v abc",
            "/state/v: cargo fmt",
            "/state/v: cargo test",
            "git worktree remove --force /state/v",
            "done",
        ]
    );
    assert_eq!(
        validation_course(start(commands()), 2),
        vec![
            "git worktree add --detach /state/v abc",
            "/state/v: cargo fmt",
            "git worktree remove --force /state/v",
            "fail step 2",
        ]
    );
    assert_eq!(
        validation_course(start(commands()), 1),
        vec![
            "git worktree add --detach /state/v abc",
            "git worktree remove --force /state/v",
            "fail step 1",
        ]
    );
    assert_eq!(validation_course(start(vec![]), 0), vec!["done"]);
    assert_eq!(
        validation_course(start(commands()), 4).last().map(String::as_str),
        Some("done")
    );
    let policy = || ProjectConfig { validations: commands() };
    let one = validate_candidate("/work", "/state", "abc", policy());
    let two = validate_candidate("/work", "/state", "abc", policy());
    assert!(one.worktree.starts_with("/state/validation-"));
    assert_eq!(one.worktree.len(), "/state/validation-".len() + 36);
    assert_ne!(one.worktree, two.worktree);
}

fn own() -> StartupEvent {
    StartupEvent::Answered(json(r#"{"binaryId": "own", "pid": 7}"#))
}

fn other() -> StartupEvent {
    StartupEvent::Answered(json(r#"{"binaryId": "other", "pid": 42}"#))
}

#[test]
fn requests_go_to_a_daemon_of_the_same_build() {
    let mut reused = Startup::new("own", 1);
    assert_eq!(reused.request(), StartupAction::Ping);
    reused.advance(own());
    assert_eq!(reused.request(), StartupAction::Send);

    let mut replaced = Startup::new("own", 1);
    replaced.advance(other());
    assert_eq!(replaced.request(), StartupAction::Stop(42));
    replaced.advance(StartupEvent::Did);
    replaced.advance(other());
    assert_eq!(replaced.request(), StartupAction::PingLater);
    replaced.advance(StartupEvent::Silent("gone".to_owned()));
    assert_eq!(replaced.request(), StartupAction::Start);
    replaced.advance(StartupEvent::Did);
    replaced.advance(StartupEvent::Silent("not yet".to_owned()));
    assert_eq!(replaced.request(), StartupAction::PingLater);
    replaced.advance(own());
    assert_eq!(replaced.request(), StartupAction::Send);

    let mut itself = Startup::new("own", 42);
    itself.advance(other());
    assert_eq!(itself.request(), StartupAction::Fail(DaemonError::OwnProcess.message()));
}

#[test]
fn a_daemon_is_waited_for_only_so_long() {
    let mut stubborn = Startup::new("own", 1);
    stubborn.advance(other());
    stubborn.advance(StartupEvent::Did);
    for _ in 0..STOP_ROUNDS - 1 {
        stubborn.advance(other());
        assert_eq!(stubborn.request(), StartupAction::PingLater);
    }
    stubborn.advance(other());
    assert_eq!(
        stubborn.request(),
        StartupAction::Fail("stale RepoSync daemon 42 did not stop after SIGTERM".to_owned())
    );

    let mut missing = Startup::new("own", 1);
    missing.advance(StartupEvent::Silent("refused".to_owned()));
    missing.advance(StartupEvent::Did);
    for _ in 0..START_ROUNDS - 1 {
        missing.advance(StartupEvent::Silent("refused".to_owned()));
        assert_eq!(missing.request(), StartupAction::PingLater);
    }
    missing.advance(other());
    assert_eq!(missing.request(), StartupAction::Log);
    missing.advance(StartupEvent::Logged("one\ntwo\n".to_owned()));
    assert_eq!(
        missing.request(),
        StartupAction::Fail(
            "another RepoSync daemon with a different binary is running; daemon log: one\ntwo"
                .to_owned()
        )
    );
    let mut refused = Startup::new("own", 1);
    refused.advance(StartupEvent::Silent("refused".to_owned()));
    refused.advance(StartupEvent::Failed("no HOME".to_owned()));
    assert_eq!(refused.request(), StartupAction::Fail("no HOME".to_owned()));
}

#[test]
fn a_failed_delivery_does_not_hold_up_the_others() {
    let queue = PublicationQueue {
        version: 1,
        publications: vec![
            publication("old", "2026-01-01T00:00:00Z"),
            publication("new", "2026-01-02T00:00:00Z"),
        ],
    };
    assert_eq!(process_publications(&queue, true).ids, vec!["new", "old"]);
    let now = Timestamp { seconds: 0, nanos: 0 };
    let mut flush = process_publications_at(&queue, true, &now);
    assert_eq!(flush.request(), FlushAction::Find("new".to_owned()));
    flush.advance(FlushEvent::Found(Some("prj".to_owned())));
    assert_eq!(flush.request(), FlushAction::Deliver("new".to_owned()));
    flush.advance(FlushEvent::Failed("offline".to_owned()));
    assert_eq!(flush.request(), FlushAction::Record("new".to_owned(), "offline".to_owned()));
    flush.advance(FlushEvent::Did);
    assert_eq!(flush.request(), FlushAction::Mark("prj".to_owned(), "offline".to_owned()));
    flush.advance(FlushEvent::Did);
    assert_eq!(flush.request(), FlushAction::Find("old".to_owned()));
    flush.advance(FlushEvent::Found(Some("prj".to_owned())));
    flush.advance(FlushEvent::Did);
    assert_eq!(flush.request(), FlushAction::Return);
}

#[test]
fn a_run_of_deliveries_skips_and_breaks() {
    let queue = PublicationQueue {
        version: 1,
        publications: vec![
            publication("old", "2026-01-01T00:00:00Z"),
            publication("new", "2026-01-02T00:00:00Z"),
        ],
    };
    let mut flush = process_publications(&queue, true);
    flush.advance(FlushEvent::Found(None));
    assert_eq!(flush.request(), FlushAction::Find("old".to_owned()));
    flush.advance(FlushEvent::Found(Some("prj".to_owned())));
    flush.advance(FlushEvent::Failed("offline".to_owned()));
    flush.advance(FlushEvent::Failed("disk full".to_owned()));
    assert_eq!(flush.request(), FlushAction::Fail("disk full".to_owned()));
}

#[test]
fn the_lock_of_a_dead_daemon_is_replaced() {
    let mut lock = acquire_process_lock();
    assert_eq!(lock.request(), LockAction::Create);
    lock.advance(LockEvent::Exists);
    assert_eq!(lock.request(), LockAction::Read);
    lock.advance(LockEvent::Text(" 41\n".to_owned()));
    assert_eq!(lock.request(), LockAction::Probe(41));
    lock.advance(LockEvent::Alive(false));
    assert_eq!(lock.request(), LockAction::Remove);
    lock.advance(LockEvent::Failed("gone".to_owned()));
    assert_eq!(lock.request(), LockAction::Create);
    lock.advance(LockEvent::Created);
    assert_eq!(lock.request(), LockAction::Return);
}

#[test]
fn the_lock_of_a_living_daemon_stays() {
    let mut lock = acquire_process_lock();
    lock.advance(LockEvent::Exists);
    lock.advance(LockEvent::Text("41".to_owned()));
    lock.advance(LockEvent::Alive(true));
    assert_eq!(
        lock.request(),
        LockAction::Fail("RepoSync daemon is already running as PID 41".to_owned())
    );
    let mut contended = acquire_process_lock();
    for _ in 0..LOCK_ROUNDS {
        contended.advance(LockEvent::Exists);
        contended.advance(LockEvent::Text("unreadable".to_owned()));
        assert_eq!(contended.request(), LockAction::Remove);
        contended.advance(LockEvent::Did);
    }
    assert_eq!(
        contended.request(),
        LockAction::Fail("could not acquire RepoSync daemon lock".to_owned())
    );
    let mut refused = acquire_process_lock();
    refused.advance(LockEvent::Failed("read-only".to_owned()));
    assert_eq!(refused.request(), LockAction::Fail("read-only".to_owned()));
}

#[test]
fn a_lease_is_held_once() {
    let mut gate = LeaseGate::new();
    assert!(gate.activity("lease"));
    assert!(gate.activity("lease"));
    assert!(!gate.drained());
    assert!(gate.release("lease"));
    assert!(gate.drained());
    assert!(!gate.release("lease"));
}
