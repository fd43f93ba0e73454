use resync::adopt::{adopt_exact_snapshot, AdoptAction, AdoptEvent};
use resync::clock::Timestamp;
use resync::collect::{CollectAction, CollectEvent};
use resync::delivery::{Delivery, DeliveryAction, DeliveryEvent, DeliveryProject};
use resync::git_state::{
    capture_workspace, create_synthetic_chain, current_branch, find_untracked_collisions, git_dir,
    list_untracked, parse_paths, read_head_ref, SyntheticChain, WorkspaceSnapshot,
};
use resync::json::Json;
use resync::materialize::{materialize_project, MaterializeAction, MaterializeEvent};
use resync::process::{GitCall, Next, RunResult};
use resync::protocol::{AdvertisedHead, CatalogProject};
use resync::publication::{
    acknowledge_with_provider, acknowledgement_body, publication_url, ProviderPublication, Publication,
    PublicationError, PublicationQueue, COMPLETED_LIMIT,
};
use resync::recover::{RecoverAction, RecoverEvent};
use resync::reconcile::{install_candidate, ReconcileAction, ReconcileEvent};
use resync::remote::{
    authorization_env, configure_remote, fetch_remote, fetch_remote_branch, fetched, heartbeat,
    local_heads, parse_refs, remote_heads, HeartbeatItem,
};
use resync::state::LocalProject;
use resync::text_map::TextMap;
use resync::transaction::{
    clear_resolved_conflicts, debug_history_marker, decide_recovery, delete_recovery_refs_batch,
    finalize_recovered_transaction, gc_entry, gc_plan, gc_project_paths, gc_select,
    gc_transactions,
    list_recovery_refs, prune_debug_history, reconcile_workspace,
    reconcile_workspace_with_retention, recover_transaction, recover_transaction_with_retention,
    recovery_directory, remove_empty_recovery_directories,
    transaction_retention, validate_recovery_ref, Candidate, HistoryRecord, ReconcileResult,
    Recovery, ScannedRecord, Settlement, Transaction, TransactionError, TransactionGcReport,
    TransactionRetention,
    DEBUG_HISTORY_MAX_RECORDS,
};

fn ran(code: i32, stdout: &str) -> RunResult {
    RunResult { code, stdout: stdout.to_owned(), stderr: String::new() }
}

fn snapshot(untracked: &[&str]) -> WorkspaceSnapshot {
    WorkspaceSnapshot {
        head: "h".repeat(40),
        index_tree: "i".repeat(40),
        working_tree: "w".repeat(40),
        untracked: untracked.iter().map(|path| path.to_string()).collect(),
    }
}

struct World {
    captures: Vec<WorkspaceSnapshot>,
    rebase: i32,
    ancestors: (i32, i32),
    incoming: Vec<String>,
    debug: bool,
    log: Vec<String>,
    error: Option<TransactionError>,
}

fn world() -> World {
    World {
        captures: vec![snapshot(&["note"]), snapshot(&["note"])],
        rebase: 0,
        ancestors: (0, 0),
        incoming: vec!["file".to_owned()],
        debug: false,
        log: vec![],
        error: None,
    }
}

fn answer(world: &World, call: &GitCall) -> RunResult {
    let args = &call.args;
    if args.iter().any(|word| word == "rebase") && !args.iter().any(|word| word == "--abort") {
        return RunResult { code: world.rebase, stdout: String::new(), stderr: "clash".into() };
    }
    match args[0].as_str() {
        "symbolic-ref" => ran(0, "refs/heads/main\n"),
        "merge-base" => {
            if args.last().unwrap().starts_with('h') {
                ran(world.ancestors.0, "")
            } else {
                ran(world.ancestors.1, "")
            }
        }
        "rev-parse" => ran(0, &format!("{}\n", "r".repeat(40))),
        "diff" => ran(0, "file\0dir/other\0"),
        _ => ran(0, ""),
    }
}

fn drive(world: &mut World, previous: &str, target: &str) -> Option<ReconcileResult> {
    let mut reconcile = reconcile_workspace_with_retention(
        "/work",
        previous,
        target,
        "/state/transactions",
        TransactionRetention { debug_history: world.debug },
    );
    for _ in 0..60 {
        let event = match reconcile.request() {
            ReconcileAction::Git(calls) => {
                for call in &calls {
                    world.log.push(call.args.join(" "));
                }
                ReconcileEvent::Ran(calls.iter().map(|call| answer(world, call)).collect())
            }
            ReconcileAction::Capture => ReconcileEvent::Captured(world.captures.remove(0)),
            ReconcileAction::Identify => ReconcileEvent::Identified(1700000000000, "u".into()),
            ReconcileAction::Chain => ReconcileEvent::Chained(SyntheticChain {
                index_commit: "x".repeat(40),
                working_commit: "y".repeat(40),
            }),
            ReconcileAction::Open(_) => ReconcileEvent::Opened("2026-01-01T00:00:00Z".into()),
            ReconcileAction::Temporary => ReconcileEvent::Placed("/tmp/move".into()),
            ReconcileAction::Save(t) => {
                world.log.push(format!("save {}", t.phase));
                ReconcileEvent::Saved
            }
            ReconcileAction::SaveDebug(t) => {
                world.log.push(format!("debug {}", t.phase));
                ReconcileEvent::Saved
            }
            ReconcileAction::Incoming(_) => ReconcileEvent::Listed(
                world.incoming.clone(),
                vec!["note".to_owned()],
            ),
            ReconcileAction::Clock => ReconcileEvent::Clock("2026-01-01T00:00:01Z".into()),
            ReconcileAction::Remove(t) => {
                world.log.push(format!("remove {}", t.phase));
                ReconcileEvent::Saved
            }
            ReconcileAction::Return(result) => return Some(result),
            ReconcileAction::Fail(error) => {
                world.error = Some(error);
                return None;
            }
        };
        reconcile.advance(event);
    }
    panic!("no end");
}

#[test]
fn a_worktree_is_moved() {
    let mut world = world();
    let result = drive(&mut world, "p", "t").unwrap();
    assert_eq!(result.outcome, "applied");
    assert_eq!(result.changed_paths, vec!["file", "dir/other"]);
    assert_eq!(result.transaction_id.as_deref(), Some("1700000000000-u"));
    let save = world.log.iter().position(|line| line == "save INSTALLING").unwrap();
    let reset = world.log.iter().position(|line| line.starts_with("read-tree")).unwrap();
    assert!(save < reset);
    assert!(world.log.contains(&"remove COMPLETED".to_owned()));
    assert!(world.log.iter().any(|line| line.starts_with("worktree remove")));
}

#[test]
fn a_worktree_at_the_revision_stays() {
    let mut world = world();
    let result = drive(&mut world, "same", "same").unwrap();
    assert_eq!(result.outcome, "current");
    assert_eq!(result.head, Some("h".repeat(40)));
    assert!(!world.log.iter().any(|line| line.starts_with("update-ref")));
    let start = reconcile_workspace("/work", "p", "t", "/state/transactions");
    assert!(!start.retention.debug_history);
}

#[test]
fn a_clash_leaves_the_worktree_alone() {
    let mut world = world();
    world.rebase = 1;
    let result = drive(&mut world, "p", "t").unwrap();
    assert_eq!(result.outcome, "conflict");
    assert!(world.log.contains(&"save CONFLICTED".to_owned()));
    assert!(!world.log.iter().any(|line| line.starts_with("read-tree")));
    assert!(world.log.iter().any(|line| line.starts_with("worktree remove")));
}

#[test]
fn untracked_files_are_not_overwritten() {
    let mut world = world();
    world.incoming = vec!["note".to_owned()];
    let result = drive(&mut world, "p", "t").unwrap();
    assert_eq!(result.outcome, "conflict");
    assert_eq!(result.paths, vec!["note"]);
    assert!(!world.log.contains(&"save INSTALLING".to_owned()));
}

#[test]
fn a_change_during_a_move_stops_it() {
    let mut world = world();
    world.captures = vec![snapshot(&["note"]), snapshot(&["note", "late"])];
    let result = drive(&mut world, "p", "t").unwrap();
    assert_eq!(result.outcome, "conflict");
    assert!(!world.log.contains(&"save INSTALLING".to_owned()));
}

#[test]
fn rewritten_history_is_rejected() {
    let mut rewritten = world();
    rewritten.ancestors = (0, 1);
    assert!(drive(&mut rewritten, "p", "t").is_none());
    assert_eq!(rewritten.error, Some(TransactionError::RemoteRewritten));
    assert!(!rewritten.log.iter().any(|line| line.starts_with("update-ref")));
    let mut diverged = world();
    diverged.ancestors = (1, 0);
    assert!(drive(&mut diverged, "p", "t").is_none());
    assert_eq!(diverged.error, Some(TransactionError::LocalDiverged));
}

#[test]
fn history_is_kept_on_request() {
    let mut world = world();
    world.debug = true;
    drive(&mut world, "p", "t").unwrap();
    assert!(world.log.contains(&"debug PREPARING".to_owned()));
    assert!(world.log.contains(&"debug COMPLETED".to_owned()));
    assert!(!world.log.iter().any(|line| line.starts_with("remove ")));
    assert_eq!(debug_history_marker("/state"), "/state/transaction-debug");
    assert!(transaction_retention(true).debug_history);
}

#[test]
fn candidates_are_checked_before_they_are_installed() {
    let before = snapshot(&["a/b"]);
    assert!(install_candidate(&before, &before, &vec!["c".to_owned()], &before.untracked).is_none());
    assert!(install_candidate(&before, &snapshot(&[]), &vec![], &vec![]).is_some());
    let collision = install_candidate(&before, &before, &vec!["a".to_owned()], &before.untracked).unwrap();
    assert_eq!(collision.paths, vec!["a/b"]);
    assert_eq!(
        find_untracked_collisions(&vec!["x".to_owned()], &vec!["x/y".to_owned()]),
        vec!["x"]
    );
}

#[test]
fn worktrees_are_captured() {
    let mut runs = vec![];
    let taken = loop {
        match capture_workspace("/work", "/tmp/index", &runs) {
            Next::Done(taken) => break taken,
            Next::Run(call) => {
                let text = call.args.join(" ");
                runs.push(if text.contains("rev-parse") {
                    ran(0, &format!("{}\n", "h".repeat(40)))
                } else if text.contains("write-tree") {
                    if call.options.env.is_empty() {
                        ran(0, "index\n")
                    } else {
                        ran(0, "working\n")
                    }
                } else if text.contains("ls-files") {
                    ran(0, "b\0a\0")
                } else {
                    ran(0, "")
                });
            }
        }
        assert!(runs.len() < 20);
    };
    assert_eq!(taken.head, "h".repeat(40));
    assert_eq!(taken.index_tree, "index");
    assert_eq!(taken.working_tree, "working");
    assert_eq!(taken.untracked.len(), 2);
    assert_eq!(parse_paths("a\0b c\0"), vec!["a", "b c"]);
    let chained = match create_synthetic_chain(
        "/work",
        &taken,
        &vec![ran(0, "one\n"), ran(0, "two\n")],
    ) {
        Next::Done(chain) => chain,
        Next::Run(call) => panic!("{call:?}"),
    };
    assert_eq!(chained.index_commit, "one");
    assert_eq!(chained.working_commit, "two");
    match current_branch("/work", &vec![ran(0, "main\n")]) {
        Next::Done(branch) => assert_eq!(branch, "main"),
        Next::Run(call) => panic!("{call:?}"),
    }
    match read_head_ref("/work", &vec![ran(0, "refs/heads/main\n")]) {
        Next::Done(name) => assert_eq!(name, "refs/heads/main"),
        Next::Run(call) => panic!("{call:?}"),
    }
    match git_dir("/work", &vec![ran(0, ".git\n")]) {
        Next::Done(directory) => assert_eq!(directory, "/work/.git"),
        Next::Run(call) => panic!("{call:?}"),
    }
    match list_untracked("/work", &vec![]) {
        Next::Run(call) => assert_eq!(call.args, vec!["ls-files", "--others", "-z"]),
        Next::Done(files) => panic!("{files:?}"),
    }
}

fn recover(
    record: &Transaction,
    current: &Option<WorkspaceSnapshot>,
) -> Result<Recovery, TransactionError> {
    decide_recovery("/state/transactions/asked.json", record, current)
}

fn transaction(id: &str, phase: &str, created_at: &str) -> Transaction {
    Transaction {
        id: id.into(),
        project_path: "/work".into(),
        previous_remote_oid: "p".into(),
        target_remote_oid: "t".into(),
        snapshot: snapshot(&[]),
        recovery_ref: format!("refs/resync/recovery/{id}"),
        head_ref: "refs/heads/main".into(),
        phase: phase.into(),
        created_at: created_at.into(),
        path: format!("/state/transactions/{id}.json"),
        candidate: Some(Candidate {
            working_commit: "wc".into(),
            index_commit: "ic".into(),
            real_head: "rh".into(),
            working_tree: "wt".into(),
            index_tree: "it".into(),
        }),
        conflict: None,
        completed_at: None,
        recovered_at: None,
    }
}

#[test]
fn collection_visits_projects_in_order() {
    let managed: Vec<String> = ["/work/b", "/work/a-b", "/work/a/c", "/work/b/", "../x", "./x", "x"]
        .iter()
        .map(|path| path.to_string())
        .collect();
    let mut record = transaction("1", "COMPLETED", "2026-01-01T00:00:00Z");
    record.project_path = "/work/./a".into();
    let entries = vec![gc_entry(record, 10, 10, &vec![])];
    let visited = gc_project_paths(&managed, &entries);
    assert_eq!(
        visited,
        vec!["/work/./a", "/work/a/c", "/work/a-b", "/work/b", "./x", "../x", "x"]
    );
    let reference: std::collections::BTreeSet<std::path::PathBuf> = managed
        .iter()
        .map(|path| path.into())
        .chain(std::iter::once("/work/./a".into()))
        .collect();
    let listed: Vec<std::path::PathBuf> = visited.iter().map(|path| path.into()).collect();
    assert_eq!(listed, reference.into_iter().collect::<Vec<_>>());
}

#[test]
fn collection_keeps_what_is_needed() {
    let conflicts = vec!["/work".to_owned()];
    let mut entries = vec![
        gc_entry(transaction("1", "CONFLICTED", "2026-01-01T00:00:00Z"), 100, 40, &conflicts),
        gc_entry(transaction("2", "COMPLETED", "2026-01-02T00:00:00Z"), 50, 50, &conflicts),
    ];
    gc_select(&mut entries, TransactionRetention { debug_history: false });
    assert!(entries[0].retain);
    assert!(!entries[1].retain);
    let paths = gc_project_paths(&vec!["/work".to_owned()], &entries);
    assert_eq!(paths, vec!["/work"]);
    let refs = vec![Some(vec![
        "refs/resync/recovery/1/head".to_owned(),
        "refs/resync/recovery/2/head".to_owned(),
        "refs/resync/recovery/orphan/head".to_owned(),
    ])];
    let plan = gc_plan(
        &entries,
        0,
        &paths,
        &refs,
        TransactionRetention { debug_history: false },
        false,
    )
    .unwrap();
    assert_eq!(plan.report.scanned, 2);
    assert_eq!(plan.report.retained, 1);
    assert_eq!(plan.report.removed, 1);
    assert_eq!(plan.report.compacted, 1);
    assert_eq!(plan.report.bytes_reclaimed, 110);
    assert_eq!(plan.deletions.len(), 1);
    assert_eq!(
        plan.deletions[0].references,
        vec!["refs/resync/recovery/2/head", "refs/resync/recovery/orphan/head"]
    );
    assert_eq!(plan.changes, vec![0, 1]);
    let dry = gc_plan(
        &entries,
        0,
        &paths,
        &refs,
        TransactionRetention { debug_history: false },
        true,
    )
    .unwrap();
    assert!(dry.report.dry_run);
    assert_eq!(dry.report.recovery_refs_prunable, 2);
    assert_eq!(dry.report.recovery_refs_removed, 0);
}

#[test]
fn history_is_bounded() {
    let records: Vec<HistoryRecord> = (0..130)
        .map(|n| HistoryRecord {
            id: format!("{n:03}"),
            phase: "COMPLETED".into(),
            created_at: format!("2026-01-01T{:02}:{:02}:00Z", n / 60, n % 60),
            bytes: 10,
        })
        .collect();
    let remove = prune_debug_history(&records, &None);
    assert_eq!(remove.iter().filter(|flag| !**flag).count(), DEBUG_HISTORY_MAX_RECORDS);
    assert!(!remove[129]);
    assert!(remove[0]);
    let protected = prune_debug_history(&records, &Some("000".to_owned()));
    assert!(!protected[0]);
}

#[test]
fn recovery_does_not_guess() {
    let mut installing = transaction("1", "INSTALLING", "2026-01-01T00:00:00Z");
    assert_eq!(recover(&installing, &None).unwrap(), Recovery::Inspect);
    let old = installing.snapshot.copy();
    assert_eq!(recover(&installing, &Some(old)).unwrap(), Recovery::RollBack);
    let mut new = snapshot(&[]);
    new.head = "rh".into();
    new.index_tree = "it".into();
    new.working_tree = "wt".into();
    assert_eq!(recover(&installing, &Some(new)).unwrap(), Recovery::Complete);
    let mut strange = snapshot(&[]);
    strange.head = "else".into();
    assert_eq!(
        recover(&installing, &Some(strange)),
        Err(TransactionError::NeedsManualRecovery("asked.json".to_owned()))
    );
    assert!(!installing.rollback().is_empty());
    installing.recovered(Recovery::Complete, "now");
    assert_eq!(installing.phase, "COMPLETED");
    let unknown = transaction("1", "DANCING", "2026-01-01T00:00:00Z");
    assert_eq!(
        recover(&unknown, &None).err(),
        Some(TransactionError::UnknownPhase("DANCING".to_owned()))
    );
    assert_eq!(
        finalize_recovered_transaction(TransactionRetention { debug_history: true }),
        Settlement::Keep
    );
    let conflict = transaction("1", "CONFLICTED", "2026-01-01T00:00:00Z");
    assert!(clear_resolved_conflicts(&conflict, "/work"));
    assert!(!clear_resolved_conflicts(&conflict, "/other"));
}

#[test]
fn recovery_refs_have_names() {
    assert!(validate_recovery_ref("refs/resync/recovery/1/head").is_ok());
    assert!(validate_recovery_ref("refs/heads/main").is_err());
    let call =
        delete_recovery_refs_batch("/work", &vec!["refs/resync/recovery/1/head".to_owned()])
            .unwrap();
    assert!(call.options.input.unwrap().contains("refs/resync/recovery/1/head"));
    match list_recovery_refs("/work", &vec![ran(0, "refs/resync/recovery/1/head\n")]) {
        Next::Done(Some(list)) => assert_eq!(list, vec!["refs/resync/recovery/1/head"]),
        other => panic!("{other:?}"),
    }
    let order = remove_empty_recovery_directories(&vec!["/r".to_owned(), "/r/a/b".to_owned()]);
    assert_eq!(order[0], "/r/a/b");
}

fn publication() -> Publication {
    Publication::with("pub_1", "prj", &None, "main", &"c".repeat(40), &Some("e".repeat(40)), "now")
}

fn acknowledgement(commit: &str) -> Json {
    Json::Object(vec![
        ("publication_id".to_owned(), Json::Text("pub_1".to_owned())),
        ("attempt".to_owned(), Json::Number("1".to_owned())),
        ("project_id".to_owned(), Json::Text("prj".to_owned())),
        ("branch".to_owned(), Json::Text("main".to_owned())),
        ("accepted_oid".to_owned(), Json::Text(commit.to_owned())),
        ("remote_head".to_owned(), Json::Text(commit.to_owned())),
        ("project_generation".to_owned(), Json::Number("5".to_owned())),
        ("durable".to_owned(), Json::Bool(true)),
    ])
}

#[test]
fn acknowledgements_are_for_the_commit() {
    let attempt = publication();
    assert_eq!(attempt.attempt, 1);
    match acknowledge_with_provider(&attempt, 200, &acknowledgement(&"c".repeat(40))).unwrap() {
        ProviderPublication::Acknowledged(ack) => assert_eq!(ack.project_generation, 5),
        other => panic!("{other:?}"),
    }
    assert_eq!(
        acknowledge_with_provider(&attempt, 200, &acknowledgement(&"d".repeat(40))).err(),
        Some(PublicationError::InvalidAck)
    );
    assert_eq!(
        publication_url("https://provider.example", "prj").unwrap(),
        "https://provider.example/v1/projects/prj/publications"
    );
}

#[test]
fn completed_publications_are_compacted() {
    let mut queue = PublicationQueue::load(None);
    for n in 0..(COMPLETED_LIMIT + 5) {
        let mut done = publication();
        done.publication_id = format!("pub_{n}");
        done.state = "ACKNOWLEDGED".into();
        queue.publications.push(done);
    }
    queue.publications.push(publication());
    queue.compact();
    assert_eq!(queue.publications.len(), COMPLETED_LIMIT + 1);
    assert!(queue.publications.last().unwrap().pending());
    let mut failing = publication();
    let now = Timestamp { seconds: 1767225600, nanos: 0 };
    assert!(failing.record_failure_at("x", 60, &now));
    assert_eq!(failing.last_error.as_deref(), Some("x"));
    assert_eq!(failing.last_attempt_at.as_deref(), Some("2026-01-01T00:00:00+00:00"));
    assert_eq!(failing.next_attempt_at.as_deref(), Some("2026-01-01T00:01:00+00:00"));
    assert!(!failing.due_at(&Timestamp { seconds: 1767225659, nanos: 999_999_999 }));
    assert!(failing.due_at(&Timestamp { seconds: 1767225660, nanos: 0 }));
    let mut waiting = publication();
    assert!(waiting.due());
    assert!(waiting.record_failure("offline", 3600));
    assert!(!waiting.due());
    assert_eq!(waiting.last_error.as_deref(), Some("offline"));
}

#[test]
fn a_publication_is_delivered() {
    let mut delivery = Delivery::new("pub_1", &Some("token".to_owned()));
    let mut log = vec![];
    let mut fetches = 0;
    for _ in 0..40 {
        let event = match delivery.request() {
            DeliveryAction::Load(_) => DeliveryEvent::Loaded(Some(publication())),
            DeliveryAction::Project(_) => DeliveryEvent::Project(Some(DeliveryProject {
                local_path: "/work".into(),
                remote_name: "origin".into(),
                state: "CURRENT".into(),
                server_generation: 1,
                service: Some("https://provider.example".into()),
            })),
            DeliveryAction::Fetch(_, _, branch) => {
                assert_eq!(branch, "main");
                fetches += 1;
                DeliveryEvent::Fetched(Some(if fetches == 1 {
                    "e".repeat(40)
                } else {
                    "c".repeat(40)
                }))
            }
            DeliveryAction::Git(call) => {
                log.push(call.args.join(" "));
                let code = if call.args[0] == "merge-base" && fetches == 1 { 1 } else { 0 };
                DeliveryEvent::Ran(ran(code, ""))
            }
            DeliveryAction::Branch(_) => DeliveryEvent::Branch(Some("main".to_owned())),
            DeliveryAction::Converge(_, _, _) => DeliveryEvent::Converged("applied".to_owned()),
            DeliveryAction::Persist => DeliveryEvent::Did,
            DeliveryAction::Requeue(_, _, _) => DeliveryEvent::Did,
            DeliveryAction::Validate(_, commit) => {
                log.push(format!("validate {commit}"));
                DeliveryEvent::Did
            }
            DeliveryAction::Clock => DeliveryEvent::Clock("now".to_owned()),
            DeliveryAction::Acknowledge(_, _, attempt) => {
                let mut reply = acknowledgement(&"c".repeat(40));
                if let Json::Object(fields) = &mut reply {
                    fields[1].1 = Json::Number(attempt.attempt.to_string());
                }
                DeliveryEvent::Replied(200, reply)
            }
            DeliveryAction::Complete(_, ack) => {
                log.push(format!("complete {}", ack.accepted_oid));
                DeliveryEvent::Did
            }
            DeliveryAction::Return => break,
            DeliveryAction::Fail(error) => panic!("{error}"),
        };
        delivery.advance(event);
    }
    let validated = log.iter().position(|line| line.starts_with("validate")).unwrap();
    let pushed = log.iter().position(|line| line.starts_with("push")).unwrap();
    let completed = log.iter().position(|line| line.starts_with("complete")).unwrap();
    assert!(validated < pushed && pushed < completed);
    assert_eq!(log[pushed], format!("push origin {}:refs/heads/main", "c".repeat(40)));
}

fn catalog_project() -> CatalogProject {
    CatalogProject {
        project_id: "prj_test".into(),
        name: "test".into(),
        remote_url: "https://provider.example/git".into(),
        default_branch: "main".into(),
        advertised_heads: vec![AdvertisedHead { name: "main".into(), oid: "m".repeat(40) }],
        project_generation: 3,
        extra: vec![],
    }
}

fn heads(pairs: &[(&str, &str)]) -> TextMap<String> {
    let mut map = TextMap::new();
    for (name, oid) in pairs {
        map.insert(name.to_string(), oid.to_string());
    }
    map
}

#[test]
fn a_new_checkout_holds_every_hosted_branch() {
    let mut machine = materialize_project(&catalog_project(), "here", "/work", &None, "resync");
    for _ in 0..60 {
        let event = match machine.request() {
            MaterializeAction::Exists(path) => {
                assert_eq!(path, "/work/here");
                MaterializeEvent::Exists(false)
            }
            MaterializeAction::Make(_) => MaterializeEvent::Did,
            MaterializeAction::Git(_) => MaterializeEvent::Ran(ran(0, "")),
            MaterializeAction::Adopt => panic!("nothing to adopt"),
            MaterializeAction::Canonical(path) => MaterializeEvent::Path(path),
            MaterializeAction::Fetch(_, _) => {
                MaterializeEvent::Heads(heads(&[("main", "m1"), ("feature", "f1")]))
            }
            MaterializeAction::Local(_) => {
                MaterializeEvent::Heads(heads(&[("main", "m1")]))
            }
            MaterializeAction::Branch(_) => MaterializeEvent::Branch(Some("main".to_owned())),
            MaterializeAction::Move(_, _, _) => panic!("nothing to move"),
            MaterializeAction::Return => break,
            MaterializeAction::Fail(error) => panic!("{error}"),
        };
        machine.advance(event);
    }
    let local = machine.finish();
    assert_eq!(local.project_id, "prj_test");
    assert_eq!(local.local_path, "/work/here");
    assert_eq!(local.advertised_heads.len(), 2);
    assert_eq!(local.remote_name, "resync");
}

#[test]
fn a_modified_directory_is_not_adopted() {
    let mut adopt = adopt_exact_snapshot("/work/here", &catalog_project(), &None, "resync");
    let mut removed = false;
    for _ in 0..60 {
        let event = match adopt.request() {
            AdoptAction::Exists(path) => {
                assert_eq!(path, "/work/here/.git");
                AdoptEvent::Exists(false)
            }
            AdoptAction::Git(call) => {
                if call.args[0] == "rev-list" {
                    AdoptEvent::Ran(ran(0, "one\ntwo\n"))
                } else if call.args[0] == "diff" {
                    AdoptEvent::Ran(ran(1, ""))
                } else {
                    AdoptEvent::Ran(ran(0, ""))
                }
            }
            AdoptAction::Install(_) => panic!("nothing matches"),
            AdoptAction::Remove(path) => {
                assert_eq!(path, "/work/here/.git");
                removed = true;
                AdoptEvent::Did
            }
            AdoptAction::Return => panic!("adopted"),
            AdoptAction::Fail(error) => {
                assert!(error.contains("refusing to adopt"));
                break;
            }
        };
        adopt.advance(event);
    }
    assert!(removed);
}

#[test]
fn an_exact_snapshot_is_adopted() {
    let mut adopt = adopt_exact_snapshot("/work/here", &catalog_project(), &None, "resync");
    let mut placed = vec![];
    let mut looked_at = String::new();
    for _ in 0..60 {
        let event = match adopt.request() {
            AdoptAction::Exists(_) => AdoptEvent::Exists(false),
            AdoptAction::Git(call) => {
                if call.args[0] == "rev-list" {
                    AdoptEvent::Ran(ran(0, "one\ntwo\n"))
                } else if call.args[0] == "read-tree" {
                    looked_at = call.args[1].clone();
                    AdoptEvent::Ran(ran(0, ""))
                } else if call.args[0] == "diff" {
                    AdoptEvent::Ran(ran(if looked_at == "two" { 0 } else { 1 }, ""))
                } else {
                    AdoptEvent::Ran(ran(0, ""))
                }
            }
            AdoptAction::Install(calls) => {
                placed = calls;
                AdoptEvent::Did
            }
            AdoptAction::Remove(_) => panic!("removed"),
            AdoptAction::Return => break,
            AdoptAction::Fail(error) => panic!("{error}"),
        };
        adopt.advance(event);
    }
    assert_eq!(placed[1].args, vec!["update-ref", "refs/heads/main", "two"]);
    assert_eq!(placed[2].args, vec!["reset", "--mixed", "two"]);
}

#[test]
fn remotes_are_read() {
    let refs = parse_refs(&ran(0, "main\taaa\nfeature/x\tbbb\n"));
    assert_eq!(refs.len(), 2);
    assert_eq!(refs.get("feature/x").map(|s| s.as_str()), Some("bbb"));
    assert!(authorization_env(&None).is_empty());
    let env = authorization_env(&Some("token".to_owned()));
    assert_eq!(env[1].1, "http.extraHeader");
    assert_eq!(env[2].1, "Authorization: Basic cmVzeW5jOnRva2Vu");
    assert!(matches!(local_heads("/work", &vec![]), Next::Run(_)));
    assert!(matches!(remote_heads("/work", "resync", &vec![]), Next::Run(_)));
    assert!(matches!(fetch_remote("/work", "resync", &None, &vec![]), Ok(Next::Run(_))));
    assert!(matches!(
        fetch_remote_branch("/work", "resync", "main", &None, &vec![]),
        Ok(Next::Run(_))
    ));
    assert!(matches!(configure_remote("/work", "resync", "url", &vec![]), Next::Run(_)));
    assert_eq!(fetched(&ran(0, "")), Ok(true));
}

#[test]
fn heartbeats_name_the_active_branch() {
    let mut project = LocalProject::new("prj", "/work");
    project.active_branch = Some("topic".into());
    project.checkout_id = Some("chk".into());
    let records = heartbeat(&vec![project]);
    assert_eq!(records[0].active_branch, "topic");
    assert_eq!(records[0].checkout_id.as_deref(), Some("chk"));
    let item = HeartbeatItem::from_value(&Json::Object(vec![
        ("project_id".to_owned(), Json::Text("prj".to_owned())),
        ("membership".to_owned(), Json::Text("ACTIVE".to_owned())),
        ("head".to_owned(), Json::Text("h".to_owned())),
        ("project_generation".to_owned(), Json::Number("4".to_owned())),
    ]));
    assert!(item.is_some());
    assert!(HeartbeatItem::from_value(&Json::Null).is_none());
}

#[test]
fn acknowledgements_name_what_was_pushed() {
    let publication = Publication::with("pub_1", "prj", &None, "main", "aa", &None, "now");
    let text = |words: &str| Json::Text(words.to_owned());
    assert_eq!(
        acknowledgement_body(&publication),
        Json::Object(vec![
            ("publication_id".to_owned(), text("pub_1")),
            ("attempt".to_owned(), Json::Number(publication.attempt.to_string())),
            ("branch".to_owned(), text("main")),
            ("candidate_oid".to_owned(), text("aa")),
            ("expected_remote_oid".to_owned(), Json::Null),
        ])
    );
}

fn scanned(id: &str, phase: &str, original_bytes: u64, compact_bytes: u64) -> ScannedRecord {
    ScannedRecord {
        transaction: transaction(id, phase, "2026-01-01T00:00:00Z"),
        original_bytes,
        compact_bytes,
    }
}

fn collect(dry_run: bool) -> (Vec<String>, TransactionGcReport) {
    let work = vec!["/work".to_owned()];
    let records = vec![
        scanned("1", "CONFLICTED", 100, 40),
        scanned("2", "COMPLETED", 50, 50),
        scanned("3", "INSTALLING", 30, 30),
    ];
    let retention = TransactionRetention { debug_history: false };
    let mut machine = gc_transactions(&records, 0, &work, &work, retention, dry_run);
    let mut steps = Vec::new();
    loop {
        let event = match machine.request() {
            CollectAction::Refs(path) => {
                steps.push(format!("list {path}"));
                CollectEvent::Listed(Some(vec![
                    "refs/resync/recovery/1/head".to_owned(),
                    "refs/resync/recovery/2/head".to_owned(),
                    "refs/resync/recovery/3/index".to_owned(),
                    "refs/resync/recovery/orphan/head".to_owned(),
                ]))
            }
            CollectAction::Git(call) => {
                steps.push(call.options.input.unwrap());
                CollectEvent::Did
            }
            CollectAction::Clean(path) => {
                steps.push(format!("clean {path}"));
                CollectEvent::Did
            }
            CollectAction::Save(value) => {
                steps.push(format!("save {}", value.id));
                CollectEvent::Did
            }
            CollectAction::Remove(path) => {
                steps.push(format!("remove {path}"));
                CollectEvent::Did
            }
            CollectAction::Return(report) => return (steps, report),
            CollectAction::Fail(reason) => panic!("{reason}"),
        };
        machine.advance(event);
    }
}

#[test]
fn a_collection_deletes_refs_before_records() {
    let (steps, report) = collect(false);
    let input = "start\ndelete refs/resync/recovery/2/head\ndelete refs/resync/recovery/orphan/head\nprepare\ncommit\n";
    assert_eq!(
        steps,
        vec!["list /work", input, "clean /work", "save 1", "remove /state/transactions/2.json"]
    );
    assert_eq!(
        report,
        TransactionGcReport {
            dry_run: false,
            debug_history: false,
            scanned: 3,
            retained: 2,
            removed: 1,
            compacted: 1,
            invalid_retained: 0,
            recovery_refs_prunable: 2,
            recovery_refs_removed: 2,
            recovery_refs_skipped: 0,
            bytes_reclaimed: 110,
        }
    );
    let (trial_steps, trial) = collect(true);
    assert_eq!(trial_steps, vec!["list /work"]);
    assert_eq!(trial, TransactionGcReport { dry_run: true, recovery_refs_removed: 0, ..report });
}

#[test]
fn a_collection_refuses_what_is_no_recovery_ref() {
    let mut strange = scanned("1", "INSTALLING", 10, 10);
    strange.transaction.recovery_ref = "refs/heads/main".to_owned();
    let retention = TransactionRetention { debug_history: false };
    let mut machine = gc_transactions(&vec![strange], 0, &vec![], &vec![], retention, false);
    machine.advance(CollectEvent::Listed(None));
    match machine.request() {
        CollectAction::Fail(reason) => assert_eq!(
            reason,
            "refusing to operate on invalid recovery ref refs/heads/main"
        ),
        other => panic!("{other:?}"),
    }
    let work = vec!["/work".to_owned()];
    let mut skipping = gc_transactions(&vec![], 1, &work, &work, retention, false);
    skipping.advance(CollectEvent::Listed(Some(vec!["refs/resync/recovery/x/head".to_owned()])));
    match skipping.request() {
        CollectAction::Return(report) => {
            assert_eq!(report.recovery_refs_skipped, 1);
            assert_eq!(report.recovery_refs_removed, 0);
        }
        other => panic!("{other:?}"),
    }
    let mut listed = gc_transactions(&vec![], 0, &work, &work, retention, false);
    listed.advance(CollectEvent::Listed(Some(vec!["refs/heads/main".to_owned()])));
    match listed.request() {
        CollectAction::Fail(reason) => assert_eq!(
            reason,
            "refusing to operate on invalid recovery ref refs/heads/main"
        ),
        other => panic!("{other:?}"),
    }
    let none: Vec<String> = vec![];
    let mut broken = gc_transactions(&vec![], 0, &work, &none, retention, false);
    broken.advance(CollectEvent::Failed("disk full".to_owned()));
    assert!(matches!(broken.request(), CollectAction::Fail(reason) if reason == "disk full"));
    assert_eq!(
        recovery_directory("/work").args,
        vec!["rev-parse", "--path-format=absolute", "--git-path", "refs/resync/recovery"]
    );
}

#[test]
fn an_interrupted_installation_is_rolled_back_before_it_is_settled() {
    let installing = transaction("1", "INSTALLING", "2026-01-01T00:00:00Z");
    let before = installing.snapshot.copy();
    let tree = before.working_tree.clone();
    let index = before.index_tree.clone();
    let mut machine = recover_transaction("/state/transactions/1.json", installing);
    assert!(matches!(machine.request(), RecoverAction::Capture(path) if path == "/work"));
    machine.advance(RecoverEvent::Captured(before));
    match machine.request() {
        RecoverAction::Git(call) => {
            assert_eq!(call.args, vec!["read-tree", "--reset", "-u", tree.as_str()])
        }
        other => panic!("{other:?}"),
    }
    machine.advance(RecoverEvent::Did);
    match machine.request() {
        RecoverAction::Git(call) => assert_eq!(call.args, vec!["read-tree", index.as_str()]),
        other => panic!("{other:?}"),
    }
    machine.advance(RecoverEvent::Did);
    assert!(matches!(machine.request(), RecoverAction::Clock));
    machine.advance(RecoverEvent::Clock("now".to_owned()));
    match machine.request() {
        RecoverAction::Remove(value) => {
            assert_eq!(value.phase, "ROLLED_BACK");
            assert_eq!(value.recovered_at.as_deref(), Some("now"));
        }
        other => panic!("{other:?}"),
    }
    machine.advance(RecoverEvent::Did);
    assert!(matches!(machine.request(), RecoverAction::Return(value) if value.id == "1"));
}

#[test]
fn an_installed_candidate_is_completed() {
    let installing = transaction("1", "INSTALLING", "2026-01-01T00:00:00Z");
    let mut now = installing.snapshot.copy();
    now.head = "rh".to_owned();
    let retention = TransactionRetention { debug_history: true };
    let mut machine = recover_transaction_with_retention("/t/1.json", installing, retention);
    machine.advance(RecoverEvent::Captured(now));
    assert!(matches!(machine.request(), RecoverAction::Clock));
    machine.advance(RecoverEvent::Clock("now".to_owned()));
    assert!(matches!(machine.request(), RecoverAction::Keep(value) if value.phase == "COMPLETED"));
}

#[test]
fn a_transaction_that_is_over_or_untouched_is_not_moved() {
    let over = transaction("1", "COMPLETED", "2026-01-01T00:00:00Z");
    let mut machine = recover_transaction("/t/1.json", over);
    assert!(matches!(machine.request(), RecoverAction::Remove(value) if value.phase == "COMPLETED"));
    machine.advance(RecoverEvent::Did);
    assert!(matches!(machine.request(), RecoverAction::Return(value) if value.phase == "COMPLETED"));
    let untouched = transaction("1", "PREPARING", "2026-01-01T00:00:00Z");
    let left = recover_transaction("/t/1.json", untouched);
    assert!(matches!(left.request(), RecoverAction::Return(value) if value.phase == "PREPARING"));
}

#[test]
fn what_cannot_be_recovered_is_refused() {
    let unknown = transaction("1", "DANCING", "2026-01-01T00:00:00Z");
    let refused = recover_transaction("/t/1.json", unknown);
    assert!(
        matches!(refused.request(), RecoverAction::Fail(reason) if reason == "unknown transaction phase DANCING")
    );
    let mut bare = transaction("1", "INSTALLING", "2026-01-01T00:00:00Z");
    bare.candidate = None;
    let place = bare.snapshot.copy();
    let mut machine = recover_transaction("/t/1.json", bare);
    machine.advance(RecoverEvent::Captured(place));
    assert!(
        matches!(machine.request(), RecoverAction::Fail(reason) if reason == "installing transaction has no candidate")
    );
    let installing = transaction("1", "INSTALLING", "2026-01-01T00:00:00Z");
    let mut elsewhere = installing.snapshot.copy();
    elsewhere.head = "else".to_owned();
    let mut lost = recover_transaction("/t/1.json", installing);
    lost.advance(RecoverEvent::Captured(elsewhere));
    let words = "transaction 1.json needs manual recovery; HEAD matches neither preserved state";
    assert!(matches!(lost.request(), RecoverAction::Fail(reason) if reason == words));
}
