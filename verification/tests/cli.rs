use resync::cli::{
    asks_for_version, codex_hook_for_input, command_invokes_git, ensure_local_excludes,
    hook_command, hook_files, hook_input_too_long, hook_output, hook_order, hook_plan,
    install_hooks, install_project_adapters_in_state, is_own_hook, is_project_sync_command,
    merge_workspace_hook_outputs, parse_duration, parse_ttl, preprocess_arguments,
    reconciliation_marker, reconciliation_messages, requires_review, safe_hook_part,
    structured_error, workspace_failure, HookOutput, HookPlan, Interval, MarkerChange, HOOK_INPUT_LIMIT,
};
use resync::hook_call::{CallAction, CallEvent, HookCall};
use resync::hook_dispatcher::{
    ensure_project_dispatcher, is_legacy_project_command, is_legacy_workspace_command,
    is_reposync_project_command, is_reposync_workspace_command, HookKind,
};
use resync::hooks::{hook_document, new_document, repair_hooks, set_member, workspace_document};
use resync::json::Json;
use resync::named_lease::{NamedLeaseError, NamedLeaseProviderOutcome};
use resync::process::{Next, RunResult};
use resync::project::join_destination;
use resync::protocol::{NamedLeaseMutationResponse, NamedLeaseOutcome};
use resync::shell::{shell_command_segments, shell_quote};
use resync::state::LocalProject;
use resync::workspace::Workspace;

fn convert(value: &serde_json::Value) -> Json {
    match value {
        serde_json::Value::Null => Json::Null,
        serde_json::Value::Bool(b) => Json::Bool(*b),
        serde_json::Value::Number(n) => Json::Number(n.to_string()),
        serde_json::Value::String(s) => Json::Text(s.clone()),
        serde_json::Value::Array(items) => Json::List(items.iter().map(convert).collect()),
        serde_json::Value::Object(map) => {
            Json::Object(map.iter().map(|(k, v)| (k.clone(), convert(v))).collect())
        }
    }
}

fn json(text: &str) -> Json {
    convert(&serde_json::from_str(text).unwrap())
}

fn bash(command: &str) -> Json {
    Json::Object(vec![
        ("tool_name".to_owned(), Json::Text("Bash".to_owned())),
        (
            "tool_input".to_owned(),
            Json::Object(vec![("command".to_owned(), Json::Text(command.to_owned()))]),
        ),
    ])
}

fn words(list: &[&str]) -> Vec<String> {
    list.iter().map(|word| word.to_string()).collect()
}

#[test]
fn explicit_join_path_does_not_require_a_git_worktree() {
    let outside_git = "/tmp/outside".to_owned();
    let destination = format!("{outside_git}/checkout");
    match join_destination(&Some(destination.clone()), &outside_git, &vec![]).unwrap() {
        Next::Done(found) => assert_eq!(found, destination),
        Next::Run(call) => panic!("{call:?}"),
    }
    match join_destination(&None, &outside_git, &vec![]).unwrap() {
        Next::Run(call) => assert_eq!(call.args, vec!["rev-parse", "--show-toplevel"]),
        Next::Done(found) => panic!("{found}"),
    }
    let outside = RunResult { code: 128, stdout: String::new(), stderr: String::new() };
    assert!(join_destination(&None, &outside_git, &vec![outside]).is_err());
}

#[test]
fn recognizes_git_and_reconciliation_command_segments() {
    assert!(command_invokes_git("git status --short"));
    assert!(command_invokes_git("cd repo && /usr/bin/git rebase resync/main"));
    assert!(!command_invokes_git("cargo test"));
    assert!(is_project_sync_command(&bash("resync project sync")));
    assert!(is_project_sync_command(&bash("git status && resync project sync")));
    assert!(is_project_sync_command(&bash(
        "git add .gitignore && '/opt/RepoSync bin/resync' project sync prj_test"
    )));
    assert!(!is_project_sync_command(&bash("echo resync project sync")));
}

#[test]
fn reconciliation_messages_enter_remind_and_exit_once() {
    let mut told = false;
    let state = json(
        r#"{"reconciliation_mode": true, "branch": "main", "remote_ref": "resync/main"}"#,
    );
    let git_input = bash("git status");

    let first = reconciliation_messages(told, &git_input, &state);
    let entry = first.system.as_deref().unwrap();
    assert!(entry.contains("entered reconciliation mode"));
    assert!(entry.contains("`resync project sync`"));
    assert!(entry.contains("Before continuing with the user's task"));
    assert!(entry.contains("Do not perform unrelated work"));
    assert_eq!(first.context.as_deref(), Some(entry));
    assert_eq!(
        first.marker,
        MarkerChange::Write("main".to_owned(), "resync/main".to_owned())
    );
    told = true;

    let second = reconciliation_messages(told, &git_input, &state);
    assert_eq!(second.system, None);
    let reminder = second.context.as_deref().unwrap();
    assert!(reminder.starts_with("RepoSync reconciliation mode:"));
    assert!(reminder.contains("`resync project sync`"));
    assert!(reminder.contains("before unrelated work"));
    assert!(reminder.len() < entry.len());

    let non_git_input = bash("cargo test");
    let third = reconciliation_messages(told, &non_git_input, &state);
    assert_eq!((third.system, third.context), (None, None));

    let cleared = json(r#"{"reconciliation_mode": false}"#);
    let fourth = reconciliation_messages(told, &non_git_input, &cleared);
    let exit = fourth.system.as_deref().unwrap();
    assert!(exit.contains("reconciliation succeeded"));
    assert_eq!(fourth.context.as_deref(), Some(exit));
    assert_eq!(fourth.marker, MarkerChange::Remove);
    told = false;
    let fifth = reconciliation_messages(told, &non_git_input, &cleared);
    assert_eq!((fifth.system, fifth.context), (None, None));
}

#[test]
fn aliases_are_written_out() {
    assert_eq!(
        preprocess_arguments(words(&["resync", "join", "prj"]), false),
        words(&["resync", "project", "join", "prj"])
    );
    assert_eq!(
        preprocess_arguments(words(&["resync", "--state-dir", "/s", "devices"]), false),
        words(&["resync", "--state-dir", "/s", "device", "list"])
    );
    assert_eq!(
        preprocess_arguments(words(&["resync", "--state-dir=/s", "unsubscribe"]), true),
        words(&["resync", "--state-dir=/s", "project", "leave"])
    );
    assert_eq!(
        preprocess_arguments(words(&["resync", "lease", "list"]), true),
        words(&["resync", "lease", "list"])
    );
    assert_eq!(
        preprocess_arguments(words(&["resync", "host"]), true),
        words(&["resync", "peer", "sync", "host"])
    );
    assert_eq!(
        preprocess_arguments(words(&["resync", "host"]), false),
        words(&["resync", "host"])
    );
    assert_eq!(preprocess_arguments(words(&["resync"]), true), words(&["resync"]));
    assert_eq!(
        preprocess_arguments(words(&["resync", "--state-dir"]), true),
        words(&["resync", "--state-dir"])
    );
    assert!(asks_for_version(&words(&["resync", "-V"])));
    assert!(asks_for_version(&words(&["resync", "sync", "--version"])));
    assert!(!asks_for_version(&words(&["resync", "version"])));
}

#[test]
fn durations_have_units() {
    assert_eq!(parse_duration("10s"), Some(Interval { seconds: 10, millis: 0 }));
    assert_eq!(parse_duration("1500ms"), Some(Interval { seconds: 1, millis: 500 }));
    assert_eq!(parse_duration("15m"), Some(Interval { seconds: 900, millis: 0 }));
    assert_eq!(parse_duration("42"), Some(Interval { seconds: 42, millis: 0 }));
    assert_eq!(parse_duration("+42"), Some(Interval { seconds: 42, millis: 0 }));
    assert_eq!(parse_duration(""), None);
    assert_eq!(parse_duration("s"), None);
    assert_eq!(parse_duration("1h"), None);
    assert_eq!(parse_duration("18446744073709551616"), None);
    assert_eq!(parse_duration("18446744073709551615m"), None);
    assert_eq!(parse_ttl("15m"), Some(900));
    assert_eq!(parse_ttl("2000ms"), Some(2));
    assert_eq!(parse_ttl("1500ms"), None);
}

#[test]
fn contention_has_an_exit_code_of_its_own() {
    let held = NamedLeaseError::Outcome(NamedLeaseProviderOutcome {
        status: 409,
        response: NamedLeaseMutationResponse { outcome: NamedLeaseOutcome::Held, lease: None },
    });
    let error = structured_error(&held).unwrap();
    assert_eq!(error.exit_code, 3);
    assert_eq!(error.response.outcome, NamedLeaseOutcome::Held);
    assert_eq!(error.diagnostic, held.message());
    let gone = NamedLeaseError::Outcome(NamedLeaseProviderOutcome {
        status: 404,
        response: NamedLeaseMutationResponse { outcome: NamedLeaseOutcome::NotFound, lease: None },
    });
    assert_eq!(structured_error(&gone).unwrap().exit_code, 1);
    assert!(structured_error(&NamedLeaseError::NoReceipt).is_none());
}

#[test]
fn quoted_words_are_one_word() {
    assert_eq!(shell_quote("it's"), "'it'\\''s'");
    let quoted = format!("echo {}; x", shell_quote("a b'c\\d"));
    assert_eq!(
        shell_command_segments(&quoted),
        vec![words(&["echo", "a b'c\\d"]), words(&["x"])]
    );
    assert_eq!(
        shell_command_segments("a \"b \\\" c\" | d\\ e &"),
        vec![words(&["a", "b \" c"]), words(&["d e"])]
    );
}

#[test]
fn hook_commands_come_from_the_shell_tool_alone() {
    assert_eq!(hook_command(&bash("git status")), Some("git status"));
    assert_eq!(
        hook_command(&json(r#"{"tool_name": "Edit", "tool_input": {"command": "x"}}"#)),
        None
    );
}

#[test]
fn parts_of_file_names_are_safe() {
    assert_eq!(safe_hook_part(None), "unknown");
    assert_eq!(safe_hook_part(Some("../a b\u{e9}")), ".._a_b_");
    assert_eq!(safe_hook_part(Some(&"x".repeat(500))).len(), 160);
    assert_eq!(
        reconciliation_marker("/d", "prj/1"),
        "/d/reconciliation-prj_1.json"
    );
}

#[test]
fn hooks_are_planned_by_event() {
    let mut before = bash("ls");
    before = set_member(before, "hook_event_name", Json::Text("PreToolUse".to_owned()));
    assert_eq!(hook_plan(&before), HookPlan::Acquire);
    let after = set_member(bash("ls"), "hook_event_name", Json::Text("PostToolUse".to_owned()));
    assert_eq!(hook_plan(&after), HookPlan::Release);
    let sync = set_member(
        bash("resync project sync"),
        "hook_event_name",
        Json::Text("PreToolUse".to_owned()),
    );
    assert_eq!(hook_plan(&sync), HookPlan::State);
    assert_eq!(hook_plan(&bash("ls")), HookPlan::Nothing);
    let ids = vec!["a".to_owned(), "b".to_owned(), "c".to_owned()];
    assert_eq!(hook_order("PreToolUse", &ids), vec!["a", "b", "c"]);
    assert_eq!(hook_order("PostToolUse", &ids), vec!["c", "b", "a"]);
    assert!(!hook_input_too_long(&"x".repeat(HOOK_INPUT_LIMIT)));
    assert!(hook_input_too_long(&"x".repeat(HOOK_INPUT_LIMIT + 1)));

    let granted = Ok(json(r#"{"lease_id": "lease_1", "model_message": "moved"}"#));
    let effect = codex_hook_for_input(&before, false, &granted);
    assert_eq!(effect.lease.as_deref(), Some("lease_1"));
    assert_eq!(effect.marker, MarkerChange::Keep);
    assert_eq!(effect.output, HookOutput { system: None, context: Some("moved".to_owned()) });
    let answer = hook_output("PreToolUse", &effect.output);
    assert!(answer.get("systemMessage").is_none());
    let specific = answer.get("hookSpecificOutput").unwrap();
    assert_eq!(specific.text_at("hookEventName"), Some("PreToolUse"));
    assert_eq!(specific.text_at("additionalContext"), Some("moved"));
    let failed = Err("no daemon".to_owned());
    let effect = codex_hook_for_input(&after, false, &failed);
    assert_eq!(
        effect.output.system.as_deref(),
        Some("RepoSync could not release the tool lease: no daemon")
    );
    assert_eq!(effect.lease, None);
}

#[test]
fn hook_files_are_named_by_session_project_and_call() {
    let input = json(r#"{"session_id": "s/1", "tool_use_id": "call 1"}"#);
    let files = hook_files("/state", "prj_1", &input);
    assert_eq!(files.directory, "/state/codex-leases/s_1");
    assert_eq!(files.lease, "/state/codex-leases/s_1/prj_1-call_1.json");
    assert_eq!(files.legacy_lease, "/state/codex-leases/s_1/call_1.json");
    assert_eq!(files.marker, "/state/codex-leases/s_1/reconciliation-prj_1.json");
}

#[test]
fn answers_of_several_projects_are_merged() {
    let merged = merge_workspace_hook_outputs(&vec![
        (
            "prj_1".to_owned(),
            HookOutput { system: Some("one".to_owned()), context: None },
        ),
        (
            "prj_2".to_owned(),
            HookOutput { system: Some("two".to_owned()), context: Some("three".to_owned()) },
        ),
    ]);
    assert_eq!(merged.system.as_deref(), Some("[prj_1] one\n[prj_2] two"));
    assert_eq!(merged.context.as_deref(), Some("[prj_2] three"));
    let silent = merge_workspace_hook_outputs(&vec![]);
    assert_eq!(silent, HookOutput { system: None, context: None });
}

#[test]
fn excludes_are_added_once() {
    let patterns = words(&["/.codex/hooks.json", "/.agents/skills/reposync/"]);
    let first = ensure_local_excludes("build/", &patterns).unwrap();
    assert_eq!(first, "build/\n/.codex/hooks.json\n/.agents/skills/reposync/\n");
    assert_eq!(ensure_local_excludes(&first, &patterns), None);
    assert_eq!(
        ensure_local_excludes("  /.codex/hooks.json  \n", &patterns).unwrap(),
        "  /.codex/hooks.json  \n/.agents/skills/reposync/\n"
    );
}

#[test]
fn adapters_of_a_project_are_planned() {
    let project = LocalProject::new("prj_1", "/work/one");
    let document = new_document(HookKind::Project);
    assert!(hook_document(&document));
    let plan = install_project_adapters_in_state(&project, "/state", "/bin/resync", document);
    assert_eq!(plan.hooks_path, "/work/one/.codex/hooks.json");
    assert_eq!(plan.skill_path, "/work/one/.agents/skills/reposync/SKILL.md");
    assert_eq!(
        plan.skill_metadata_path,
        "/work/one/.agents/skills/reposync/agents/openai.yaml"
    );
    assert!(plan.post_commit.contains("'/bin/resync' report-commit 'prj_1' \"$commit\" \"$branch\""));
    assert!(plan.post_checkout.contains("'/bin/resync' report-checkout 'prj_1' \"$1\" \"$2\""));
    assert!(is_own_hook(&plan.post_commit));
    assert!(!is_own_hook("#!/bin/sh\necho mine\n"));
    assert!(plan.dispatcher.path.starts_with("/state/hook-dispatchers/codex-"));
    assert!(plan.dispatcher.script.contains("codex-hook 'prj_1'"));
    assert_eq!(
        plan.dispatcher.path,
        ensure_project_dispatcher("/state", "prj_1").path
    );
    assert!(requires_review(false, false));
    assert!(requires_review(true, true));
    assert!(!requires_review(true, false));
}

#[test]
fn repair_is_final_and_keeps_users_hooks() {
    let document = json(
        r#"{"hooks": {"PreToolUse": [
            {"matcher": "*", "hooks": [
                {"type": "command", "command": "echo first"},
                {"type": "command", "command": "'/old/resync' codex-hook 'prj_1'"},
                {"type": "command", "command": "echo last"}
            ]},
            {"matcher": "*", "hooks": [
                {"type": "command", "command": "resync codex-hook 'prj_1'"}
            ]}
        ]}}"#,
    );
    let repaired = repair_hooks(document, "'/state/hook-dispatchers/codex-1'", HookKind::Project);
    let text = format!("{repaired:?}");
    assert!(text.contains("echo first"));
    assert!(text.contains("echo last"));
    assert!(!text.contains("/old/resync"));
    assert_eq!(text.matches("'/state/hook-dispatchers/codex-1'").count(), 2);
    let again =
        repair_hooks(repaired, "'/state/hook-dispatchers/codex-1'", HookKind::Project);
    assert_eq!(format!("{again:?}"), text);
}

#[test]
fn own_commands_are_told_from_users() {
    assert!(is_reposync_project_command("'/old/npm/resync' codex-hook 'prj_1'"));
    assert!(is_reposync_project_command("'/s/hook-dispatchers/codex-deadbeef'"));
    assert!(!is_reposync_project_command("echo codex-hook"));
    assert!(is_reposync_workspace_command("'/old/resync' codex-workspace-hook '/w'"));
    assert!(!is_reposync_workspace_command("'/old/resync' codex-hook 'prj_1'"));
    assert!(is_legacy_project_command("'/old/resync' codex-hook 'prj_1'", "prj_1"));
    assert!(!is_legacy_project_command("'/old/resync' codex-hook 'prj_1'", "prj_2"));
    assert!(is_legacy_workspace_command(
        "'/old/resync' codex-workspace-hook '/w/m.toml'",
        "/w/m.toml"
    ));
}

#[test]
fn hooks_of_a_workspace_are_planned() {
    let workspace = Workspace {
        root: "/w".to_owned(),
        manifest_path: "/w/.resync-workspace.toml".to_owned(),
        projects: vec![],
    };
    let document = workspace_document(json(r#"{"hooks": 1}"#)).unwrap();
    let plan = install_hooks(&workspace, "/state", document);
    assert_eq!(plan.hooks_path, "/w/.codex/hooks.json");
    assert!(plan.dispatcher.path.starts_with("/state/hook-dispatchers/codex-workspace-"));
    assert!(workspace_document(Json::Null).is_none());
}

fn event(name: &str) -> Json {
    json(&format!(
        r#"{{"hook_event_name": "{name}", "session_id": "s", "tool_use_id": "c", "tool_name": "Read"}}"#
    ))
}

#[test]
fn a_hook_keeps_the_lease_that_it_is_granted() {
    let mut call = HookCall::new("/state", "prj_1", event("PreToolUse"));
    assert_eq!(
        call.request(),
        CallAction::Ask(Json::Object(vec![
            ("method".to_owned(), Json::Text("acquireAccess".to_owned())),
            ("project_id".to_owned(), Json::Text("prj_1".to_owned())),
            ("session_id".to_owned(), Json::Text("s".to_owned())),
            ("call_id".to_owned(), Json::Text("c".to_owned())),
            ("access_hint".to_owned(), Json::Text("unknown".to_owned())),
        ]))
    );
    call.advance(CallEvent::Document(json(r#"{"lease_id": "lease_1", "model_message": "m"}"#)));
    assert_eq!(call.request(), CallAction::Directory("/state/codex-leases/s".to_owned()));
    call.advance(CallEvent::Did);
    assert_eq!(
        call.request(),
        CallAction::Exists("/state/codex-leases/s/reconciliation-prj_1.json".to_owned())
    );
    call.advance(CallEvent::There(false));
    assert_eq!(
        call.request(),
        CallAction::Write(
            "/state/codex-leases/s/prj_1-c.json".to_owned(),
            Json::Object(vec![
                ("leaseId".to_owned(), Json::Text("lease_1".to_owned())),
                ("projectId".to_owned(), Json::Text("prj_1".to_owned())),
                ("toolUseId".to_owned(), Json::Text("c".to_owned())),
            ])
        )
    );
    call.advance(CallEvent::Did);
    assert_eq!(
        call.request(),
        CallAction::Return(HookOutput { system: None, context: Some("m".to_owned()) })
    );
}

#[test]
fn a_hook_gives_back_the_lease_of_its_call() {
    let mut call = HookCall::new("/state", "prj_1", event("PostToolUse"));
    let own = "/state/codex-leases/s/prj_1-c.json".to_owned();
    let legacy = "/state/codex-leases/s/c.json".to_owned();
    assert_eq!(call.request(), CallAction::Exists(own));
    call.advance(CallEvent::There(false));
    assert_eq!(call.request(), CallAction::Exists(legacy.clone()));
    call.advance(CallEvent::There(true));
    assert_eq!(call.request(), CallAction::Read(legacy.clone()));
    call.advance(CallEvent::Document(json(r#"{"leaseId": "lease_1"}"#)));
    assert_eq!(
        call.request(),
        CallAction::Ask(Json::Object(vec![
            ("method".to_owned(), Json::Text("releaseAccess".to_owned())),
            ("lease_id".to_owned(), Json::Text("lease_1".to_owned())),
            ("outcome".to_owned(), Json::Text("success".to_owned())),
            ("mutation_hint".to_owned(), Json::Text("possible".to_owned())),
        ]))
    );
    call.advance(CallEvent::Document(json(r#"{"released": true}"#)));
    assert_eq!(call.request(), CallAction::Remove(legacy));
    call.advance(CallEvent::Did);
    assert_eq!(
        call.request(),
        CallAction::Return(HookOutput { system: None, context: None })
    );
}

#[test]
fn a_hook_without_a_daemon_lets_the_tool_be_used() {
    let mut call = HookCall::new("/state", "prj_1", event("PreToolUse"));
    call.advance(CallEvent::Failed("no daemon".to_owned()));
    let told =
        "RepoSync access coordination is unavailable; the tool call will continue: no daemon";
    assert_eq!(
        call.request(),
        CallAction::Return(HookOutput { system: Some(told.to_owned()), context: None })
    );
    let mut without = HookCall::new("/state", "prj_1", event("PostToolUse"));
    without.advance(CallEvent::There(false));
    without.advance(CallEvent::There(false));
    let nothing = HookOutput { system: None, context: None };
    assert_eq!(without.request(), CallAction::Return(nothing.clone()));
    let other = HookCall::new("/state", "prj_1", event("Stop"));
    assert_eq!(other.request(), CallAction::Return(nothing));
    let mut full = HookCall::new("/state", "prj_1", event("PreToolUse"));
    full.advance(CallEvent::Document(json("{}")));
    full.advance(CallEvent::Failed("disk full".to_owned()));
    assert_eq!(full.request(), CallAction::Fail("disk full".to_owned()));
    assert_eq!(
        workspace_failure("disk full").system.as_deref(),
        Some("RepoSync workspace coordination failed; the tool call will continue: disk full")
    );
}

#[test]
fn a_conflict_is_marked_for_the_session() {
    let input = json(
        r#"{"hook_event_name": "PreToolUse", "session_id": "s", "tool_use_id": "c",
            "tool_input": {"command": "resync project sync"}, "tool_name": "Bash"}"#,
    );
    let mut call = HookCall::new("/state", "prj_1", input);
    assert_eq!(
        call.request(),
        CallAction::Ask(Json::Object(vec![
            ("method".to_owned(), Json::Text("accessState".to_owned())),
            ("project_id".to_owned(), Json::Text("prj_1".to_owned())),
        ]))
    );
    call.advance(CallEvent::Document(json(r#"{"reconciliation_mode": false}"#)));
    call.advance(CallEvent::Did);
    call.advance(CallEvent::There(true));
    assert_eq!(
        call.request(),
        CallAction::Remove("/state/codex-leases/s/reconciliation-prj_1.json".to_owned())
    );
}
