use resync::identity::{
    clear_identity, complete_identity, read_identity, repository_root, same_project,
    write_identity, Identity, IdentityError,
};
use resync::process::{Next, RunResult};

fn ran(code: i32, stdout: &str) -> RunResult {
    RunResult { code, stdout: stdout.to_owned(), stderr: String::new() }
}

fn missing() -> RunResult {
    ran(1, "")
}

fn read(path: &str, settings: [RunResult; 3]) -> Identity {
    let mut runs = vec![ran(0, &format!("{path}\n"))];
    runs.extend(settings);
    match read_identity(path, &runs).unwrap() {
        Next::Done(identity) => identity,
        Next::Run(call) => panic!("{call:?}"),
    }
}

#[test]
fn clones_do_not_inherit_checkout_identity() {
    let identity = write_identity("/local", "https://provider.example", "prj_one", &None)
        .unwrap()
        .identity;
    let cloned = read("/clone", [missing(), missing(), missing()]);
    assert!(cloned.project_id.is_none());
    assert!(cloned.checkout_id.is_none());
    let second = write_identity("/clone", "https://provider.example", "prj_one", &None)
        .unwrap()
        .identity;
    assert!(same_project(&identity, &second).unwrap());
    assert_ne!(identity.checkout_id, second.checkout_id);
}

#[test]
fn identical_history_can_have_independent_project_ids() {
    let first = write_identity("/local", "https://provider.example", "prj_one", &None)
        .unwrap()
        .identity;
    let second = write_identity("/second", "https://provider.example", "prj_two", &None)
        .unwrap()
        .identity;
    assert!(!same_project(&first, &second).unwrap());
}

#[test]
fn an_identity_is_written_and_read_back() {
    let new = write_identity("/local", "https://provider.example/path", "prj_one", &None).unwrap();
    assert_eq!(new.identity.service.as_deref(), Some("https://provider.example"));
    assert_eq!(new.identity.project_id.as_deref(), Some("prj_one"));
    let checkout = new.identity.checkout_id.clone().unwrap();
    assert!(checkout.starts_with("chk_"));
    assert_eq!(checkout.len(), 36);
    assert_eq!(
        new.calls[2].args,
        vec!["config", "--local", "resync.checkoutId", checkout.as_str()]
    );
    let back = read(
        "/local",
        [
            ran(0, "https://provider.example\n"),
            ran(0, "prj_one\n"),
            ran(0, &format!("{checkout}\n")),
        ],
    );
    assert_eq!(back.service, new.identity.service);
    assert_eq!(back.project_id, new.identity.project_id);
    assert_eq!(back.checkout_id, new.identity.checkout_id);
}

#[test]
fn a_worktree_is_asked_for_first() {
    match repository_root("/somewhere", &vec![]).unwrap() {
        Next::Run(call) => {
            assert_eq!(call.args, vec!["rev-parse", "--show-toplevel"]);
            assert_eq!(call.options.cwd.as_deref(), Some("/somewhere"));
            assert!(call.options.allow_failure);
        }
        Next::Done(root) => panic!("{root}"),
    }
    assert_eq!(
        repository_root("/somewhere", &vec![ran(128, "")]).err(),
        Some(IdentityError::NotWorktree)
    );
}

#[test]
fn providers_on_other_machines_need_encryption() {
    assert!(write_identity("/local", "http://provider.example", "prj_one", &None).is_err());
    assert!(write_identity("/local", "http://localhost:8080", "prj_one", &None).is_ok());
}

#[test]
fn an_identity_without_a_service_is_no_match() {
    let bare = Identity { root: "/a".into(), service: None, project_id: None, checkout_id: None };
    let whole = complete_identity("/b", "https://provider.example", "prj_one", "chk_1").identity;
    assert!(!same_project(&bare, &whole).unwrap());
    assert!(same_project(&whole, &whole).unwrap());
    assert_eq!(clear_identity("/b").len(), 3);
}
