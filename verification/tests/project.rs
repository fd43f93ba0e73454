use resync::identity::Identity;
use resync::install::{
    builds_directory, check_activation, check_daemon, check_staged, is_process_directory,
    legacy_manifest, legacy_removal, managed_build, managed_install_root, must_stage,
    prune_managed_builds, remove_legacy_package_installs, single_build_health, vite_plus_lists,
    HealthFact, InstallError, LegacyInstall,
};
use resync::join::JoinEvent;
use resync::json::Json;
use resync::process::RunResult;
use resync::project::{
    configured_origin, configured_provider, conflicts, creation_key, devices_endpoint,
    install_adapters, login_token, logout, logout_origins, managed_paths, project_create,
    project_id_or_identity, project_join, revoke_endpoint, unsubscribe, CreateAction, CreateEvent,
    ProjectCreation, ProjectError,
};
use resync::protocol::{Catalog, CatalogProject};
use resync::provider::Discovery;
use resync::state::{Config, LocalCatalog, LocalProject, ProviderConfig};
use resync::text_map::TextMap;
use resync::upgrade::{activate_upgrade, UpgradeAction, UpgradeEvent};

fn hosted(id: &str) -> CatalogProject {
    CatalogProject {
        project_id: id.into(),
        name: "name".into(),
        remote_url: "https://provider.example/git".into(),
        default_branch: "trunk".into(),
        advertised_heads: vec![],
        project_generation: 9,
        extra: vec![],
    }
}

fn nobody() -> Identity {
    Identity { root: "/work/x".into(), service: None, project_id: None, checkout_id: None }
}

fn member() -> Identity {
    Identity {
        root: "/work/x".into(),
        service: Some("https://provider.example".into()),
        project_id: Some("prj_prior".into()),
        checkout_id: Some("chk_prior".into()),
    }
}

fn drive(creation: &mut ProjectCreation, fail_at: &str, seen: &mut Vec<String>) {
    for _ in 0..40 {
        let action = creation.request();
        let name = format!("{action:?}");
        let name = name.split('(').next().unwrap().to_owned();
        seen.push(name.clone());
        let event = match action {
            _ if name == fail_at => CreateEvent::Failed("broken".to_owned()),
            CreateAction::Authenticate(_) => CreateEvent::Authenticated(
                "https://provider.example".to_owned(),
                "token".to_owned(),
                Some("https://provider.example/v1/projects".to_owned()),
            ),
            CreateAction::Catalog(_, _) => CreateEvent::Catalog(Catalog {
                protocol: "resync.v1".into(),
                catalog_generation: 12,
                projects: vec![hosted("prj_other"), hosted("prj_prior")],
            }),
            CreateAction::Local => {
                CreateEvent::Local(vec![LocalProject::new("prj_prior", "/work/x/")])
            }
            CreateAction::Git(_) => CreateEvent::Ran(RunResult {
                code: 0,
                stdout: "main\n".into(),
                stderr: String::new(),
            }),
            CreateAction::ReadRecord(path) => {
                assert!(path.starts_with("/state/project-creations/"));
                CreateEvent::Record(Json::Object(vec![]), "pcr_fresh".to_owned())
            }
            CreateAction::Create(endpoint, token, name, branch, key) => {
                assert_eq!(endpoint, "https://provider.example/v1/projects");
                assert_eq!(token, "token");
                assert_eq!(name, "x");
                assert_eq!(branch, "main");
                assert_eq!(key, "pcr_fresh");
                assert_eq!(creation.record.text_at("idempotencyKey"), Some("pcr_fresh"));
                CreateEvent::Created(hosted("prj_new"))
            }
            CreateAction::Materialize(path, _) => {
                CreateEvent::Materialized(LocalProject::new("prj_new", &path))
            }
            CreateAction::Identify(root, origin, id) => CreateEvent::Identified(Identity {
                root,
                service: Some(origin),
                project_id: Some(id),
                checkout_id: Some("chk_new".into()),
            }),
            CreateAction::WriteRecord(_)
            | CreateAction::Configure(_)
            | CreateAction::Register(_)
            | CreateAction::Adapters(_)
            | CreateAction::Sync(_)
            | CreateAction::Publish(_)
            | CreateAction::Forget(_) => CreateEvent::Did,
            CreateAction::Return | CreateAction::Fail(_) => return,
        };
        creation.advance(event);
    }
    panic!("no end");
}

#[test]
fn a_project_is_created_from_a_worktree() {
    let mut creation = project_create("/work/x", "/state", &nobody(), false, &None, &None);
    let mut seen = vec![];
    drive(&mut creation, "", &mut seen);
    assert_eq!(
        seen,
        vec![
            "Authenticate", "Git", "ReadRecord", "WriteRecord", "Create", "Materialize",
            "Identify", "Configure", "Register", "Adapters", "Forget", "Return"
        ]
    );
    assert_eq!(creation.operation(), "initialized");
    let local = creation.local.unwrap();
    assert_eq!(local.checkout_id.as_deref(), Some("chk_new"));
    assert_eq!(local.service.as_deref(), Some("https://provider.example"));
}

#[test]
fn a_failed_creation_keeps_its_record() {
    for step in ["Create", "Materialize", "Identify", "Configure", "Register", "Adapters"] {
        let mut creation = project_create("/work/x", "/state", &nobody(), false, &None, &None);
        let mut seen = vec![];
        drive(&mut creation, step, &mut seen);
        assert!(seen.contains(&"WriteRecord".to_owned()));
        assert!(!seen.contains(&"Forget".to_owned()), "{step}");
        assert_eq!(creation.failure.as_deref(), Some("broken"));
    }
}

#[test]
fn another_attempt_uses_the_same_key() {
    let mut creation = project_create("/work/x", "/state", &nobody(), true, &None, &None);
    creation.advance(CreateEvent::Authenticated(
        "https://provider.example".to_owned(),
        "token".to_owned(),
        Some("endpoint".to_owned()),
    ));
    creation.advance(CreateEvent::Ran(RunResult {
        code: 0,
        stdout: "main".into(),
        stderr: String::new(),
    }));
    creation.advance(CreateEvent::Record(
        Json::Object(vec![("idempotencyKey".to_owned(), Json::Text("pcr_first".to_owned()))]),
        "pcr_second".to_owned(),
    ));
    assert_eq!(creation.key, "pcr_first");
    assert_eq!(creation.record.text_at("provider"), Some("https://provider.example"));
    assert_eq!(creation.record.text_at("repository"), Some("/work/x"));
    assert_eq!(creation.operation(), "forked");
    let key = creation_key();
    assert!(key.starts_with("pcr_"));
    assert_eq!(key.len(), 36);
    assert_ne!(key, creation_key());
}

#[test]
fn a_worktree_with_an_identity_is_repaired() {
    let mut creation = project_create("/work/x", "/state", &member(), false, &None, &None);
    let mut seen = vec![];
    drive(&mut creation, "", &mut seen);
    assert_eq!(
        seen,
        vec![
            "Authenticate", "Catalog", "Local", "Configure", "Register", "Adapters", "Sync",
            "Publish", "Return"
        ]
    );
    assert_eq!(creation.operation(), "repaired");
    assert_eq!(creation.generation, Some(12));
    let local = creation.local.unwrap();
    assert_eq!(local.checkout_id.as_deref(), Some("chk_prior"));
    assert_eq!(local.default_branch, "trunk");
    assert_eq!(local.server_generation, 9);
}

#[test]
fn a_worktree_stays_with_its_provider() {
    let other = Some("https://elsewhere.example".to_owned());
    let refused = project_create("/work/x", "/state", &member(), false, &None, &other);
    assert_eq!(
        refused.failure.as_deref(),
        Some("checkout already belongs to https://provider.example / prj_prior; use `resync project fork` to separate it")
    );
    let same = Some("https://provider.example/path".to_owned());
    assert!(project_create("/work/x", "/state", &member(), false, &None, &same).failure.is_none());
    let separated = project_create("/work/x", "/state", &member(), true, &None, &other);
    assert!(separated.failure.is_none());
    assert!(!separated.repair);
    let mut lost = member();
    lost.project_id = Some("prj_lost".into());
    let mut creation = project_create("/work/x", "/state", &lost, false, &None, &None);
    drive(&mut creation, "", &mut vec![]);
    assert!(creation.failure.unwrap().starts_with("ACCESS_LOST: prj_lost"));
    let mut odd = member();
    odd.service = None;
    assert_eq!(
        project_create("/work/x", "/state", &odd, false, &None, &None).failure.as_deref(),
        Some("existing RepoSync identity has no provider")
    );
}

#[test]
fn tokens_and_providers_are_chosen() {
    let mut config = Config::default();
    config.active_provider = Some("https://active.example".into());
    let default = "https://default.example";
    assert_eq!(
        configured_origin(&None, &config, default).unwrap(),
        "https://active.example"
    );
    assert_eq!(
        configured_origin(&Some("https://x.example/y".to_owned()), &config, default).unwrap(),
        "https://x.example"
    );
    assert_eq!(
        configured_origin(&None, &Config::default(), default).unwrap(),
        "https://default.example"
    );
    assert!(configured_origin(&Some("x".to_owned()), &config, default).is_err());
    config.server = Some("https://active.example".into());
    config.token = Some("legacy".into());
    assert_eq!(
        configured_provider("https://active.example", &None, &config).unwrap(),
        "legacy"
    );
    assert_eq!(
        configured_provider("https://active.example", &Some("kept".to_owned()), &config).unwrap(),
        "kept"
    );
    assert_eq!(
        configured_provider("https://other.example", &None, &config).unwrap_err().message(),
        "not logged in to https://other.example; run `resync auth login https://other.example`"
    );
    let some = |text: &str| Some(text.to_owned());
    assert_eq!(login_token(&some("a"), &some("b"), &some("c"), &None).unwrap(), "a");
    assert_eq!(login_token(&None, &some("b"), &some("c"), &None).unwrap(), "b");
    assert_eq!(login_token(&None, &None, &some("c"), &None).unwrap(), "c");
    assert_eq!(login_token(&some("a"), &None, &None, &some(" d\n")).unwrap(), "d");
    assert_eq!(login_token(&None, &None, &None, &None).err(), Some(ProjectError::NoToken));
}

#[test]
fn logging_out_promotes_another_provider() {
    let mut config = Config::default();
    for origin in ["https://b.example", "https://a.example", "https://c.example"] {
        config.set_provider(
            origin,
            ProviderConfig { origin: origin.to_owned(), ..ProviderConfig::default() },
        );
    }
    config.active_provider = Some("https://b.example".into());
    config.server = Some("https://b.example".into());
    let all = logout_origins(&None, true, &config, "https://d.example").unwrap();
    assert_eq!(all, vec!["https://a.example", "https://b.example", "https://c.example"]);
    let one = logout_origins(&None, false, &config, "https://d.example").unwrap();
    assert_eq!(one, vec!["https://b.example"]);
    logout(&mut config, &one);
    assert_eq!(config.active_provider.as_deref(), Some("https://a.example"));
    assert_eq!(config.server, None);
    assert_eq!(config.providers.len(), 2);
    logout(&mut config, &all);
    assert_eq!(config.active_provider, None);
}

#[test]
fn devices_are_listed_and_revoked() {
    let mut discovery = Discovery {
        protocol: "resync.v1".into(),
        service_id: "svc".into(),
        auth_methods: vec![],
        capabilities: vec![],
        endpoints: TextMap::new(),
        named_lease_policy: None,
        origin: "https://p.example".into(),
    };
    assert_eq!(
        devices_endpoint(&discovery, "https://p.example"),
        "https://p.example/v1/devices"
    );
    discovery.endpoints.insert("devices".to_owned(), "https://p.example/d//".to_owned());
    assert_eq!(
        revoke_endpoint(&discovery, "https://p.example", "dev_1"),
        "https://p.example/d/dev_1/revoke"
    );
}

#[test]
fn projects_are_joined_and_left() {
    let start = |id: &str, path: Option<&str>| {
        let mut join = project_join(id, &path.map(|text| text.to_owned()));
        join.advance(JoinEvent::Authenticated("https://p.example".into(), "t".into()));
        join.advance(JoinEvent::Catalog(5, vec![hosted("prj_a"), hosted("prj_b")]));
        join
    };
    let step = |join: &resync::join::Join| format!("{:?}", join.request());
    assert_eq!(
        step(&start("prj_c", None)),
        format!("Fail({:?})", ProjectError::NotHosted.message())
    );
    let mut here = start("prj_b", None);
    assert_eq!(step(&here), "Place");
    here.advance(JoinEvent::Placed("/work/x".into()));
    assert_eq!(step(&here), "Look(\"/work/x\")");
    here.advance(JoinEvent::Found(true, Some(member())));
    assert_eq!(
        step(&here),
        format!(
            "Fail({:?})",
            ProjectError::Belongs("https://provider.example".into(), "prj_prior".into()).message()
        )
    );
    let mut there = start("prj_b", Some("/work/y"));
    assert_eq!(step(&there), "Look(\"/work/y\")");
    there.advance(JoinEvent::Found(false, None));
    assert_eq!(step(&there), "Materialize(\"/work/y\", \"t\")");
    there.advance(JoinEvent::Materialized(LocalProject::new("prj_b", "/work/y")));
    there.advance(JoinEvent::Identified(member()));
    there.advance(JoinEvent::Did);
    assert_eq!(step(&there), "Record(true, 5)");
    there.advance(JoinEvent::Did);
    assert_eq!(step(&there), "Adapters(\"prj_b\")");
    there.advance(JoinEvent::Did);
    assert_eq!(step(&there), "Return");
    let mut failing = start("prj_b", Some("/work/y"));
    failing.advance(JoinEvent::Failed("unreadable".into()));
    assert_eq!(step(&failing), "Fail(\"unreadable\")");
    let mut catalog = LocalCatalog {
        catalog_generation: 1,
        projects: vec![LocalProject::new("prj_a", "/a"), LocalProject::new("prj_b", "/b")],
    };
    assert_eq!(
        unsubscribe(&mut catalog, "prj_c").unwrap_err().message(),
        "project prj_c is not subscribed"
    );
    unsubscribe(&mut catalog, "prj_a").unwrap();
    assert_eq!(catalog.projects.len(), 1);
    assert_eq!(catalog.projects[0].project_id, "prj_b");
    assert_eq!(project_id_or_identity(&None, &member()).unwrap(), "prj_prior");
    assert_eq!(project_id_or_identity(&None, &nobody()).err(), Some(ProjectError::NoIdentity));
    assert_eq!(install_adapters(&catalog.projects, "prj_b").unwrap(), 0);
    assert!(install_adapters(&catalog.projects, "prj_a").is_err());
}

#[test]
fn conflicts_are_listed() {
    let mut bad = LocalProject::new("prj_b", "/b");
    bad.state = "CONFLICTED".into();
    let projects = vec![LocalProject::new("prj_a", "/a"), bad];
    assert_eq!(conflicts(&projects, &None), vec![1]);
    assert_eq!(conflicts(&projects, &Some("prj_a".to_owned())), Vec::<usize>::new());
    assert_eq!(managed_paths(&projects, false), vec!["/a", "/b"]);
    assert_eq!(managed_paths(&projects, true), vec!["/b"]);
}

#[test]
fn one_build_is_selected_and_older_ones_are_pruned() {
    let fingerprint = "0123456789abcdef0123";
    let build = managed_build("0.4.0", fingerprint, "/local");
    assert_eq!(build.build_id, "0.4.0-0123456789abcdef");
    assert_eq!(
        build.executable,
        "/local/share/resync/bin/0.4.0-0123456789abcdef/resync"
    );
    assert!(must_stage(&None, fingerprint));
    assert!(!must_stage(&Some(fingerprint.to_owned()), fingerprint));
    assert!(check_staged("x", fingerprint).is_err());
    let old = "/local/share/resync/bin/0.3.1".to_owned();
    let older = "/local/share/resync/bin/0.3.0".to_owned();
    let entries = vec![old.clone(), build.directory.clone(), older.clone()];
    assert_eq!(
        prune_managed_builds(&entries, &build.executable, &vec![]).unwrap(),
        vec![older, old.clone()]
    );
    assert_eq!(
        prune_managed_builds(&entries, &build.executable, &vec![format!("{old}/resync")]).err(),
        Some(InstallError::Referenced(old))
    );
    assert_eq!(
        prune_managed_builds(&vec![build.directory.clone()], &build.executable, &vec![]).unwrap(),
        Vec::<String>::new()
    );
    assert_eq!(builds_directory("/local"), "/local/share/resync/bin");
    assert_eq!(prune_managed_builds(&entries, "/", &vec![]).err(), Some(InstallError::NoParent));
    assert!(is_process_directory("42"));
    assert!(!is_process_directory("self"));
}

#[test]
fn builds_are_installed_below_the_home_directory() {
    let home = Some("/home/u".to_owned());
    assert_eq!(managed_install_root(&None, &home).unwrap(), "/home/u/.local");
    assert_eq!(managed_install_root(&Some("/opt".to_owned()), &home).unwrap(), "/opt");
    assert_eq!(
        managed_install_root(&Some("/opt".to_owned()), &None).err(),
        Some(InstallError::NoHome)
    );
    assert!(check_activation("/a/b", "/a//b").is_ok());
    assert_eq!(check_activation("/a/b", "/a/c").err(), Some(InstallError::NotStaged));
    let ping = Json::Object(vec![("binaryId".to_owned(), Json::Text("f".to_owned()))]);
    assert!(check_daemon(&ping, "f").is_ok());
    assert_eq!(check_daemon(&ping, "g").err(), Some(InstallError::NotActivated));
}

#[test]
fn older_installations_are_removed() {
    let node = LegacyInstall::Node("/nvm/v1".to_owned());
    assert_eq!(
        legacy_manifest(&node).as_deref(),
        Some("/nvm/v1/lib/node_modules/@tyrlabs-ai/resync/package.json")
    );
    let call = legacy_removal(&node);
    assert_eq!(call.program, "/nvm/v1/bin/npm");
    assert_eq!(call.arguments, vec!["uninstall", "--global", "@tyrlabs-ai/resync"]);
    let fine = RunResult { code: 0, stdout: String::new(), stderr: String::new() };
    let bad = RunResult { code: 1, stdout: String::new(), stderr: " denied\n".into() };
    assert_eq!(remove_legacy_package_installs(&node, &fine, false).unwrap(), "npm:/nvm/v1");
    assert!(remove_legacy_package_installs(&node, &fine, true).is_err());
    let prefix = LegacyInstall::Prefix("/p".to_owned());
    assert!(remove_legacy_package_installs(&prefix, &bad, false)
        .unwrap_err()
        .message()
        .ends_with(": denied"));
    assert_eq!(remove_legacy_package_installs(&prefix, &fine, false).unwrap(), "npm-prefix:/p");
    assert_eq!(legacy_removal(&prefix).arguments.len(), 5);
    assert_eq!(
        remove_legacy_package_installs(&LegacyInstall::VitePlus, &fine, true).unwrap(),
        "vite-plus"
    );
    assert_eq!(
        remove_legacy_package_installs(&LegacyInstall::VitePlus, &bad, false).err(),
        Some(InstallError::VitePlusRemains)
    );
    assert!(vite_plus_lists("a\n@tyrlabs-ai/resync 1.0\n"));
    assert!(!vite_plus_lists("a\n"));
}

#[test]
fn one_build_is_healthy() {
    let good = vec![
        HealthFact::Launcher("/b/resync".to_owned()),
        HealthFact::Builds(1),
        HealthFact::Daemon(Some("f".to_owned())),
        HealthFact::Process("/b/resync".to_owned()),
        HealthFact::Candidate("/b/resync".to_owned()),
        HealthFact::PrefixManifest(false),
        HealthFact::NodeManifest(false),
    ];
    assert_eq!(single_build_health("/b/resync", "f", &good).unwrap(), "/b/resync (f)");
    for (fact, words) in [
        (HealthFact::Launcher("/c".to_owned()), "stable launcher and current executable resolve to different builds"),
        (HealthFact::Builds(3), "managed build cache contains 3 RepoSync builds"),
        (HealthFact::Daemon(None), "daemon and stable launcher have different build identities"),
        (HealthFact::Process("/c".to_owned()), "daemon executable and stable launcher resolve to different builds"),
        (HealthFact::Candidate("/c".to_owned()), "PATH contains a different RepoSync executable"),
        (HealthFact::PrefixManifest(true), "obsolete npm RepoSync installation remains under the install prefix"),
        (HealthFact::NodeManifest(true), "obsolete NVM RepoSync installation remains"),
    ] {
        let mut facts = good.clone();
        facts.push(fact);
        assert_eq!(single_build_health("/b/resync", "f", &facts).unwrap_err(), words);
    }
}

fn answer(id: &str) -> Json {
    Json::Object(vec![("binaryId".to_owned(), Json::Text(id.to_owned()))])
}

#[test]
fn an_upgrade_is_verified_before_anything_is_removed() {
    let mut upgrade = activate_upgrade();
    assert_eq!(upgrade.request(), UpgradeAction::Stage);
    upgrade.advance(UpgradeEvent::Staged("/b/resync".to_owned()));
    assert_eq!(upgrade.request(), UpgradeAction::Compare("/b/resync".to_owned()));
    upgrade.advance(UpgradeEvent::Places("/b/resync".to_owned(), "/b/resync".to_owned()));
    assert_eq!(upgrade.request(), UpgradeAction::Supervise);
    upgrade.advance(UpgradeEvent::Did);
    assert_eq!(upgrade.request(), UpgradeAction::Ping);
    upgrade.advance(UpgradeEvent::Answered(answer("f")));
    assert_eq!(upgrade.request(), UpgradeAction::Fingerprint("/b/resync".to_owned()));
    upgrade.advance(UpgradeEvent::Digest("f".to_owned()));
    let rest = [
        UpgradeAction::Adapters,
        UpgradeAction::Legacy,
        UpgradeAction::Launch("/b/resync".to_owned()),
        UpgradeAction::Prune("/b/resync".to_owned()),
    ];
    for action in rest {
        assert_eq!(upgrade.request(), action);
        upgrade.advance(UpgradeEvent::Did);
    }
    assert_eq!(upgrade.request(), UpgradeAction::Return);
}

#[test]
fn an_upgrade_of_another_build_fails() {
    let mut elsewhere = activate_upgrade();
    elsewhere.advance(UpgradeEvent::Staged("/b/resync".to_owned()));
    elsewhere.advance(UpgradeEvent::Places("/a/resync".to_owned(), "/b/resync".to_owned()));
    assert_eq!(elsewhere.request(), UpgradeAction::Fail(InstallError::NotStaged.message()));
    let mut stale = activate_upgrade();
    stale.advance(UpgradeEvent::Staged("/b/resync".to_owned()));
    stale.advance(UpgradeEvent::Places("/b/resync".to_owned(), "/b/resync".to_owned()));
    stale.advance(UpgradeEvent::Did);
    stale.advance(UpgradeEvent::Answered(answer("old")));
    stale.advance(UpgradeEvent::Digest("new".to_owned()));
    assert_eq!(stale.request(), UpgradeAction::Fail(InstallError::NotActivated.message()));
    let mut broken = activate_upgrade();
    broken.advance(UpgradeEvent::Failed("disk full".to_owned()));
    assert_eq!(broken.request(), UpgradeAction::Fail("disk full".to_owned()));
}
