use resync::daemon::executable_fingerprint;
use resync::identity::Identity;
use resync::join::{Join, JoinAction, JoinEvent};
use resync::json::Json;
use resync::peer::{
    bootstrap, check_release, current_target, find_hosted, may_relink, parse_target, peer_accept,
    peer_destination, peer_sync, persist_project,
    release_base, remote_home_path, remote_target, split_words, ticket_endpoint, AcceptOptions,
    PeerAction, PeerError, PeerEvent,
};
use resync::process::RunResult;
use resync::protocol::{AdvertisedHead, CatalogProject};
use resync::provider::Discovery;
use resync::state::{Config, LocalCatalog, LocalProject};
use resync::text_map::TextMap;

fn discovery(name: &str, endpoint: &str) -> Discovery {
    let mut endpoints = TextMap::new();
    endpoints.insert(name.to_owned(), endpoint.to_owned());
    Discovery {
        protocol: "resync.v1".into(),
        service_id: "test".into(),
        auth_methods: Vec::new(),
        capabilities: Vec::new(),
        endpoints,
        named_lease_policy: None,
        origin: "https://provider.example".into(),
    }
}

fn hosted(id: &str, head: &str) -> CatalogProject {
    CatalogProject {
        project_id: id.into(),
        name: "yolopods".into(),
        remote_url: "https://provider.example/git".into(),
        default_branch: "main".into(),
        advertised_heads: vec![AdvertisedHead { name: "main".into(), oid: head.into() }],
        project_generation: 1,
        extra: vec![],
    }
}

fn ran(stdout: &str) -> RunResult {
    RunResult { code: 0, stdout: stdout.to_owned(), stderr: String::new() }
}

#[test]
fn ticket_endpoint_substitutes_encoded_templates() {
    let discovery = discovery(
        "join_tickets",
        "https://provider.example/v1/projects/%7Bproject_id%7D/join-tickets",
    );
    assert_eq!(
        ticket_endpoint(&discovery, "prj_example"),
        "https://provider.example/v1/projects/prj_example/join-tickets"
    );
}

#[test]
fn peer_destination_prefers_managed_project_path() {
    assert_eq!(
        peer_destination(
            None,
            Some("/home/pod/yolopods"),
            Some("/home/pod"),
            "prj_example",
            "yolopods"
        ),
        "/home/pod/yolopods"
    );
}

#[test]
fn bootstrap_paths_are_rooted_in_remote_home() {
    assert_eq!(
        remote_home_path(".local/share/resync/bin/0.2.0"),
        "\"$HOME\"/'.local/share/resync/bin/0.2.0'"
    );
}

#[test]
fn platforms_are_probed() {
    assert_eq!(remote_target("Linux\nx86_64\n").unwrap(), "x86_64-unknown-linux-gnu");
    assert_eq!(
        remote_target("Plan9\nmips\n").unwrap_err(),
        PeerError::Platform("plan9".to_owned(), "mips".to_owned())
    );
    assert_eq!(current_target("linux", "x86_64"), Some("x86_64-unknown-linux-gnu"));
    assert_eq!(current_target("plan9", "x86_64"), None);
}

#[test]
fn targets_name_a_host_and_a_path() {
    let plain = parse_target("host", &None).unwrap();
    assert_eq!((plain.host.as_str(), plain.path), ("host", None));
    let with = parse_target("user@host:work/x", &None).unwrap();
    assert_eq!(with.host, "user@host");
    assert_eq!(with.path.as_deref(), Some("work/x"));
    let explicit = parse_target("host:a", &Some("/b".to_owned())).unwrap();
    assert_eq!(explicit.path.as_deref(), Some("/b"));
    assert_eq!(parse_target("", &None).err(), Some(PeerError::NoTarget));
}

#[test]
fn releases_are_checked_against_their_digest() {
    let digest = executable_fingerprint(b"program");
    let sums = format!("{digest}  resync-x\n0000  other\n");
    assert!(check_release(b"program", &sums, "resync-x").is_ok());
    assert_eq!(
        check_release(b"tampered", &sums, "resync-x").err(),
        Some(PeerError::Checksum("resync-x".to_owned()))
    );
    assert_eq!(
        check_release(b"program", &sums, "missing").err(),
        Some(PeerError::NoChecksum("missing".to_owned()))
    );
    assert_eq!(split_words(" a  b\tc "), vec!["a", "b", "c"]);
    assert!(release_base(&None, "1.2.3").contains("1.2.3"));
    assert_eq!(release_base(&Some("https://mirror".to_owned()), "1.2.3"), "https://mirror");
    let steps = bootstrap("1.2.3");
    assert!(steps.prepare.contains("1.2.3"));
    assert!(steps.executable.contains("1.2.3"));
    assert_eq!(steps.upload, ".local/share/resync/bin/1.2.3/resync.tmp");
    assert!(steps.activate.contains("$HOME"));
}

fn step(join: &Join) -> String {
    format!("{:?}", join.request())
}

#[test]
fn accepting_needs_authority() {
    let options = AcceptOptions {
        provider: "https://provider.example",
        ticket: "tkt",
        project_id: "prj_example",
        into: None,
        device_name: "pod",
    };
    let catalog = vec![hosted("prj_example", "a")];
    let start = || {
        let mut join = peer_accept(&options, None, Some("/home/pod"));
        join.advance(JoinEvent::Discovered(discovery("redeem_join_ticket", "https://p/redeem")));
        join.advance(JoinEvent::Did);
        join
    };
    let token = || Json::Object(vec![("token".to_owned(), Json::Text("t".to_owned()))]);
    let mut join = start();
    assert_eq!(step(&join), "Redeem(\"https://p/redeem\")");
    join.advance(JoinEvent::Redeemed(token()));
    assert_eq!(step(&join), "Store");
    join.advance(JoinEvent::Did);
    assert_eq!(step(&join), "Catalog(\"https://provider.example\", \"t\")");
    join.advance(JoinEvent::Catalog(7, vec![hosted("other", "b"), hosted("prj_example", "a")]));
    let place = "/home/pod/.local/share/resync/checkouts/prj_example/yolopods";
    assert_eq!(step(&join), format!("Look({place:?})"));
    join.advance(JoinEvent::Found(false, None));
    assert_eq!(step(&join), format!("Parent({place:?})"));
    join.advance(JoinEvent::Did);
    assert_eq!(step(&join), format!("Materialize({place:?}, \"t\")"));
    join.advance(JoinEvent::Materialized(LocalProject::new("prj_example", "/real/path")));
    assert_eq!(
        step(&join),
        "Identify(\"/real/path\", \"https://provider.example\", \"prj_example\")"
    );
    join.advance(JoinEvent::Identified(Identity {
        root: "/real/path".into(),
        service: Some("https://provider.example".into()),
        project_id: Some("prj_example".into()),
        checkout_id: Some("chk_1".into()),
    }));
    for expected in ["Configure(\"/real/path\")", "Record(false, 7)", "Adapters(\"prj_example\")"] {
        assert_eq!(step(&join), expected);
        join.advance(JoinEvent::Did);
    }
    assert_eq!(step(&join), "Reload");
    join.advance(JoinEvent::Did);
    assert_eq!(step(&join), "Return");
    assert_eq!(join.local.unwrap().checkout_id.as_deref(), Some("chk_1"));

    let mut unlisted = start();
    unlisted.advance(JoinEvent::Redeemed(token()));
    unlisted.advance(JoinEvent::Did);
    unlisted.advance(JoinEvent::Catalog(7, vec![hosted("other", "b")]));
    assert_eq!(step(&unlisted), format!("Fail({:?})", PeerError::Unauthorized.message()));
    let mut untokened = start();
    untokened.advance(JoinEvent::Redeemed(Json::Object(vec![])));
    untokened.advance(JoinEvent::Did);
    assert_eq!(step(&untokened), format!("Fail({:?})", PeerError::NoToken.message()));
    let mut occupied = start();
    occupied.advance(JoinEvent::Redeemed(token()));
    occupied.advance(JoinEvent::Did);
    occupied.advance(JoinEvent::Catalog(7, vec![hosted("prj_example", "a")]));
    occupied.advance(JoinEvent::Found(
        true,
        Some(Identity {
            root: place.into(),
            service: Some("https://provider.example".into()),
            project_id: Some("prj_other".into()),
            checkout_id: None,
        }),
    ));
    assert_eq!(step(&occupied), format!("Fail({:?})", PeerError::Occupied.message()));
    let mut plain = peer_accept(&options, None, None);
    plain.advance(JoinEvent::Discovered(discovery("x", "y")));
    assert_eq!(step(&plain), "Key");
    plain.advance(JoinEvent::Did);
    assert_eq!(step(&plain), format!("Fail({:?})", PeerError::NoRedemption.message()));
    assert_eq!(find_hosted(&catalog, "prj_example"), Some(0));
    assert_eq!(find_hosted(&catalog, "other"), None);
}

#[test]
fn occupied_destinations_are_recognized() {
    let free =
        Identity { root: "/d".into(), service: None, project_id: None, checkout_id: None };
    assert_eq!(may_relink(&free, "https://provider.example", "prj"), Ok(true));
    let same = Identity {
        root: "/d".into(),
        service: Some("https://provider.example".into()),
        project_id: Some("prj".into()),
        checkout_id: None,
    };
    assert_eq!(may_relink(&same, "https://provider.example", "prj"), Ok(true));
    assert_eq!(may_relink(&same, "https://provider.example", "other"), Ok(false));
    assert!(may_relink(&same, "http://insecure.example", "prj").is_err());
}

#[test]
fn joined_projects_replace_their_predecessors() {
    let catalog = LocalCatalog {
        catalog_generation: 5,
        projects: vec![LocalProject::new("prj", "/old"), LocalProject::new("other", "/other")],
    };
    let now = persist_project(catalog, LocalProject::new("prj", "/new"), Some(4));
    assert_eq!(now.catalog_generation, 4);
    assert_eq!(now.projects.len(), 2);
    assert_eq!(now.projects[1].local_path, "/new");
}

#[test]
fn a_peer_joins_what_is_hosted() {
    let head = "a".repeat(40);
    let mut config = Config::default();
    config.server = Some("https://provider.example".into());
    config.token = Some("token".into());
    let mut sync = peer_sync("pod", &None, &None, true, &config).unwrap();
    let mut published = 0;
    let mut tickets = 0;
    let mut steps = 0;
    loop {
        steps += 1;
        assert!(steps < 60);
        let event = match sync.request() {
            PeerAction::Identity => PeerEvent::Identity(Identity {
                root: "/work".into(),
                service: Some("https://provider.example".into()),
                project_id: Some("prj_example".into()),
                checkout_id: Some("chk".into()),
            }),
            PeerAction::Credential(_) => PeerEvent::Credential(Some("token".to_owned())),
            PeerAction::Discover(_) => PeerEvent::Discovered(discovery(
                "join_tickets",
                "https://provider.example/v1/projects/%7Bproject_id%7D/join-tickets",
            )),
            PeerAction::Catalog(_, _) => {
                PeerEvent::Catalog(vec![hosted("prj_example", if published > 0 { &head } else { "0" })])
            }
            PeerAction::Git(call) => {
                if call.args.contains(&"status".to_owned()) {
                    PeerEvent::Ran(ran(""))
                } else if call.args.contains(&"symbolic-ref".to_owned()) {
                    PeerEvent::Ran(ran("main\n"))
                } else {
                    PeerEvent::Ran(ran(&format!("{head}\n")))
                }
            }
            PeerAction::Publish(id) => {
                assert_eq!(id, "prj_example");
                assert_eq!(tickets, 0);
                published += 1;
                PeerEvent::Did
            }
            PeerAction::Ticket(_, _) => {
                tickets += 1;
                PeerEvent::Replied(Json::Object(vec![(
                    "ticket".to_owned(),
                    Json::Text("tkt".to_owned()),
                )]))
            }
            PeerAction::Install(_) => PeerEvent::Installed("resync".to_owned()),
            PeerAction::Script(host, script) => {
                assert_eq!(host, "pod");
                assert!(script.starts_with("set -eu\nexec 'resync' 'peer' 'accept' "));
                assert!(script.contains("'--ticket' 'tkt'"));
                PeerEvent::Replied(Json::Object(vec![
                    ("projectId".to_owned(), Json::Text("prj_example".to_owned())),
                    ("service".to_owned(), Json::Text("https://provider.example".to_owned())),
                ]))
            }
            PeerAction::Return => break,
            PeerAction::Fail(error) => panic!("{error}"),
        };
        sync.advance(event);
    }
    assert_eq!(published, 1);
    assert_eq!(tickets, 1);
}
