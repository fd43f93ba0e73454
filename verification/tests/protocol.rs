use resync::clock::Timestamp;
use resync::json::Json;
use resync::protocol::{
    durability_states, is_oid, workspace_states, AdvertisedHead, Catalog, CatalogProject, NamedLease, NamedLeaseListResponse,
    NamedLeaseMutationResponse, NamedLeaseOutcome, NamedLeasePolicy, ProtocolError,
    PROTOCOL_VERSION,
};
use resync::publication::PublicationAck;

fn convert(value: &serde_json::Value) -> Json {
    match value {
        serde_json::Value::Null => Json::Null,
        serde_json::Value::Bool(b) => Json::Bool(*b),
        serde_json::Value::Number(n) => Json::Number(n.to_string()),
        serde_json::Value::String(s) => Json::Text(s.clone()),
        serde_json::Value::Array(items) => Json::List(items.iter().map(convert).collect()),
        serde_json::Value::Object(map) => {
            Json::Object(map.iter().map(|(k, v)| (k.clone(), convert(v))).collect())
        }
    }
}

fn json(text: &str) -> Json {
    convert(&serde_json::from_str(text).unwrap())
}

fn lease(project_id: &str, resource_key: &str) -> NamedLease {
    NamedLease {
        lease_id: "nls_1".into(),
        project_id: project_id.into(),
        resource_key: resource_key.into(),
        holder_device_id: "dev_1".into(),
        holder_device_name: None,
        holder_id: "worker_1".into(),
        generation: 1,
        acquired_at: Timestamp { seconds: 1785715200, nanos: 0 },
        expires_at: Timestamp { seconds: 1785716100, nanos: 0 },
    }
}

#[test]
fn migrates_preview_catalog_shape() {
    let catalog = Catalog::from_value(&json(&format!(
        r#"{{
            "protocol": "resync.v1", "catalog_generation": 2,
            "projects": [{{
                "project_id": "prj_x", "remote_url": "https://example.invalid/x.git",
                "sync_branch": "main", "advertised_head_oid": "{}"
            }}]
        }}"#,
        "a".repeat(40)
    )))
    .unwrap();
    assert_eq!(catalog.projects[0].default_branch, "main");
    assert_eq!(catalog.projects[0].advertised_heads.len(), 1);
    assert_eq!(catalog.projects[0].advertised_heads[0].name, "main");
    assert_eq!(catalog.projects[0].advertised_heads[0].oid, "a".repeat(40));
    assert_eq!(catalog.catalog_generation, 2);
    assert_eq!(PROTOCOL_VERSION, "resync.v1");
}

#[test]
fn rejects_duplicate_heads() {
    let result = Catalog::from_value(&json(&format!(
        r#"{{
            "protocol": "resync.v1", "catalog_generation": 1,
            "projects": [{{
                "project_id": "prj_x", "remote_url": "https://example.invalid/x.git",
                "default_branch": "main", "advertised_heads": [
                    {{"name": "main", "oid": "{}"}},
                    {{"name": "main", "oid": "{}"}}
                ]
            }}]
        }}"#,
        "a".repeat(40),
        "b".repeat(40)
    )));
    assert!(result.unwrap_err().message().contains("duplicate"));
}

#[test]
fn named_lease_outcomes_are_exhaustively_parsed() {
    assert_eq!(NamedLeaseOutcome::parse("HELD").unwrap(), NamedLeaseOutcome::Held);
    assert!(NamedLeaseOutcome::parse("SURPRISE").is_err());
    assert_eq!(
        NamedLeaseOutcome::parse("A\"B").unwrap_err().message(),
        "unknown named-lease outcome \"A\\\"B\""
    );
    assert!("SURPRISE".parse::<NamedLeaseOutcome>().is_err());
}

#[test]
fn every_outcome_is_read_back() {
    for (text, outcome, carries) in [
        ("ACQUIRED", NamedLeaseOutcome::Acquired, true),
        ("HELD", NamedLeaseOutcome::Held, true),
        ("RENEWED", NamedLeaseOutcome::Renewed, true),
        ("RELEASED", NamedLeaseOutcome::Released, true),
        ("LEASE_EXPIRED", NamedLeaseOutcome::LeaseExpired, false),
        ("NOT_HOLDER", NamedLeaseOutcome::NotHolder, false),
        ("NOT_FOUND", NamedLeaseOutcome::NotFound, false),
        ("INVALID_RESOURCE_KEY", NamedLeaseOutcome::InvalidResourceKey, false),
        ("INVALID_TTL", NamedLeaseOutcome::InvalidTtl, false),
        ("REQUEST_ID_REUSED", NamedLeaseOutcome::RequestIdReused, false),
    ] {
        assert_eq!(outcome.as_str(), text);
        assert_eq!(NamedLeaseOutcome::parse(text).unwrap(), outcome);
        assert_eq!(outcome.carries_lease(), carries, "{text}");
    }
}

#[test]
fn named_lease_authority_is_validated_against_the_request() {
    let response = NamedLeaseMutationResponse {
        outcome: NamedLeaseOutcome::Acquired,
        lease: Some(lease("prj_other", "waykeeper/maps/map/tickets/ticket")),
    };
    assert!(response
        .validate_for_resource("prj_expected", "waykeeper/maps/map/tickets/ticket")
        .unwrap_err()
        .message()
        .contains("different project"));
    assert!(response
        .validate_for_resource("prj_other", "waykeeper/maps/map/tickets/ticket")
        .is_ok());
    assert_eq!(
        response.validate_for_resource("prj_other", "waykeeper/maps/map/tickets/next"),
        Err(ProtocolError::OtherResource)
    );
    assert_eq!(
        response.validate_for_lease("prj_other", "nls_2"),
        Err(ProtocolError::OtherLease)
    );
}

#[test]
fn named_lease_responses_reject_missing_authority_fields() {
    let response =
        NamedLeaseMutationResponse { outcome: NamedLeaseOutcome::Acquired, lease: None };
    assert!(response.validate().is_err());

    let policy =
        NamedLeasePolicy { default_ttl_seconds: 15, min_ttl_seconds: 30, max_ttl_seconds: 3600 };
    assert!(policy.validate().is_err());
}

#[test]
fn lease_fields_are_required() {
    let mut empty = lease("prj", "a/b");
    empty.holder_id = String::new();
    assert!(empty.validate().is_err());
    let mut never = lease("prj", "a/b");
    never.generation = 0;
    assert_eq!(never.validate(), Err(ProtocolError::LeaseGeneration));
    let mut backwards = lease("prj", "a/b");
    backwards.expires_at = backwards.acquired_at;
    assert_eq!(backwards.validate(), Err(ProtocolError::LeaseExpiry));
    assert_eq!(lease("prj", "a/b").validate(), Ok(()));
}

#[test]
fn lists_of_leases_are_checked() {
    let list = NamedLeaseListResponse { leases: vec![lease("prj", "a/b"), lease("prj", "a/b")] };
    assert_eq!(list.validate_for_project("prj"), Err(ProtocolError::DuplicateLeases));
    let foreign = NamedLeaseListResponse { leases: vec![lease("prj", "a/b")] };
    assert_eq!(foreign.validate_for_project("other"), Err(ProtocolError::OtherProject));
    assert_eq!(foreign.validate_for_project("prj"), Ok(()));
}

#[test]
fn object_identifiers_are_lower_case_hexadecimal() {
    assert!(is_oid(&"a".repeat(40)));
    assert!(is_oid(&"0".repeat(64)));
    assert!(!is_oid(&"a".repeat(39)));
    assert!(!is_oid(&"a".repeat(65)));
    assert!(!is_oid(&"A".repeat(40)));
    assert!(!is_oid(&format!("{}g", "a".repeat(39))));
}

#[test]
fn catalogs_of_another_protocol_are_refused() {
    assert_eq!(
        Catalog::from_value(&json(r#"{"protocol": "resync.v2", "projects": []}"#)).unwrap_err(),
        ProtocolError::IncompatibleCatalog
    );
    assert_eq!(
        Catalog::from_value(&json(r#"{"protocol": "resync.v1", "catalog_generation": 1, "projects": 1}"#)).unwrap_err(),
        ProtocolError::ProjectsNotArray
    );
    assert_eq!(
        Catalog::from_value(&json(r#"{"protocol": "resync.v1", "catalog_generation": 1, "projects": [1]}"#)).unwrap_err(),
        ProtocolError::ProjectNotObject
    );
}

#[test]
fn projects_are_validated() {
    let project = CatalogProject {
        project_id: "prj_x".into(),
        name: "x".into(),
        remote_url: "https://example.invalid/x.git".into(),
        default_branch: "main".into(),
        advertised_heads: vec![AdvertisedHead { name: "main".into(), oid: "a".repeat(40) }],
        project_generation: 1,
        extra: vec![],
    };
    assert_eq!(project.validate(), Ok(()));
    let mut bad = project;
    bad.advertised_heads[0].oid = "HEAD".into();
    assert_eq!(bad.validate(), Err(ProtocolError::HeadOid));
}

#[test]
fn unknown_fields_of_a_project_are_kept() {
    let value = convert(
        &serde_json::from_str(
            r#"{"protocol": "resync.v1", "catalog_generation": 1, "projects": [{"project_id": "prj", "remote_url": "https://example.invalid/x.git", "sync_branch": "main", "visibility": "team", "quota": {"used": 3}}]}"#,
        )
        .unwrap(),
    );
    let catalog = Catalog::from_value(&value).unwrap();
    assert_eq!(
        catalog.projects[0].extra,
        vec![
            (
                "quota".to_owned(),
                Json::Object(vec![("used".to_owned(), Json::Number("3".to_owned()))]),
            ),
            ("visibility".to_owned(), Json::Text("team".to_owned())),
        ]
    );
}

#[test]
fn outcomes_are_read_through_the_standard_trait() {
    assert_eq!("HELD".parse::<NamedLeaseOutcome>(), Ok(NamedLeaseOutcome::Held));
    assert!("held".parse::<NamedLeaseOutcome>().is_err());
    assert!("".parse::<NamedLeaseOutcome>().is_err());
}

#[test]
fn states_are_listed() {
    assert_eq!(workspace_states().len(), 9);
    assert_eq!(workspace_states()[0], "MATERIALIZING");
    assert_eq!(
        durability_states(),
        vec![
            "NO_LOCAL_CHANGE",
            "DIRTY_UNCHECKPOINTED",
            "COMMITTED_UNPUBLISHED",
            "PUBLISHING",
            "REMOTELY_DURABLE",
        ]
    );
}

fn with_head(head: &str) -> Result<Catalog, ProtocolError> {
    Catalog::from_value(&json(&format!(
        r#"{{"protocol": "resync.v1", "catalog_generation": 1, "projects": [{{
            "project_id": "prj_1", "remote_url": "https://provider.example/git",
            "default_branch": "main", "advertised_heads": [{head}]}}]}}"#
    )))
}

#[test]
fn records_may_be_written_as_lists() {
    let oid = "a".repeat(40);
    let catalog = with_head(&format!(r#"["main", "{oid}"]"#)).unwrap();
    assert_eq!(catalog.projects[0].advertised_heads[0].name, "main");
    assert_eq!(catalog.projects[0].advertised_heads[0].oid, oid);
    assert!(with_head(r#"["main"]"#).is_err());
    assert!(with_head(&format!(r#"["main", "{oid}", "more"]"#)).is_err());
    let ack = json(r#"["pub_1", 2, "prj_1", "main", "aa", "bb", 3, true]"#);
    let read = PublicationAck::from_value(&ack).unwrap();
    assert_eq!(read.publication_id, "pub_1");
    assert_eq!(read.attempt, 2);
    assert_eq!(read.project_id, "prj_1");
    assert_eq!(read.branch, "main");
    assert_eq!(read.accepted_oid, "aa");
    assert_eq!(read.remote_head, "bb");
    assert_eq!(read.project_generation, 3);
    assert!(read.durable);
    assert!(PublicationAck::from_value(&json(r#"["pub_1", 2]"#)).is_none());
}

#[test]
fn every_project_is_looked_at_before_one_is_read() {
    let catalog = json(
        r#"{"protocol": "resync.v1", "catalog_generation": 1, "projects": [{"name": 1}, 2]}"#,
    );
    assert_eq!(Catalog::from_value(&catalog).unwrap_err(), ProtocolError::ProjectNotObject);
}
