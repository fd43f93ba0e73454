use resync::clock::Timestamp;
use resync::json::Json;
use resync::named_lease::{
    acquire, acquire_body, acquire_reply, acquire_with, active_receipt_path, check_mutation,
    find_pending_receipt, get, get_reply, hash, is_pending_file, is_unheld, list, list_reply,
    mutate_active_receipt, mutation_body, mutation_reply, mutation_status, new_request_id, pending_receipt_path,
    random_secret, receipt_is_locally_expired, receipt_project_directory, release, renew,
    resolve_discovered_project, resolve_project, validate_holder_id, validate_identifier,
    validate_receipt_binding, validate_resource_key, validate_resource_prefix, validate_ttl,
    AcquireStep, IdentifierKind, LeaseOperation, LeaseReply, MutationStep, NamedLeaseError,
    NamedLeaseProject, NamedLeaseProviderOutcome, NamedLeaseReceipt, NamedLeaseReceiptState,
    CAPABILITY,
};
use resync::identity::Identity;
use resync::protocol::{
    NamedLease, NamedLeaseListResponse, NamedLeaseMutationResponse, NamedLeaseOutcome,
    NamedLeasePolicy,
};
use resync::provider::{Discovery, ProviderHttpError};
use resync::state::{LocalCatalog, LocalProject};
use resync::text_map::TextMap;

fn project() -> NamedLeaseProject {
    NamedLeaseProject {
        provider_origin: "https://provider.example".into(),
        project_id: "prj_example".into(),
        token: "secret".into(),
        endpoint: "https://provider.example/v1/projects/prj_example/named-leases".into(),
        policy: NamedLeasePolicy {
            default_ttl_seconds: 900,
            min_ttl_seconds: 30,
            max_ttl_seconds: 3600,
        },
    }
}

fn lease() -> NamedLease {
    NamedLease {
        lease_id: "nls_example".into(),
        project_id: "prj_example".into(),
        resource_key: "waykeeper/item".into(),
        holder_device_id: "dev_example".into(),
        holder_device_name: None,
        holder_id: "holder".into(),
        generation: 1,
        acquired_at: Timestamp { seconds: 1785715200, nanos: 0 },
        expires_at: Timestamp { seconds: 1785716100, nanos: 0 },
    }
}

fn receipt() -> NamedLeaseReceipt {
    NamedLeaseReceipt {
        version: 1,
        state: NamedLeaseReceiptState::Active,
        provider_origin: "https://provider.example".into(),
        project_id: "prj_example".into(),
        request_id: "req_example".into(),
        resource_key: "waykeeper/item".into(),
        holder_id: "holder".into(),
        holder_secret: "secret".into(),
        requested_ttl_seconds: 900,
        lease: Some(lease()),
        pending_mutation: None,
    }
}

#[test]
fn resource_keys_and_prefixes_use_complete_lowercase_segments() {
    assert!(validate_resource_key("waykeeper/maps/map-1/tickets/ticket-1").is_ok());
    assert!(validate_resource_prefix("waykeeper/maps/").is_ok());
    for invalid in ["", "/a", "a/", "a//b", "a/../b", "A/b", "a/b c"] {
        assert!(validate_resource_key(invalid).is_err(), "{invalid}");
    }
    assert!(validate_resource_prefix("waykeeper2/").is_ok());
    assert!(validate_resource_prefix("waykeeper//").is_err());
}

#[test]
fn receipt_paths_hash_sensitive_and_path_like_inputs() {
    let directory = receipt_project_directory("/state/named-leases", &project());
    assert!(!directory.contains("provider.example"));
    let path = active_receipt_path(&directory, "nls_example", "../../holder");
    let path = std::path::PathBuf::from(path);
    assert_eq!(path.parent(), Some(std::path::Path::new(&directory)));
    assert!(!path.file_name().unwrap().to_string_lossy().contains("holder"));
}

#[test]
fn local_expiry_is_observation_not_receipt_deletion() {
    let receipt = receipt();
    let now = Timestamp { seconds: 1785716100, nanos: 0 };
    assert!(receipt_is_locally_expired(&receipt, &now));
    assert!(receipt.lease.is_some());
    let before = Timestamp { seconds: 1785716099, nanos: 999_999_999 };
    assert!(!receipt_is_locally_expired(&receipt, &before));
}

#[test]
fn prefixes_name_whole_segments() {
    assert_eq!(
        validate_resource_prefix("waykeeper").unwrap_err(),
        NamedLeaseError::PrefixBoundary
    );
    let long = format!("{}/", "a".repeat(255));
    assert_eq!(validate_resource_prefix(&long).unwrap_err(), NamedLeaseError::PrefixLength);
}

#[test]
fn holders_and_identifiers_are_checked() {
    assert!(validate_holder_id("worker-1").is_ok());
    assert!(validate_holder_id("").is_err());
    assert!(validate_holder_id("a\nb").is_err());
    assert!(validate_holder_id("worker 1").is_err());
    assert!(validate_identifier("prj_1", IdentifierKind::Project).is_ok());
    assert!(validate_identifier("", IdentifierKind::Lease).is_err());
    assert!(validate_identifier("a/b", IdentifierKind::Project).is_err());
}

#[test]
fn times_to_live_stay_within_the_policy() {
    let policy = project().policy;
    assert!(validate_ttl(&policy, 30).is_ok());
    assert!(validate_ttl(&policy, 3600).is_ok());
    assert_eq!(validate_ttl(&policy, 29).unwrap_err(), NamedLeaseError::Ttl(30, 3600));
    assert!(validate_ttl(&policy, 3601).is_err());
}

#[test]
fn digests_keep_fields_apart() {
    let one = hash(&vec!["ab".to_owned(), "c".to_owned()]);
    let other = hash(&vec!["a".to_owned(), "bc".to_owned()]);
    assert_eq!(one.len(), 64);
    assert_ne!(one, other);
}

#[test]
fn a_first_attempt_makes_a_pending_receipt() {
    let made = acquire_with(
        &project(),
        "/leases",
        "waykeeper/item",
        &Some("holder".to_owned()),
        None,
        &vec![],
        "generated",
        "req_1",
        "secret_1",
    )
    .unwrap();
    assert!(made.fresh);
    assert_eq!(made.receipt.state, NamedLeaseReceiptState::Pending);
    assert_eq!(made.receipt.holder_id, "holder");
    assert_eq!(made.receipt.request_id, "req_1");
    assert_eq!(made.receipt.holder_secret, "secret_1");
    assert_eq!(made.receipt.requested_ttl_seconds, 900);
    assert_eq!(made.path, pending_receipt_path("/leases", &made.receipt));
    let name = std::path::PathBuf::from(&made.path);
    let name = name.file_name().unwrap().to_string_lossy().into_owned();
    assert!(is_pending_file(&name));
    assert!(!is_pending_file("nls_example-0.json"));
}

#[test]
fn a_lost_attempt_is_made_again_with_the_same_receipt() {
    let mut pending = receipt();
    pending.state = NamedLeaseReceiptState::Pending;
    pending.lease = None;
    let made = acquire_with(
        &project(),
        "/leases",
        "waykeeper/item",
        &None,
        Some(60),
        &vec![pending],
        "generated",
        "req_2",
        "secret_2",
    )
    .unwrap();
    assert!(!made.fresh);
    assert_eq!(made.receipt.request_id, "req_example");
    assert_eq!(made.receipt.holder_secret, "secret");
}

#[test]
fn several_pending_receipts_are_ambiguous() {
    let mut first = receipt();
    first.state = NamedLeaseReceiptState::Pending;
    first.lease = None;
    let mut second = first.copy();
    second.holder_id = "other".into();
    let both = vec![first, second];
    assert_eq!(
        find_pending_receipt(&both, &project(), "waykeeper/item", &None).unwrap_err(),
        NamedLeaseError::ManyPending
    );
    assert_eq!(
        find_pending_receipt(&both, &project(), "waykeeper/item", &Some("other".to_owned()))
            .unwrap(),
        Some(1)
    );
    assert_eq!(find_pending_receipt(&both, &project(), "waykeeper/else", &None).unwrap(), None);
}

#[test]
fn new_attempts_differ() {
    let one = acquire(&project(), "/leases", "waykeeper/item", &None, None, &vec![]).unwrap();
    let two = acquire(&project(), "/leases", "waykeeper/item", &None, None, &vec![]).unwrap();
    assert_ne!(one.receipt.request_id, two.receipt.request_id);
    assert_ne!(one.receipt.holder_secret, two.receipt.holder_secret);
    assert_ne!(new_request_id(), new_request_id());
    assert_ne!(random_secret(), random_secret());
    assert_eq!(random_secret().len(), 43);
}

#[test]
fn an_acquired_lease_activates_its_receipt() {
    let mut pending = receipt();
    pending.state = NamedLeaseReceiptState::Pending;
    pending.lease = None;
    let response = NamedLeaseMutationResponse {
        outcome: NamedLeaseOutcome::Acquired,
        lease: Some(lease()),
    };
    match acquire_reply(
        &project(),
        "/leases",
        "waykeeper/item",
        pending.copy(),
        LeaseReply::Accepted(response),
    ) {
        AcquireStep::Activate(path, active, _) => {
            assert_eq!(path, active_receipt_path("/leases", "nls_example", "holder"));
            assert_eq!(active.state, NamedLeaseReceiptState::Active);
            assert_eq!(active.lease.unwrap().lease_id, "nls_example");
        }
        _ => panic!("not activated"),
    }
    match acquire_reply(
        &project(),
        "/leases",
        "waykeeper/item",
        pending.copy(),
        LeaseReply::Lost("connection reset".into()),
    ) {
        AcquireStep::Keep(NamedLeaseError::Transport(words)) => {
            assert_eq!(words, "connection reset")
        }
        _ => panic!("a lost reply must keep the receipt"),
    }
    let mut foreign = lease();
    foreign.project_id = "prj_other".into();
    match acquire_reply(
        &project(),
        "/leases",
        "waykeeper/item",
        pending.copy(),
        LeaseReply::Accepted(NamedLeaseMutationResponse {
            outcome: NamedLeaseOutcome::Acquired,
            lease: Some(foreign),
        }),
    ) {
        AcquireStep::Keep(NamedLeaseError::Protocol(_)) => {}
        _ => panic!("a foreign lease must keep the receipt"),
    }
    match acquire_reply(
        &project(),
        "/leases",
        "waykeeper/item",
        pending,
        LeaseReply::Rejected(
            409,
            NamedLeaseMutationResponse {
                outcome: NamedLeaseOutcome::Held,
                lease: Some(lease()),
            },
        ),
    ) {
        AcquireStep::Drop(NamedLeaseError::Outcome(inner)) => {
            assert_eq!(inner.status, 409);
            assert_eq!(inner.response.outcome, NamedLeaseOutcome::Held);
        }
        _ => panic!("contention must drop the pending receipt"),
    }
}

#[test]
fn mutations_are_bound_to_their_receipt() {
    let mutation = mutate_active_receipt(
        &project(),
        "nls_example",
        "holder",
        LeaseOperation::Renew,
        Some(60),
        Some(receipt()),
        "req_renew",
    )
    .unwrap();
    assert_eq!(
        mutation.url,
        "https://provider.example/v1/projects/prj_example/named-leases/nls_example/renew"
    );
    assert_eq!(mutation.request_id, "req_renew");
    assert_eq!(mutation.ttl_seconds, Some(60));
    let pending = mutation.receipt.pending_mutation.as_ref().unwrap();
    assert_eq!(pending.operation, "renew");
    assert_eq!(pending.request_id, "req_renew");

    let again = mutate_active_receipt(
        &project(),
        "nls_example",
        "holder",
        LeaseOperation::Renew,
        Some(60),
        Some(mutation.receipt.copy()),
        "req_other",
    )
    .unwrap();
    assert_eq!(again.request_id, "req_renew");
    assert_eq!(again.ttl_seconds, Some(60));

    assert_eq!(
        mutate_active_receipt(
            &project(),
            "nls_example",
            "holder",
            LeaseOperation::Release,
            None,
            Some(mutation.receipt),
            "req_release",
        )
        .err(),
        Some(NamedLeaseError::OtherMutation)
    );
    assert_eq!(
        release(&project(), "nls_example", "holder", None).err(),
        Some(NamedLeaseError::NoReceipt)
    );
    assert!(release(&project(), "nls_example", "holder", Some(receipt())).is_ok());
    assert!(renew(&project(), "nls_example", "holder", Some(5), Some(receipt())).is_err());
    assert_eq!(
        validate_receipt_binding(&receipt(), &project(), "nls_example", "other").err(),
        Some(NamedLeaseError::ReceiptMismatch)
    );
    assert!(check_mutation(&project(), "", "holder", LeaseOperation::Release, None).is_err());
    assert_eq!(LeaseOperation::Release.as_str(), "release");
}

#[test]
fn replies_to_mutations_settle_the_receipt() {
    let released = NamedLeaseMutationResponse {
        outcome: NamedLeaseOutcome::Released,
        lease: Some(lease()),
    };
    match mutation_reply(&project(), "nls_example", receipt(), LeaseReply::Accepted(released)) {
        MutationStep::Released(response) => {
            assert_eq!(response.outcome, NamedLeaseOutcome::Released)
        }
        _ => panic!("not released"),
    }
    let mut longer = lease();
    longer.expires_at = Timestamp { seconds: 1785717000, nanos: 0 };
    let renewed = NamedLeaseMutationResponse {
        outcome: NamedLeaseOutcome::Renewed,
        lease: Some(longer),
    };
    match mutation_reply(&project(), "nls_example", receipt(), LeaseReply::Accepted(renewed)) {
        MutationStep::Save(now, _) => {
            assert_eq!(now.lease.unwrap().expires_at.seconds, 1785717000);
            assert!(now.pending_mutation.is_none());
        }
        _ => panic!("not saved"),
    }
    let expired = NamedLeaseMutationResponse {
        outcome: NamedLeaseOutcome::LeaseExpired,
        lease: None,
    };
    match mutation_reply(&project(), "nls_example", receipt(), LeaseReply::Rejected(410, expired)) {
        MutationStep::Drop(NamedLeaseError::Outcome(_)) => {}
        _ => panic!("an expired lease has no receipt"),
    }
    match mutation_reply(
        &project(),
        "nls_example",
        receipt(),
        LeaseReply::Lost("timeout".into()),
    ) {
        MutationStep::Keep(NamedLeaseError::Transport(_)) => {}
        _ => panic!("a lost reply must keep the receipt"),
    }
    assert_eq!(mutation_status(NamedLeaseOutcome::Held), 409);
}

#[test]
fn leases_are_looked_up_by_key_and_prefix() {
    assert_eq!(
        get(&project(), "waykeeper/item").unwrap(),
        "https://provider.example/v1/projects/prj_example/named-leases?resource_key=waykeeper%2Fitem"
    );
    assert!(get(&project(), "A").is_err());
    assert_eq!(get_reply(&project(), "waykeeper/item", Some(lease())).unwrap().lease_id, "nls_example");
    assert_eq!(
        get_reply(&project(), "waykeeper/item", None).err(),
        Some(NamedLeaseError::MissingLease)
    );
    assert_eq!(
        list(&project(), "waykeeper/").unwrap(),
        "https://provider.example/v1/projects/prj_example/named-leases?prefix=waykeeper%2F"
    );
    let response = NamedLeaseListResponse { leases: vec![lease()] };
    assert_eq!(list_reply(&project(), "waykeeper/", response).unwrap().len(), 1);
    let outside = NamedLeaseListResponse { leases: vec![lease()] };
    assert_eq!(
        list_reply(&project(), "other/", outside).err(),
        Some(NamedLeaseError::OutsidePrefix)
    );
    let unheld = ProviderHttpError {
        status: 404,
        body: Json::Object(vec![("outcome".to_owned(), Json::Text("NOT_FOUND".to_owned()))]),
    };
    assert!(is_unheld(&unheld));
    assert!(!is_unheld(&ProviderHttpError { status: 500, body: Json::Null }));
}

#[test]
fn projects_are_resolved_by_name_or_by_checkout() {
    let mut local = LocalProject::new("prj_example", "/work/example");
    local.service = Some("https://provider.example".to_owned());
    let catalog = LocalCatalog { catalog_generation: 1, projects: vec![local] };
    let named =
        resolve_project(&Some("prj_example".to_owned()), &catalog, &None, &None).unwrap();
    assert_eq!(named.index, 0);
    assert_eq!(named.origin, "https://provider.example");
    let identity = Identity {
        root: "/work/example".into(),
        service: Some("https://provider.example".into()),
        project_id: Some("prj_example".into()),
        checkout_id: Some("chk_1".into()),
    };
    let here = resolve_project(&None, &catalog, &None, &Some(identity)).unwrap();
    assert_eq!(here.index, 0);
    assert_eq!(
        resolve_project(&None, &catalog, &None, &None).err(),
        Some(NamedLeaseError::NotEnrolled)
    );
    assert!(matches!(
        resolve_project(&Some("prj_missing".to_owned()), &catalog, &None, &None),
        Err(NamedLeaseError::UnknownProject(_))
    ));
}

#[test]
fn providers_offer_leases_with_a_policy_and_a_template() {
    let mut endpoints = TextMap::new();
    endpoints.insert(
        "named_leases".to_owned(),
        "https://provider.example/v1/projects/%7Bproject_id%7D/named-leases".to_owned(),
    );
    let discovery = Discovery {
        protocol: "resync.v1".into(),
        service_id: "svc".into(),
        auth_methods: vec![],
        capabilities: vec![CAPABILITY.to_owned()],
        endpoints,
        named_lease_policy: Some(project().policy),
        origin: "https://provider.example".into(),
    };
    let resolved = resolve_discovered_project(
        "prj_example",
        "https://provider.example",
        &discovery,
        &Some("secret".to_owned()),
    )
    .unwrap();
    assert_eq!(resolved.endpoint, project().endpoint);
    assert!(matches!(
        resolve_discovered_project("prj_example", "https://provider.example", &discovery, &None),
        Err(NamedLeaseError::NotLoggedIn(_))
    ));
    let mut older = discovery;
    older.capabilities = vec![];
    assert_eq!(
        resolve_discovered_project(
            "prj_example",
            "https://provider.example",
            &older,
            &Some("secret".to_owned())
        )
        .err(),
        Some(NamedLeaseError::NoCapability)
    );
}

#[test]
fn refusals_are_described() {
    let outcome = NamedLeaseProviderOutcome {
        status: 409,
        response: NamedLeaseMutationResponse {
            outcome: NamedLeaseOutcome::Held,
            lease: Some(lease()),
        },
    };
    assert!(outcome.message().contains("HELD"));
    assert_eq!(
        NamedLeaseError::Outcome(outcome.copy()).message(),
        outcome.message()
    );
}

fn pair(key: &str, value: &str) -> (String, Json) {
    (key.to_owned(), Json::Text(value.to_owned()))
}

#[test]
fn leases_are_asked_for_with_their_receipt() {
    let held = receipt();
    assert_eq!(
        acquire_body(&held),
        Json::Object(vec![
            pair("request_id", &held.request_id),
            pair("resource_key", &held.resource_key),
            pair("holder_id", &held.holder_id),
            pair("holder_secret", &held.holder_secret),
            ("ttl_seconds".to_owned(), Json::Number(held.requested_ttl_seconds.to_string())),
        ])
    );
    let change = |operation: LeaseOperation, ttl: Option<u64>| {
        mutate_active_receipt(
            &project(),
            "nls_example",
            "holder",
            operation,
            ttl,
            Some(receipt()),
            "req_change",
        )
        .unwrap()
    };
    let secret = pair("holder_secret", &held.holder_secret);
    assert_eq!(
        mutation_body(&change(LeaseOperation::Renew, Some(60))),
        Json::Object(vec![
            pair("request_id", "req_change"),
            secret.clone(),
            ("ttl_seconds".to_owned(), Json::Number("60".to_owned())),
        ])
    );
    assert_eq!(
        mutation_body(&change(LeaseOperation::Release, None)),
        Json::Object(vec![pair("request_id", "req_change"), secret])
    );
}
