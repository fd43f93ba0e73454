//! What the commands, records and decisions of the smaller operations are, over all inputs.
use vstd::prelude::*;
use crate::address;
use crate::clock;
use crate::credentials;
use crate::daemon;
use crate::digest;
use crate::gate;
use crate::identity;
use crate::install;
use crate::named_lease;
use crate::paths;
use crate::process;
use crate::provider;
use crate::publication;
use crate::remote;
use crate::text;
use crate::clock::Timestamp;
use crate::gate::{GateEvent, GateView};
use crate::identity::IdentityView;
use crate::json::{Json, JsonView};
use crate::named_lease::{NamedLeaseProjectView, NamedLeaseReceiptState, NamedLeaseReceiptView};
use crate::process::{GitCallView, RunOptionsView, RunResultView};
use crate::protocol::{NamedLeaseOutcome, NamedLeasePolicy};
use crate::provider::DiscoveryView;
use crate::publication::{PublicationAckView, PublicationView};
use crate::state::{ConfigView, LocalProjectView};

verus! {

/// The identity of a worktree is asked for at its top: the provider, the project and the checkout,
/// each of which is the value that Git printed, or missing where Git found none.
pub proof fn law_identity_is_what_git_says(
    path: Seq<char>,
    done: Seq<RunResultView>,
    origin: Option<Seq<char>>,
)
    ensures
        ({
            let top = text::trim(done[0].stdout);
            let asks = |key: Seq<char>|
                process::may_fail(top, seq!["config"@, "--local"@, "--get"@, key]);
            let given = |r: RunResultView|
                if r.code == 0 {
                    Some(text::trim(r.stdout))
                } else {
                    None
                };
            &&& done.len() == 0 ==> identity::identity_call(path, done) == process::may_fail(
                path,
                seq!["rev-parse"@, "--show-toplevel"@],
            )
            &&& done.len() == 1 ==> identity::identity_call(path, done) == asks("resync.service"@)
            &&& done.len() == 2 ==> identity::identity_call(path, done) == asks("resync.projectId"@)
            &&& done.len() == 3 ==> identity::identity_call(path, done) == asks("resync.checkoutId"@)
            &&& identity::identity_read(done, origin).root == top
            &&& identity::identity_read(done, origin).service == origin
            &&& identity::identity_read(done, origin).project_id == given(done[2])
            &&& identity::identity_read(done, origin).checkout_id == given(done[3])
        }),
{
}

/// An identity is written, and removed, key by key, in the configuration of the worktree alone.
pub proof fn law_identity_commands(
    root: Seq<char>,
    service: Seq<char>,
    project_id: Seq<char>,
    checkout_id: Seq<char>,
)
    ensures
        identity::write_calls(root, service, project_id, checkout_id) == seq![
            process::must_run(root, seq!["config"@, "--local"@, "resync.service"@, service]),
            process::must_run(root, seq!["config"@, "--local"@, "resync.projectId"@, project_id]),
            process::must_run(root, seq!["config"@, "--local"@, "resync.checkoutId"@, checkout_id]),
        ],
        identity::clear_calls(root) == seq![
            process::may_fail(root, seq!["config"@, "--local"@, "--unset-all"@, "resync.service"@]),
            process::may_fail(root, seq!["config"@, "--local"@, "--unset-all"@, "resync.projectId"@]),
            process::may_fail(root, seq!["config"@, "--local"@, "--unset-all"@, "resync.checkoutId"@]),
        ],
{
}

/// Two checkouts belong to the same project exactly where both name a provider and a project, the
/// origins of the providers are the same, and so are the projects.
pub proof fn law_same_project_means_same_origin_and_id(a: IdentityView, b: IdentityView)
    ensures
        identity::are_same_project(a, b) <==> (a.service is Some && b.service is Some && a.project_id is Some
            && b.project_id is Some && credentials::origin_of(a.service->0) == credentials::origin_of(b.service->0)
            && a.project_id->0 == b.project_id->0),
        identity::are_same_project(a, b) == identity::are_same_project(b, a),
{
}

/// Git authenticates with a token by a header that is set for the one run alone; without a token
/// the environment stays as it is.
pub proof fn law_token_is_a_header(token: Seq<char>)
    ensures
        remote::token_env(None) == Seq::<(Seq<char>, Seq<char>)>::empty(),
        remote::token_env(Some(token)) == seq![
            ("GIT_CONFIG_COUNT"@, "1"@),
            ("GIT_CONFIG_KEY_0"@, "http.extraHeader"@),
            (
                "GIT_CONFIG_VALUE_0"@,
                "Authorization: Basic "@ + digest::base64_text(
                    vstd::utf8::encode_utf8("resync:"@ + token),
                ),
            ),
        ],
{
}

/// Branches are fetched without tags, each onto the one that Git keeps of it for that remote; a
/// fetch of all of them drops those that the remote no longer has.
pub proof fn law_fetches_map_branches(
    path: Seq<char>,
    remote: Seq<char>,
    branch: Seq<char>,
    token: Option<Seq<char>>,
    lenient: bool,
)
    ensures
        ({
            let fetching = |args: Seq<Seq<char>>, allow_failure: bool|
                GitCallView {
                    args,
                    options: (RunOptionsView {
                        cwd: Some(path),
                        env: remote::token_env(token),
                        input: None,
                        allow_failure,
                    }),
                };
            &&& remote::fetch_call(path, remote, token, lenient) == fetching(
                seq![
                    "fetch"@,
                    "--prune"@,
                    "--no-tags"@,
                    remote,
                    "+refs/heads/*:refs/remotes/"@ + remote + "/*"@,
                ],
                lenient,
            )
            &&& remote::fetch_branch_call(path, remote, branch, token).args.len() == 4
            &&& remote::fetch_branch_call(path, remote, branch, token).args[0] == "fetch"@
            &&& remote::fetch_branch_call(path, remote, branch, token).args[1] == "--no-tags"@
            &&& remote::fetch_branch_call(path, remote, branch, token).args[2] == remote
            &&& remote::fetch_branch_call(path, remote, branch, token).args[3] == "+refs/heads/"@ + branch
                + ":refs/remotes/"@ + remote + ("/"@ + branch)
            &&& remote::fetch_branch_call(path, remote, branch, token).options == fetching(
                Seq::empty(),
                true,
            ).options
        }),
{
}

/// The commits of branches are listed by name and object, one to a line, with a tab between them.
pub proof fn law_branches_are_listed(path: Seq<char>, prefix: Seq<char>)
    ensures
        remote::refs_call(path, prefix) == process::may_fail(
            path,
            seq!["for-each-ref"@, "--format=%(refname:strip=2)\t%(objectname)"@, prefix],
        ),
{
}

/// A line of such a listing tells the object of a name: what stands before the first tab is the
/// name, and what stands after it the object. Lines without a tab tell nothing, and a later line
/// counts more than an earlier one.
pub proof fn law_listing_is_read_line_by_line(
    list: Seq<Seq<char>>,
    name: Seq<char>,
    object: Seq<char>,
    n: int,
)
    requires
        0 < n <= list.len(),
        !name.contains('\t'),
    ensures
        remote::parsed_refs(list, 0) == Map::<Seq<char>, Seq<char>>::empty(),
        list[n - 1] == name + seq!['\t'] + object ==> remote::parsed_refs(list, n) == remote::parsed_refs(
            list,
            n - 1,
        ).insert(name, object),
        !list[n - 1].contains('\t') ==> remote::parsed_refs(list, n) == remote::parsed_refs(list, n - 1),
{
    let line = list[n - 1];
    if line == name + seq!['\t'] + object {
        assert(line[name.len() as int] == '\t');
        assert forall|i: int| 0 <= i < name.len() implies line[i] != '\t' by {
            assert(line[i] == name[i]);
            assert(name.contains(name[i]));
        }
        lemma_first_place(line, '\t', name.len() as int, 0);
        assert(line.take(name.len() as int) =~= name);
        assert(line.skip(name.len() as int + 1) =~= object);
    }
    if !line.contains('\t') {
        lemma_no_place(line, '\t', 0);
    }
}

proof fn lemma_first_place(s: Seq<char>, c: char, i: int, from: int)
    requires
        0 <= from <= i < s.len(),
        s[i] == c,
        forall|j: int| 0 <= j < i ==> s[j] != c,
    ensures
        remote::char_position(s, c, from) == Some(i),
    decreases i - from,
{
    if from < i {
        lemma_first_place(s, c, i, from + 1);
    }
}

proof fn lemma_no_place(s: Seq<char>, c: char, from: int)
    requires
        0 <= from,
        !s.contains(c),
    ensures
        remote::char_position(s, c, from) is None,
    decreases s.len() - from,
{
    if from < s.len() {
        assert(s.contains(s[from]));
        lemma_no_place(s, c, from + 1);
    }
}

/// A remote is set up by asking for its address, setting or adding it, and mapping its branches.
pub proof fn law_remote_is_set_up(
    path: Seq<char>,
    remote: Seq<char>,
    url: Seq<char>,
    done: Seq<RunResultView>,
)
    ensures
        done.len() == 0 ==> remote::configure_call(path, remote, url, done) == process::may_fail(
            path,
            seq!["remote"@, "get-url"@, remote],
        ),
        done.len() == 1 && done[0].code == 0 ==> remote::configure_call(path, remote, url, done)
            == process::must_run(path, seq!["remote"@, "set-url"@, remote, url]),
        done.len() == 1 && done[0].code != 0 ==> remote::configure_call(path, remote, url, done)
            == process::must_run(path, seq!["remote"@, "add"@, remote, url]),
        done.len() == 2 ==> remote::configure_call(path, remote, url, done) == process::must_run(
            path,
            seq![
                "config"@,
                "remote."@ + remote + ".fetch"@,
                "+refs/heads/*:refs/remotes/"@ + remote + "/*"@,
            ],
        ),
{
}

/// A new publication is pending, and due at once for its first attempt, with the commit that was
/// asked for as the one to publish.
pub proof fn law_new_publication(
    id: Seq<char>,
    project_id: Seq<char>,
    checkout_id: Option<Seq<char>>,
    branch: Seq<char>,
    commit: Seq<char>,
    expected: Option<Seq<char>>,
    now: Seq<char>,
)
    ensures
        publication::new_publication(id, project_id, checkout_id, branch, commit, expected, now) == (
        PublicationView {
            publication_id: id,
            project_id,
            checkout_id,
            branch,
            source_commit_oid: commit,
            candidate_commit_oid: commit,
            expected_remote_oid: expected,
            attempt: 1,
            state: "PENDING"@,
            created_at: now,
            last_attempt_at: None,
            next_attempt_at: Some(now),
            last_error: None,
            ack: None,
        }),
{
}

/// An attempt that failed is noted with its time, its error and the time of the next one, as many
/// seconds later as were asked for; all else of the publication stays, and it is still pending.
pub proof fn law_failed_attempt_is_noted(
    before: PublicationView,
    after: PublicationView,
    error: Seq<char>,
    seconds: u64,
    now: Timestamp,
)
    requires
        publication::is_recorded_failure(before, after, error, seconds, now, true),
    ensures
        after == (PublicationView {
            state: "PENDING"@,
            last_attempt_at: clock::rfc3339_of(now.seconds, now.nanos),
            next_attempt_at: clock::rfc3339_of((now.seconds + seconds) as i64, now.nanos),
            last_error: Some(error),
            ..before
        }),
        after.state != "ACKNOWLEDGED"@,
{
    reveal_strlit("PENDING");
    reveal_strlit("ACKNOWLEDGED");
    assert("PENDING"@.len() == 7 && "ACKNOWLEDGED"@.len() == 12);
}

/// A publication is due while it is not acknowledged, unless the time of its next attempt is known
/// and has not come.
pub proof fn law_due_publications(p: PublicationView, now: Timestamp)
    ensures
        p.state == "ACKNOWLEDGED"@ ==> !publication::is_due(p, now),
        p.state != "ACKNOWLEDGED"@ && p.next_attempt_at is None ==> publication::is_due(p, now),
        p.state != "ACKNOWLEDGED"@ && p.next_attempt_at is Some && clock::instant_of(
            p.next_attempt_at->0,
        ) is None ==> publication::is_due(p, now),
        p.state != "ACKNOWLEDGED"@ && p.next_attempt_at is Some && clock::instant_of(
            p.next_attempt_at->0,
        ) is Some ==> (publication::is_due(p, now) <==> clock::not_after(clock::instant_of(p.next_attempt_at->0)->0, now)),
{
}

/// A publication that is tried anew has the new commit, the commit that the remote is expected to
/// have, and the next attempt; it is due at once, and its error is forgotten.
pub proof fn law_requeued_publication(
    p: PublicationView,
    candidate: Seq<char>,
    expected: Option<Seq<char>>,
    now: Seq<char>,
)
    ensures
        daemon::requeued(p, candidate, expected, now) == (PublicationView {
            attempt: (p.attempt + 1) as u64,
            candidate_commit_oid: candidate,
            expected_remote_oid: expected,
            last_error: None,
            next_attempt_at: Some(now),
            ..p
        }),
        daemon::requeued(p, candidate, expected, now).source_commit_oid == p.source_commit_oid,
        daemon::requeued(p, candidate, expected, now).publication_id == p.publication_id,
{
}

/// An acknowledgement covers the pending publications of the same branch of the same project that
/// are no newer; each is kept with it, and is neither pending nor due any more.
pub proof fn law_acknowledged_publication(
    list: Seq<PublicationView>,
    done: PublicationView,
    ack: PublicationAckView,
    now: Seq<char>,
    i: int,
)
    requires
        0 <= i < list.len(),
    ensures
        daemon::all_acknowledged(list, done, ack, now).len() == list.len(),
        ({
            let p = list[i];
            let covers = p.state != "ACKNOWLEDGED"@ && p.project_id == done.project_id && p.branch
                == done.branch && !text::text_less(done.created_at, p.created_at);
            daemon::all_acknowledged(list, done, ack, now)[i] == if covers {
                PublicationView {
                    state: "ACKNOWLEDGED"@,
                    last_attempt_at: Some(now),
                    next_attempt_at: None,
                    last_error: None,
                    ack: Some(ack),
                    ..p
                }
            } else {
                p
            }
        }),
{
}

/// A project whose branch was published has the acknowledged commit for it, on the remote and as
/// applied; its generation does not go back; and it is durable once nothing waits.
pub proof fn law_published_project(
    p: LocalProjectView,
    branch: Seq<char>,
    ack: PublicationAckView,
    more: bool,
)
    ensures
        ({
            let now = daemon::published(p, branch, ack, more);
            &&& now.advertised_heads == p.advertised_heads.insert(branch, ack.remote_head)
            &&& now.last_applied_heads == p.last_applied_heads.insert(branch, ack.remote_head)
            &&& now.server_generation >= p.server_generation
            &&& now.server_generation >= ack.project_generation
            &&& now.server_generation == p.server_generation || now.server_generation
                == ack.project_generation
            &&& now.last_error is None
            &&& !more ==> now.durability == "REMOTELY_DURABLE"@
            &&& more ==> now.durability == p.durability
            &&& now.state == p.state
            &&& now.conflict == p.conflict
            &&& now.workspace_generation == p.workspace_generation
            &&& now.active_branch == p.active_branch
            &&& now.local_path == p.local_path
        }),
{
}

/// A commit is queued only under its full name, which Git is asked to verify; the ref that keeps it
/// is named after the publication.
pub proof fn law_queued_commit_is_verified(path: Seq<char>, commit: Seq<char>, id: Seq<char>)
    ensures
        daemon::verify_call(path, commit) == process::must_run(
            path,
            seq!["rev-parse"@, "--verify"@, commit + "^{commit}"@],
        ),
        daemon::publication_ref(id) == "refs/resync/publications/"@ + id,
{
}

/// What a provider is asked to acknowledge names the attempt, the branch, the commit, and the commit
/// that was expected.
pub proof fn law_acknowledgement_names_the_attempt(p: PublicationView, expected: JsonView)
    requires
        expected == match p.expected_remote_oid {
            Some(oid) => JsonView::Text(oid),
            None => JsonView::Null,
        },
    ensures
        publication::acknowledgement_request(p) == JsonView::Object(
            seq![
                ("publication_id"@, JsonView::Text(p.publication_id)),
                ("attempt"@, JsonView::Number(text::decimal(p.attempt as nat))),
                ("branch"@, JsonView::Text(p.branch)),
                ("candidate_oid"@, JsonView::Text(p.candidate_commit_oid)),
                ("expected_remote_oid"@, expected),
            ],
        ),
{
    assert(publication::acknowledgement_request(p)->Object_0 =~= seq![
        ("publication_id"@, JsonView::Text(p.publication_id)),
        ("attempt"@, JsonView::Number(text::decimal(p.attempt as nat))),
        ("branch"@, JsonView::Text(p.branch)),
        ("candidate_oid"@, JsonView::Text(p.candidate_commit_oid)),
        ("expected_remote_oid"@, expected),
    ]);
}

/// A lease is asked for under the key of its receipt, with the holder, the secret and the time that
/// the receipt records; a change names its own request, the secret, and the time where there is one.
pub proof fn law_lease_requests(
    receipt: NamedLeaseReceiptView,
    request_id: Seq<char>,
    secret: Seq<char>,
    ttl: u64,
)
    ensures
        named_lease::acquire_request(receipt) == JsonView::Object(
            seq![
                ("request_id"@, JsonView::Text(receipt.request_id)),
                ("resource_key"@, JsonView::Text(receipt.resource_key)),
                ("holder_id"@, JsonView::Text(receipt.holder_id)),
                ("holder_secret"@, JsonView::Text(receipt.holder_secret)),
                (
                    "ttl_seconds"@,
                    JsonView::Number(text::decimal(receipt.requested_ttl_seconds as nat)),
                ),
            ],
        ),
        named_lease::mutation_request(request_id, secret, None) == JsonView::Object(
            seq![
                ("request_id"@, JsonView::Text(request_id)),
                ("holder_secret"@, JsonView::Text(secret)),
            ],
        ),
        named_lease::mutation_request(request_id, secret, Some(ttl)) is Object,
        named_lease::mutation_request(request_id, secret, Some(ttl))->Object_0 == seq![
            ("request_id"@, JsonView::Text(request_id)),
            ("holder_secret"@, JsonView::Text(secret)),
            ("ttl_seconds"@, JsonView::Number(text::decimal(ttl as nat))),
        ],
{
}

/// A new receipt is pending, and holds what was asked for.
pub proof fn law_new_receipt(
    project: NamedLeaseProjectView,
    key: Seq<char>,
    holder: Seq<char>,
    ttl: u64,
    request_id: Seq<char>,
    secret: Seq<char>,
)
    ensures
        ({
            let r = named_lease::new_receipt(project, key, holder, ttl, request_id, secret);
            &&& r.version == 1
            &&& r.state == NamedLeaseReceiptState::Pending
            &&& r.provider_origin == project.provider_origin
            &&& r.project_id == project.project_id
            &&& r.request_id == request_id
            &&& r.resource_key == key
            &&& r.holder_id == holder
            &&& r.holder_secret == secret
            &&& r.requested_ttl_seconds == ttl
            &&& r.lease is None
            &&& r.pending_mutation is None
        }),
{
}

/// A time to live is allowed within the bounds of the policy, both included; the default of the
/// policy is meant where none is given.
pub proof fn law_times_to_live(policy: NamedLeasePolicy, ttl: u64)
    ensures
        named_lease::allowed_ttl(policy, ttl) <==> (policy.min_ttl_seconds <= ttl && ttl
            <= policy.max_ttl_seconds),
        named_lease::wanted_ttl(policy, Some(ttl)) == ttl,
        named_lease::wanted_ttl(policy, None) == policy.default_ttl_seconds,
{
}

/// The status that each outcome of a request for a lease goes with.
pub proof fn law_statuses_of_outcomes()
    ensures
        named_lease::outcome_status(NamedLeaseOutcome::Acquired) == 201,
        named_lease::outcome_status(NamedLeaseOutcome::Renewed) == 200,
        named_lease::outcome_status(NamedLeaseOutcome::Released) == 200,
        named_lease::outcome_status(NamedLeaseOutcome::Held) == 409,
        named_lease::outcome_status(NamedLeaseOutcome::LeaseExpired) == 409,
        named_lease::outcome_status(NamedLeaseOutcome::RequestIdReused) == 409,
        named_lease::outcome_status(NamedLeaseOutcome::NotHolder) == 403,
        named_lease::outcome_status(NamedLeaseOutcome::NotFound) == 404,
        named_lease::outcome_status(NamedLeaseOutcome::InvalidResourceKey) == 400,
        named_lease::outcome_status(NamedLeaseOutcome::InvalidTtl) == 400,
{
}

/// A receipt is that of a lease only where it is active, and names the same provider, the same
/// project, the same holder and the same lease.
pub proof fn law_receipt_binds_one_lease(
    receipt: NamedLeaseReceiptView,
    project: NamedLeaseProjectView,
    lease_id: Seq<char>,
    holder: Seq<char>,
)
    requires
        named_lease::binds(receipt, project, lease_id, holder),
    ensures
        receipt.lease is Some,
        receipt.version == 1,
        receipt.state == NamedLeaseReceiptState::Active,
        receipt.provider_origin == project.provider_origin,
        receipt.project_id == project.project_id,
        receipt.holder_id == holder,
        receipt.lease->0.lease_id == lease_id,
        receipt.lease->0.project_id == project.project_id,
{
}

/// The receipt of a request lies under the project, the key and the holder; that of a lease under
/// the lease and the holder.
pub proof fn law_places_of_receipts(
    directory: Seq<char>,
    project_id: Seq<char>,
    key: Seq<char>,
    holder: Seq<char>,
    lease_id: Seq<char>,
)
    ensures
        named_lease::pending_path(directory, project_id, key, holder) == paths::joined(
            directory,
            "pending-"@ + named_lease::fields_digest(seq![project_id, key, holder]) + ".json"@,
        ),
        named_lease::active_path(directory, lease_id, holder) == paths::joined(
            directory,
            lease_id + "-"@ + named_lease::fields_digest(seq![holder]) + ".json"@,
        ),
{
}

/// What older versions knew of the one branch that they synchronized is known of the branch that is
/// now the default one, and nothing of the old names stays.
pub proof fn law_migrated_project(p: LocalProjectView, branch: Seq<char>)
    requires
        daemon::stored_text(p.extra, "syncBranch"@) == Some(branch),
    ensures
        daemon::migrated(p).default_branch == branch,
        !daemon::migrated(p).extra.contains_key("syncBranch"@),
        !daemon::migrated(p).extra.contains_key("advertisedRemoteOid"@),
        !daemon::migrated(p).extra.contains_key("lastAppliedRemoteOid"@),
        daemon::stored_text(p.extra, "advertisedRemoteOid"@) is Some ==> daemon::migrated(p).advertised_heads
            == p.advertised_heads.insert(
            branch,
            daemon::stored_text(p.extra, "advertisedRemoteOid"@)->0,
        ),
        daemon::stored_text(p.extra, "advertisedRemoteOid"@) is None ==> daemon::migrated(p).advertised_heads
            == p.advertised_heads,
        daemon::stored_text(p.extra, "lastAppliedRemoteOid"@) is Some ==> daemon::migrated(p).last_applied_heads
            == p.last_applied_heads.insert(
            branch,
            daemon::stored_text(p.extra, "lastAppliedRemoteOid"@)->0,
        ),
        daemon::stored_text(p.extra, "lastAppliedRemoteOid"@) is None ==> daemon::migrated(p).last_applied_heads
            == p.last_applied_heads,
        daemon::migrated(p).project_id == p.project_id,
        daemon::migrated(p).local_path == p.local_path,
{
    reveal_strlit("syncBranch");
    reveal_strlit("advertisedRemoteOid");
    reveal_strlit("lastAppliedRemoteOid");
    assert("syncBranch"@.len() == 10 && "advertisedRemoteOid"@.len() == 19
        && "lastAppliedRemoteOid"@.len() == 20);
}

/// Access is shared by those with a lease until an owner claims it; from then on no lease is given,
/// and those that are out are only taken back. A claim is granted only where there is no owner.
pub proof fn law_owner_and_leases(g: GateView, id: Seq<char>, other: Seq<char>)
    ensures
        gate::gate_grants(g, GateEvent::Claim) <==> !g.exclusive,
        gate::gate_after(g, GateEvent::Claim).exclusive,
        gate::gate_after(g, GateEvent::Claim).leases == g.leases,
        !gate::gate_after(g, GateEvent::End).exclusive,
        gate::gate_after(g, GateEvent::End).leases == g.leases,
        gate::gate_grants(g, GateEvent::Lease(id)) <==> !g.exclusive,
        gate::gate_after(g, GateEvent::Lease(id)).exclusive == g.exclusive,
        gate::gate_after(g, GateEvent::Lease(id)).leases.contains(other) <==> (g.leases.contains(other)
            || (!g.exclusive && other == id)),
        gate::gate_grants(g, GateEvent::Release(id)) <==> g.leases.contains(id),
        gate::gate_after(g, GateEvent::Release(id)).exclusive == g.exclusive,
        gate::gate_after(g, GateEvent::Release(id)).leases.contains(other) <==> (g.leases.contains(other)
            && other != id),
{
}

/// A provider is known by the origin of its address, and is accepted over HTTPS, or over HTTP on
/// this machine alone.
pub proof fn law_accepted_providers(value: Seq<char>)
    ensures
        match address::url_parts(value) {
            None => credentials::origin_of(value) is None,
            Some(parts) => if parts.scheme == "https"@ || (parts.scheme == "http"@ && (parts.host
                == Some("localhost"@) || parts.host == Some("127.0.0.1"@) || parts.host == Some(
                "::1"@,
            ))) {
                credentials::origin_of(value) == Some(parts.origin)
            } else {
                credentials::origin_of(value) is None
            },
        },
{
}

/// A login makes the provider the active one, under its origin, with the device that it enrolled
/// and its key, and leaves the logins with other providers as they are; the settings of older
/// versions are dropped.
pub proof fn law_login_is_recorded(
    config: ConfigView,
    discovery: DiscoveryView,
    enrollment: Json,
    key: Seq<char>,
    now: Seq<char>,
    other: Seq<char>,
)
    ensures
        ({
            let c = provider::logged_in(config, discovery, enrollment, key, now);
            &&& c.active_provider == Some(discovery.origin)
            &&& c.server is None
            &&& c.token is None
            &&& c.providers.contains_key(discovery.origin)
            &&& c.providers[discovery.origin].origin == discovery.origin
            &&& c.providers[discovery.origin].service_id == Some(discovery.service_id)
            &&& c.providers[discovery.origin].public_key_path == Some(key)
            &&& c.providers[discovery.origin].logged_in_at == Some(now)
            &&& other != discovery.origin ==> c.providers.contains_key(other)
                == config.providers.contains_key(other) && c.providers[other]
                == config.providers[other]
        }),
{
}

/// A build is named after its version and the start of its fingerprint; another one is obsolete
/// unless it lies at the same place as the one that is kept.
pub proof fn law_builds(
    version: Seq<char>,
    fingerprint: Seq<char>,
    entries: Seq<Seq<char>>,
    keep: Seq<char>,
    build: Seq<char>,
    running: Seq<Seq<char>>,
)
    requires
        fingerprint.len() >= 16,
    ensures
        install::build_name(version, fingerprint) == version + "-"@ + fingerprint.take(16),
        install::is_obsolete(entries, keep, build) <==> (entries.contains(build) && !paths::same_place(
            build,
            keep,
        )),
        install::is_referenced(build, running) <==> exists|i: int|
            0 <= i < running.len() && paths::is_under(#[trigger] running[i], build),
{
}

} // verus!
