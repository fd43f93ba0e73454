//! What a delivery asks before it pushes and before it completes a publication, and on whose
//! answers.
use vstd::prelude::*;
use crate::delivery;
use crate::digest;
use crate::json;
use crate::process;
use crate::publication;
use crate::text;
use crate::converge::Converge;
use crate::delivery::{
    DeliveryActionView, DeliveryEventView, DeliveryProjectView, DeliveryStage, DeliveryView,
};
use crate::json::Json;
use crate::process::{GitCallView, RunOptionsView};
use crate::publication::{PublicationAckView, PublicationView};

verus! {

/// What a delivery begins with.
pub struct DeliveryOf {
    pub id: Seq<char>,
    pub token: Option<Seq<char>>,
}

/// Where in a run of events the questions of the current round of a delivery were answered.
pub struct Round {
    pub loaded: int,
    pub project: int,
    pub fetched: int,
    pub reached: int,
    pub branch: int,
    pub converged: int,
    pub head: int,
    pub kept: int,
    pub validated: int,
    pub pushed: int,
    pub refetched: int,
    pub confirmed: int,
    pub stamped: int,
    pub replied: int,
    pub completed: int,
    pub fault: int,
}

/// The state of a delivery after a run of events.
pub open spec fn delivery_after(d: DeliveryOf, events: Seq<DeliveryEventView>) -> DeliveryView {
    delivery::delivery_replayed(delivery::delivery_start(d.id, d.token), events)
}

/// What a delivery asked for before event `i`.
#[verifier::opaque]
pub open spec fn delivery_asked(
    d: DeliveryOf,
    events: Seq<DeliveryEventView>,
    i: int,
) -> DeliveryActionView {
    delivery::delivery_requested(delivery_after(d, events.take(i)))
}

/// The publication of a round.
pub open spec fn queued(events: Seq<DeliveryEventView>, h: Round) -> PublicationView {
    events[h.loaded]->Loaded_0->0
}

/// The project of a round.
pub open spec fn checkout(events: Seq<DeliveryEventView>, h: Round) -> DeliveryProjectView {
    events[h.project]->Project_0->0
}

/// The commit that the remote had for the branch at first.
pub open spec fn first_head(events: Seq<DeliveryEventView>, h: Round) -> Option<Seq<char>> {
    events[h.fetched]->Fetched_0
}

/// The commit that the remote had for the branch afterwards.
pub open spec fn second_head(events: Seq<DeliveryEventView>, h: Round) -> Option<Seq<char>> {
    events[h.refetched]->Fetched_0
}

/// The publication was looked up, and is not acknowledged yet.
pub open spec fn was_loaded(d: DeliveryOf, events: Seq<DeliveryEventView>, h: Round) -> bool {
    &&& 0 <= h.loaded < events.len()
    &&& delivery_asked(d, events, h.loaded) == DeliveryActionView::Load(d.id)
    &&& events[h.loaded] is Loaded
    &&& events[h.loaded]->Loaded_0 is Some
    &&& queued(events, h).state != "ACKNOWLEDGED"@
}

/// Then its project was looked up, and is not in conflict.
pub open spec fn was_found(d: DeliveryOf, events: Seq<DeliveryEventView>, h: Round) -> bool {
    &&& was_loaded(d, events, h)
    &&& h.loaded < h.project < events.len()
    &&& delivery_asked(d, events, h.project) == DeliveryActionView::Project(
        queued(events, h).project_id,
    )
    &&& events[h.project] is Project
    &&& events[h.project]->Project_0 is Some
    &&& checkout(events, h).state != "CONFLICTED"@
}

/// Then its branch was fetched.
#[verifier::opaque]
pub open spec fn was_fetched(d: DeliveryOf, events: Seq<DeliveryEventView>, h: Round) -> bool {
    &&& was_found(d, events, h)
    &&& h.project < h.fetched < events.len()
    &&& delivery_asked(d, events, h.fetched) == DeliveryActionView::Fetch(
        checkout(events, h).local_path,
        checkout(events, h).remote_name,
        queued(events, h).branch,
    )
    &&& events[h.fetched] is Fetched
}

/// Then Git was asked whether the commit to publish is an ancestor of the one that was fetched.
pub open spec fn was_sought(d: DeliveryOf, events: Seq<DeliveryEventView>, h: Round) -> bool {
    &&& was_fetched(d, events, h)
    &&& first_head(events, h) is Some
    &&& h.fetched < h.reached < events.len()
    &&& delivery_asked(d, events, h.reached) == DeliveryActionView::Git(
        process::may_fail(
            checkout(events, h).local_path,
            seq![
                "merge-base"@,
                "--is-ancestor"@,
                queued(events, h).candidate_commit_oid,
                first_head(events, h)->0,
            ],
        ),
    )
    &&& events[h.reached] is Ran || events[h.reached] is Failed
}

/// Git said that it is.
#[verifier::opaque]
pub open spec fn was_there(d: DeliveryOf, events: Seq<DeliveryEventView>, h: Round) -> bool {
    was_sought(d, events, h) && events[h.reached] is Ran && events[h.reached]->Ran_0.code == 0
}

/// The remote does not have the branch, or Git did not say that it is.
#[verifier::opaque]
pub open spec fn was_missing(d: DeliveryOf, events: Seq<DeliveryEventView>, h: Round) -> bool {
    ||| was_fetched(d, events, h) && first_head(events, h) is None
    ||| was_sought(d, events, h) && (events[h.reached] is Failed
        || events[h.reached]->Ran_0.code != 0)
}

/// Then the branch on the remote was as expected, and the validations of the project passed on the
/// commit to publish.
pub open spec fn was_valid(d: DeliveryOf, events: Seq<DeliveryEventView>, h: Round) -> bool {
    &&& was_missing(d, events, h)
    &&& first_head(events, h) == queued(events, h).expected_remote_oid
    &&& h.fetched < h.validated < events.len()
    &&& delivery_asked(d, events, h.validated) == DeliveryActionView::Validate(
        checkout(events, h).local_path,
        queued(events, h).candidate_commit_oid,
    )
    &&& events[h.validated] is Did
}

/// The plain push of a commit to a branch, with the token of the delivery.
pub open spec fn push_order(d: DeliveryOf, events: Seq<DeliveryEventView>, h: Round) -> GitCallView {
    GitCallView {
        args: seq![
            "push"@,
            checkout(events, h).remote_name,
            queued(events, h).candidate_commit_oid + ":refs/heads/"@ + queued(events, h).branch,
        ],
        options: (RunOptionsView {
            cwd: Some(checkout(events, h).local_path),
            env: match d.token {
                None => Seq::empty(),
                Some(token) => seq![
                    ("GIT_CONFIG_COUNT"@, "1"@),
                    ("GIT_CONFIG_KEY_0"@, "http.extraHeader"@),
                    (
                        "GIT_CONFIG_VALUE_0"@,
                        "Authorization: Basic "@ + digest::base64_text(
                            vstd::utf8::encode_utf8("resync:"@ + token),
                        ),
                    ),
                ],
            },
            input: None,
            allow_failure: true,
        }),
    }
}

/// Then it was pushed.
pub open spec fn push_tried(d: DeliveryOf, events: Seq<DeliveryEventView>, h: Round) -> bool {
    &&& was_valid(d, events, h)
    &&& h.validated < h.pushed < events.len()
    &&& delivery_asked(d, events, h.pushed) == DeliveryActionView::Git(push_order(d, events, h))
    &&& events[h.pushed] is Ran
}

/// The remote took it.
pub open spec fn was_pushed(d: DeliveryOf, events: Seq<DeliveryEventView>, h: Round) -> bool {
    push_tried(d, events, h) && events[h.pushed]->Ran_0.code == 0
}

/// The remote was seen to hold the commit, or took it.
#[verifier::opaque]
pub open spec fn was_delivered(d: DeliveryOf, events: Seq<DeliveryEventView>, h: Round) -> bool {
    was_there(d, events, h) || was_pushed(d, events, h)
}

/// Then the branch was fetched again.
pub open spec fn was_refetched(d: DeliveryOf, events: Seq<DeliveryEventView>, h: Round) -> bool {
    &&& was_delivered(d, events, h)
    &&& h.fetched < h.refetched < events.len()
    &&& was_there(d, events, h) || h.pushed < h.refetched
    &&& delivery_asked(d, events, h.refetched) == DeliveryActionView::Fetch(
        checkout(events, h).local_path,
        checkout(events, h).remote_name,
        queued(events, h).branch,
    )
    &&& events[h.refetched] is Fetched
}

/// Then Git was asked whether the commit is an ancestor of the one that was fetched now.
pub open spec fn was_sought_again(d: DeliveryOf, events: Seq<DeliveryEventView>, h: Round) -> bool {
    &&& was_refetched(d, events, h)
    &&& second_head(events, h) is Some
    &&& h.refetched < h.confirmed < events.len()
    &&& delivery_asked(d, events, h.confirmed) == DeliveryActionView::Git(
        process::may_fail(
            checkout(events, h).local_path,
            seq![
                "merge-base"@,
                "--is-ancestor"@,
                queued(events, h).candidate_commit_oid,
                second_head(events, h)->0,
            ],
        ),
    )
    &&& events[h.confirmed] is Ran
}

/// Git said that it is.
#[verifier::opaque]
pub open spec fn was_held(d: DeliveryOf, events: Seq<DeliveryEventView>, h: Round) -> bool {
    was_sought_again(d, events, h) && events[h.confirmed]->Ran_0.code == 0
}

/// Then the clock was read.
#[verifier::opaque]
pub open spec fn was_stamped(d: DeliveryOf, events: Seq<DeliveryEventView>, h: Round) -> bool {
    &&& was_held(d, events, h)
    &&& h.confirmed < h.stamped < events.len()
    &&& delivery_asked(d, events, h.stamped) == DeliveryActionView::Clock
    &&& events[h.stamped] is Clock
}

/// The publication, with the time of the attempt.
pub open spec fn stamped_publication(
    events: Seq<DeliveryEventView>,
    h: Round,
) -> PublicationView {
    PublicationView { last_attempt_at: Some(events[h.stamped]->Clock_0), ..queued(events, h) }
}

/// Then the provider of the project was asked to acknowledge, and replied.
#[verifier::opaque]
pub open spec fn was_replied(d: DeliveryOf, events: Seq<DeliveryEventView>, h: Round) -> bool {
    &&& was_stamped(d, events, h)
    &&& checkout(events, h).service is Some
    &&& d.token is Some
    &&& h.stamped < h.replied < events.len()
    &&& delivery_asked(d, events, h.replied) == DeliveryActionView::Acknowledge(
        checkout(events, h).service->0,
        d.token->0,
        stamped_publication(events, h),
    )
    &&& events[h.replied] is Replied
}

/// What a publication is completed with: the acknowledgement that the provider replied with, which
/// is about this very attempt; or, where there is no provider or no token, what was seen of the
/// remote.
pub open spec fn acknowledged_with(
    d: DeliveryOf,
    events: Seq<DeliveryEventView>,
    h: Round,
    ack: PublicationAckView,
) -> bool {
    let p = queued(events, h);
    ||| {
        &&& was_stamped(d, events, h)
        &&& checkout(events, h).service is None || d.token is None
        &&& ack == (PublicationAckView {
            publication_id: p.publication_id,
            attempt: p.attempt,
            project_id: p.project_id,
            branch: p.branch,
            accepted_oid: p.candidate_commit_oid,
            remote_head: second_head(events, h)->0,
            project_generation: checkout(events, h).server_generation,
            durable: true,
        })
    }
    ||| {
        &&& was_replied(d, events, h)
        &&& 200 <= events[h.replied]->Replied_0 < 300
        &&& publication::parsed_ack(events[h.replied]->Replied_1) == Some(ack)
        &&& ack.durable
        &&& ack.publication_id == p.publication_id
        &&& ack.attempt == p.attempt
        &&& ack.project_id == p.project_id
        &&& ack.branch == p.branch
        &&& ack.accepted_oid == p.candidate_commit_oid
    }
}

/// Where the remote holds another commit than was expected, and not the one to publish, the branch
/// of the worktree was asked for.
pub open spec fn was_active(d: DeliveryOf, events: Seq<DeliveryEventView>, h: Round) -> bool {
    &&& was_missing(d, events, h)
    &&& first_head(events, h) != queued(events, h).expected_remote_oid
    &&& h.fetched < h.branch < events.len()
    &&& delivery_asked(d, events, h.branch) == DeliveryActionView::Branch(
        checkout(events, h).local_path,
    )
    &&& events[h.branch] is Branch
}

/// Then, if it is the branch of the publication, the project was brought to the remote.
#[verifier::opaque]
pub open spec fn was_converged(d: DeliveryOf, events: Seq<DeliveryEventView>, h: Round) -> bool {
    &&& was_active(d, events, h)
    &&& events[h.branch]->Branch_0 == Some(queued(events, h).branch)
    &&& h.branch < h.converged < events.len()
    &&& delivery_asked(d, events, h.converged) == DeliveryActionView::Converge(
        queued(events, h).project_id,
        queued(events, h).branch,
        first_head(events, h),
    )
    &&& events[h.converged] is Converged
}

/// Then Git named the new local commit.
pub open spec fn was_renamed(d: DeliveryOf, events: Seq<DeliveryEventView>, h: Round) -> bool {
    &&& was_converged(d, events, h)
    &&& events[h.converged]->Converged_0 != "conflict"@
    &&& h.converged < h.head < events.len()
    &&& delivery_asked(d, events, h.head) == DeliveryActionView::Git(
        process::must_run(checkout(events, h).local_path, seq!["rev-parse"@, "HEAD"@]),
    )
    &&& events[h.head] is Ran
}

/// Then the projects were stored.
pub open spec fn was_kept(d: DeliveryOf, events: Seq<DeliveryEventView>, h: Round) -> bool {
    &&& was_renamed(d, events, h)
    &&& h.head < h.kept < events.len()
    &&& delivery_asked(d, events, h.kept) == DeliveryActionView::Persist
    &&& events[h.kept] is Did
}

/// How often the publication was changed in the queue.
pub open spec fn requeues(d: DeliveryOf, events: Seq<DeliveryEventView>) -> int
    decreases events.len(),
{
    if events.len() == 0 {
        0
    } else {
        requeues(d, events.drop_last()) + if delivery::delivery_requested(
            delivery_after(d, events.drop_last()),
        ) is Requeue && events.last() is Did {
            1int
        } else {
            0int
        }
    }
}

/// What a reply means that does not acknowledge this very attempt.
pub open spec fn refusal_of(p: PublicationView, status: u16, body: Json) -> Seq<char> {
    if 200 <= status < 300 {
        "provider returned an invalid durability ACK"@
    } else if status == 409 && json::text_field(body, "outcome"@) == Some("REMOTE_ADVANCED"@) {
        "provider reported REMOTE_ADVANCED at "@ + (match json::text_field(body, "remote_head"@) {
            Some(head) => "Some("@ + text::quoted_text(head) + ")"@,
            None => "None"@,
        }) + (" (generation "@ + text::decimal(
            match json::number_field(body, "project_generation"@) {
                Some(n) => n,
                None => 0,
            },
        ) + ")"@)
    } else {
        match json::text_field(body, "error"@) {
            Some(words) => words,
            None => "provider rejected publication"@,
        }
    }
}

/// The delivery is over: the publication turned out to be acknowledged already, or it was completed
/// with its acknowledgement.
pub open spec fn delivery_over(d: DeliveryOf, events: Seq<DeliveryEventView>, h: Round) -> bool {
    ||| {
        &&& 0 <= h.loaded < events.len()
        &&& delivery_asked(d, events, h.loaded) == DeliveryActionView::Load(d.id)
        &&& events[h.loaded] is Loaded
        &&& events[h.loaded]->Loaded_0 is Some
        &&& queued(events, h).state == "ACKNOWLEDGED"@
    }
    ||| {
        &&& h.stamped < h.completed < events.len()
        &&& delivery_asked(d, events, h.completed) is Complete
        &&& delivery_asked(d, events, h.completed)->Complete_0 == stamped_publication(events, h)
        &&& acknowledged_with(
            d,
            events,
            h,
            delivery_asked(d, events, h.completed)->Complete_1,
        )
        &&& events[h.completed] is Did
    }
}

/// Why a delivery ended in an error.
pub open spec fn delivery_fault(
    d: DeliveryOf,
    events: Seq<DeliveryEventView>,
    h: Round,
    message: Seq<char>,
) -> bool {
    let i = h.fault;
    &&& 0 <= i < events.len()
    &&& {
        ||| events[i] == DeliveryEventView::Failed(message)
        ||| {
            &&& delivery_asked(d, events, i) == DeliveryActionView::Load(d.id)
            &&& events[i] == DeliveryEventView::Loaded(None)
            &&& message == "publication disappeared from queue"@
        }
        ||| {
            &&& was_loaded(d, events, h)
            &&& delivery_asked(d, events, i) == DeliveryActionView::Project(
                queued(events, h).project_id,
            )
            &&& events[i] == DeliveryEventView::Project(None)
            &&& message == "unknown subscribed project "@ + queued(events, h).project_id
        }
        ||| {
            &&& was_loaded(d, events, h)
            &&& delivery_asked(d, events, i) == DeliveryActionView::Project(
                queued(events, h).project_id,
            )
            &&& events[i] is Project
            &&& events[i]->Project_0 is Some
            &&& events[i]->Project_0->0.state == "CONFLICTED"@
            &&& message
                == "publication is paused until `resync project sync` completes reconciliation"@
        }
        ||| {
            &&& was_active(d, events, h)
            &&& i == h.branch
            &&& events[i]->Branch_0 != Some(queued(events, h).branch)
            &&& message == "remote branch "@ + queued(events, h).branch
                + " advanced while it is inactive; publication remains queued"@
        }
        ||| {
            &&& was_converged(d, events, h)
            &&& events[h.converged]->Converged_0 == "conflict"@
            &&& h.converged < i
            &&& delivery_asked(d, events, i) == DeliveryActionView::Persist
            &&& events[i] is Did
            &&& message == "publication is blocked by a reconciliation conflict"@
        }
        ||| {
            &&& was_kept(d, events, h)
            &&& events[i] is Did
            &&& requeues(d, events) == 5
            &&& message == "publication lost the remote race five times"@
        }
        ||| {
            &&& push_tried(d, events, h)
            &&& i == h.pushed
            &&& events[i]->Ran_0.code != 0
            &&& message == text::trim(events[i]->Ran_0.stderr)
        }
        ||| {
            &&& was_refetched(d, events, h)
            &&& i == h.refetched
            &&& second_head(events, h) is None
            &&& message == "hosted branch is missing after publication"@
        }
        ||| {
            &&& was_sought_again(d, events, h)
            &&& i == h.confirmed
            &&& events[i]->Ran_0.code != 0
            &&& message == "published candidate is not reachable from the hosted branch"@
        }
        ||| {
            &&& was_replied(d, events, h)
            &&& i == h.replied
            &&& message == refusal_of(
                queued(events, h),
                events[i]->Replied_0,
                events[i]->Replied_1,
            )
        }
    }
}

proof fn lemma_delivery_asked(d: DeliveryOf, events: Seq<DeliveryEventView>, i: int)
    requires
        0 <= i < events.len() - 1,
    ensures
        delivery_asked(d, events.drop_last(), i) == delivery_asked(d, events, i),
        events.drop_last()[i] == events[i],
{
    reveal(delivery_asked);
    assert(events.drop_last().take(i) =~= events.take(i));
}

/// What a delivery knows at its stage is what its round was told.
#[verifier::opaque]
spec fn told_at(
    d: DeliveryOf,
    events: Seq<DeliveryEventView>,
    h: Round,
    s: DeliveryView,
) -> bool {
    let seen = s.publication == queued(events, h) && s.project == checkout(events, h);
    &&& s.publication_id == d.id
    &&& s.token == d.token
    &&& s.stage !is Finished ==> s.failure is None
    &&& match s.stage {
        DeliveryStage::Load => true,
        DeliveryStage::Project => was_loaded(d, events, h) && s.publication == queued(events, h),
        DeliveryStage::Fetch => was_found(d, events, h) && seen,
        DeliveryStage::Reachable => was_fetched(d, events, h) && seen && s.remote_head
            == first_head(events, h) && s.remote_head is Some,
        DeliveryStage::Branch => was_missing(d, events, h) && seen && s.remote_head == first_head(
            events,
            h,
        ) && s.remote_head != s.publication.expected_remote_oid,
        DeliveryStage::Converge => was_active(d, events, h) && seen && s.remote_head
            == first_head(events, h) && events[h.branch]->Branch_0 == Some(s.publication.branch),
        DeliveryStage::Blocked => was_converged(d, events, h) && seen
            && events[h.converged]->Converged_0 == "conflict"@,
        DeliveryStage::Head => was_converged(d, events, h) && seen && s.remote_head
            == first_head(events, h) && events[h.converged]->Converged_0 != "conflict"@,
        DeliveryStage::Keep => was_renamed(d, events, h) && seen && s.remote_head == first_head(
            events,
            h,
        ) && s.candidate == text::trim(events[h.head]->Ran_0.stdout),
        DeliveryStage::Requeue => was_kept(d, events, h) && seen && s.remote_head == first_head(
            events,
            h,
        ) && s.candidate == text::trim(events[h.head]->Ran_0.stdout),
        DeliveryStage::Validate => was_missing(d, events, h) && seen && s.remote_head
            == first_head(events, h) && s.remote_head == s.publication.expected_remote_oid,
        DeliveryStage::Push => was_valid(d, events, h) && seen,
        DeliveryStage::Confirm => was_delivered(d, events, h) && seen,
        DeliveryStage::Confirmed => was_refetched(d, events, h) && seen && s.remote_head
            == second_head(events, h) && s.remote_head is Some,
        DeliveryStage::Stamp => was_held(d, events, h) && seen && s.remote_head == second_head(
            events,
            h,
        ),
        DeliveryStage::Acknowledge => was_stamped(d, events, h) && s.publication
            == stamped_publication(events, h) && s.project == checkout(events, h)
            && s.project.service is Some && s.token is Some,
        DeliveryStage::Complete => s.ack is Some && acknowledged_with(d, events, h, s.ack->0)
            && s.publication == stamped_publication(events, h),
        DeliveryStage::Finished => match s.failure {
            Some(message) => delivery_fault(d, events, h, message),
            None => delivery_over(d, events, h),
        },
    }
}

/// A delivery counts how often the publication was changed in the queue.
#[verifier::opaque]
spec fn counted(d: DeliveryOf, events: Seq<DeliveryEventView>, s: DeliveryView) -> bool {
    s.stage !is Finished ==> s.lost == requeues(d, events) && s.lost < 5
}

proof fn lemma_told_before(
    d: DeliveryOf,
    events: Seq<DeliveryEventView>,
    h: Round,
    s: DeliveryView,
)
    requires
        events.len() > 0,
        s == delivery_after(d, events.drop_last()),
        told_at(d, events.drop_last(), h, s),
    ensures
        told_at(d, events, h, s),
        answered_before(h, s, events.len() - 1),
        s.stage is Confirm ==> was_there(d, events, h) || h.pushed < events.len() - 1,
{
    reveal(told_at);
    reveal(was_fetched);
    reveal(was_there);
    reveal(was_missing);
    reveal(was_delivered);
    reveal(was_held);
    reveal(was_stamped);
    reveal(was_converged);
    reveal(was_replied);
    let before = events.drop_last();
    assert forall|i: int| 0 <= i < before.len() implies #[trigger] delivery_asked(d, before, i)
        == delivery_asked(d, events, i) && before[i] == events[i] by {
        lemma_delivery_asked(d, events, i);
    }
}

/// Where the question that is answered last stands in a round.
spec fn round_noticed(h: Round, s: DeliveryView, last: int) -> Round {
    let h = if s.stage is Finished {
        h
    } else {
        Round { fault: last, ..h }
    };
    match s.stage {
        DeliveryStage::Load => Round { loaded: last, ..h },
        DeliveryStage::Project => Round { project: last, ..h },
        DeliveryStage::Fetch => Round { fetched: last, ..h },
        DeliveryStage::Reachable => Round { reached: last, ..h },
        DeliveryStage::Branch => Round { branch: last, ..h },
        DeliveryStage::Converge => Round { converged: last, ..h },
        DeliveryStage::Head => Round { head: last, ..h },
        DeliveryStage::Keep => Round { kept: last, ..h },
        DeliveryStage::Validate => Round { validated: last, ..h },
        DeliveryStage::Push => Round { pushed: last, ..h },
        DeliveryStage::Confirm => Round { refetched: last, ..h },
        DeliveryStage::Confirmed => Round { confirmed: last, ..h },
        DeliveryStage::Stamp => Round { stamped: last, ..h },
        DeliveryStage::Acknowledge => Round { replied: last, ..h },
        DeliveryStage::Complete => Round { completed: last, ..h },
        _ => h,
    }
}

/// The last question that was answered before a stage.
spec fn answered_before(h: Round, s: DeliveryView, last: int) -> bool {
    match s.stage {
        DeliveryStage::Project => h.loaded < last,
        DeliveryStage::Fetch => h.project < last,
        DeliveryStage::Reachable => h.fetched < last,
        DeliveryStage::Branch => h.fetched < last,
        DeliveryStage::Converge => h.branch < last,
        DeliveryStage::Blocked => h.converged < last,
        DeliveryStage::Head => h.converged < last,
        DeliveryStage::Keep => h.head < last,
        DeliveryStage::Validate => h.fetched < last,
        DeliveryStage::Push => h.validated < last,
        DeliveryStage::Confirm => h.fetched < last,
        DeliveryStage::Confirmed => h.refetched < last,
        DeliveryStage::Stamp => h.confirmed < last,
        DeliveryStage::Acknowledge => h.stamped < last,
        DeliveryStage::Complete => h.stamped < last,
        _ => true,
    }
}

/// A delivery before its next step.
#[verifier::opaque]
spec fn about_to(
    d: DeliveryOf,
    events: Seq<DeliveryEventView>,
    h: Round,
    was: DeliveryView,
) -> bool {
    &&& events.len() > 0
    &&& was == delivery_after(d, events.drop_last())
    &&& told_at(d, events, h, was)
    &&& answered_before(h, was, events.len() - 1)
    &&& was.stage is Confirm ==> was_there(d, events, h) || h.pushed < events.len() - 1
    &&& counted(d, events.drop_last(), was)
    &&& delivery_asked(d, events, events.len() - 1) == delivery::delivery_requested(was)
    &&& delivery_after(d, events) == delivery::delivered(was, events[events.len() - 1])
}

/// What a round was told does not depend on what it is told later.
proof fn lemma_same_start(d: DeliveryOf, events: Seq<DeliveryEventView>, h: Round, r: Round)
    requires
        h.loaded == r.loaded,
        h.project == r.project,
        h.fetched == r.fetched,
        h.reached == r.reached,
    ensures
        was_fetched(d, events, h) == was_fetched(d, events, r),
        was_there(d, events, h) == was_there(d, events, r),
        was_missing(d, events, h) == was_missing(d, events, r),
{
    reveal(was_fetched);
    reveal(was_there);
    reveal(was_missing);
}

proof fn lemma_same_delivery(d: DeliveryOf, events: Seq<DeliveryEventView>, h: Round, r: Round)
    requires
        h.loaded == r.loaded,
        h.project == r.project,
        h.fetched == r.fetched,
        h.reached == r.reached,
        h.validated == r.validated,
        h.pushed == r.pushed,
    ensures
        was_delivered(d, events, h) == was_delivered(d, events, r),
{
    lemma_same_start(d, events, h, r);
    reveal(was_delivered);
}

proof fn lemma_same_end(d: DeliveryOf, events: Seq<DeliveryEventView>, h: Round, r: Round)
    requires
        h.loaded == r.loaded,
        h.project == r.project,
        h.fetched == r.fetched,
        h.reached == r.reached,
        h.validated == r.validated,
        h.pushed == r.pushed,
        h.refetched == r.refetched,
        h.confirmed == r.confirmed,
    ensures
        was_held(d, events, h) == was_held(d, events, r),
        h.stamped == r.stamped ==> was_stamped(d, events, h) == was_stamped(d, events, r),
        h.stamped == r.stamped && h.replied == r.replied ==> was_replied(d, events, h)
            == was_replied(d, events, r),
{
    lemma_same_start(d, events, h, r);
    lemma_same_delivery(d, events, h, r);
    reveal(was_held);
    reveal(was_stamped);
    reveal(was_replied);
}

proof fn lemma_same_move(d: DeliveryOf, events: Seq<DeliveryEventView>, h: Round, r: Round)
    requires
        h.loaded == r.loaded,
        h.project == r.project,
        h.fetched == r.fetched,
        h.reached == r.reached,
        h.branch == r.branch,
        h.converged == r.converged,
    ensures
        was_converged(d, events, h) == was_converged(d, events, r),
{
    lemma_same_start(d, events, h, r);
    reveal(was_converged);
}

proof fn lemma_lookup_step(
    d: DeliveryOf,
    events: Seq<DeliveryEventView>,
    h: Round,
    was: DeliveryView,
)
    requires
        about_to(d, events, h, was),
        was.stage is Load || was.stage is Project,
    ensures
        told_at(d, events, round_noticed(h, was, events.len() - 1), delivery_after(d, events)),
{
    reveal(about_to);
    reveal(told_at);
    reveal(delivery::delivered);
}

proof fn lemma_fetch_step(
    d: DeliveryOf,
    events: Seq<DeliveryEventView>,
    h: Round,
    was: DeliveryView,
)
    requires
        about_to(d, events, h, was),
        was.stage is Fetch,
    ensures
        told_at(d, events, round_noticed(h, was, events.len() - 1), delivery_after(d, events)),
{
    reveal(about_to);
    reveal(told_at);
    reveal(was_fetched);
    reveal(was_missing);
    reveal(delivery::delivered);
}

proof fn lemma_reach_step(
    d: DeliveryOf,
    events: Seq<DeliveryEventView>,
    h: Round,
    was: DeliveryView,
)
    requires
        about_to(d, events, h, was),
        was.stage is Reachable,
    ensures
        told_at(d, events, round_noticed(h, was, events.len() - 1), delivery_after(d, events)),
{
    reveal(about_to);
    reveal(told_at);
    reveal(was_fetched);
    reveal(was_there);
    reveal(was_missing);
    reveal(was_delivered);
    reveal(delivery::delivered);
}

proof fn lemma_branch_step(
    d: DeliveryOf,
    events: Seq<DeliveryEventView>,
    h: Round,
    was: DeliveryView,
)
    requires
        about_to(d, events, h, was),
        was.stage is Branch,
    ensures
        told_at(d, events, round_noticed(h, was, events.len() - 1), delivery_after(d, events)),
{
    reveal(about_to);
    reveal(told_at);
    let r = round_noticed(h, was, events.len() - 1);
    lemma_same_start(d, events, h, r);
    reveal(delivery::delivered);
}

proof fn lemma_converge_step(
    d: DeliveryOf,
    events: Seq<DeliveryEventView>,
    h: Round,
    was: DeliveryView,
)
    requires
        about_to(d, events, h, was),
        was.stage is Converge,
    ensures
        told_at(d, events, round_noticed(h, was, events.len() - 1), delivery_after(d, events)),
{
    reveal(about_to);
    reveal(told_at);
    let r = round_noticed(h, was, events.len() - 1);
    lemma_same_start(d, events, h, r);
    reveal(was_converged);
    reveal(delivery::delivered);
}

proof fn lemma_block_step(
    d: DeliveryOf,
    events: Seq<DeliveryEventView>,
    h: Round,
    was: DeliveryView,
)
    requires
        about_to(d, events, h, was),
        was.stage is Blocked,
    ensures
        told_at(d, events, round_noticed(h, was, events.len() - 1), delivery_after(d, events)),
{
    reveal(about_to);
    reveal(told_at);
    let r = round_noticed(h, was, events.len() - 1);
    lemma_same_move(d, events, h, r);
    reveal(delivery::delivered);
}

proof fn lemma_head_step(
    d: DeliveryOf,
    events: Seq<DeliveryEventView>,
    h: Round,
    was: DeliveryView,
)
    requires
        about_to(d, events, h, was),
        was.stage is Head,
    ensures
        told_at(d, events, round_noticed(h, was, events.len() - 1), delivery_after(d, events)),
{
    reveal(about_to);
    reveal(told_at);
    let r = round_noticed(h, was, events.len() - 1);
    lemma_same_move(d, events, h, r);
    reveal(delivery::delivered);
}

proof fn lemma_keep_step(
    d: DeliveryOf,
    events: Seq<DeliveryEventView>,
    h: Round,
    was: DeliveryView,
)
    requires
        about_to(d, events, h, was),
        was.stage is Keep,
    ensures
        told_at(d, events, round_noticed(h, was, events.len() - 1), delivery_after(d, events)),
{
    reveal(about_to);
    reveal(told_at);
    let r = round_noticed(h, was, events.len() - 1);
    lemma_same_move(d, events, h, r);
    reveal(delivery::delivered);
}

proof fn lemma_requeue_step(
    d: DeliveryOf,
    events: Seq<DeliveryEventView>,
    h: Round,
    was: DeliveryView,
)
    requires
        about_to(d, events, h, was),
        was.stage is Requeue,
    ensures
        told_at(d, events, round_noticed(h, was, events.len() - 1), delivery_after(d, events)),
{
    reveal(about_to);
    reveal(told_at);
    reveal(counted);
    let r = round_noticed(h, was, events.len() - 1);
    lemma_same_move(d, events, h, r);
    reveal(delivery::delivered);
}

proof fn lemma_validate_step(
    d: DeliveryOf,
    events: Seq<DeliveryEventView>,
    h: Round,
    was: DeliveryView,
)
    requires
        about_to(d, events, h, was),
        was.stage is Validate,
    ensures
        told_at(d, events, round_noticed(h, was, events.len() - 1), delivery_after(d, events)),
{
    reveal(about_to);
    reveal(told_at);
    let r = round_noticed(h, was, events.len() - 1);
    lemma_same_start(d, events, h, r);
    reveal(delivery::delivered);
}

proof fn lemma_push_step(
    d: DeliveryOf,
    events: Seq<DeliveryEventView>,
    h: Round,
    was: DeliveryView,
)
    requires
        about_to(d, events, h, was),
        was.stage is Push,
    ensures
        told_at(d, events, round_noticed(h, was, events.len() - 1), delivery_after(d, events)),
{
    reveal(about_to);
    reveal(told_at);
    let r = round_noticed(h, was, events.len() - 1);
    lemma_same_start(d, events, h, r);
    reveal(was_delivered);
    reveal(delivery::delivered);
}

proof fn lemma_confirm_step(
    d: DeliveryOf,
    events: Seq<DeliveryEventView>,
    h: Round,
    was: DeliveryView,
)
    requires
        about_to(d, events, h, was),
        was.stage is Confirm,
    ensures
        told_at(d, events, round_noticed(h, was, events.len() - 1), delivery_after(d, events)),
{
    reveal(about_to);
    reveal(told_at);
    let r = round_noticed(h, was, events.len() - 1);
    lemma_same_start(d, events, h, r);
    lemma_same_delivery(d, events, h, r);
    reveal(delivery::delivered);
}

proof fn lemma_confirmed_step(
    d: DeliveryOf,
    events: Seq<DeliveryEventView>,
    h: Round,
    was: DeliveryView,
)
    requires
        about_to(d, events, h, was),
        was.stage is Confirmed,
    ensures
        told_at(d, events, round_noticed(h, was, events.len() - 1), delivery_after(d, events)),
{
    reveal(about_to);
    reveal(told_at);
    let r = round_noticed(h, was, events.len() - 1);
    lemma_same_start(d, events, h, r);
    lemma_same_delivery(d, events, h, r);
    reveal(was_held);
    reveal(delivery::delivered);
}

proof fn lemma_stamp_step(
    d: DeliveryOf,
    events: Seq<DeliveryEventView>,
    h: Round,
    was: DeliveryView,
)
    requires
        about_to(d, events, h, was),
        was.stage is Stamp,
    ensures
        told_at(d, events, round_noticed(h, was, events.len() - 1), delivery_after(d, events)),
{
    reveal(about_to);
    reveal(told_at);
    let r = round_noticed(h, was, events.len() - 1);
    lemma_same_end(d, events, h, r);
    reveal(was_stamped);
    reveal(was_held);
    reveal(delivery::delivered);
}

proof fn lemma_reply_step(
    d: DeliveryOf,
    events: Seq<DeliveryEventView>,
    h: Round,
    was: DeliveryView,
)
    requires
        about_to(d, events, h, was),
        was.stage is Acknowledge,
    ensures
        told_at(d, events, round_noticed(h, was, events.len() - 1), delivery_after(d, events)),
{
    reveal(about_to);
    reveal(told_at);
    let r = round_noticed(h, was, events.len() - 1);
    lemma_same_end(d, events, h, r);
    reveal(was_replied);
    reveal(delivery::delivered);
}

proof fn lemma_complete_step(
    d: DeliveryOf,
    events: Seq<DeliveryEventView>,
    h: Round,
    was: DeliveryView,
)
    requires
        about_to(d, events, h, was),
        was.stage is Complete,
    ensures
        told_at(d, events, round_noticed(h, was, events.len() - 1), delivery_after(d, events)),
{
    reveal(about_to);
    reveal(told_at);
    let r = round_noticed(h, was, events.len() - 1);
    lemma_same_end(d, events, h, r);
    reveal(delivery::delivered);
}

proof fn lemma_over_step(
    d: DeliveryOf,
    events: Seq<DeliveryEventView>,
    h: Round,
    was: DeliveryView,
)
    requires
        about_to(d, events, h, was),
        was.stage is Finished,
    ensures
        told_at(d, events, round_noticed(h, was, events.len() - 1), delivery_after(d, events)),
{
    reveal(about_to);
    reveal(told_at);
    reveal(delivery::delivered);
}

proof fn lemma_round(d: DeliveryOf, events: Seq<DeliveryEventView>) -> (h: Round)
    ensures
        told_at(d, events, h, delivery_after(d, events)),
        counted(d, events, delivery_after(d, events)),
    decreases events.len(),
{
    if events.len() == 0 {
        reveal(told_at);
        reveal(counted);
        arbitrary()
    } else {
        let before = events.drop_last();
        let was = delivery_after(d, before);
        let last = events.len() - 1;
        let h = lemma_round(d, before);
        lemma_told_before(d, events, h, was);
        assert(events.take(last) =~= before);
        assert(delivery_asked(d, events, last) == delivery::delivery_requested(was)) by {
            reveal(delivery_asked);
        }
        assert(about_to(d, events, h, was)) by {
            reveal(about_to);
        }
        assert(counted(d, events, delivery_after(d, events))) by {
            reveal(delivery::delivered);
            reveal(counted);
            reveal(told_at);
        }
        match was.stage {
            DeliveryStage::Load => lemma_lookup_step(d, events, h, was),
            DeliveryStage::Project => lemma_lookup_step(d, events, h, was),
            DeliveryStage::Fetch => lemma_fetch_step(d, events, h, was),
            DeliveryStage::Reachable => lemma_reach_step(d, events, h, was),
            DeliveryStage::Branch => lemma_branch_step(d, events, h, was),
            DeliveryStage::Converge => lemma_converge_step(d, events, h, was),
            DeliveryStage::Blocked => lemma_block_step(d, events, h, was),
            DeliveryStage::Head => lemma_head_step(d, events, h, was),
            DeliveryStage::Keep => lemma_keep_step(d, events, h, was),
            DeliveryStage::Requeue => lemma_requeue_step(d, events, h, was),
            DeliveryStage::Validate => lemma_validate_step(d, events, h, was),
            DeliveryStage::Push => lemma_push_step(d, events, h, was),
            DeliveryStage::Confirm => lemma_confirm_step(d, events, h, was),
            DeliveryStage::Confirmed => lemma_confirmed_step(d, events, h, was),
            DeliveryStage::Stamp => lemma_stamp_step(d, events, h, was),
            DeliveryStage::Acknowledge => lemma_reply_step(d, events, h, was),
            DeliveryStage::Complete => lemma_complete_step(d, events, h, was),
            DeliveryStage::Finished => lemma_over_step(d, events, h, was),
        }
        round_noticed(h, was, last)
    }
}

/// A publication is completed only after Git was asked whether its commit is an ancestor of the
/// commit last fetched of its branch, and said that it is; and only after the remote was seen to
/// hold it, or took a push of it that followed a validation. It is completed with an
/// acknowledgement of this very attempt.
pub proof fn law_completion_is_earned(d: DeliveryOf, events: Seq<DeliveryEventView>)
    requires
        delivery::delivery_requested(delivery_after(d, events)) is Complete,
    ensures
        exists|h: Round|
            #[trigger] acknowledged_with(
                d,
                events,
                h,
                delivery::delivery_requested(delivery_after(d, events))->Complete_1,
            ) && delivery::delivery_requested(delivery_after(d, events))->Complete_0
                == stamped_publication(events, h),
{
    reveal(told_at);
    let h = lemma_round(d, events);
    let s = delivery_after(d, events);
    assert(s.stage is Complete);
    assert(acknowledged_with(d, events, h, delivery::delivery_requested(s)->Complete_1));
}

/// A commit is pushed only where Git did not say that the remote holds it, where the branch on the
/// remote is at the expected commit, and where the validations of the project passed on it. The
/// push is a plain one, of that commit to that branch.
pub proof fn law_push_is_due(d: DeliveryOf, events: Seq<DeliveryEventView>)
    requires
        delivery::delivery_requested(delivery_after(d, events)) is Git,
        delivery::delivery_requested(delivery_after(d, events))->Git_0.args[0] == "push"@,
    ensures
        exists|h: Round|
            #[trigger] was_valid(d, events, h) && delivery::delivery_requested(delivery_after(d, events))
                == DeliveryActionView::Git(push_order(d, events, h)),
{
    reveal(told_at);
    let h = lemma_round(d, events);
    let s = delivery_after(d, events);
    reveal_strlit("push");
    reveal_strlit("merge-base");
    reveal_strlit("rev-parse");
    assert("push"@.len() == 4 && "merge-base"@.len() == 10 && "rev-parse"@.len() == 9);
    assert(s.stage is Push);
    assert(was_valid(d, events, h));
}

/// A publication is changed in the queue only after the branch turned out to have moved on the
/// remote, and the project was brought to it without a conflict: its commit is then the new local
/// one, and the expected commit is the one that was fetched.
pub proof fn law_requeue_follows_the_remote(d: DeliveryOf, events: Seq<DeliveryEventView>)
    requires
        delivery::delivery_requested(delivery_after(d, events)) is Requeue,
    ensures
        exists|h: Round|
            #[trigger] was_kept(d, events, h) && delivery::delivery_requested(delivery_after(d, events))
                == DeliveryActionView::Requeue(
                queued(events, h).publication_id,
                text::trim(events[h.head]->Ran_0.stdout),
                first_head(events, h),
            ),
{
    reveal(told_at);
    let h = lemma_round(d, events);
    assert(was_kept(d, events, h));
}

/// A delivery is over without an error only where the publication is acknowledged already, or was
/// completed.
pub proof fn law_delivery_ends_for_reasons(d: DeliveryOf, events: Seq<DeliveryEventView>)
    requires
        delivery::delivery_requested(delivery_after(d, events)) is Return,
    ensures
        exists|h: Round| #[trigger] delivery_over(d, events, h),
{
    reveal(told_at);
    let h = lemma_round(d, events);
    assert(delivery_over(d, events, h));
}

/// A delivery ends in an error only for the reason that it names.
pub proof fn law_delivery_fails_for_reasons(d: DeliveryOf, events: Seq<DeliveryEventView>)
    requires
        delivery::delivery_requested(delivery_after(d, events)) is Fail,
    ensures
        exists|h: Round| #[trigger]
            delivery_fault(
                d,
                events,
                h,
                delivery::delivery_requested(delivery_after(d, events))->Fail_0,
            ),
{
    reveal(told_at);
    let h = lemma_round(d, events);
    assert(delivery_fault(d, events, h, delivery::delivery_requested(delivery_after(d, events))->Fail_0));
}

/// Every answer takes a delivery to another stage.
pub proof fn law_delivery_goes_on(s: DeliveryView, e: DeliveryEventView)
    requires
        match s.stage {
            DeliveryStage::Load => e is Loaded,
            DeliveryStage::Project => e is Project,
            DeliveryStage::Fetch => e is Fetched,
            DeliveryStage::Reachable => e is Ran,
            DeliveryStage::Branch => e is Branch,
            DeliveryStage::Converge => e is Converged,
            DeliveryStage::Blocked => e is Did,
            DeliveryStage::Head => e is Ran,
            DeliveryStage::Keep => e is Did,
            DeliveryStage::Requeue => e is Did,
            DeliveryStage::Validate => e is Did,
            DeliveryStage::Push => e is Ran,
            DeliveryStage::Confirm => e is Fetched,
            DeliveryStage::Confirmed => e is Ran,
            DeliveryStage::Stamp => e is Clock,
            DeliveryStage::Acknowledge => e is Replied,
            DeliveryStage::Complete => e is Did,
            DeliveryStage::Finished => false,
        } || (s.stage !is Finished && e is Failed),
    ensures
        delivery::delivered(s, e).stage != s.stage,
{
    reveal(delivery::delivered);
}

} // verus!
