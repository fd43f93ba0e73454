//! Bringing one commit to the remote, and having it acknowledged.
use vstd::prelude::*;
use crate::json;
use crate::process;
use crate::provider;
use crate::publication;
use crate::reconcile;
use crate::remote;
use crate::text;
use crate::converge::Converge;
use crate::json::Json;
use crate::process::{git_strict, words2, words3, GitCall, GitCallView, RunResult, RunResultView};
use crate::publication::{
    acknowledge_with_provider, ProviderPublication, Publication, PublicationAck, PublicationAckView,
    PublicationError, PublicationView,
};
use crate::reconcile::is_ancestor;
use crate::remote::git_authorized;
use crate::state::{LocalProject, LocalProjectView};
use crate::text::{cat2, cat3, copy_option, decimal_text, quoted, same_option, same_text, trimmed};

verus! {

/// How often a publication is tried anew because the branch has moved on the remote.
pub const DELIVERY_ROUNDS: u64 = 5;

/// How far a delivery has come.
#[derive(Debug, Clone, Copy, PartialEq, Eq, Structural)]
pub enum DeliveryStage {
    Load,
    Project,
    Fetch,
    Reachable,
    Branch,
    Converge,
    Blocked,
    Head,
    Keep,
    Requeue,
    Validate,
    Push,
    Confirm,
    Confirmed,
    Stamp,
    Acknowledge,
    Complete,
    Finished,
}

/// What a delivery reads of a project.
#[derive(Debug, Clone, PartialEq, Eq)]
pub struct DeliveryProject {
    pub local_path: String,
    pub remote_name: String,
    pub state: String,
    pub server_generation: u64,
    pub service: Option<String>,
}

/// What a [`DeliveryProject`] holds.
pub struct DeliveryProjectView {
    pub local_path: Seq<char>,
    pub remote_name: Seq<char>,
    pub state: Seq<char>,
    pub server_generation: u64,
    pub service: Option<Seq<char>>,
}

impl View for DeliveryProject {
    type V = DeliveryProjectView;

    open spec fn view(&self) -> DeliveryProjectView {
        DeliveryProjectView {
            local_path: self.local_path@,
            remote_name: self.remote_name@,
            state: self.state@,
            server_generation: self.server_generation,
            service: text::opt_view(self.service),
        }
    }
}

impl DeliveryProject {
    /// A second value with the same contents.
    pub fn copy(&self) -> (r: Self)
        ensures
            r@ == self@,
    {
        DeliveryProject {
            local_path: self.local_path.clone(),
            remote_name: self.remote_name.clone(),
            state: self.state.clone(),
            server_generation: self.server_generation,
            service: copy_option(&self.service),
        }
    }
}

/// What a delivery reads of a project.
pub open spec fn delivery_facts(p: LocalProjectView) -> DeliveryProjectView {
    DeliveryProjectView {
        local_path: p.local_path,
        remote_name: p.remote_name,
        state: p.state,
        server_generation: p.server_generation,
        service: p.service,
    }
}

impl DeliveryProject {
    /// What a delivery reads of a project.
    pub fn of(project: &LocalProject) -> (r: Self)
        ensures
            r@ == delivery_facts(project@),
    {
        DeliveryProject {
            local_path: project.local_path.clone(),
            remote_name: project.remote_name.clone(),
            state: project.state.clone(),
            server_generation: project.server_generation,
            service: copy_option(&project.service),
        }
    }
}

/// A delivery, step by step: [`Delivery::request`] says what is to be done next, and
/// [`Delivery::advance`] takes what came of it.
#[derive(Debug, Clone, PartialEq, Eq)]
pub struct Delivery {
    pub stage: DeliveryStage,
    pub publication_id: String,
    pub token: Option<String>,
    /// The rounds that were lost.
    pub lost: u64,
    pub publication: Publication,
    pub project: DeliveryProject,
    /// The commit that the branch has on the remote.
    pub remote_head: Option<String>,
    /// The commit that is to be published instead.
    pub candidate: String,
    pub ack: Option<PublicationAck>,
    pub failure: Option<String>,
}

/// What a [`Delivery`] holds.
pub struct DeliveryView {
    pub stage: DeliveryStage,
    pub publication_id: Seq<char>,
    pub token: Option<Seq<char>>,
    pub lost: u64,
    pub publication: PublicationView,
    pub project: DeliveryProjectView,
    pub remote_head: Option<Seq<char>>,
    pub candidate: Seq<char>,
    pub ack: Option<PublicationAckView>,
    pub failure: Option<Seq<char>>,
}

impl View for Delivery {
    type V = DeliveryView;

    open spec fn view(&self) -> DeliveryView {
        DeliveryView {
            stage: self.stage,
            publication_id: self.publication_id@,
            token: text::opt_view(self.token),
            lost: self.lost,
            publication: self.publication@,
            project: self.project@,
            remote_head: text::opt_view(self.remote_head),
            candidate: self.candidate@,
            ack: match self.ack {
                Some(ack) => Some(ack@),
                None => None,
            },
            failure: text::opt_view(self.failure),
        }
    }
}

/// What a delivery asks for.
#[derive(Debug, Clone, PartialEq, Eq)]
pub enum DeliveryAction {
    /// Look the publication up in the queue.
    Load(String),
    /// Look a project up.
    Project(String),
    /// Fetch a branch: the path, the name of the remote, and the branch.
    Fetch(String, String, String),
    /// Run this command.
    Git(GitCall),
    /// Ask for the branch of the worktree at this path.
    Branch(String),
    /// Take note of the commit that a branch of a project has on the remote, and bring the project to it.
    Converge(String, String, Option<String>),
    /// Store the projects.
    Persist,
    /// Change a queued publication: its new commit, and the one that the remote is expected to have.
    Requeue(String, String, Option<String>),
    /// Run the validations of the project at this path on a commit.
    Validate(String, String),
    /// Read the clock.
    Clock,
    /// Ask the provider at this address, with this token, to acknowledge a publication.
    Acknowledge(String, String, Publication),
    /// Complete a publication with its acknowledgement.
    Complete(Publication, PublicationAck),
    /// The delivery is over.
    Return,
    /// The delivery is over with this error.
    Fail(String),
}

/// What a [`DeliveryAction`] holds.
pub enum DeliveryActionView {
    Load(Seq<char>),
    Project(Seq<char>),
    Fetch(Seq<char>, Seq<char>, Seq<char>),
    Git(GitCallView),
    Branch(Seq<char>),
    Converge(Seq<char>, Seq<char>, Option<Seq<char>>),
    Persist,
    Requeue(Seq<char>, Seq<char>, Option<Seq<char>>),
    Validate(Seq<char>, Seq<char>),
    Clock,
    Acknowledge(Seq<char>, Seq<char>, PublicationView),
    Complete(PublicationView, PublicationAckView),
    Return,
    Fail(Seq<char>),
}

impl View for DeliveryAction {
    type V = DeliveryActionView;

    open spec fn view(&self) -> DeliveryActionView {
        match *self {
            DeliveryAction::Load(a) => DeliveryActionView::Load(a@),
            DeliveryAction::Project(a) => DeliveryActionView::Project(a@),
            DeliveryAction::Fetch(a, b, c) => DeliveryActionView::Fetch(a@, b@, c@),
            DeliveryAction::Git(a) => DeliveryActionView::Git(a@),
            DeliveryAction::Branch(a) => DeliveryActionView::Branch(a@),
            DeliveryAction::Converge(a, b, c) => DeliveryActionView::Converge(a@, b@, text::opt_view(c)),
            DeliveryAction::Persist => DeliveryActionView::Persist,
            DeliveryAction::Requeue(a, b, c) => DeliveryActionView::Requeue(a@, b@, text::opt_view(c)),
            DeliveryAction::Validate(a, b) => DeliveryActionView::Validate(a@, b@),
            DeliveryAction::Clock => DeliveryActionView::Clock,
            DeliveryAction::Acknowledge(a, b, c) => DeliveryActionView::Acknowledge(a@, b@, c@),
            DeliveryAction::Complete(a, b) => DeliveryActionView::Complete(a@, b@),
            DeliveryAction::Return => DeliveryActionView::Return,
            DeliveryAction::Fail(a) => DeliveryActionView::Fail(a@),
        }
    }
}

/// What came of a step.
#[derive(Debug)]
pub enum DeliveryEvent {
    Loaded(Option<Publication>),
    Project(Option<DeliveryProject>),
    /// The commit of the branch, if the remote has it.
    Fetched(Option<String>),
    Ran(RunResult),
    Branch(Option<String>),
    /// The outcome of bringing the project to the remote.
    Converged(String),
    /// What was asked for is done.
    Did,
    Clock(String),
    /// The status and the document that the provider replied with.
    Replied(u16, Json),
    Failed(String),
}

/// What a [`DeliveryEvent`] holds.
pub enum DeliveryEventView {
    Loaded(Option<PublicationView>),
    Project(Option<DeliveryProjectView>),
    Fetched(Option<Seq<char>>),
    Ran(RunResultView),
    Branch(Option<Seq<char>>),
    Converged(Seq<char>),
    Did,
    Clock(Seq<char>),
    Replied(u16, Json),
    Failed(Seq<char>),
}

impl View for DeliveryEvent {
    type V = DeliveryEventView;

    open spec fn view(&self) -> DeliveryEventView {
        match *self {
            DeliveryEvent::Loaded(a) => DeliveryEventView::Loaded(match a {
                    Some(v) => Some(v@),
                    None => None,
                }),
            DeliveryEvent::Project(a) => DeliveryEventView::Project(match a {
                    Some(v) => Some(v@),
                    None => None,
                }),
            DeliveryEvent::Fetched(a) => DeliveryEventView::Fetched(text::opt_view(a)),
            DeliveryEvent::Ran(a) => DeliveryEventView::Ran(a@),
            DeliveryEvent::Branch(a) => DeliveryEventView::Branch(text::opt_view(a)),
            DeliveryEvent::Converged(a) => DeliveryEventView::Converged(a@),
            DeliveryEvent::Did => DeliveryEventView::Did,
            DeliveryEvent::Clock(a) => DeliveryEventView::Clock(a@),
            DeliveryEvent::Replied(a, b) => DeliveryEventView::Replied(a, b),
            DeliveryEvent::Failed(a) => DeliveryEventView::Failed(a@),
        }
    }
}

/// What a publication loses while its branch is not the one that is checked out.
pub open spec fn inactive_text(branch: Seq<char>) -> Seq<char> {
    "remote branch "@ + branch + " advanced while it is inactive; publication remains queued"@
}

/// How a commit that may be missing is written.
pub open spec fn head_words(head: Option<Seq<char>>) -> Seq<char> {
    match head {
        Some(head) => "Some("@ + text::quoted_text(head) + ")"@,
        None => "None"@,
    }
}

/// What the provider says where the branch has moved.
pub open spec fn advanced_text(head: Option<Seq<char>>, generation: nat) -> Seq<char> {
    "provider reported REMOTE_ADVANCED at "@ + head_words(head) + (" (generation "@ + text::decimal(
        generation,
    ) + ")"@)
}

/// The plain push of a commit to a branch: a remote that has moved elsewhere refuses it.
pub open spec fn push_call(
    project: DeliveryProjectView,
    p: PublicationView,
    token: Option<Seq<char>>,
) -> GitCallView {
    remote::git_with_token(
        project.local_path,
        seq![
            "push"@,
            project.remote_name,
            p.candidate_commit_oid + ":refs/heads/"@ + p.branch,
        ],
        token,
        true,
    )
}

/// The acknowledgement of a commit that the remote was seen to hold.
pub open spec fn local_ack(
    p: PublicationView,
    head: Seq<char>,
    generation: u64,
) -> PublicationAckView {
    PublicationAckView {
        publication_id: p.publication_id,
        attempt: p.attempt,
        project_id: p.project_id,
        branch: p.branch,
        accepted_oid: p.candidate_commit_oid,
        remote_head: head,
        project_generation: generation,
        durable: true,
    }
}

/// What a delivery asks for at its stage.
pub open spec fn delivery_requested(s: DeliveryView) -> DeliveryActionView {
    let p = s.publication;
    let path = s.project.local_path;
    let fetch = DeliveryActionView::Fetch(path, s.project.remote_name, p.branch);
    let remote = match s.remote_head {
        Some(head) => head,
        None => Seq::empty(),
    };
    match s.stage {
        DeliveryStage::Load => DeliveryActionView::Load(s.publication_id),
        DeliveryStage::Project => DeliveryActionView::Project(p.project_id),
        DeliveryStage::Fetch => fetch,
        DeliveryStage::Reachable => DeliveryActionView::Git(
            reconcile::ancestor_call(path, p.candidate_commit_oid, remote),
        ),
        DeliveryStage::Branch => DeliveryActionView::Branch(path),
        DeliveryStage::Converge => DeliveryActionView::Converge(
            p.project_id,
            p.branch,
            s.remote_head,
        ),
        DeliveryStage::Blocked => DeliveryActionView::Persist,
        DeliveryStage::Head => DeliveryActionView::Git(
            process::git_in(path, seq!["rev-parse"@, "HEAD"@]),
        ),
        DeliveryStage::Keep => DeliveryActionView::Persist,
        DeliveryStage::Requeue => DeliveryActionView::Requeue(
            p.publication_id,
            s.candidate,
            s.remote_head,
        ),
        DeliveryStage::Validate => DeliveryActionView::Validate(path, p.candidate_commit_oid),
        DeliveryStage::Push => DeliveryActionView::Git(push_call(s.project, p, s.token)),
        DeliveryStage::Confirm => fetch,
        DeliveryStage::Confirmed => DeliveryActionView::Git(
            reconcile::ancestor_call(path, p.candidate_commit_oid, remote),
        ),
        DeliveryStage::Stamp => DeliveryActionView::Clock,
        DeliveryStage::Acknowledge => match (s.project.service, s.token) {
            (Some(service), Some(token)) => DeliveryActionView::Acknowledge(service, token, p),
            _ => DeliveryActionView::Return,
        },
        DeliveryStage::Complete => match s.ack {
            Some(ack) => DeliveryActionView::Complete(p, ack),
            None => DeliveryActionView::Return,
        },
        DeliveryStage::Finished => match s.failure {
            Some(message) => DeliveryActionView::Fail(message),
            None => DeliveryActionView::Return,
        },
    }
}

/// A delivery at another stage.
pub open spec fn delivery_at(s: DeliveryView, stage: DeliveryStage) -> DeliveryView {
    DeliveryView { stage, ..s }
}

/// A delivery that failed.
pub open spec fn delivery_failed(s: DeliveryView, message: Seq<char>) -> DeliveryView {
    DeliveryView { stage: DeliveryStage::Finished, failure: Some(message), ..s }
}

/// Where a delivery goes on, given whether the remote holds the commit already: it confirms that,
/// pushes where the branch is as expected, or moves the local work onto the branch.
pub open spec fn delivery_decided(s: DeliveryView, reachable: bool) -> DeliveryView {
    delivery_at(
        s,
        if reachable {
            DeliveryStage::Confirm
        } else if s.remote_head != s.publication.expected_remote_oid {
            DeliveryStage::Branch
        } else {
            DeliveryStage::Validate
        },
    )
}

/// A delivery that looked its publication up.
pub open spec fn delivery_loaded(s: DeliveryView, found: Option<PublicationView>) -> DeliveryView {
    match found {
        None => delivery_failed(s, "publication disappeared from queue"@),
        Some(p) => if publication::is_pending(p) {
            DeliveryView { stage: DeliveryStage::Project, publication: p, ..s }
        } else {
            DeliveryView { stage: DeliveryStage::Finished, publication: p, ..s }
        },
    }
}

/// A delivery that looked its project up.
pub open spec fn delivery_found(
    s: DeliveryView,
    found: Option<DeliveryProjectView>,
) -> DeliveryView {
    match found {
        None => delivery_failed(
            s,
            "unknown subscribed project "@ + s.publication.project_id,
        ),
        Some(project) => if project.state == "CONFLICTED"@ {
            delivery_failed(
                DeliveryView { project, ..s },
                "publication is paused until `resync project sync` completes reconciliation"@,
            )
        } else {
            DeliveryView { stage: DeliveryStage::Fetch, project, ..s }
        },
    }
}

/// A delivery whose publication was changed in the queue.
pub open spec fn delivery_requeued(s: DeliveryView) -> DeliveryView {
    if s.lost + 1 >= DELIVERY_ROUNDS {
        delivery_failed(s, "publication lost the remote race five times"@)
    } else {
        DeliveryView { stage: DeliveryStage::Load, lost: (s.lost + 1) as u64, ..s }
    }
}

/// A delivery that fetched the branch after the push.
pub open spec fn delivery_confirm(s: DeliveryView, head: Option<Seq<char>>) -> DeliveryView {
    match head {
        None => delivery_failed(s, "hosted branch is missing after publication"@),
        Some(_) => DeliveryView { stage: DeliveryStage::Confirmed, remote_head: head, ..s },
    }
}

/// A delivery whose commit is on the remote at a point in time. The provider acknowledges it where
/// there is one.
pub open spec fn delivery_stamped(s: DeliveryView, now: Seq<char>) -> DeliveryView {
    let p = PublicationView { last_attempt_at: Some(now), ..s.publication };
    if s.project.service is Some && s.token is Some {
        DeliveryView { stage: DeliveryStage::Acknowledge, publication: p, ..s }
    } else {
        DeliveryView {
            stage: DeliveryStage::Complete,
            publication: p,
            ack: Some(
                local_ack(
                    p,
                    match s.remote_head {
                        Some(head) => head,
                        None => Seq::empty(),
                    },
                    s.project.server_generation,
                ),
            ),
            ..s
        }
    }
}

/// A delivery that the provider replied to.
pub open spec fn delivery_replied(s: DeliveryView, status: u16, body: Json) -> DeliveryView {
    if provider::is_success(status) {
        match publication::parsed_ack(body) {
            Some(ack) => if publication::ack_matches(ack, s.publication) {
                DeliveryView { stage: DeliveryStage::Complete, ack: Some(ack), ..s }
            } else {
                delivery_failed(s, publication::publication_text(PublicationError::InvalidAck))
            },
            None => delivery_failed(s, publication::publication_text(PublicationError::InvalidAck)),
        }
    } else if publication::says_advanced(status, body) {
        delivery_failed(
            s,
            advanced_text(
                json::text_field(body, "remote_head"@),
                match json::number_field(body, "project_generation"@) {
                    Some(n) => n,
                    None => 0,
                },
            ),
        )
    } else {
        delivery_failed(
            s,
            match json::text_field(body, "error"@) {
                Some(text) => text,
                None => "provider rejected publication"@,
            },
        )
    }
}

/// The delivery after an event.
#[verifier::opaque]
pub open spec fn delivered(s: DeliveryView, e: DeliveryEventView) -> DeliveryView {
    match (s.stage, e) {
        (DeliveryStage::Finished, _) => s,
        (DeliveryStage::Reachable, DeliveryEventView::Failed(_)) => delivery_decided(s, false),
        (_, DeliveryEventView::Failed(message)) => delivery_failed(s, message),
        (DeliveryStage::Load, DeliveryEventView::Loaded(found)) => delivery_loaded(s, found),
        (DeliveryStage::Project, DeliveryEventView::Project(found)) => delivery_found(s, found),
        (DeliveryStage::Fetch, DeliveryEventView::Fetched(head)) => {
            let now = DeliveryView { remote_head: head, ..s };
            match head {
                Some(_) => delivery_at(now, DeliveryStage::Reachable),
                None => delivery_decided(now, false),
            }
        },
        (DeliveryStage::Reachable, DeliveryEventView::Ran(result)) => delivery_decided(
            s,
            result.code == 0,
        ),
        (DeliveryStage::Branch, DeliveryEventView::Branch(found)) => if found == Some(
            s.publication.branch,
        ) {
            delivery_at(s, DeliveryStage::Converge)
        } else {
            delivery_failed(s, inactive_text(s.publication.branch))
        },
        (DeliveryStage::Converge, DeliveryEventView::Converged(outcome)) => delivery_at(
            s,
            if outcome == "conflict"@ {
                DeliveryStage::Blocked
            } else {
                DeliveryStage::Head
            },
        ),
        (DeliveryStage::Blocked, DeliveryEventView::Did) => delivery_failed(
            s,
            "publication is blocked by a reconciliation conflict"@,
        ),
        (DeliveryStage::Head, DeliveryEventView::Ran(result)) => DeliveryView {
            stage: DeliveryStage::Keep,
            candidate: text::trim(result.stdout),
            ..s
        },
        (DeliveryStage::Keep, DeliveryEventView::Did) => delivery_at(s, DeliveryStage::Requeue),
        (DeliveryStage::Requeue, DeliveryEventView::Did) => delivery_requeued(s),
        (DeliveryStage::Validate, DeliveryEventView::Did) => delivery_at(s, DeliveryStage::Push),
        (DeliveryStage::Push, DeliveryEventView::Ran(result)) => if result.code == 0 {
            delivery_at(s, DeliveryStage::Confirm)
        } else {
            delivery_failed(s, text::trim(result.stderr))
        },
        (DeliveryStage::Confirm, DeliveryEventView::Fetched(head)) => delivery_confirm(s, head),
        (DeliveryStage::Confirmed, DeliveryEventView::Ran(result)) => if result.code == 0 {
            delivery_at(s, DeliveryStage::Stamp)
        } else {
            delivery_failed(
                s,
                "published candidate is not reachable from the hosted branch"@,
            )
        },
        (DeliveryStage::Stamp, DeliveryEventView::Clock(now)) => delivery_stamped(s, now),
        (DeliveryStage::Acknowledge, DeliveryEventView::Replied(status, body)) => {
            delivery_replied(s, status, body)
        },
        (DeliveryStage::Complete, DeliveryEventView::Did) => delivery_at(
            s,
            DeliveryStage::Finished,
        ),
        _ => s,
    }
}

/// A publication of which nothing but its identifier is known.
pub open spec fn unknown_publication(id: Seq<char>) -> PublicationView {
    publication::new_publication(id, Seq::empty(), None, Seq::empty(), Seq::empty(), None, Seq::empty())
}

/// A delivery at its start.
pub open spec fn delivery_start(id: Seq<char>, token: Option<Seq<char>>) -> DeliveryView {
    DeliveryView {
        stage: DeliveryStage::Load,
        publication_id: id,
        token,
        lost: 0,
        publication: unknown_publication(id),
        project: (DeliveryProjectView {
            local_path: Seq::empty(),
            remote_name: Seq::empty(),
            state: Seq::empty(),
            server_generation: 0,
            service: None,
        }),
        remote_head: None,
        candidate: Seq::empty(),
        ack: None,
        failure: None,
    }
}

/// What holds of every delivery.
pub open spec fn delivery_valid(s: DeliveryView) -> bool {
    &&& s.lost < DELIVERY_ROUNDS
    &&& s.stage == DeliveryStage::Acknowledge ==> s.project.service is Some && s.token is Some
    &&& s.stage == DeliveryStage::Complete ==> s.ack is Some && publication::ack_matches(
        s.ack->0,
        s.publication,
    )
    &&& (s.stage == DeliveryStage::Validate || s.stage == DeliveryStage::Push) ==> s.remote_head
        == s.publication.expected_remote_oid
    &&& (s.stage == DeliveryStage::Reachable || s.stage == DeliveryStage::Confirmed || s.stage
        == DeliveryStage::Stamp) ==> s.remote_head is Some
}

fn words_for_head(head: &Option<String>) -> (r: String)
    ensures
        r@ == head_words(text::opt_view(*head)),
{
    match head {
        Some(head) => {
            let text = quoted(head.as_str());
            cat3("Some(", text.as_str(), ")")
        },
        None => "None".to_owned(),
    }
}

fn empty_text() -> (r: String)
    ensures
        r@ == Seq::<char>::empty(),
{
    let r = String::new();
    assert(r@ =~= Seq::empty());
    r
}

impl Delivery {
    /// A delivery of a publication, with the token of the user.
    pub fn new(publication_id: &str, token: &Option<String>) -> (r: Self)
        ensures
            r@ == delivery_start(publication_id@, text::opt_view(*token)),
            delivery_valid(r@),
    {
        let none = empty_text();
        Delivery {
            stage: DeliveryStage::Load,
            publication_id: publication_id.to_owned(),
            token: copy_option(token),
            lost: 0,
            publication: Publication::with(
                publication_id,
                none.as_str(),
                &None,
                none.as_str(),
                none.as_str(),
                &None,
                none.as_str(),
            ),
            project: DeliveryProject {
                local_path: empty_text(),
                remote_name: empty_text(),
                state: empty_text(),
                server_generation: 0,
                service: None,
            },
            remote_head: None,
            candidate: empty_text(),
            ack: None,
            failure: None,
        }
    }

    fn remote(&self) -> (r: String)
        ensures
            r@ == match self@.remote_head {
                Some(head) => head,
                None => Seq::empty(),
            },
    {
        match &self.remote_head {
            Some(head) => head.clone(),
            None => empty_text(),
        }
    }

    fn fetch(&self) -> (r: DeliveryAction)
        ensures
            r@ == DeliveryActionView::Fetch(
                self@.project.local_path,
                self@.project.remote_name,
                self@.publication.branch,
            ),
    {
        DeliveryAction::Fetch(
            self.project.local_path.clone(),
            self.project.remote_name.clone(),
            self.publication.branch.clone(),
        )
    }

    fn push(&self) -> (r: GitCall)
        ensures
            r@ == push_call(self@.project, self@.publication, self@.token),
    {
        let p = &self.publication;
        let refspec = cat3(p.candidate_commit_oid.as_str(), ":refs/heads/", p.branch.as_str());
        git_authorized(
            self.project.local_path.as_str(),
            words3("push", self.project.remote_name.as_str(), refspec.as_str()),
            &self.token,
            true,
        )
    }

    /// What is to be done next.
    pub fn request(&self) -> (r: DeliveryAction)
        ensures
            r@ == delivery_requested(self@),
    {
        let p = &self.publication;
        let path = self.project.local_path.as_str();
        match self.stage {
            DeliveryStage::Load => DeliveryAction::Load(self.publication_id.clone()),
            DeliveryStage::Project => DeliveryAction::Project(p.project_id.clone()),
            DeliveryStage::Fetch => self.fetch(),
            DeliveryStage::Reachable => {
                let remote = self.remote();
                DeliveryAction::Git(
                    is_ancestor(path, p.candidate_commit_oid.as_str(), remote.as_str()),
                )
            },
            DeliveryStage::Branch => DeliveryAction::Branch(path.to_owned()),
            DeliveryStage::Converge => DeliveryAction::Converge(
                p.project_id.clone(),
                p.branch.clone(),
                copy_option(&self.remote_head),
            ),
            DeliveryStage::Blocked => DeliveryAction::Persist,
            DeliveryStage::Head => DeliveryAction::Git(
                git_strict(path, words2("rev-parse", "HEAD")),
            ),
            DeliveryStage::Keep => DeliveryAction::Persist,
            DeliveryStage::Requeue => DeliveryAction::Requeue(
                p.publication_id.clone(),
                self.candidate.clone(),
                copy_option(&self.remote_head),
            ),
            DeliveryStage::Validate => DeliveryAction::Validate(
                path.to_owned(),
                p.candidate_commit_oid.clone(),
            ),
            DeliveryStage::Push => DeliveryAction::Git(self.push()),
            DeliveryStage::Confirm => self.fetch(),
            DeliveryStage::Confirmed => {
                let remote = self.remote();
                DeliveryAction::Git(
                    is_ancestor(path, p.candidate_commit_oid.as_str(), remote.as_str()),
                )
            },
            DeliveryStage::Stamp => DeliveryAction::Clock,
            DeliveryStage::Acknowledge => match (&self.project.service, &self.token) {
                (Some(service), Some(token)) => DeliveryAction::Acknowledge(
                    service.clone(),
                    token.clone(),
                    p.copy(),
                ),
                _ => DeliveryAction::Return,
            },
            DeliveryStage::Complete => match &self.ack {
                Some(ack) => DeliveryAction::Complete(p.copy(), ack.copy()),
                None => DeliveryAction::Return,
            },
            DeliveryStage::Finished => match &self.failure {
                Some(message) => DeliveryAction::Fail(message.clone()),
                None => DeliveryAction::Return,
            },
        }
    }

    fn fail(&mut self, message: String)
        ensures
            final(self)@ == delivery_failed(old(self)@, message@),
    {
        self.stage = DeliveryStage::Finished;
        self.failure = Some(message);
    }

    fn decide(&mut self, reachable: bool)
        ensures
            final(self)@ == delivery_decided(old(self)@, reachable),
    {
        self.stage = if reachable {
            DeliveryStage::Confirm
        } else if !same_option(&self.remote_head, &self.publication.expected_remote_oid) {
            DeliveryStage::Branch
        } else {
            DeliveryStage::Validate
        };
    }

    fn at_loaded(&mut self, found: Option<Publication>)
        ensures
            final(self)@ == delivery_loaded(
                old(self)@,
                match found {
                    Some(p) => Some(p@),
                    None => None,
                },
            ),
    {
        match found {
            None => {
                self.fail("publication disappeared from queue".to_owned());
            },
            Some(p) => {
                self.stage = if p.pending() {
                    DeliveryStage::Project
                } else {
                    DeliveryStage::Finished
                };
                self.publication = p;
            },
        }
    }

    fn at_project(&mut self, found: Option<DeliveryProject>)
        ensures
            final(self)@ == delivery_found(
                old(self)@,
                match found {
                    Some(p) => Some(p@),
                    None => None,
                },
            ),
    {
        match found {
            None => {
                let message = cat2(
                    "unknown subscribed project ",
                    self.publication.project_id.as_str(),
                );
                self.fail(message);
            },
            Some(project) => {
                let paused = same_text(project.state.as_str(), "CONFLICTED");
                self.project = project;
                if paused {
                    self.fail(
                        "publication is paused until `resync project sync` completes reconciliation".to_owned(),
                    );
                } else {
                    self.stage = DeliveryStage::Fetch;
                }
            },
        }
    }

    fn at_requeued(&mut self)
        requires
            delivery_valid(old(self)@),
        ensures
            final(self)@ == delivery_requeued(old(self)@),
    {
        if self.lost + 1 >= DELIVERY_ROUNDS {
            self.fail("publication lost the remote race five times".to_owned());
        } else {
            self.lost = self.lost + 1;
            self.stage = DeliveryStage::Load;
        }
    }

    fn at_stamped(&mut self, now: String)
        ensures
            final(self)@ == delivery_stamped(old(self)@, now@),
    {
        self.publication.last_attempt_at = Some(now);
        if self.project.service.is_some() && self.token.is_some() {
            self.stage = DeliveryStage::Acknowledge;
            return ;
        }
        let head = self.remote();
        self.ack = Some(
            PublicationAck {
                publication_id: self.publication.publication_id.clone(),
                attempt: self.publication.attempt,
                project_id: self.publication.project_id.clone(),
                branch: self.publication.branch.clone(),
                accepted_oid: self.publication.candidate_commit_oid.clone(),
                remote_head: head,
                project_generation: self.project.server_generation,
                durable: true,
            },
        );
        self.stage = DeliveryStage::Complete;
    }

    fn at_replied(&mut self, status: u16, body: &Json)
        ensures
            final(self)@ == delivery_replied(old(self)@, status, *body),
    {
        match acknowledge_with_provider(&self.publication, status, body) {
            Ok(ProviderPublication::Acknowledged(ack)) => {
                self.ack = Some(ack);
                self.stage = DeliveryStage::Complete;
            },
            Ok(ProviderPublication::RemoteAdvanced { remote_head, project_generation }) => {
                let head = words_for_head(&remote_head);
                let number = decimal_text(project_generation);
                let generation = cat3(" (generation ", number.as_str(), ")");
                let message = cat3(
                    "provider reported REMOTE_ADVANCED at ",
                    head.as_str(),
                    generation.as_str(),
                );
                self.fail(message);
            },
            Err(e) => {
                let message = e.message();
                self.fail(message);
            },
        }
    }

    fn on_failed(&mut self, message: String)
        ensures
            final(self)@ == delivered(old(self)@, DeliveryEventView::Failed(message@)),
    {
        reveal(delivered);
        match self.stage {
            DeliveryStage::Finished => {},
            DeliveryStage::Reachable => {
                self.decide(false);
            },
            _ => {
                self.fail(message);
            },
        }
    }

    fn on_fetched(&mut self, head: Option<String>)
        ensures
            final(self)@ == delivered(
                old(self)@,
                DeliveryEventView::Fetched(text::opt_view(head)),
            ),
    {
        reveal(delivered);
        let there = head.is_some();
        match self.stage {
            DeliveryStage::Fetch => {
                self.remote_head = head;
                if there {
                    self.stage = DeliveryStage::Reachable;
                } else {
                    self.decide(false);
                }
            },
            DeliveryStage::Confirm => {
                if there {
                    self.remote_head = head;
                    self.stage = DeliveryStage::Confirmed;
                } else {
                    self.fail("hosted branch is missing after publication".to_owned());
                }
            },
            _ => {},
        }
    }

    fn on_branch(&mut self, found: Option<String>)
        ensures
            final(self)@ == delivered(
                old(self)@,
                DeliveryEventView::Branch(text::opt_view(found)),
            ),
    {
        reveal(delivered);
        if self.stage != DeliveryStage::Branch {
            return ;
        }
        let active = match &found {
            Some(branch) => same_text(branch.as_str(), self.publication.branch.as_str()),
            None => false,
        };
        if active {
            self.stage = DeliveryStage::Converge;
        } else {
            let message = cat3(
                "remote branch ",
                self.publication.branch.as_str(),
                " advanced while it is inactive; publication remains queued",
            );
            self.fail(message);
        }
    }

    fn on_converged(&mut self, outcome: String)
        ensures
            final(self)@ == delivered(old(self)@, DeliveryEventView::Converged(outcome@)),
    {
        reveal(delivered);
        if self.stage != DeliveryStage::Converge {
            return ;
        }
        self.stage = if same_text(outcome.as_str(), "conflict") {
            DeliveryStage::Blocked
        } else {
            DeliveryStage::Head
        };
    }

    fn on_ran(&mut self, result: RunResult)
        ensures
            final(self)@ == delivered(old(self)@, DeliveryEventView::Ran(result@)),
    {
        reveal(delivered);
        match self.stage {
            DeliveryStage::Reachable => {
                self.decide(result.code == 0);
            },
            DeliveryStage::Head => {
                self.candidate = trimmed(result.stdout.as_str());
                self.stage = DeliveryStage::Keep;
            },
            DeliveryStage::Push => {
                if result.code == 0 {
                    self.stage = DeliveryStage::Confirm;
                } else {
                    let message = trimmed(result.stderr.as_str());
                    self.fail(message);
                }
            },
            DeliveryStage::Confirmed => {
                if result.code == 0 {
                    self.stage = DeliveryStage::Stamp;
                } else {
                    self.fail(
                        "published candidate is not reachable from the hosted branch".to_owned(),
                    );
                }
            },
            _ => {},
        }
    }

    fn on_did(&mut self)
        requires
            delivery_valid(old(self)@),
        ensures
            final(self)@ == delivered(old(self)@, DeliveryEventView::Did),
    {
        reveal(delivered);
        match self.stage {
            DeliveryStage::Blocked => {
                self.fail("publication is blocked by a reconciliation conflict".to_owned());
            },
            DeliveryStage::Keep => {
                self.stage = DeliveryStage::Requeue;
            },
            DeliveryStage::Requeue => {
                self.at_requeued();
            },
            DeliveryStage::Validate => {
                self.stage = DeliveryStage::Push;
            },
            DeliveryStage::Complete => {
                self.stage = DeliveryStage::Finished;
            },
            _ => {},
        }
    }

    fn on_loaded(&mut self, found: Option<Publication>)
        ensures
            final(self)@ == delivered(
                old(self)@,
                DeliveryEventView::Loaded(
                    match found {
                        Some(p) => Some(p@),
                        None => None,
                    },
                ),
            ),
    {
        reveal(delivered);
        if self.stage == DeliveryStage::Load {
            self.at_loaded(found);
        }
    }

    fn on_project(&mut self, found: Option<DeliveryProject>)
        ensures
            final(self)@ == delivered(
                old(self)@,
                DeliveryEventView::Project(
                    match found {
                        Some(p) => Some(p@),
                        None => None,
                    },
                ),
            ),
    {
        reveal(delivered);
        if self.stage == DeliveryStage::Project {
            self.at_project(found);
        }
    }

    fn on_clock(&mut self, now: String)
        ensures
            final(self)@ == delivered(old(self)@, DeliveryEventView::Clock(now@)),
    {
        reveal(delivered);
        if self.stage == DeliveryStage::Stamp {
            self.at_stamped(now);
        }
    }

    fn on_replied(&mut self, status: u16, body: &Json)
        ensures
            final(self)@ == delivered(old(self)@, DeliveryEventView::Replied(status, *body)),
    {
        reveal(delivered);
        if self.stage == DeliveryStage::Acknowledge {
            self.at_replied(status, body);
        }
    }

    /// Takes what came of the step that was asked for.
    pub fn advance(&mut self, event: DeliveryEvent)
        requires
            delivery_valid(old(self)@),
        ensures
            final(self)@ == delivered(old(self)@, event@),
            delivery_valid(final(self)@),
    {
        proof {
            lemma_delivery_step(self@, event@);
        }
        match event {
            DeliveryEvent::Failed(message) => {
                self.on_failed(message);
            },
            DeliveryEvent::Loaded(found) => {
                self.on_loaded(found);
            },
            DeliveryEvent::Project(found) => {
                self.on_project(found);
            },
            DeliveryEvent::Fetched(head) => {
                self.on_fetched(head);
            },
            DeliveryEvent::Ran(result) => {
                self.on_ran(result);
            },
            DeliveryEvent::Branch(found) => {
                self.on_branch(found);
            },
            DeliveryEvent::Converged(outcome) => {
                self.on_converged(outcome);
            },
            DeliveryEvent::Did => {
                self.on_did();
            },
            DeliveryEvent::Clock(now) => {
                self.on_clock(now);
            },
            DeliveryEvent::Replied(status, body) => {
                self.on_replied(status, &body);
            },
        }
    }
}

/// The delivery after a number of events.
pub open spec fn delivery_replayed(s: DeliveryView, events: Seq<DeliveryEventView>) -> DeliveryView
    decreases events.len(),
{
    if events.len() == 0 {
        s
    } else {
        delivered(delivery_replayed(s, events.drop_last()), events.last())
    }
}

proof fn lemma_delivery_step(s: DeliveryView, e: DeliveryEventView)
    requires
        delivery_valid(s),
    ensures
        delivery_valid(delivered(s, e)),
{
    reveal(delivered);
}

proof fn lemma_delivery_valid(s: DeliveryView, events: Seq<DeliveryEventView>)
    requires
        delivery_valid(s),
    ensures
        delivery_valid(delivery_replayed(s, events)),
    decreases events.len(),
{
    if events.len() > 0 {
        lemma_delivery_valid(s, events.drop_last());
        lemma_delivery_step(delivery_replayed(s, events.drop_last()), events.last());
    }
}

/// A commit is pushed only where the branch was last seen on the remote at the commit that the
/// publication expects, and the push carries no option that would overwrite the branch.
pub proof fn law_push_expects_what_was_seen(s: DeliveryView, events: Seq<DeliveryEventView>)
    requires
        delivery_valid(s),
    ensures
        ({
            let now = delivery_replayed(s, events);
            now.stage == DeliveryStage::Push ==> now.publication.expected_remote_oid
                == now.remote_head && (delivery_requested(now) matches DeliveryActionView::Git(call)
                && call.args == seq![
                "push"@,
                now.project.remote_name,
                now.publication.candidate_commit_oid + ":refs/heads/"@ + now.publication.branch,
            ])
        }),
{
    lemma_delivery_valid(s, events);
}

/// A publication is completed only with an acknowledgement of that very attempt, branch and
/// commit.
pub proof fn law_completion_is_acknowledged(s: DeliveryView, events: Seq<DeliveryEventView>)
    requires
        delivery_valid(s),
    ensures
        ({
            let now = delivery_replayed(s, events);
            now.stage == DeliveryStage::Complete ==> now.ack is Some && publication::ack_matches(
                now.ack->0,
                now.publication,
            )
        }),
{
    lemma_delivery_valid(s, events);
}

/// A delivery loses fewer than [`DELIVERY_ROUNDS`] rounds before it gives up.
pub proof fn law_rounds_are_bounded(s: DeliveryView, events: Seq<DeliveryEventView>)
    requires
        delivery_valid(s),
    ensures
        delivery_replayed(s, events).lost < DELIVERY_ROUNDS,
{
    lemma_delivery_valid(s, events);
}

/// The commit was seen on the remote: some event confirmed it for the commit that is published.
pub open spec fn was_confirmed(
    s: DeliveryView,
    events: Seq<DeliveryEventView>,
    i: int,
) -> bool {
    let at = delivery_replayed(s, events.take(i));
    &&& 0 <= i < events.len()
    &&& at.stage == DeliveryStage::Confirmed
    &&& events[i] matches DeliveryEventView::Ran(result)
    &&& result.code == 0
    &&& at.publication.candidate_commit_oid == delivery_replayed(
        s,
        events,
    ).publication.candidate_commit_oid
    &&& at.publication.branch == delivery_replayed(s, events).publication.branch
}

/// The stages after the confirmation.
pub open spec fn after_confirmation(stage: DeliveryStage) -> bool {
    stage == DeliveryStage::Stamp || stage == DeliveryStage::Acknowledge || stage
        == DeliveryStage::Complete
}

proof fn lemma_confirm_step(s: DeliveryView, e: DeliveryEventView)
    ensures
        ({
            let now = delivered(s, e);
            after_confirmation(now.stage) ==> now.publication.candidate_commit_oid
                == s.publication.candidate_commit_oid && now.publication.branch
                == s.publication.branch && (after_confirmation(s.stage) || (s.stage
                == DeliveryStage::Confirmed && (e matches DeliveryEventView::Ran(result)
                && result.code == 0)))
        }),
{
    reveal(delivered);
}

/// A publication is completed only after its commit was found to be part of the branch on the
/// remote.
pub proof fn law_completion_follows_confirmation(s: DeliveryView, events: Seq<DeliveryEventView>)
    requires
        s.stage == DeliveryStage::Load,
        after_confirmation(delivery_replayed(s, events).stage),
    ensures
        exists|i: int| was_confirmed(s, events, i),
    decreases events.len(),
{
    if events.len() > 0 {
        let front = events.drop_last();
        let before = delivery_replayed(s, front);
        lemma_confirm_step(before, events.last());
        if after_confirmation(before.stage) {
            law_completion_follows_confirmation(s, front);
            let i = choose|i: int| was_confirmed(s, front, i);
            assert(front.take(i) =~= events.take(i));
            assert(front[i] == events[i]);
            assert(was_confirmed(s, events, i));
        } else {
            assert(events.take(events.len() - 1) =~= front);
            assert(was_confirmed(s, events, events.len() - 1));
        }
    }
}

/// A commit is pushed only after the validations of the project passed on it.
pub proof fn law_push_follows_validation(s: DeliveryView, events: Seq<DeliveryEventView>)
    requires
        s.stage == DeliveryStage::Load,
        delivery_replayed(s, events).stage == DeliveryStage::Push,
    ensures
        exists|i: int| was_validated(s, events, i),
    decreases events.len(),
{
    if events.len() > 0 {
        let front = events.drop_last();
        let before = delivery_replayed(s, front);
        lemma_push_step(before, events.last());
        if before.stage == DeliveryStage::Push {
            law_push_follows_validation(s, front);
            let i = choose|i: int| was_validated(s, front, i);
            assert(front.take(i) =~= events.take(i));
            assert(front[i] == events[i]);
            assert(was_validated(s, events, i));
        } else {
            assert(events.take(events.len() - 1) =~= front);
            assert(was_validated(s, events, events.len() - 1));
        }
    }
}

/// The validations passed on the commit that is to be pushed.
pub open spec fn was_validated(
    s: DeliveryView,
    events: Seq<DeliveryEventView>,
    i: int,
) -> bool {
    let at = delivery_replayed(s, events.take(i));
    &&& 0 <= i < events.len()
    &&& at.stage == DeliveryStage::Validate
    &&& events[i] is Did
    &&& at.publication.candidate_commit_oid == delivery_replayed(
        s,
        events,
    ).publication.candidate_commit_oid
}

proof fn lemma_push_step(s: DeliveryView, e: DeliveryEventView)
    ensures
        ({
            let now = delivered(s, e);
            now.stage == DeliveryStage::Push ==> now.publication == s.publication && (s.stage
                == DeliveryStage::Push || (s.stage == DeliveryStage::Validate && e is Did))
        }),
{
    reveal(delivered);
}

proof fn lemma_moved_step(s: DeliveryView, e: DeliveryEventView)
    ensures
        ({
            let now = delivered(s, e);
            now.stage == DeliveryStage::Branch || now.stage == DeliveryStage::Converge ==> {
                ||| now.remote_head != now.publication.expected_remote_oid
                ||| (s.stage == DeliveryStage::Branch || s.stage == DeliveryStage::Converge)
                    && s.remote_head == now.remote_head && s.publication == now.publication
            }
        }),
{
    reveal(delivered);
}

/// A publication leaves the visible worktree alone: Git is only asked how commits are related and to
/// push. The one step that moves a worktree is taken where the branch was seen to have moved on the
/// remote.
pub proof fn law_publication_leaves_the_worktree(s: DeliveryView, events: Seq<DeliveryEventView>)
    requires
        s.stage == DeliveryStage::Load,
    ensures
        ({
            let now = delivery_replayed(s, events);
            &&& delivery_requested(now) matches DeliveryActionView::Git(call) ==> call.args.len() > 0
                && (call.args[0] == "merge-base"@ || call.args[0] == "rev-parse"@ || call.args[0]
                == "push"@)
            &&& now.stage == DeliveryStage::Branch || now.stage == DeliveryStage::Converge
                ==> now.remote_head != now.publication.expected_remote_oid
        }),
    decreases events.len(),
{
    if events.len() > 0 {
        law_publication_leaves_the_worktree(s, events.drop_last());
        lemma_moved_step(delivery_replayed(s, events.drop_last()), events.last());
    }
}

} // verus!
