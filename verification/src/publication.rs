//! Commits on their way to the provider.
use vstd::prelude::*;
use crate::address;
use crate::clock;
use crate::hooks;
use crate::json;
use crate::paths;
use crate::provider;
use crate::random;
use crate::text;
use crate::address::join_url;
use crate::clock::{now, now_text, parse_rfc3339, to_rfc3339, Timestamp};
use crate::hooks::{make_object, number_pair, option_pair, text_pair};
use crate::json::{Json, JsonView};
use crate::paths::join_path;
use crate::random::unique_simple;
use crate::state::StatePaths;
use crate::text::{cat2, cat3, copy_option, head_text, same_text};

verus! {

/// The state of a publication that is not acknowledged.
pub const PENDING: &'static str = "PENDING";

/// The state of a publication that is acknowledged.
pub const ACKNOWLEDGED: &'static str = "ACKNOWLEDGED";

/// The most acknowledged publications that a queue remembers.
pub const COMPLETED_LIMIT: usize = 256;

/// The word of the provider that a commit is safe.
#[derive(Debug, Clone, PartialEq, Eq)]
pub struct PublicationAck {
    pub publication_id: String,
    pub attempt: u64,
    pub project_id: String,
    pub branch: String,
    pub accepted_oid: String,
    pub remote_head: String,
    pub project_generation: u64,
    pub durable: bool,
}

/// What a [`PublicationAck`] holds.
pub struct PublicationAckView {
    pub publication_id: Seq<char>,
    pub attempt: u64,
    pub project_id: Seq<char>,
    pub branch: Seq<char>,
    pub accepted_oid: Seq<char>,
    pub remote_head: Seq<char>,
    pub project_generation: u64,
    pub durable: bool,
}

impl View for PublicationAck {
    type V = PublicationAckView;

    open spec fn view(&self) -> PublicationAckView {
        PublicationAckView {
            publication_id: self.publication_id@,
            attempt: self.attempt,
            project_id: self.project_id@,
            branch: self.branch@,
            accepted_oid: self.accepted_oid@,
            remote_head: self.remote_head@,
            project_generation: self.project_generation,
            durable: self.durable,
        }
    }
}

impl PublicationAck {
    /// A second value with the same contents.
    pub fn copy(&self) -> (r: Self)
        ensures
            r@ == self@,
    {
        PublicationAck {
            publication_id: self.publication_id.clone(),
            attempt: self.attempt,
            project_id: self.project_id.clone(),
            branch: self.branch.clone(),
            accepted_oid: self.accepted_oid.clone(),
            remote_head: self.remote_head.clone(),
            project_generation: self.project_generation,
            durable: self.durable,
        }
    }
}

/// A commit that is to reach the provider.
#[derive(Debug, Clone, PartialEq, Eq)]
pub struct Publication {
    pub publication_id: String,
    pub project_id: String,
    pub checkout_id: Option<String>,
    pub branch: String,
    pub source_commit_oid: String,
    pub candidate_commit_oid: String,
    pub expected_remote_oid: Option<String>,
    pub attempt: u64,
    pub state: String,
    pub created_at: String,
    pub last_attempt_at: Option<String>,
    pub next_attempt_at: Option<String>,
    pub last_error: Option<String>,
    pub ack: Option<PublicationAck>,
}

/// What a [`Publication`] holds.
pub struct PublicationView {
    pub publication_id: Seq<char>,
    pub project_id: Seq<char>,
    pub checkout_id: Option<Seq<char>>,
    pub branch: Seq<char>,
    pub source_commit_oid: Seq<char>,
    pub candidate_commit_oid: Seq<char>,
    pub expected_remote_oid: Option<Seq<char>>,
    pub attempt: u64,
    pub state: Seq<char>,
    pub created_at: Seq<char>,
    pub last_attempt_at: Option<Seq<char>>,
    pub next_attempt_at: Option<Seq<char>>,
    pub last_error: Option<Seq<char>>,
    pub ack: Option<PublicationAckView>,
}

impl View for Publication {
    type V = PublicationView;

    open spec fn view(&self) -> PublicationView {
        PublicationView {
            publication_id: self.publication_id@,
            project_id: self.project_id@,
            checkout_id: text::opt_view(self.checkout_id),
            branch: self.branch@,
            source_commit_oid: self.source_commit_oid@,
            candidate_commit_oid: self.candidate_commit_oid@,
            expected_remote_oid: text::opt_view(self.expected_remote_oid),
            attempt: self.attempt,
            state: self.state@,
            created_at: self.created_at@,
            last_attempt_at: text::opt_view(self.last_attempt_at),
            next_attempt_at: text::opt_view(self.next_attempt_at),
            last_error: text::opt_view(self.last_error),
            ack: match self.ack {
                Some(v) => Some(v@),
                None => None,
            },
        }
    }
}

impl Publication {
    /// A second value with the same contents.
    pub fn copy(&self) -> (r: Self)
        ensures
            r@ == self@,
    {
        Publication {
            publication_id: self.publication_id.clone(),
            project_id: self.project_id.clone(),
            checkout_id: copy_option(&self.checkout_id),
            branch: self.branch.clone(),
            source_commit_oid: self.source_commit_oid.clone(),
            candidate_commit_oid: self.candidate_commit_oid.clone(),
            expected_remote_oid: copy_option(&self.expected_remote_oid),
            attempt: self.attempt,
            state: self.state.clone(),
            created_at: self.created_at.clone(),
            last_attempt_at: copy_option(&self.last_attempt_at),
            next_attempt_at: copy_option(&self.next_attempt_at),
            last_error: copy_option(&self.last_error),
            ack: match &self.ack {
                Some(v) => Some(v.copy()),
                None => None,
            },
        }
    }
}

/// Whether a publication is still to be acknowledged.
pub open spec fn is_pending(p: PublicationView) -> bool {
    p.state != ACKNOWLEDGED@
}

/// A publication that was not attempted yet.
pub open spec fn new_publication(
    id: Seq<char>,
    project_id: Seq<char>,
    checkout_id: Option<Seq<char>>,
    branch: Seq<char>,
    commit_oid: Seq<char>,
    expected_remote_oid: Option<Seq<char>>,
    now: Seq<char>,
) -> PublicationView {
    PublicationView {
        publication_id: id,
        project_id,
        checkout_id,
        branch,
        source_commit_oid: commit_oid,
        candidate_commit_oid: commit_oid,
        expected_remote_oid,
        attempt: 1,
        state: PENDING@,
        created_at: now,
        last_attempt_at: None,
        next_attempt_at: Some(now),
        last_error: None,
        ack: None,
    }
}

/// Whether a publication is to be attempted at a point in time: it is pending, and its next
/// attempt is not set, cannot be read, or is not in the future.
pub open spec fn is_due(p: PublicationView, now: Timestamp) -> bool {
    is_pending(p) && match p.next_attempt_at {
        Some(text) => match clock::instant_of(text) {
            Some(at) => clock::not_after(at, now),
            None => true,
        },
        None => true,
    }
}

/// A publication whose attempt failed.
pub open spec fn after_failure(
    p: PublicationView,
    now: Seq<char>,
    next: Seq<char>,
    error: Seq<char>,
) -> PublicationView {
    PublicationView {
        state: PENDING@,
        last_attempt_at: Some(now),
        next_attempt_at: Some(next),
        last_error: Some(error),
        ..p
    }
}

/// Whether a publication is what another one is after an attempt that failed at a point in time;
/// it is not changed where the time of the next attempt cannot be written.
pub open spec fn is_recorded_failure(
    before: PublicationView,
    after: PublicationView,
    error: Seq<char>,
    retry_seconds: u64,
    now: Timestamp,
    recorded: bool,
) -> bool {
    let next = now.seconds + retry_seconds;
    let this_text = clock::rfc3339_of(now.seconds, now.nanos);
    let next_text = clock::rfc3339_of(next as i64, now.nanos);
    &&& recorded == (next <= i64::MAX && this_text is Some && next_text is Some)
    &&& after == if recorded {
        after_failure(before, this_text->0, next_text->0, error)
    } else {
        before
    }
}

impl Publication {
    /// A publication with a given identifier and time.
    pub fn with(
        publication_id: &str,
        project_id: &str,
        checkout_id: &Option<String>,
        branch: &str,
        commit_oid: &str,
        expected_remote_oid: &Option<String>,
        now: &str,
    ) -> (r: Self)
        ensures
            r@ == new_publication(
                publication_id@,
                project_id@,
                text::opt_view(*checkout_id),
                branch@,
                commit_oid@,
                text::opt_view(*expected_remote_oid),
                now@,
            ),
    {
        Publication {
            publication_id: publication_id.to_owned(),
            project_id: project_id.to_owned(),
            checkout_id: copy_option(checkout_id),
            branch: branch.to_owned(),
            source_commit_oid: commit_oid.to_owned(),
            candidate_commit_oid: commit_oid.to_owned(),
            expected_remote_oid: copy_option(expected_remote_oid),
            attempt: 1,
            state: PENDING.to_owned(),
            created_at: now.to_owned(),
            last_attempt_at: None,
            next_attempt_at: Some(now.to_owned()),
            last_error: None,
            ack: None,
        }
    }

    /// A publication of a commit, with a new identifier, from now on.
    pub fn new(
        project_id: &str,
        checkout_id: &Option<String>,
        branch: &str,
        commit_oid: &str,
        expected_remote_oid: &Option<String>,
    ) -> (r: Self)
        ensures
            random::is_tagged(r@.publication_id, "pub_"@, 20),
            clock::is_time(r@.created_at),
            r@.next_attempt_at == Some(r@.created_at),
            r@ == new_publication(
                r@.publication_id,
                project_id@,
                text::opt_view(*checkout_id),
                branch@,
                commit_oid@,
                text::opt_view(*expected_remote_oid),
                r@.created_at,
            ),
    {
        let unique = unique_simple();
        let digits = head_text(unique.as_str(), 20);
        let id = cat2("pub_", digits.as_str());
        let now = now_text();
        assert("pub_"@ =~= id@.subrange(0, "pub_"@.len() as int));
        assert(id@.skip("pub_"@.len() as int) =~= digits@);
        Publication::with(
            id.as_str(),
            project_id,
            checkout_id,
            branch,
            commit_oid,
            expected_remote_oid,
            now.as_str(),
        )
    }

    /// Whether the publication is still to be acknowledged.
    pub fn pending(&self) -> (r: bool)
        ensures
            r == is_pending(self@),
    {
        !same_text(self.state.as_str(), ACKNOWLEDGED)
    }

    /// Whether the publication is to be attempted at a point in time.
    pub fn due_at(&self, now: &Timestamp) -> (r: bool)
        ensures
            r == is_due(self@, *now),
    {
        self.pending() && match &self.next_attempt_at {
            Some(text) => match parse_rfc3339(text.as_str()) {
                Some(at) => at.not_after(now),
                None => true,
            },
            None => true,
        }
    }

    /// Whether the publication is to be attempted now.
    pub fn due(&self) -> (r: bool)
        ensures
            r ==> is_pending(self@),
            !is_pending(self@) ==> !r,
            is_pending(self@) && self@.next_attempt_at is None ==> r,
            is_pending(self@) && self@.next_attempt_at is Some && clock::instant_of(
                self@.next_attempt_at->0,
            ) is None ==> r,
            exists|t: Timestamp| #[trigger] is_due(self@, t) == r,
    {
        let t = now();
        self.due_at(&t)
    }

    /// Records that an attempt failed at a point in time; the next one follows after `retry`
    /// seconds: in the years with four digits, it is due exactly from then on. Nothing is recorded
    /// where one of the two points in time cannot be written.
    pub fn record_failure_at(&mut self, error: &str, retry_seconds: u64, now: &Timestamp) -> (r:
        bool)
        ensures
            ({
                let next = now.seconds + retry_seconds;
                let known = next <= i64::MAX && clock::rfc3339_of(now.seconds, now.nanos) is Some
                    && clock::rfc3339_of(next as i64, now.nanos) is Some;
                &&& r == known
                &&& !r ==> *final(self) == *old(self)
                &&& r ==> final(self)@ == after_failure(
                    old(self)@,
                    clock::rfc3339_of(now.seconds, now.nanos)->0,
                    clock::rfc3339_of(next as i64, now.nanos)->0,
                    error@,
                )
            }),
            ({
                let next = Timestamp {
                    seconds: (now.seconds + retry_seconds) as i64,
                    nanos: now.nanos,
                };
                clock::is_common(*now) && now.seconds + retry_seconds <= 253_402_300_799 ==> r
                    && forall|t: Timestamp| #[trigger]
                    is_due(final(self)@, t) == clock::not_after(next, t)
            }),
    {
        proof {
            reveal_strlit("PENDING");
            reveal_strlit("ACKNOWLEDGED");
            assert(PENDING@.len() != ACKNOWLEDGED@.len());
        }
        match now.plus(retry_seconds) {
            None => false,
            Some(later) => match (to_rfc3339(now), to_rfc3339(&later)) {
                (Some(this), Some(next)) => {
                    self.state = PENDING.to_owned();
                    self.last_attempt_at = Some(this);
                    self.next_attempt_at = Some(next);
                    self.last_error = Some(error.to_owned());
                    true
                },
                _ => false,
            },
        }
    }

    /// Records that an attempt failed now.
    pub fn record_failure(&mut self, error: &str, retry_seconds: u64) -> (r: bool)
        ensures
            exists|now: Timestamp| #[trigger]
                clock::rfc3339_of(now.seconds, now.nanos) is Some && is_recorded_failure(
                    old(self)@,
                    final(self)@,
                    error@,
                    retry_seconds,
                    now,
                    r,
                ),
    {
        let t = now();
        let r = self.record_failure_at(error, retry_seconds, &t);
        assert(clock::rfc3339_of(t.seconds, t.nanos) is Some && is_recorded_failure(
            old(self)@,
            self@,
            error@,
            retry_seconds,
            t,
            r,
        ));
        r
    }
}

/// The publications of this machine.
#[derive(Debug, Clone, PartialEq, Eq)]
pub struct PublicationQueue {
    pub version: u32,
    pub publications: Vec<Publication>,
}

/// The contents of a list of publications.
pub open spec fn publication_views(list: Seq<Publication>) -> Seq<PublicationView> {
    list.map_values(|p: Publication| p@)
}

/// What a [`PublicationQueue`] holds.
#[verifier::ext_equal]
pub struct PublicationQueueView {
    pub version: u32,
    pub publications: Seq<PublicationView>,
}

impl View for PublicationQueue {
    type V = PublicationQueueView;

    open spec fn view(&self) -> PublicationQueueView {
        PublicationQueueView {
            version: self.version,
            publications: publication_views(self.publications@),
        }
    }
}

/// The queue that was stored; an empty one where there is none.
pub open spec fn loaded_queue(stored: Option<PublicationQueue>) -> PublicationQueueView {
    match stored {
        Some(queue) => queue@,
        None => PublicationQueueView { version: 1, publications: Seq::empty() },
    }
}

/// The number of publications that are acknowledged.
pub open spec fn completed_count(list: Seq<PublicationView>) -> nat {
    list.filter(|p: PublicationView| !is_pending(p)).len()
}

/// A list without the first `n` publications that are acknowledged.
pub open spec fn without_completed(list: Seq<PublicationView>, n: nat) -> Seq<PublicationView>
    decreases list.len(),
{
    if list.len() == 0 {
        list
    } else if n > 0 && !is_pending(list[0]) {
        without_completed(list.skip(1), (n - 1) as nat)
    } else {
        seq![list[0]] + without_completed(list.skip(1), n)
    }
}

/// A list with at most [`COMPLETED_LIMIT`] publications that are acknowledged, the last ones.
pub open spec fn compacted(list: Seq<PublicationView>) -> Seq<PublicationView> {
    if completed_count(list) <= COMPLETED_LIMIT {
        list
    } else {
        without_completed(list, (completed_count(list) - COMPLETED_LIMIT) as nat)
    }
}

proof fn lemma_filter_front(list: Seq<PublicationView>, keep: spec_fn(PublicationView) -> bool)
    requires
        list.len() > 0,
    ensures
        list.filter(keep) == if keep(list[0]) {
            seq![list[0]] + list.skip(1).filter(keep)
        } else {
            list.skip(1).filter(keep)
        },
{
    assert(list =~= seq![list[0]] + list.skip(1));
    Seq::filter_distributes_over_add(seq![list[0]], list.skip(1), keep);
    assert(seq![list[0]].filter(keep) =~= if keep(list[0]) {
        seq![list[0]]
    } else {
        Seq::empty()
    }) by {
        reveal(Seq::filter);
        assert(seq![list[0]].drop_last() =~= Seq::empty());
        assert(seq![list[0]].drop_last().filter(keep) =~= Seq::empty());
    }
    assert(list.filter(keep) =~= if keep(list[0]) {
        seq![list[0]] + list.skip(1).filter(keep)
    } else {
        list.skip(1).filter(keep)
    });
}

proof fn lemma_without_completed(list: Seq<PublicationView>, n: nat)
    requires
        n <= completed_count(list),
    ensures
        without_completed(list, n).filter(|p: PublicationView| is_pending(p)) == list.filter(
            |p: PublicationView| is_pending(p),
        ),
        without_completed(list, n).filter(|p: PublicationView| !is_pending(p)) == list.filter(
            |p: PublicationView| !is_pending(p),
        ).skip(n as int),
    decreases list.len(),
{
    let open_ones = |p: PublicationView| is_pending(p);
    let done_ones = |p: PublicationView| !is_pending(p);
    if list.len() == 0 {
        reveal(Seq::filter);
        assert(list.filter(done_ones) =~= Seq::empty());
        assert(list.filter(done_ones).skip(n as int) =~= Seq::empty());
    } else {
        let rest = list.skip(1);
        lemma_filter_front(list, open_ones);
        lemma_filter_front(list, done_ones);
        if n > 0 && !is_pending(list[0]) {
            lemma_without_completed(rest, (n - 1) as nat);
            assert(list.filter(done_ones).skip(n as int) =~= rest.filter(done_ones).skip(n - 1));
        } else {
            let after = without_completed(rest, n);
            let whole = seq![list[0]] + after;
            if n > 0 {
                assert(completed_count(rest) == completed_count(list));
            }
            lemma_without_completed(rest, n);
            lemma_filter_front(whole, open_ones);
            lemma_filter_front(whole, done_ones);
            assert(whole.skip(1) =~= after);
            if n == 0 {
                assert(rest.filter(done_ones).skip(0) =~= rest.filter(done_ones));
                assert(list.filter(done_ones).skip(0) =~= list.filter(done_ones));
            }
        }
    }
}

/// Compacting a queue keeps every pending publication in its order, and of the acknowledged ones
/// the last [`COMPLETED_LIMIT`] in their order.
pub proof fn law_compacting_keeps_pending(list: Seq<PublicationView>)
    ensures
        compacted(list).filter(|p: PublicationView| is_pending(p)) == list.filter(
            |p: PublicationView| is_pending(p),
        ),
        completed_count(compacted(list)) <= COMPLETED_LIMIT,
        ({
            let done = list.filter(|p: PublicationView| !is_pending(p));
            let drop = if done.len() > COMPLETED_LIMIT {
                done.len() - COMPLETED_LIMIT
            } else {
                0
            };
            compacted(list).filter(|p: PublicationView| !is_pending(p)) == done.skip(drop)
        }),
{
    let done = list.filter(|p: PublicationView| !is_pending(p));
    if completed_count(list) > COMPLETED_LIMIT {
        lemma_without_completed(list, (completed_count(list) - COMPLETED_LIMIT) as nat);
    } else {
        assert(done.skip(0) =~= done);
    }
}

impl Default for PublicationQueue {
    fn default() -> (r: Self)
        ensures
            r.version == 1,
            r.publications@.len() == 0,
    {
        PublicationQueue { version: 1, publications: Vec::new() }
    }
}

impl PublicationQueue {
    /// The queue that was stored, else an empty one.
    pub fn load(stored: Option<PublicationQueue>) -> (r: Self)
        ensures
            r@ == loaded_queue(stored),
            stored matches Some(queue) ==> r == queue,
    {
        match stored {
            Some(queue) => queue,
            None => PublicationQueue::default(),
        }
    }

    /// Where the queue is stored, and the permissions of the file: only its owner may use it.
    pub fn persist(&self, paths: &StatePaths) -> (r: (String, u32))
        ensures
            r.0@ == paths::joined(paths@.root, "publications.json"@),
            r.1 == 0o600,
    {
        (queue_path(paths), 0o600)
    }

    /// Forgets acknowledged publications beyond the last [`COMPLETED_LIMIT`].
    pub fn compact(&mut self)
        ensures
            publication_views(final(self).publications@) == compacted(
                publication_views(old(self).publications@),
            ),
            final(self).version == old(self).version,
    {
        let ghost all = publication_views(self.publications@);
        let ghost done_ones = |p: PublicationView| !is_pending(p);
        let mut completed: usize = 0;
        let mut i: usize = 0;
        assert(all.take(0) =~= Seq::empty());
        assert(all.take(0).filter(done_ones).len() == 0) by {
            reveal(Seq::filter);
        }
        while i < self.publications.len()
            invariant
                0 <= i <= self.publications.len(),
                all == publication_views(self.publications@),
                done_ones == (|p: PublicationView| !is_pending(p)),
                completed == all.take(i as int).filter(done_ones).len(),
                completed <= i,
            decreases self.publications.len() - i,
        {
            let ghost next = all.take(i + 1);
            assert(next.drop_last() =~= all.take(i as int));
            assert(next.last() == self.publications@[i as int]@);
            reveal(Seq::filter);
            if !self.publications[i].pending() {
                completed += 1;
            }
            i += 1;
        }
        assert(all.take(i as int) =~= all);
        if completed <= COMPLETED_LIMIT {
            return;
        }
        let mut remove: usize = completed - COMPLETED_LIMIT;
        let ghost goal = without_completed(all, remove as nat);
        let mut kept: Vec<Publication> = Vec::new();
        let mut k: usize = 0;
        assert(all.skip(0) =~= all);
        assert(publication_views(kept@) =~= Seq::empty());
        assert(goal =~= publication_views(kept@) + without_completed(
            all.skip(0),
            remove as nat,
        ));
        while k < self.publications.len()
            invariant
                0 <= k <= self.publications.len(),
                all == publication_views(self.publications@),
                goal == publication_views(kept@) + without_completed(
                    all.skip(k as int),
                    remove as nat,
                ),
            decreases self.publications.len() - k,
        {
            let ghost rest = all.skip(k as int);
            assert(rest[0] == self.publications@[k as int]@);
            assert(rest.skip(1) =~= all.skip(k + 1));
            let ghost before = kept@;
            if remove > 0 && !self.publications[k].pending() {
                remove -= 1;
            } else {
                let ghost this = self.publications@[k as int]@;
                kept.push(self.publications[k].copy());
                assert(publication_views(kept@) =~= publication_views(before).push(this));
                assert(goal =~= publication_views(kept@) + without_completed(
                    all.skip(k + 1),
                    remove as nat,
                ));
            }
            k += 1;
        }
        assert(all.skip(k as int) =~= Seq::empty());
        assert(publication_views(kept@) =~= goal);
        self.publications = kept;
    }
}

/// Where the queue is stored.
pub fn queue_path(paths: &StatePaths) -> (r: String)
    ensures
        r@ == paths::joined(paths@.root, "publications.json"@),
{
    join_path(paths.root.as_str(), "publications.json")
}

/// What the provider says of a publication.
#[derive(Debug, Clone, PartialEq, Eq)]
pub enum ProviderPublication {
    Acknowledged(PublicationAck),
    /// The branch has moved: its commit, and the generation of the project.
    RemoteAdvanced { remote_head: Option<String>, project_generation: u64 },
}

/// Why a publication was not acknowledged.
#[derive(Debug, Clone, PartialEq, Eq)]
pub enum PublicationError {
    /// The service is no URL.
    Address(String),
    /// The acknowledgement is not one for this publication.
    InvalidAck,
    /// The provider refused, with these words.
    Rejected(String),
}

/// What a [`PublicationError`] says.
pub open spec fn publication_text(e: PublicationError) -> Seq<char> {
    match e {
        PublicationError::Address(url) => "invalid service URL "@ + url@,
        PublicationError::InvalidAck => "provider returned an invalid durability ACK"@,
        PublicationError::Rejected(words) => words@,
    }
}

impl PublicationError {
    /// The message of the error.
    pub fn message(&self) -> (r: String)
        ensures
            r@ == publication_text(*self),
    {
        match self {
            PublicationError::Address(url) => cat2("invalid service URL ", url.as_str()),
            PublicationError::InvalidAck => {
                "provider returned an invalid durability ACK".to_owned()
            },
            PublicationError::Rejected(words) => words.clone(),
        }
    }
}

/// The URL that a publication is sent to.
pub fn publication_url(service: &str, project_id: &str) -> (r: Result<String, PublicationError>)
    ensures
        match r {
            Ok(url) => address::url_resolved(
                service@,
                "/v1/projects/"@ + project_id@ + "/publications"@,
            ) == Some(url@),
            Err(e) => address::url_resolved(
                service@,
                "/v1/projects/"@ + project_id@ + "/publications"@,
            ) is None && (e matches PublicationError::Address(url) && url@ == service@),
        },
{
    let path = cat3("/v1/projects/", project_id, "/publications");
    match join_url(service, path.as_str()) {
        Some(url) => Ok(url),
        None => Err(PublicationError::Address(service.to_owned())),
    }
}

/// An acknowledgement of exactly this attempt of this publication.
pub open spec fn ack_matches(ack: PublicationAckView, p: PublicationView) -> bool {
    ack.durable && ack.publication_id == p.publication_id && ack.attempt == p.attempt
        && ack.project_id == p.project_id && ack.branch == p.branch && ack.accepted_oid
        == p.candidate_commit_oid
}

fn is_ack_for(ack: &PublicationAck, p: &Publication) -> (r: bool)
    ensures
        r == ack_matches(ack@, p@),
{
    ack.durable && same_text(ack.publication_id.as_str(), p.publication_id.as_str())
        && ack.attempt == p.attempt && same_text(ack.project_id.as_str(), p.project_id.as_str())
        && same_text(ack.branch.as_str(), p.branch.as_str()) && same_text(
        ack.accepted_oid.as_str(),
        p.candidate_commit_oid.as_str(),
    )
}

/// The acknowledgement that a document holds.
pub open spec fn parsed_ack(body: Json) -> Option<PublicationAckView> {
    match (
        json::record_text(body, 8, 0, "publication_id"@),
        json::record_number(body, 8, 1, "attempt"@),
        json::record_text(body, 8, 2, "project_id"@),
        json::record_text(body, 8, 3, "branch"@),
        json::record_text(body, 8, 4, "accepted_oid"@),
        json::record_text(body, 8, 5, "remote_head"@),
        json::record_number(body, 8, 6, "project_generation"@),
        json::record_field(body, 8, 7, "durable"@),
    ) {
        (
            Some(publication_id),
            Some(attempt),
            Some(project_id),
            Some(branch),
            Some(accepted_oid),
            Some(remote_head),
            Some(project_generation),
            Some(Json::Bool(durable)),
        ) => Some(
            PublicationAckView {
                publication_id,
                attempt: attempt as u64,
                project_id,
                branch,
                accepted_oid,
                remote_head,
                project_generation: project_generation as u64,
                durable,
            },
        ),
        _ => None,
    }
}

impl PublicationAck {
    /// Reads an acknowledgement.
    pub fn from_value(body: &Json) -> (r: Option<PublicationAck>)
        ensures
            match r {
                Some(ack) => parsed_ack(*body) == Some(ack@),
                None => parsed_ack(*body) is None,
            },
    {
        let durable = match body.record_at(8, 7, "durable") {
            Some(Json::Bool(value)) => Some(*value),
            _ => None,
        };
        match (
            body.record_text_at(8, 0, "publication_id"),
            body.record_number_at(8, 1, "attempt"),
            body.record_text_at(8, 2, "project_id"),
            body.record_text_at(8, 3, "branch"),
            body.record_text_at(8, 4, "accepted_oid"),
            body.record_text_at(8, 5, "remote_head"),
            body.record_number_at(8, 6, "project_generation"),
            durable,
        ) {
            (
                Some(publication_id),
                Some(attempt),
                Some(project_id),
                Some(branch),
                Some(accepted_oid),
                Some(remote_head),
                Some(project_generation),
                Some(durable),
            ) => Some(
                PublicationAck {
                    publication_id: publication_id.to_owned(),
                    attempt,
                    project_id: project_id.to_owned(),
                    branch: branch.to_owned(),
                    accepted_oid: accepted_oid.to_owned(),
                    remote_head: remote_head.to_owned(),
                    project_generation,
                    durable,
                },
            ),
            _ => None,
        }
    }
}

/// Whether a reply says that the branch has moved.
pub open spec fn says_advanced(status: u16, body: Json) -> bool {
    status == 409 && json::text_field(body, "outcome"@) == Some("REMOTE_ADVANCED"@)
}

/// What a provider is asked to acknowledge.
pub open spec fn acknowledgement_request(publication: PublicationView) -> JsonView {
    JsonView::Object(
        seq![
            ("publication_id"@, JsonView::Text(publication.publication_id)),
            ("attempt"@, JsonView::Number(text::decimal(publication.attempt as nat))),
            ("branch"@, JsonView::Text(publication.branch)),
            ("candidate_oid"@, JsonView::Text(publication.candidate_commit_oid)),
            ("expected_remote_oid"@, hooks::text_or_null(publication.expected_remote_oid)),
        ],
    )
}

/// Writes what a provider is asked to acknowledge.
pub fn acknowledgement_body(publication: &Publication) -> (r: Json)
    ensures
        r@ == acknowledgement_request(publication@),
{
    let fields = vec![
        text_pair("publication_id", publication.publication_id.as_str()),
        number_pair("attempt", publication.attempt),
        text_pair("branch", publication.branch.as_str()),
        text_pair("candidate_oid", publication.candidate_commit_oid.as_str()),
        option_pair("expected_remote_oid", &publication.expected_remote_oid),
    ];
    assert(json::field_views(fields@) =~= acknowledgement_request(publication@)->Object_0);
    make_object(fields)
}

/// Reads the reply of the provider to a publication.
pub fn acknowledge_with_provider(publication: &Publication, status: u16, body: &Json) -> (r: Result<
    ProviderPublication,
    PublicationError,
>)
    ensures
        match r {
            Ok(ProviderPublication::Acknowledged(ack)) => provider::is_success(status) && parsed_ack(*body)
                == Some(ack@) && ack_matches(ack@, publication@),
            Ok(ProviderPublication::RemoteAdvanced { remote_head, project_generation }) => {
                &&& !provider::is_success(status)
                &&& says_advanced(status, *body)
                &&& text::opt_view(remote_head) == json::text_field(*body, "remote_head"@)
                &&& project_generation == match json::number_field(*body, "project_generation"@) {
                    Some(n) => n,
                    None => 0,
                }
            },
            Err(PublicationError::InvalidAck) => provider::is_success(status) && !(parsed_ack(
                *body,
            ) matches Some(ack) && ack_matches(ack, publication@)),
            Err(PublicationError::Rejected(words)) => !provider::is_success(status) && !says_advanced(
                status,
                *body,
            ) && words@ == match json::text_field(*body, "error"@) {
                Some(text) => text,
                None => "provider rejected publication"@,
            },
            Err(_) => false,
        },
{
    if 200 <= status && status < 300 {
        return match PublicationAck::from_value(body) {
            Some(ack) => {
                if is_ack_for(&ack, publication) {
                    Ok(ProviderPublication::Acknowledged(ack))
                } else {
                    Err(PublicationError::InvalidAck)
                }
            },
            None => Err(PublicationError::InvalidAck),
        };
    }
    let advanced = status == 409 && match body.text_at("outcome") {
        Some(text) => same_text(text, "REMOTE_ADVANCED"),
        None => false,
    };
    if advanced {
        let remote_head = match body.text_at("remote_head") {
            Some(text) => Some(text.to_owned()),
            None => None,
        };
        let project_generation = match body.number_at("project_generation") {
            Some(n) => n,
            None => 0,
        };
        return Ok(ProviderPublication::RemoteAdvanced { remote_head, project_generation });
    }
    match body.text_at("error") {
        Some(text) => Err(PublicationError::Rejected(text.to_owned())),
        None => Err(PublicationError::Rejected("provider rejected publication".to_owned())),
    }
}

/// A queue that was stored is the one that is loaded, with its publications in the same order; a
/// missing one is empty.
pub proof fn law_stored_queue_is_loaded(queue: PublicationQueue)
    ensures
        loaded_queue(Some(queue)) == queue@,
        loaded_queue(None).version == 1,
        loaded_queue(None).publications.len() == 0,
{
}

} // verus!
