//! How the queued publications are delivered, one after another.
use vstd::prelude::*;
use crate::daemon;
use crate::publication;
use crate::text;
use crate::clock::Timestamp;
use crate::daemon::{attempts, attempts_at};
use crate::publication::PublicationQueue;

verus! {

/// What is done next with a publication.
#[derive(Debug, Clone, Copy, PartialEq, Eq, Structural)]
pub enum FlushStage {
    /// Look whether it is still to be delivered.
    Find,
    /// Deliver it.
    Deliver,
    /// Take note of its failure.
    Record,
    /// Take note of the failure at its project.
    Mark,
    /// The run has ended early.
    Broken,
}

/// A run over the queued publications.
#[derive(Debug)]
pub struct Flush {
    pub stage: FlushStage,
    /// The publications, in the order in which they are delivered.
    pub ids: Vec<String>,
    /// Which of them it is the turn of.
    pub at: usize,
    /// The project of that one.
    pub project: String,
    /// Why its delivery failed.
    pub error: String,
    /// Why the run has ended early.
    pub failure: String,
}

/// What a [`Flush`] holds.
#[verifier::ext_equal]
pub struct FlushView {
    pub stage: FlushStage,
    pub ids: Seq<Seq<char>>,
    pub at: int,
    pub project: Seq<char>,
    pub error: Seq<char>,
    pub failure: Seq<char>,
}

impl View for Flush {
    type V = FlushView;

    open spec fn view(&self) -> FlushView {
        FlushView {
            stage: self.stage,
            ids: text::views(self.ids@),
            at: self.at as int,
            project: self.project@,
            error: self.error@,
            failure: self.failure@,
        }
    }
}

/// What is to be done.
#[derive(Debug, Clone, PartialEq, Eq)]
pub enum FlushAction {
    /// Look up the project of a publication that is still to be delivered.
    Find(String),
    /// Deliver a publication.
    Deliver(String),
    /// Note at a publication why its delivery failed, and store the queue.
    Record(String, String),
    /// Note at a project why a delivery failed, and store the projects.
    Mark(String, String),
    /// All had their turn.
    Return,
    /// The run has ended early, for this reason.
    Fail(String),
}

/// What a [`FlushAction`] holds.
pub enum FlushActionView {
    Find(Seq<char>),
    Deliver(Seq<char>),
    Record(Seq<char>, Seq<char>),
    Mark(Seq<char>, Seq<char>),
    Return,
    Fail(Seq<char>),
}

impl View for FlushAction {
    type V = FlushActionView;

    open spec fn view(&self) -> FlushActionView {
        match *self {
            FlushAction::Find(a) => FlushActionView::Find(a@),
            FlushAction::Deliver(a) => FlushActionView::Deliver(a@),
            FlushAction::Record(a, b) => FlushActionView::Record(a@, b@),
            FlushAction::Mark(a, b) => FlushActionView::Mark(a@, b@),
            FlushAction::Return => FlushActionView::Return,
            FlushAction::Fail(a) => FlushActionView::Fail(a@),
        }
    }
}

/// What came of a step.
#[derive(Debug)]
pub enum FlushEvent {
    /// The project of the publication, where it is still to be delivered.
    Found(Option<String>),
    /// What was asked for is done.
    Did,
    Failed(String),
}

/// What a [`FlushEvent`] holds.
pub enum FlushEventView {
    Found(Option<Seq<char>>),
    Did,
    Failed(Seq<char>),
}

impl View for FlushEvent {
    type V = FlushEventView;

    open spec fn view(&self) -> FlushEventView {
        match *self {
            FlushEvent::Found(a) => FlushEventView::Found(text::opt_view(a)),
            FlushEvent::Did => FlushEventView::Did,
            FlushEvent::Failed(a) => FlushEventView::Failed(a@),
        }
    }
}

/// A run at its start.
pub open spec fn flush_start(ids: Seq<Seq<char>>) -> FlushView {
    FlushView {
        stage: FlushStage::Find,
        ids,
        at: 0,
        project: Seq::empty(),
        error: Seq::empty(),
        failure: Seq::empty(),
    }
}

/// What is to be done next.
pub open spec fn flush_requested(s: FlushView) -> FlushActionView {
    if s.stage == FlushStage::Broken {
        FlushActionView::Fail(s.failure)
    } else if s.at >= s.ids.len() {
        FlushActionView::Return
    } else {
        match s.stage {
            FlushStage::Find => FlushActionView::Find(s.ids[s.at]),
            FlushStage::Deliver => FlushActionView::Deliver(s.ids[s.at]),
            FlushStage::Record => FlushActionView::Record(s.ids[s.at], s.error),
            FlushStage::Mark => FlushActionView::Mark(s.project, s.error),
            FlushStage::Broken => FlushActionView::Fail(s.failure),
        }
    }
}

/// A run with the next publication's turn.
pub open spec fn flush_next(s: FlushView) -> FlushView {
    FlushView { stage: FlushStage::Find, at: s.at + 1, ..s }
}

/// What holds after a step. A delivery that fails is noted and the run goes on; another step that
/// fails ends it.
pub open spec fn flush_after(s: FlushView, e: FlushEventView) -> FlushView {
    if s.stage == FlushStage::Broken || s.at >= s.ids.len() {
        s
    } else {
        match (s.stage, e) {
            (FlushStage::Deliver, FlushEventView::Failed(reason)) => FlushView {
                stage: FlushStage::Record,
                error: reason,
                ..s
            },
            (_, FlushEventView::Failed(reason)) => FlushView {
                stage: FlushStage::Broken,
                failure: reason,
                ..s
            },
            (FlushStage::Find, FlushEventView::Found(Some(project))) => FlushView {
                stage: FlushStage::Deliver,
                project,
                ..s
            },
            (FlushStage::Find, FlushEventView::Found(None)) => flush_next(s),
            (FlushStage::Deliver, FlushEventView::Did) => flush_next(s),
            (FlushStage::Record, FlushEventView::Did) => FlushView {
                stage: FlushStage::Mark,
                ..s
            },
            (FlushStage::Mark, FlushEventView::Did) => flush_next(s),
            _ => s,
        }
    }
}

fn start(ids: Vec<String>) -> (r: Flush)
    ensures
        r@ == flush_start(text::views(ids@)),
{
    let ghost all = text::views(ids@);
    let r = Flush {
        stage: FlushStage::Find,
        ids,
        at: 0,
        project: String::new(),
        error: String::new(),
        failure: String::new(),
    };
    assert(r@ =~= flush_start(all));
    r
}

/// Starts a run over the publications that are to be attempted at a point in time.
pub fn process_publications_at(queue: &PublicationQueue, force: bool, now: &Timestamp) -> (r: Flush)
    ensures
        r@ == flush_start(
            daemon::attempt_order(
                publication::publication_views(queue.publications@),
                force,
                *now,
            ),
        ),
{
    start(attempts_at(queue, force, now))
}

/// Starts a run over the publications that are to be attempted now.
pub fn process_publications(queue: &PublicationQueue, force: bool) -> (r: Flush)
    ensures
        exists|now: Timestamp|
            r@ == flush_start(
                #[trigger] daemon::attempt_order(
                    publication::publication_views(queue.publications@),
                    force,
                    now,
                ),
            ),
{
    start(attempts(queue, force))
}

impl Flush {
    /// What is to be done next.
    pub fn request(&self) -> (r: FlushAction)
        ensures
            r@ == flush_requested(self@),
    {
        if self.stage == FlushStage::Broken {
            return FlushAction::Fail(self.failure.clone());
        }
        if self.at >= self.ids.len() {
            return FlushAction::Return;
        }
        match self.stage {
            FlushStage::Find => FlushAction::Find(self.ids[self.at].clone()),
            FlushStage::Deliver => FlushAction::Deliver(self.ids[self.at].clone()),
            FlushStage::Record => FlushAction::Record(
                self.ids[self.at].clone(),
                self.error.clone(),
            ),
            FlushStage::Mark => FlushAction::Mark(self.project.clone(), self.error.clone()),
            FlushStage::Broken => FlushAction::Fail(self.failure.clone()),
        }
    }

    fn next(&mut self)
        requires
            old(self).at < old(self).ids.len(),
        ensures
            final(self)@ == flush_next(old(self)@),
    {
        self.stage = FlushStage::Find;
        self.at = self.at + 1;
    }

    /// Takes what came of the step that was asked for.
    pub fn advance(&mut self, event: FlushEvent)
        ensures
            final(self)@ == flush_after(old(self)@, event@),
    {
        if self.stage == FlushStage::Broken || self.at >= self.ids.len() {
            return;
        }
        match event {
            FlushEvent::Failed(reason) => {
                if self.stage == FlushStage::Deliver {
                    self.error = reason;
                    self.stage = FlushStage::Record;
                } else {
                    self.failure = reason;
                    self.stage = FlushStage::Broken;
                }
            },
            FlushEvent::Found(found) => {
                if self.stage == FlushStage::Find {
                    match found {
                        Some(project) => {
                            self.project = project;
                            self.stage = FlushStage::Deliver;
                        },
                        None => {
                            self.next();
                        },
                    }
                }
            },
            FlushEvent::Did => match self.stage {
                FlushStage::Deliver => {
                    self.next();
                },
                FlushStage::Record => {
                    self.stage = FlushStage::Mark;
                },
                FlushStage::Mark => {
                    self.next();
                },
                _ => {},
            },
        }
    }
}

/// What holds after a number of steps.
pub open spec fn flush_replayed(s: FlushView, events: Seq<FlushEventView>) -> FlushView
    decreases events.len(),
{
    if events.len() == 0 {
        s
    } else {
        flush_after(flush_replayed(s, events.drop_last()), events.last())
    }
}

/// A delivery that fails keeps no other publication from its turn: the failure is noted at the
/// publication and at the project, and the next one follows.
pub proof fn law_failed_delivery_is_passed_over(s: FlushView, reason: Seq<char>)
    requires
        flush_requested(s) is Deliver,
    ensures
        ({
            let failed = flush_after(s, FlushEventView::Failed(reason));
            let recorded = flush_after(failed, FlushEventView::Did);
            let marked = flush_after(recorded, FlushEventView::Did);
            &&& flush_requested(failed) == FlushActionView::Record(s.ids[s.at], reason)
            &&& flush_requested(recorded) == FlushActionView::Mark(s.project, reason)
            &&& marked.ids == s.ids
            &&& s.at + 1 < s.ids.len() ==> flush_requested(marked) == FlushActionView::Find(
                s.ids[s.at + 1],
            )
            &&& s.at + 1 == s.ids.len() ==> flush_requested(marked) is Return
        }),
{
}

/// A run that has not ended early is over only once every publication had its turn, each in its
/// order.
pub proof fn law_all_have_their_turn(ids: Seq<Seq<char>>, events: Seq<FlushEventView>)
    ensures
        ({
            let now = flush_replayed(flush_start(ids), events);
            &&& now.ids == ids
            &&& 0 <= now.at <= ids.len()
            &&& flush_requested(now) is Return ==> now.at == ids.len()
            &&& events.len() > 0 ==> {
                let was = flush_replayed(flush_start(ids), events.drop_last());
                now.at == was.at || now.at == was.at + 1
            }
        }),
    decreases events.len(),
{
    if events.len() > 0 {
        law_all_have_their_turn(ids, events.drop_last());
    }
}

} // verus!
