//! The collection of records and recovery refs that nothing needs any more.
use vstd::prelude::*;
use crate::history;
use crate::text;
use crate::transaction;
use crate::process::{GitCall, GitCallView};
use crate::transaction::{
    delete_recovery_refs_batch, gc_plan, GcEntry, GcEntryView, GcPlan, GcPlanView,
    ScannedRecordView, Transaction, TransactionError, TransactionGcReport, TransactionRetention,
    TransactionView,
};

verus! {

/// What is done next.
#[derive(Debug, Clone, Copy, PartialEq, Eq, Structural)]
pub enum CollectStage {
    /// List the recovery refs of a project.
    List,
    /// Delete the refs of a project that nothing needs.
    Delete,
    /// Remove the directories that this left empty.
    Clean,
    /// Write a record anew, or remove it.
    Change,
    Finished,
}

/// A collection.
#[derive(Debug)]
pub struct Collection {
    pub stage: CollectStage,
    /// The records that could be read.
    pub entries: Vec<GcEntry>,
    /// How many could not.
    pub invalid_retained: usize,
    /// The projects whose refs are looked at.
    pub paths: Vec<String>,
    /// The refs that the first of them were found to have.
    pub refs: Vec<Option<Vec<String>>>,
    pub retention: TransactionRetention,
    pub dry_run: bool,
    pub plan: Option<GcPlan>,
    /// The place in the deletions, or in the changes, of the plan.
    pub at: usize,
    pub failure: Option<String>,
}

/// What a [`Collection`] holds.
#[verifier::ext_equal]
pub struct CollectionView {
    pub stage: CollectStage,
    pub entries: Seq<GcEntryView>,
    pub invalid_retained: usize,
    pub paths: Seq<Seq<char>>,
    pub refs: Seq<Option<Seq<Seq<char>>>>,
    pub retention: TransactionRetention,
    pub dry_run: bool,
    pub plan: Option<GcPlanView>,
    pub at: int,
    pub failure: Option<Seq<char>>,
}

impl View for Collection {
    type V = CollectionView;

    open spec fn view(&self) -> CollectionView {
        CollectionView {
            stage: self.stage,
            entries: transaction::entry_views(self.entries@),
            invalid_retained: self.invalid_retained,
            paths: text::views(self.paths@),
            refs: transaction::ref_views(self.refs@),
            retention: self.retention,
            dry_run: self.dry_run,
            plan: match self.plan {
                Some(plan) => Some(plan@),
                None => None,
            },
            at: self.at as int,
            failure: text::opt_view(self.failure),
        }
    }
}

/// What is to be done.
#[derive(Debug)]
pub enum CollectAction {
    /// List the recovery refs of the project at a path.
    Refs(String),
    /// Run a command, which must succeed.
    Git(GitCall),
    /// Remove the empty directories of recovery refs of the project at a path.
    Clean(String),
    /// Write a record.
    Save(Transaction),
    /// Remove the file of a record.
    Remove(String),
    /// The collection is over, with this report.
    Return(TransactionGcReport),
    /// The collection failed, for this reason.
    Fail(String),
}

/// What a [`CollectAction`] holds.
pub enum CollectActionView {
    Refs(Seq<char>),
    Git(GitCallView),
    Clean(Seq<char>),
    Save(TransactionView),
    Remove(Seq<char>),
    Return(TransactionGcReport),
    Fail(Seq<char>),
}

impl View for CollectAction {
    type V = CollectActionView;

    open spec fn view(&self) -> CollectActionView {
        match *self {
            CollectAction::Refs(path) => CollectActionView::Refs(path@),
            CollectAction::Git(call) => CollectActionView::Git(call@),
            CollectAction::Clean(path) => CollectActionView::Clean(path@),
            CollectAction::Save(t) => CollectActionView::Save(t@),
            CollectAction::Remove(path) => CollectActionView::Remove(path@),
            CollectAction::Return(report) => CollectActionView::Return(report),
            CollectAction::Fail(reason) => CollectActionView::Fail(reason@),
        }
    }
}

/// What came of a step.
#[derive(Debug)]
pub enum CollectEvent {
    /// The refs of the project; none where it could not be asked.
    Listed(Option<Vec<String>>),
    /// What was asked for is done.
    Did,
    Failed(String),
}

/// What a [`CollectEvent`] holds.
pub enum CollectEventView {
    Listed(Option<Seq<Seq<char>>>),
    Did,
    Failed(Seq<char>),
}

impl View for CollectEvent {
    type V = CollectEventView;

    open spec fn view(&self) -> CollectEventView {
        match *self {
            CollectEvent::Listed(list) => CollectEventView::Listed(transaction::list_view(list)),
            CollectEvent::Did => CollectEventView::Did,
            CollectEvent::Failed(reason) => CollectEventView::Failed(reason@),
        }
    }
}

/// What is said of a ref that is no recovery ref.
pub open spec fn refused_ref(name: Seq<char>) -> Seq<char> {
    "refusing to operate on invalid recovery ref "@ + name
}

/// The first name of a list, from position `i`, that is no recovery ref.
pub open spec fn bad_name(names: Seq<Seq<char>>, i: int) -> Option<Seq<char>>
    decreases names.len() - i,
{
    if i >= names.len() {
        None
    } else if !transaction::valid_recovery_ref(names[i]) {
        Some(names[i])
    } else {
        bad_name(names, i + 1)
    }
}

/// The plan of a collection whose refs are listed.
pub open spec fn plan_of(s: CollectionView) -> GcPlanView {
    transaction::planned(
        s.entries,
        s.invalid_retained,
        s.paths,
        s.refs,
        s.retention.debug_history,
        s.dry_run,
    )
}

/// A collection that failed.
pub open spec fn collect_failed(s: CollectionView, reason: Seq<char>) -> CollectionView {
    CollectionView { stage: CollectStage::Finished, failure: Some(reason), ..s }
}

/// A collection that goes on with a change of its plan.
pub open spec fn collect_changing(s: CollectionView, at: int) -> CollectionView {
    if at < s.plan->0.changes.len() {
        CollectionView { stage: CollectStage::Change, at, ..s }
    } else {
        CollectionView { stage: CollectStage::Finished, ..s }
    }
}

/// A collection that goes on with a deletion of its plan, and after the last one with its changes.
pub open spec fn collect_deleting(s: CollectionView, at: int) -> CollectionView {
    if at < s.plan->0.deletions.len() {
        match bad_name(s.plan->0.deletions[at].1, 0) {
            Some(name) => collect_failed(s, refused_ref(name)),
            None => CollectionView { stage: CollectStage::Delete, at, ..s },
        }
    } else {
        collect_changing(s, 0)
    }
}

/// A collection once more refs are listed: it is planned where all are.
pub open spec fn collect_listed(s: CollectionView) -> CollectionView {
    if s.refs.len() < s.paths.len() {
        CollectionView { stage: CollectStage::List, ..s }
    } else {
        match transaction::bad_ref(s.entries, 0) {
            Some(name) => collect_failed(s, refused_ref(name)),
            None => collect_deleting(CollectionView { plan: Some(plan_of(s)), ..s }, 0),
        }
    }
}

/// A collection at its start.
pub open spec fn collect_start(
    entries: Seq<GcEntryView>,
    invalid_retained: usize,
    paths: Seq<Seq<char>>,
    retention: TransactionRetention,
    dry_run: bool,
) -> CollectionView {
    collect_listed(
        CollectionView {
            stage: CollectStage::Finished,
            entries,
            invalid_retained,
            paths,
            refs: Seq::empty(),
            retention,
            dry_run,
            plan: None,
            at: 0,
            failure: None,
        },
    )
}

/// What is to be done next.
pub open spec fn collect_requested(s: CollectionView) -> CollectActionView {
    let plan = s.plan->0;
    match s.stage {
        CollectStage::List => CollectActionView::Refs(s.paths[s.refs.len() as int]),
        CollectStage::Delete => CollectActionView::Git(
            transaction::batch_call(plan.deletions[s.at].0, plan.deletions[s.at].1),
        ),
        CollectStage::Clean => CollectActionView::Clean(plan.deletions[s.at].0),
        CollectStage::Change => {
            let entry = s.entries[plan.changes[s.at]];
            if entry.retain {
                CollectActionView::Save(entry.transaction)
            } else {
                CollectActionView::Remove(entry.transaction.path)
            }
        },
        CollectStage::Finished => match s.failure {
            Some(reason) => CollectActionView::Fail(reason),
            None => CollectActionView::Return(plan.report),
        },
    }
}

/// What holds after a step.
pub open spec fn collect_after(s: CollectionView, e: CollectEventView) -> CollectionView {
    match (s.stage, e) {
        (CollectStage::Finished, _) => s,
        (_, CollectEventView::Failed(reason)) => collect_failed(s, reason),
        (CollectStage::List, CollectEventView::Listed(list)) => collect_listed(
            CollectionView { refs: s.refs.push(list), ..s },
        ),
        (CollectStage::Delete, CollectEventView::Did) => CollectionView {
            stage: CollectStage::Clean,
            ..s
        },
        (CollectStage::Clean, CollectEventView::Did) => collect_deleting(s, s.at + 1),
        (CollectStage::Change, CollectEventView::Did) => collect_changing(s, s.at + 1),
        _ => s,
    }
}

/// What a collection can count.
pub open spec fn collect_fits(s: CollectionView) -> bool {
    &&& s.entries.len() + s.invalid_retained <= usize::MAX
    &&& transaction::reclaims(s.entries, s.entries.len() as int) <= u64::MAX
    &&& s.refs.len() <= s.paths.len()
    &&& transaction::refs_total(s.refs, s.refs.len() as int) <= usize::MAX
}

/// A collection whose stage fits its plan.
pub open spec fn collect_valid(s: CollectionView) -> bool {
    &&& collect_fits(s)
    &&& s.stage == CollectStage::List <==> s.refs.len() < s.paths.len() && s.failure is None
    &&& s.stage != CollectStage::Finished ==> s.failure is None
    &&& s.stage != CollectStage::List && s.failure is None ==> s.plan == Some(plan_of(s))
    &&& s.stage == CollectStage::Delete || s.stage == CollectStage::Clean ==> 0 <= s.at
        < s.plan->0.deletions.len()
    &&& s.stage == CollectStage::Delete ==> bad_name(s.plan->0.deletions[s.at].1, 0) is None
    &&& s.stage == CollectStage::Change ==> 0 <= s.at < s.plan->0.changes.len()
}

/// Whether the refs of an event can be counted with those that were listed before.
pub open spec fn collect_accepts(s: CollectionView, e: CollectEventView) -> bool {
    match e {
        CollectEventView::Listed(Some(list)) => transaction::refs_total(
            s.refs,
            s.refs.len() as int,
        ) + list.len() <= usize::MAX,
        _ => true,
    }
}

proof fn lemma_bad_name(names: Seq<Seq<char>>, from: int, i: int)
    requires
        0 <= from <= i <= names.len(),
        forall|j: int| from <= j < i ==> transaction::valid_recovery_ref(#[trigger] names[j]),
    ensures
        bad_name(names, from) == bad_name(names, i),
    decreases i - from,
{
    if from < i {
        lemma_bad_name(names, from + 1, i);
    }
}

proof fn lemma_no_bad_name(names: Seq<Seq<char>>, from: int, i: int)
    requires
        0 <= from <= i < names.len(),
        bad_name(names, from) is None,
    ensures
        transaction::valid_recovery_ref(names[i]),
    decreases i - from,
{
    if from < i {
        lemma_no_bad_name(names, from + 1, i);
    }
}

proof fn lemma_refs_pushed(refs: Seq<Option<Seq<Seq<char>>>>, list: Option<Seq<Seq<char>>>, n: int)
    requires
        0 <= n <= refs.len(),
    ensures
        transaction::refs_total(refs.push(list), n) == transaction::refs_total(refs, n),
    decreases n,
{
    if n > 0 {
        lemma_refs_pushed(refs, list, n - 1);
        assert(refs.push(list)[n - 1] == refs[n - 1]);
    }
}

fn bad_name_of(path: &str, names: &Vec<String>) -> (r: Option<String>)
    ensures
        match r {
            Some(reason) => bad_name(text::views(names@), 0) matches Some(name) && reason@
                == refused_ref(name),
            None => bad_name(text::views(names@), 0) is None,
        },
{
    let ghost all = text::views(names@);
    match delete_recovery_refs_batch(path, names) {
        Ok(_) => {
            proof {
                assert forall|j: int| 0 <= j < all.len() implies transaction::valid_recovery_ref(
                    #[trigger] all[j],
                ) by {
                    assert(all[j] == names@[j]@);
                }
                lemma_bad_name(all, 0, all.len() as int);
            }
            None
        },
        Err(e) => {
            proof {
                let i = choose|i: int|
                    #![trigger names@[i]]
                    0 <= i < names.len() && !transaction::valid_recovery_ref(names@[i]@) && (
                    e matches TransactionError::InvalidRecoveryRef(name) && name@ == names@[i]@)
                        && forall|j: int|
                        0 <= j < i ==> transaction::valid_recovery_ref((#[trigger] names@[j])@);
                assert forall|j: int| 0 <= j < i implies transaction::valid_recovery_ref(
                    #[trigger] all[j],
                ) by {
                    assert(all[j] == names@[j]@);
                }
                lemma_bad_name(all, 0, i);
                assert(all[i] == names@[i]@);
            }
            Some(e.message())
        },
    }
}

/// Starts a collection of entries.
pub(crate) fn start(
    entries: Vec<GcEntry>,
    invalid_retained: usize,
    paths: Vec<String>,
    retention: TransactionRetention,
    dry_run: bool,
) -> (r: Collection)
    requires
        entries.len() + invalid_retained <= usize::MAX,
        transaction::reclaims(transaction::entry_views(entries@), entries.len() as int)
            <= u64::MAX,
    ensures
        r@ == collect_start(
            transaction::entry_views(entries@),
            invalid_retained,
            text::views(paths@),
            retention,
            dry_run,
        ),
        collect_valid(r@),
{
    let ghost all = transaction::entry_views(entries@);
    let ghost places = text::views(paths@);
    let mut r = Collection {
        stage: CollectStage::Finished,
        entries,
        invalid_retained,
        paths,
        refs: Vec::new(),
        retention,
        dry_run,
        plan: None,
        at: 0,
        failure: None,
    };
    assert(r@.refs =~= Seq::empty());
    assert(all.len() == entries.len());
    r.listed();
    assert(r@ =~= collect_start(all, invalid_retained, places, retention, dry_run));
    r
}

impl Collection {
    fn fail(&mut self, reason: String)
        ensures
            final(self)@ == collect_failed(old(self)@, reason@),
    {
        self.failure = Some(reason);
        self.stage = CollectStage::Finished;
    }

    fn change_from(&mut self, at: usize)
        requires
            old(self).plan is Some,
        ensures
            final(self)@ == collect_changing(old(self)@, at as int),
    {
        let count = match &self.plan {
            Some(plan) => plan.changes.len(),
            None => 0,
        };
        if at < count {
            self.at = at;
            self.stage = CollectStage::Change;
        } else {
            self.stage = CollectStage::Finished;
        }
    }

    fn delete_from(&mut self, at: usize)
        requires
            old(self).plan is Some,
        ensures
            final(self)@ == collect_deleting(old(self)@, at as int),
    {
        let found = match &self.plan {
            Some(plan) => {
                let ghost all = transaction::deletion_views(plan.deletions@);
                if at < plan.deletions.len() {
                    assert(all[at as int] == (
                        plan.deletions@[at as int].project_path@,
                        text::views(plan.deletions@[at as int].references@),
                    ));
                    Some(
                        bad_name_of(
                            plan.deletions[at].project_path.as_str(),
                            &plan.deletions[at].references,
                        ),
                    )
                } else {
                    None
                }
            },
            None => None,
        };
        match found {
            Some(Some(reason)) => {
                self.fail(reason);
            },
            Some(None) => {
                self.at = at;
                self.stage = CollectStage::Delete;
            },
            None => {
                self.change_from(0);
            },
        }
    }

    fn listed(&mut self)
        requires
            collect_fits(old(self)@),
            old(self)@.failure is None,
        ensures
            final(self)@ == collect_listed(old(self)@),
            collect_valid(final(self)@),
    {
        if self.refs.len() < self.paths.len() {
            self.stage = CollectStage::List;
            return ;
        }
        let ghost before = self@;
        assert(self@.refs.len() == self.refs.len());
        assert(self@.entries.len() == self.entries.len());
        match gc_plan(
            &self.entries,
            self.invalid_retained,
            &self.paths,
            &self.refs,
            self.retention,
            self.dry_run,
        ) {
            Err(e) => {
                let reason = e.message();
                self.fail(reason);
            },
            Ok(plan) => {
                self.plan = Some(plan);
                assert(self@ =~= (CollectionView { plan: Some(plan_of(before)), ..before }));
                self.delete_from(0);
            },
        }
    }

    /// What is to be done next.
    pub fn request(&self) -> (r: CollectAction)
        requires
            collect_valid(self@),
        ensures
            r@ == collect_requested(self@),
    {
        if self.stage == CollectStage::List {
            assert(self@.refs.len() == self.refs.len());
            return CollectAction::Refs(self.paths[self.refs.len()].clone());
        }
        match (&self.failure, &self.plan) {
            (Some(reason), _) => CollectAction::Fail(reason.clone()),
            (None, Some(plan)) => self.of_plan(plan),
            (None, None) => {
                assert(false);
                CollectAction::Fail(String::new())
            },
        }
    }

    fn of_plan(&self, plan: &GcPlan) -> (r: CollectAction)
        requires
            collect_valid(self@),
            self@.plan == Some(plan@),
            self@.failure is None,
            self@.stage != CollectStage::List,
        ensures
            r@ == collect_requested(self@),
    {
        let ghost deletions = transaction::deletion_views(plan.deletions@);
        let ghost changes = history::indices(plan.changes@);
        match self.stage {
            CollectStage::Delete => {
                let deletion = &plan.deletions[self.at];
                assert(deletions[self.at as int] == (
                    deletion.project_path@,
                    text::views(deletion.references@),
                ));
                match delete_recovery_refs_batch(
                    deletion.project_path.as_str(),
                    &deletion.references,
                ) {
                    Ok(call) => CollectAction::Git(call),
                    Err(_) => {
                        proof {
                            let names = text::views(deletion.references@);
                            let i = choose|i: int|
                                #![trigger deletion.references@[i]]
                                0 <= i < deletion.references.len()
                                    && !transaction::valid_recovery_ref(
                                    deletion.references@[i]@,
                                );
                            assert(names[i] == deletion.references@[i]@);
                            lemma_no_bad_name(names, 0, i);
                            assert(false);
                        }
                        CollectAction::Fail(String::new())
                    },
                }
            },
            CollectStage::Clean => {
                let deletion = &plan.deletions[self.at];
                assert(deletions[self.at as int].0 == deletion.project_path@);
                CollectAction::Clean(deletion.project_path.clone())
            },
            CollectStage::Change => {
                proof {
                    transaction::lemma_chosen(
                        self@.entries,
                        |e: GcEntryView| transaction::is_changed(e),
                        self@.entries.len() as int,
                        self.at as int,
                    );
                }
                let i: usize = plan.changes[self.at];
                assert(changes[self.at as int] == i as int);
                assert(self@.entries.len() == self.entries.len());
                let entry = &self.entries[i];
                assert(self@.entries[i as int] == entry@);
                if entry.retain {
                    CollectAction::Save(entry.transaction.copy())
                } else {
                    CollectAction::Remove(entry.transaction.path.clone())
                }
            },
            _ => CollectAction::Return(plan.report),
        }
    }

    /// Takes what came of the step that was asked for.
    pub fn advance(&mut self, event: CollectEvent)
        requires
            collect_valid(old(self)@),
            collect_accepts(old(self)@, event@),
        ensures
            final(self)@ == collect_after(old(self)@, event@),
            collect_valid(final(self)@),
    {
        match event {
            CollectEvent::Failed(reason) => {
                if self.stage != CollectStage::Finished {
                    self.fail(reason);
                }
            },
            CollectEvent::Listed(list) => {
                if self.stage == CollectStage::List {
                    let ghost before = self@;
                    let ghost seen = transaction::list_view(list);
                    assert(before.refs.len() == self.refs.len());
                    self.refs.push(list);
                    assert(self@.refs =~= before.refs.push(seen));
                    proof {
                        lemma_refs_pushed(before.refs, seen, before.refs.len() as int);
                    }
                    assert(self@ =~= (CollectionView { refs: before.refs.push(seen), ..before }));
                    self.listed();
                }
            },
            CollectEvent::Did => match self.stage {
                CollectStage::Delete => {
                    self.stage = CollectStage::Clean;
                },
                CollectStage::Clean => {
                    let ghost n = self@.plan->0.deletions.len();
                    assert(n == self.plan->0.deletions.len());
                    self.delete_from(self.at + 1);
                },
                CollectStage::Change => {
                    let ghost n = self@.plan->0.changes.len();
                    assert(n == self.plan->0.changes.len());
                    self.change_from(self.at + 1);
                },
                _ => {},
            },
        }
    }
}

/// What holds after a number of steps.
pub open spec fn collect_replayed(
    s: CollectionView,
    events: Seq<CollectEventView>,
) -> CollectionView
    decreases events.len(),
{
    if events.len() == 0 {
        s
    } else {
        collect_after(collect_replayed(s, events.drop_last()), events.last())
    }
}

/// What stays as it is, and what the plan is.
spec fn is_run_of(s: CollectionView, now: CollectionView) -> bool {
    &&& now.entries == s.entries
    &&& now.invalid_retained == s.invalid_retained
    &&& now.paths == s.paths
    &&& now.retention == s.retention
    &&& now.dry_run == s.dry_run
    &&& now.refs.len() <= now.paths.len()
    &&& now.stage != CollectStage::Finished ==> now.failure is None
    &&& now.stage == CollectStage::List ==> now.refs.len() < now.paths.len()
    &&& now.stage != CollectStage::List && now.failure is None ==> now.plan == Some(plan_of(now))
        && now.refs.len() == now.paths.len()
    &&& now.stage == CollectStage::Delete || now.stage == CollectStage::Clean ==> 0 <= now.at
        < now.plan->0.deletions.len()
    &&& now.stage == CollectStage::Change ==> 0 <= now.at < now.plan->0.changes.len()
}

proof fn lemma_run(
    entries: Seq<GcEntryView>,
    invalid_retained: usize,
    paths: Seq<Seq<char>>,
    retention: TransactionRetention,
    dry_run: bool,
    events: Seq<CollectEventView>,
)
    ensures
        ({
            let s = collect_start(entries, invalid_retained, paths, retention, dry_run);
            let now = collect_replayed(s, events);
            &&& is_run_of(s, now)
            &&& now.entries == entries
            &&& now.invalid_retained == invalid_retained
            &&& now.paths == paths
            &&& now.retention == retention
            &&& now.dry_run == dry_run
        }),
    decreases events.len(),
{
    if events.len() > 0 {
        lemma_run(entries, invalid_retained, paths, retention, dry_run, events.drop_last());
    }
}

/// A trial run changes nothing: it only lists the refs of the projects, until it is over.
pub proof fn law_trial_changes_nothing(
    entries: Seq<GcEntryView>,
    invalid_retained: usize,
    paths: Seq<Seq<char>>,
    retention: TransactionRetention,
    events: Seq<CollectEventView>,
)
    ensures
        ({
            let s = collect_start(entries, invalid_retained, paths, retention, true);
            let asked = collect_requested(collect_replayed(s, events));
            asked is Refs || asked is Return || asked is Fail
        }),
{
    lemma_run(entries, invalid_retained, paths, retention, true, events);
}

/// What a collection reports is the report of the plan for the refs that were listed.
pub proof fn law_collection_reports_its_plan(
    entries: Seq<GcEntryView>,
    invalid_retained: usize,
    paths: Seq<Seq<char>>,
    retention: TransactionRetention,
    dry_run: bool,
    events: Seq<CollectEventView>,
    report: TransactionGcReport,
)
    requires
        collect_requested(
            collect_replayed(
                collect_start(entries, invalid_retained, paths, retention, dry_run),
                events,
            ),
        ) == CollectActionView::Return(report),
    ensures
        ({
            let s = collect_start(entries, invalid_retained, paths, retention, dry_run);
            let refs = collect_replayed(s, events).refs;
            &&& refs.len() == paths.len()
            &&& report == transaction::planned(
                entries,
                invalid_retained,
                paths,
                refs,
                retention.debug_history,
                dry_run,
            ).report
        }),
{
    lemma_run(entries, invalid_retained, paths, retention, dry_run, events);
}

/// A trial run reports what a run on the same records and refs reports, but that no ref was
/// deleted.
pub proof fn law_trial_equals_run(
    entries: Seq<GcEntryView>,
    invalid_retained: usize,
    paths: Seq<Seq<char>>,
    retention: TransactionRetention,
    trial: Seq<CollectEventView>,
    run: Seq<CollectEventView>,
    told: TransactionGcReport,
    done: TransactionGcReport,
)
    requires
        ({
            let a = collect_replayed(
                collect_start(entries, invalid_retained, paths, retention, true),
                trial,
            );
            let b = collect_replayed(
                collect_start(entries, invalid_retained, paths, retention, false),
                run,
            );
            &&& collect_requested(a) == CollectActionView::Return(told)
            &&& collect_requested(b) == CollectActionView::Return(done)
            &&& a.refs == b.refs
        }),
    ensures
        told == (TransactionGcReport { dry_run: true, recovery_refs_removed: 0, ..done }),
{
    law_collection_reports_its_plan(
        entries,
        invalid_retained,
        paths,
        retention,
        true,
        trial,
        told,
    );
    law_collection_reports_its_plan(
        entries,
        invalid_retained,
        paths,
        retention,
        false,
        run,
        done,
    );
}

/// No collection removes a record whose installation may have been cut short, or whose conflict is
/// one that a project is in, nor one that a debug history keeps.
pub proof fn law_needed_records_are_not_removed(
    records: Seq<ScannedRecordView>,
    active: Seq<Seq<char>>,
    invalid_retained: usize,
    paths: Seq<Seq<char>>,
    retention: TransactionRetention,
    dry_run: bool,
    events: Seq<CollectEventView>,
    path: Seq<char>,
)
    requires
        collect_requested(
            collect_replayed(
                collect_start(
                    transaction::collected(records, active, retention.debug_history),
                    invalid_retained,
                    paths,
                    retention,
                    dry_run,
                ),
                events,
            ),
        ) == CollectActionView::Remove(path),
    ensures
        exists|i: int|
            #![trigger records[i]]
            0 <= i < records.len() && records[i].transaction.path == path
                && !transaction::must_stay(records[i].transaction, active)
                && !transaction::collected(records, active, retention.debug_history)[i].retain,
{
    let entries = transaction::collected(records, active, retention.debug_history);
    lemma_run(entries, invalid_retained, paths, retention, dry_run, events);
    let s = collect_start(entries, invalid_retained, paths, retention, dry_run);
    let now = collect_replayed(s, events);
    transaction::lemma_chosen(
        entries,
        |e: GcEntryView| transaction::is_changed(e),
        entries.len() as int,
        now.at,
    );
    let i = now.plan->0.changes[now.at];
    assert(transaction::scanned_entries(records, active)[i] == transaction::scanned_entry(
        records[i],
        active,
    ));
    assert(records[i].transaction.path == path);
}

/// A collection deletes exactly the refs of a project that no retained record needs, and none while
/// there are records that could not be read.
pub proof fn law_only_unneeded_refs_go(
    entries: Seq<GcEntryView>,
    invalid_retained: usize,
    paths: Seq<Seq<char>>,
    retention: TransactionRetention,
    dry_run: bool,
    events: Seq<CollectEventView>,
    call: GitCallView,
)
    requires
        collect_requested(
            collect_replayed(
                collect_start(entries, invalid_retained, paths, retention, dry_run),
                events,
            ),
        ) == CollectActionView::Git(call),
    ensures
        ({
            let s = collect_start(entries, invalid_retained, paths, retention, dry_run);
            let refs = collect_replayed(s, events).refs;
            &&& invalid_retained == 0
            &&& !dry_run
            &&& exists|p: int|
                #![trigger paths[p]]
                0 <= p < paths.len() && call == transaction::batch_call(
                    paths[p],
                    transaction::unneeded(entries, paths[p], transaction::found_refs(refs, p)),
                )
        }),
{
    lemma_run(entries, invalid_retained, paths, retention, dry_run, events);
    let s = collect_start(entries, invalid_retained, paths, retention, dry_run);
    let now = collect_replayed(s, events);
    transaction::lemma_deletion(entries, paths, now.refs, paths.len() as int, now.at);
}

/// At event `j` a command was run.
pub open spec fn ran_at(
    s: CollectionView,
    events: Seq<CollectEventView>,
    j: int,
    call: GitCallView,
) -> bool {
    &&& 0 <= j < events.len()
    &&& collect_requested(collect_replayed(s, events.take(j))) == CollectActionView::Git(call)
    &&& events[j] is Did
}

/// The refs of the deletion at place `d` of a plan were deleted.
pub open spec fn is_deleted(
    s: CollectionView,
    events: Seq<CollectEventView>,
    plan: GcPlanView,
    d: int,
) -> bool {
    exists|j: int| #[trigger]
        ran_at(
            s,
            events,
            j,
            transaction::batch_call(plan.deletions[d].0, plan.deletions[d].1),
        )
}

proof fn lemma_deleted_before(
    s: CollectionView,
    events: Seq<CollectEventView>,
    plan: GcPlanView,
    d: int,
)
    requires
        events.len() > 0,
        is_deleted(s, events.drop_last(), plan, d),
    ensures
        is_deleted(s, events, plan, d),
{
    let call = transaction::batch_call(plan.deletions[d].0, plan.deletions[d].1);
    let before = events.drop_last();
    let j = choose|j: int| #[trigger] ran_at(s, before, j, call);
    assert(before.take(j) =~= events.take(j));
    assert(ran_at(s, events, j, call));
}

/// How many deletions are done at a stage.
spec fn deletions_done(s: CollectionView) -> int {
    match s.stage {
        CollectStage::Delete => s.at,
        CollectStage::Clean => s.at + 1,
        CollectStage::Change => s.plan->0.deletions.len() as int,
        _ => 0,
    }
}

proof fn lemma_deleted(
    entries: Seq<GcEntryView>,
    invalid_retained: usize,
    paths: Seq<Seq<char>>,
    retention: TransactionRetention,
    dry_run: bool,
    events: Seq<CollectEventView>,
)
    ensures
        ({
            let s = collect_start(entries, invalid_retained, paths, retention, dry_run);
            let now = collect_replayed(s, events);
            forall|d: int|
                0 <= d < deletions_done(now) ==> #[trigger] is_deleted(s, events, now.plan->0, d)
        }),
    decreases events.len(),
{
    let s = collect_start(entries, invalid_retained, paths, retention, dry_run);
    let now = collect_replayed(s, events);
    if events.len() > 0 {
        let before = events.drop_last();
        let was = collect_replayed(s, before);
        let last = events.len() - 1;
        lemma_run(entries, invalid_retained, paths, retention, dry_run, before);
        lemma_deleted(entries, invalid_retained, paths, retention, dry_run, before);
        assert(events.take(last) =~= before);
        assert forall|d: int| 0 <= d < deletions_done(now) implies #[trigger] is_deleted(
            s,
            events,
            now.plan->0,
            d,
        ) by {
            if was.stage == CollectStage::Delete && now.stage == CollectStage::Clean && d
                == was.at {
                let call = transaction::batch_call(
                    now.plan->0.deletions[d].0,
                    now.plan->0.deletions[d].1,
                );
                assert(ran_at(s, events, last, call));
            } else if was.stage != CollectStage::List {
                assert(is_deleted(s, before, was.plan->0, d));
                lemma_deleted_before(s, events, was.plan->0, d);
            }
        }
    }
}

/// Records are changed only after every ref that the plan deletes was deleted: a record that is
/// removed leaves no ref behind.
pub proof fn law_refs_go_before_records(
    entries: Seq<GcEntryView>,
    invalid_retained: usize,
    paths: Seq<Seq<char>>,
    retention: TransactionRetention,
    dry_run: bool,
    events: Seq<CollectEventView>,
    d: int,
)
    requires
        ({
            let s = collect_start(entries, invalid_retained, paths, retention, dry_run);
            let now = collect_replayed(s, events);
            &&& collect_requested(now) is Save || collect_requested(now) is Remove
            &&& 0 <= d < plan_of(now).deletions.len()
        }),
    ensures
        ({
            let s = collect_start(entries, invalid_retained, paths, retention, dry_run);
            is_deleted(s, events, plan_of(collect_replayed(s, events)), d)
        }),
{
    lemma_run(entries, invalid_retained, paths, retention, dry_run, events);
    lemma_deleted(entries, invalid_retained, paths, retention, dry_run, events);
}

} // verus!
