//! What a refresh makes of every project, told by the questions it asked and the answers it got.
use vstd::prelude::*;
use crate::process;
use crate::refresh;
use crate::text;
use crate::text_map;
use crate::refresh::{
    RefreshActionView, RefreshEventView, RefreshStage, RefreshView, UnpublishedView,
};
use crate::remote::HeartbeatItemView;
use crate::state::LocalProjectView;

verus! {

/// What a refresh begins with.
pub struct RefreshOf {
    pub projects: Seq<LocalProjectView>,
    pub items: Seq<HeartbeatItemView>,
}

/// Where in a run of events the questions about one project were answered, which answer of the
/// provider is about it, and where the refresh was done with it.
pub struct Turn {
    pub branch: int,
    pub item: int,
    pub fetched: int,
    pub head: int,
    pub compared: int,
    pub last: int,
}

/// The state of a refresh after a run of events.
pub open spec fn refresh_after(r: RefreshOf, events: Seq<RefreshEventView>) -> RefreshView {
    refresh::refresh_replayed(refresh::refresh_start(r.projects, r.items), events)
}

/// What a refresh asked for before event `i`.
#[verifier::opaque]
pub open spec fn refresh_asked(
    r: RefreshOf,
    events: Seq<RefreshEventView>,
    i: int,
) -> RefreshActionView {
    refresh::refresh_requested(refresh_after(r, events.take(i)))
}

/// The answer of the provider at `j` is the first about a project.
pub open spec fn first_about(items: Seq<HeartbeatItemView>, id: Seq<char>, j: int) -> bool {
    &&& 0 <= j < items.len()
    &&& items[j].project_id == id
    &&& forall|i: int| 0 <= i < j ==> (#[trigger] items[i]).project_id != id
}

/// The provider did not answer about a project.
pub open spec fn unanswered(items: Seq<HeartbeatItemView>, id: Seq<char>) -> bool {
    forall|i: int| 0 <= i < items.len() ==> (#[trigger] items[i]).project_id != id
}

/// The branch that a project is on: the one that was found, else the one that was known, else the
/// default branch.
pub open spec fn branch_told(p: LocalProjectView, e: RefreshEventView) -> Seq<char> {
    match e->Branch_0 {
        Some(branch) => branch,
        None => match p.active_branch {
            Some(branch) => branch,
            None => p.default_branch,
        },
    }
}

/// At event `t.branch` the branch of a project was told.
pub open spec fn branch_was_told(
    r: RefreshOf,
    events: Seq<RefreshEventView>,
    k: int,
    t: Turn,
) -> bool {
    &&& 0 <= t.branch < events.len()
    &&& refresh_asked(r, events, t.branch) == RefreshActionView::Branch(r.projects[k].local_path)
    &&& events[t.branch] is Branch
}

/// The project, on its branch.
pub open spec fn told(
    r: RefreshOf,
    events: Seq<RefreshEventView>,
    k: int,
    t: Turn,
) -> LocalProjectView {
    LocalProjectView {
        active_branch: Some(branch_told(r.projects[k], events[t.branch])),
        ..r.projects[k]
    }
}

/// The project, as the provider authorizes it.
pub open spec fn authorized(
    r: RefreshOf,
    events: Seq<RefreshEventView>,
    k: int,
    t: Turn,
) -> LocalProjectView {
    LocalProjectView {
        server_generation: r.items[t.item].project_generation,
        ..told(r, events, k, t)
    }
}

/// The provider authorizes the project, and its branch was asked for at the remote: at event
/// `t.fetched` came the answer.
pub open spec fn fetch_answered(
    r: RefreshOf,
    events: Seq<RefreshEventView>,
    k: int,
    t: Turn,
) -> bool {
    &&& branch_was_told(r, events, k, t)
    &&& first_about(r.items, r.projects[k].project_id, t.item)
    &&& r.items[t.item].membership == "ACTIVE"@
    &&& t.branch < t.fetched < events.len()
    &&& refresh_asked(r, events, t.fetched) == RefreshActionView::Fetch(
        r.projects[k].local_path,
        r.projects[k].remote_name,
        branch_told(r.projects[k], events[t.branch]),
    )
}

/// The commit that the branch has on the remote: the one that was fetched, else the one that the
/// provider knows.
pub open spec fn hosted(r: RefreshOf, events: Seq<RefreshEventView>, t: Turn) -> Option<Seq<char>> {
    match events[t.fetched]->Fetched_0 {
        Some(head) => Some(head),
        None => r.items[t.item].head,
    }
}

/// The project, with the commit of its branch on the remote.
pub open spec fn fetched(
    r: RefreshOf,
    events: Seq<RefreshEventView>,
    k: int,
    t: Turn,
) -> LocalProjectView {
    let branch = branch_told(r.projects[k], events[t.branch]);
    LocalProjectView {
        advertised_heads: match hosted(r, events, t) {
            Some(head) => r.projects[k].advertised_heads.insert(branch, head),
            None => r.projects[k].advertised_heads.remove(branch),
        },
        ..authorized(r, events, k, t)
    }
}

/// The branch was fetched, and at event `t.head` Git named the local commit.
pub open spec fn head_answered(
    r: RefreshOf,
    events: Seq<RefreshEventView>,
    k: int,
    t: Turn,
) -> bool {
    &&& fetch_answered(r, events, k, t)
    &&& events[t.fetched] is Fetched
    &&& t.fetched < t.head < events.len()
    &&& refresh_asked(r, events, t.head) == RefreshActionView::Git(
        process::must_run(r.projects[k].local_path, seq!["rev-parse"@, "HEAD"@]),
    )
    &&& events[t.head] is Ran
}

/// The local commit.
pub open spec fn local_head(events: Seq<RefreshEventView>, t: Turn) -> Seq<char> {
    text::trim(events[t.head]->Ran_0.stdout)
}

/// The commits differ, and at event `t.compared` Git said whether the one of the remote is an
/// ancestor of the local one.
pub open spec fn order_answered(
    r: RefreshOf,
    events: Seq<RefreshEventView>,
    k: int,
    t: Turn,
) -> bool {
    &&& head_answered(r, events, k, t)
    &&& r.projects[k].state != "CONFLICTED"@
    &&& hosted(r, events, t) is Some
    &&& hosted(r, events, t)->0 != local_head(events, t)
    &&& t.head < t.compared < events.len()
    &&& refresh_asked(r, events, t.compared) == RefreshActionView::Git(
        process::may_fail(
            r.projects[k].local_path,
            seq![
                "merge-base"@,
                "--is-ancestor"@,
                hosted(r, events, t)->0,
                local_head(events, t),
            ],
        ),
    )
    &&& events[t.compared] is Ran
}

/// The project is out of reach: the provider is silent about it or does not authorize it, or its
/// remote cannot be reached.
pub open spec fn out_of_reach(
    r: RefreshOf,
    events: Seq<RefreshEventView>,
    k: int,
    t: Turn,
    now: LocalProjectView,
) -> bool {
    let p = r.projects[k];
    ||| {
        &&& branch_was_told(r, events, k, t)
        &&& t.last == t.branch
        &&& unanswered(r.items, p.project_id)
        &&& now == (LocalProjectView {
            state: "ACCESS_LOST"@,
            last_error: Some("provider heartbeat omitted a locally subscribed project"@),
            ..told(r, events, k, t)
        })
    }
    ||| {
        &&& branch_was_told(r, events, k, t)
        &&& t.last == t.branch
        &&& first_about(r.items, p.project_id, t.item)
        &&& r.items[t.item].membership != "ACTIVE"@
        &&& now == (LocalProjectView {
            state: "ACCESS_LOST"@,
            last_error: Some("device credential no longer authorizes this subscribed project"@),
            ..told(r, events, k, t)
        })
    }
    ||| {
        &&& fetch_answered(r, events, k, t)
        &&& t.last == t.fetched
        &&& events[t.fetched] is FetchFailed
        &&& now == (LocalProjectView {
            state: "OFFLINE"@,
            last_error: Some(events[t.fetched]->FetchFailed_0),
            ..authorized(r, events, k, t)
        })
    }
}

/// The project is ahead of the remote: the remote does not have its branch, or has a commit that is
/// another than the local one and an ancestor of it.
pub open spec fn is_ahead(
    r: RefreshOf,
    events: Seq<RefreshEventView>,
    k: int,
    t: Turn,
) -> bool {
    &&& head_answered(r, events, k, t)
    &&& r.projects[k].state != "CONFLICTED"@
    &&& {
        ||| hosted(r, events, t) is None && t.last == t.head
        ||| order_answered(r, events, k, t) && events[t.compared]->Ran_0.code == 0 && t.last
            == t.compared
    }
}

/// The remote is ahead of the project: it has another commit, which is no ancestor of the local
/// one.
pub open spec fn is_behind(
    r: RefreshOf,
    events: Seq<RefreshEventView>,
    k: int,
    t: Turn,
) -> bool {
    order_answered(r, events, k, t) && events[t.compared]->Ran_0.code != 0 && t.last == t.compared
}

/// The project and the remote have the same commit.
pub open spec fn is_level(
    r: RefreshOf,
    events: Seq<RefreshEventView>,
    k: int,
    t: Turn,
) -> bool {
    &&& head_answered(r, events, k, t)
    &&& t.last == t.head
    &&& r.projects[k].state != "CONFLICTED"@
    &&& hosted(r, events, t) == Some(local_head(events, t))
}

/// The project is in conflict.
pub open spec fn is_held(
    r: RefreshOf,
    events: Seq<RefreshEventView>,
    k: int,
    t: Turn,
) -> bool {
    head_answered(r, events, k, t) && t.last == t.head && r.projects[k].state == "CONFLICTED"@
}

/// The error to remember: none, where everything of the project is durable.
pub open spec fn remembered(p: LocalProjectView) -> Option<Seq<char>> {
    if p.durability == "REMOTELY_DURABLE"@ {
        None
    } else {
        p.last_error
    }
}

/// What the refresh made of project `k`.
#[verifier::opaque]
pub open spec fn judged(
    r: RefreshOf,
    events: Seq<RefreshEventView>,
    k: int,
    t: Turn,
    now: LocalProjectView,
) -> bool {
    let p = fetched(r, events, k, t);
    let branch = branch_told(r.projects[k], events[t.branch]);
    &&& 0 <= t.last < events.len()
    &&& {
        ||| out_of_reach(r, events, k, t, now)
        ||| is_held(r, events, k, t) && now == (LocalProjectView {
            last_error: remembered(p),
            ..p
        })
        ||| is_ahead(r, events, k, t) && now == (LocalProjectView {
            state: "CURRENT"@,
            last_error: remembered(p),
            ..p
        })
        ||| is_level(r, events, k, t) && now == (LocalProjectView {
            state: "CURRENT"@,
            last_applied_heads: p.last_applied_heads.insert(branch, local_head(events, t)),
            last_error: remembered(p),
            ..p
        })
        ||| is_behind(r, events, k, t) && now == (LocalProjectView {
            state: "REMOTE_AHEAD"@,
            last_error: remembered(p),
            ..p
        })
    }
}

/// What is to be published of the first `n` projects: of each that is ahead of the remote, its
/// branch and its local commit.
pub open spec fn to_publish(
    r: RefreshOf,
    events: Seq<RefreshEventView>,
    turns: Seq<Turn>,
    n: int,
) -> Seq<UnpublishedView>
    decreases n,
{
    if n <= 0 {
        Seq::empty()
    } else if is_ahead(r, events, n - 1, turns[n - 1]) {
        to_publish(r, events, turns, n - 1).push(
            UnpublishedView {
                project_id: r.projects[n - 1].project_id,
                branch: branch_told(r.projects[n - 1], events[turns[n - 1].branch]),
                head: local_head(events, turns[n - 1]),
            },
        )
    } else {
        to_publish(r, events, turns, n - 1)
    }
}

/// Which of the first `n` projects are to be moved: those that the remote is ahead of.
pub open spec fn to_move(
    r: RefreshOf,
    events: Seq<RefreshEventView>,
    turns: Seq<Turn>,
    n: int,
) -> Seq<Seq<char>>
    decreases n,
{
    if n <= 0 {
        Seq::empty()
    } else if is_behind(r, events, n - 1, turns[n - 1]) {
        to_move(r, events, turns, n - 1).push(r.projects[n - 1].project_id)
    } else {
        to_move(r, events, turns, n - 1)
    }
}

/// A refresh made this of its first `n` projects, one after the other.
pub open spec fn accounted(
    r: RefreshOf,
    events: Seq<RefreshEventView>,
    turns: Seq<Turn>,
    n: int,
    s: RefreshView,
) -> bool {
    &&& turns.len() == n
    &&& s.projects.len() == r.projects.len()
    &&& 0 <= n <= r.projects.len()
    &&& forall|k: int|
        0 <= k < n ==> judged(r, events, k, #[trigger] turns[k], s.projects[k])
    &&& forall|k: int| 0 < k < n ==> turns[k - 1].last < (#[trigger] turns[k]).branch
    &&& s.publish == to_publish(r, events, turns, n)
    &&& s.reconcile == to_move(r, events, turns, n)
}

proof fn lemma_refresh_asked(r: RefreshOf, events: Seq<RefreshEventView>, i: int)
    requires
        0 <= i < events.len() - 1,
    ensures
        refresh_asked(r, events.drop_last(), i) == refresh_asked(r, events, i),
        events.drop_last()[i] == events[i],
{
    reveal(refresh_asked);
    assert(events.drop_last().take(i) =~= events.take(i));
}

proof fn lemma_asked_before(r: RefreshOf, events: Seq<RefreshEventView>, k: int, t: Turn)
    requires
        events.len() > 0,
    ensures
        branch_was_told(r, events.drop_last(), k, t) ==> branch_was_told(r, events, k, t),
        fetch_answered(r, events.drop_last(), k, t) ==> fetch_answered(r, events, k, t),
        head_answered(r, events.drop_last(), k, t) ==> head_answered(r, events, k, t),
        order_answered(r, events.drop_last(), k, t) ==> order_answered(r, events, k, t),
        branch_was_told(r, events.drop_last(), k, t) ==> events.drop_last()[t.branch]
            == events[t.branch],
        fetch_answered(r, events.drop_last(), k, t) ==> events.drop_last()[t.fetched]
            == events[t.fetched],
        head_answered(r, events.drop_last(), k, t) ==> events.drop_last()[t.head]
            == events[t.head],
        order_answered(r, events.drop_last(), k, t) ==> events.drop_last()[t.compared]
            == events[t.compared],
{
    let before = events.drop_last();
    if branch_was_told(r, before, k, t) {
        lemma_refresh_asked(r, events, t.branch);
    }
    if fetch_answered(r, before, k, t) {
        lemma_refresh_asked(r, events, t.fetched);
    }
    if head_answered(r, before, k, t) {
        lemma_refresh_asked(r, events, t.head);
    }
    if order_answered(r, before, k, t) {
        lemma_refresh_asked(r, events, t.compared);
    }
}

proof fn lemma_judged_before(
    r: RefreshOf,
    events: Seq<RefreshEventView>,
    k: int,
    t: Turn,
    now: LocalProjectView,
)
    requires
        events.len() > 0,
        judged(r, events.drop_last(), k, t, now),
    ensures
        judged(r, events, k, t, now),
        is_ahead(r, events, k, t) == is_ahead(r, events.drop_last(), k, t),
        is_behind(r, events, k, t) == is_behind(r, events.drop_last(), k, t),
        is_ahead(r, events, k, t) ==> branch_told(r.projects[k], events[t.branch]) == branch_told(
            r.projects[k],
            events.drop_last()[t.branch],
        ) && local_head(events, t) == local_head(events.drop_last(), t),
{
    reveal(judged);
    let before = events.drop_last();
    lemma_asked_before(r, events, k, t);
    assert(t.last < before.len());
}

proof fn lemma_lists_before(
    r: RefreshOf,
    events: Seq<RefreshEventView>,
    turns: Seq<Turn>,
    n: int,
    s: RefreshView,
)
    requires
        events.len() > 0,
        0 <= n <= turns.len(),
        forall|k: int|
            0 <= k < n ==> judged(r, events.drop_last(), k, #[trigger] turns[k], s.projects[k]),
    ensures
        to_publish(r, events, turns, n) == to_publish(r, events.drop_last(), turns, n),
        to_move(r, events, turns, n) == to_move(r, events.drop_last(), turns, n),
    decreases n,
{
    if n > 0 {
        lemma_lists_before(r, events, turns, n - 1, s);
        lemma_judged_before(r, events, n - 1, turns[n - 1], s.projects[n - 1]);
    }
}

proof fn lemma_accounted_before(
    r: RefreshOf,
    events: Seq<RefreshEventView>,
    turns: Seq<Turn>,
    n: int,
    s: RefreshView,
)
    requires
        events.len() > 0,
        accounted(r, events.drop_last(), turns, n, s),
    ensures
        accounted(r, events, turns, n, s),
{
    lemma_lists_before(r, events, turns, n, s);
    assert forall|k: int| 0 <= k < n implies judged(
        r,
        events,
        k,
        #[trigger] turns[k],
        s.projects[k],
    ) by {
        lemma_judged_before(r, events, k, turns[k], s.projects[k]);
    }
}

proof fn lemma_lists_extend(
    r: RefreshOf,
    events: Seq<RefreshEventView>,
    turns: Seq<Turn>,
    t: Turn,
    n: int,
)
    requires
        0 <= n <= turns.len(),
    ensures
        to_publish(r, events, turns.push(t), n) == to_publish(r, events, turns, n),
        to_move(r, events, turns.push(t), n) == to_move(r, events, turns, n),
    decreases n,
{
    if n > 0 {
        lemma_lists_extend(r, events, turns, t, n - 1);
    }
}

proof fn lemma_item_for(items: Seq<HeartbeatItemView>, id: Seq<char>, from: int) -> (j: int)
    requires
        0 <= from,
        forall|i: int| 0 <= i < from && i < items.len() ==> (#[trigger] items[i]).project_id != id,
    ensures
        match refresh::item_for(items, id, from) {
            Some(item) => first_about(items, id, j) && items[j] == item,
            None => unanswered(items, id),
        },
    decreases items.len() - from,
{
    if from >= items.len() {
        0
    } else if items[from].project_id == id {
        from
    } else {
        lemma_item_for(items, id, from + 1)
    }
}

/// A refresh is at the project after those it has accounted for, and knows what it was told.
spec fn under_way(r: RefreshOf, events: Seq<RefreshEventView>, turns: Seq<Turn>, t: Turn) -> bool {
    let s = refresh_after(r, events);
    let n = s.next;
    let at = s.stage is Fetch || s.stage is Head || s.stage is Compare;
    &&& accounted(r, events, turns, n, s)
    &&& s.items == r.items
    &&& s.stage !is Done ==> n < r.projects.len()
    &&& s.stage is Done && s.failure is None ==> n == r.projects.len()
    &&& forall|j: int| n < j < r.projects.len() ==> #[trigger] s.projects[j] == r.projects[j]
    &&& s.stage is Branch ==> s.projects[n] == r.projects[n]
    &&& forall|k: int| 0 <= k < n ==> (#[trigger] turns[k]).last < events.len()
    &&& at ==> {
        &&& branch_was_told(r, events, n, t)
        &&& first_about(r.items, r.projects[n].project_id, t.item)
        &&& r.items[t.item].membership == "ACTIVE"@
        &&& s.branch == branch_told(r.projects[n], events[t.branch])
        &&& n > 0 ==> turns[n - 1].last < t.branch
    }
    &&& s.stage is Fetch ==> s.projects[n] == authorized(r, events, n, t)
    &&& s.stage is Head || s.stage is Compare ==> {
        &&& fetch_answered(r, events, n, t)
        &&& events[t.fetched] is Fetched
        &&& s.projects[n] == fetched(r, events, n, t)
    }
    &&& s.stage is Compare ==> {
        &&& head_answered(r, events, n, t)
        &&& s.head == local_head(events, t)
        &&& r.projects[n].state != "CONFLICTED"@
        &&& hosted(r, events, t) is Some
        &&& hosted(r, events, t)->0 != s.head
    }
}

spec fn turned(t: Turn, s: RefreshView, last: int, item: int) -> Turn {
    match s.stage {
        RefreshStage::Branch => Turn { branch: last, item, last, ..t },
        RefreshStage::Fetch => Turn { fetched: last, last, ..t },
        RefreshStage::Head => Turn { head: last, last, ..t },
        RefreshStage::Compare => Turn { compared: last, last, ..t },
        RefreshStage::Done => t,
    }
}

/// What was told before is still so after another event.
proof fn lemma_way_before(
    r: RefreshOf,
    events: Seq<RefreshEventView>,
    turns: Seq<Turn>,
    t: Turn,
)
    requires
        events.len() > 0,
        under_way(r, events.drop_last(), turns, t),
    ensures
        ({
            let s = refresh_after(r, events.drop_last());
            let n = s.next;
            &&& accounted(r, events, turns, n, s)
            &&& s.stage is Fetch || s.stage is Head || s.stage is Compare ==> branch_was_told(
                r,
                events,
                n,
                t,
            ) && s.branch == branch_told(r.projects[n], events[t.branch]) && t.branch
                < events.len() - 1
            &&& s.stage is Fetch ==> s.projects[n] == authorized(r, events, n, t)
            &&& s.stage is Head || s.stage is Compare ==> fetch_answered(r, events, n, t)
                && events[t.fetched] is Fetched && s.projects[n] == fetched(r, events, n, t)
                && t.fetched < events.len() - 1
            &&& s.stage is Compare ==> head_answered(r, events, n, t) && s.head == local_head(
                events,
                t,
            ) && hosted(r, events, t) is Some && hosted(r, events, t)->0 != s.head && t.head
                < events.len() - 1
        }),
{
    let before = events.drop_last();
    let s = refresh_after(r, before);
    lemma_accounted_before(r, events, turns, s.next, s);
    lemma_asked_before(r, events, s.next, t);
}

/// A refresh that is done with a project has one more accounted for.
proof fn lemma_account(
    r: RefreshOf,
    events: Seq<RefreshEventView>,
    turns: Seq<Turn>,
    t: Turn,
    was: RefreshView,
    now: RefreshView,
)
    requires
        accounted(r, events, turns, was.next, was),
        was.next < r.projects.len(),
        now.projects == was.projects.update(was.next, now.projects[was.next]),
        judged(r, events, was.next, t, now.projects[was.next]),
        was.next > 0 ==> turns[was.next - 1].last < t.branch,
        now.publish == if is_ahead(r, events, was.next, t) {
            was.publish.push(
                UnpublishedView {
                    project_id: r.projects[was.next].project_id,
                    branch: branch_told(r.projects[was.next], events[t.branch]),
                    head: local_head(events, t),
                },
            )
        } else {
            was.publish
        },
        now.reconcile == if is_behind(r, events, was.next, t) {
            was.reconcile.push(r.projects[was.next].project_id)
        } else {
            was.reconcile
        },
    ensures
        accounted(r, events, turns.push(t), was.next + 1, now),
{
    let n = was.next;
    let all = turns.push(t);
    lemma_lists_extend(r, events, turns, t, n);
    assert(all[n] == t);
    assert forall|k: int| 0 <= k < n + 1 implies judged(
        r,
        events,
        k,
        #[trigger] all[k],
        now.projects[k],
    ) by {
        if k < n {
            assert(all[k] == turns[k]);
            assert(now.projects[k] == was.projects[k]);
            assert(judged(r, events, k, turns[k], was.projects[k]));
        }
    }
    assert forall|k: int| 0 < k < n + 1 implies all[k - 1].last < (#[trigger] all[k]).branch by {
        if k < n {
            assert(turns[k - 1].last < turns[k].branch);
        }
    }
}

proof fn lemma_branch_step(
    r: RefreshOf,
    events: Seq<RefreshEventView>,
    turns: Seq<Turn>,
    t: Turn,
) -> (w: (Seq<Turn>, Turn))
    requires
        events.len() > 0,
        under_way(r, events.drop_last(), turns, t),
        refresh_after(r, events.drop_last()).stage is Branch,
        events.last() is Branch,
    ensures
        under_way(r, events, w.0, w.1),
{
    let before = events.drop_last();
    let was = refresh_after(r, before);
    let now = refresh_after(r, events);
    let last = events.len() - 1;
    let n = was.next;
    assert(events.take(last) =~= before);
    assert(refresh_asked(r, events, last) == refresh::refresh_requested(was)) by {
        reveal(refresh_asked);
    }
    lemma_way_before(r, events, turns, t);
    let j = lemma_item_for(r.items, r.projects[n].project_id, 0);
    let u = turned(t, was, last, j);
    assert(now == refresh::refreshed(was, events[last]));
    reveal(refresh::refreshed);
    assert(branch_was_told(r, events, n, u));
    assert(now.projects.len() == r.projects.len());
    if n > 0 {
        assert(turns[n - 1].last < before.len());
    }
    if now.stage is Fetch {
        assert(now.projects[n] == authorized(r, events, n, u));
        assert(accounted(r, events, turns, n, now)) by {
            assert forall|k: int| 0 <= k < n implies judged(
                r,
                events,
                k,
                #[trigger] turns[k],
                now.projects[k],
            ) by {
                assert(now.projects[k] == was.projects[k]);
            }
        }
        (turns, u)
    } else {
        assert(out_of_reach(r, events, n, u, now.projects[n]));
        assert(judged(r, events, n, u, now.projects[n])) by {
            reveal(judged);
        }
        assert(!is_ahead(r, events, n, u));
        assert(!is_behind(r, events, n, u));
        lemma_account(r, events, turns, u, was, now);
        assert forall|k: int| 0 <= k < n + 1 implies (#[trigger] turns.push(u)[k]).last
            < events.len() by {
            if k < n {
                assert(turns[k].last < before.len());
            }
        }
        (turns.push(u), u)
    }
}

proof fn lemma_fetch_step(
    r: RefreshOf,
    events: Seq<RefreshEventView>,
    turns: Seq<Turn>,
    t: Turn,
) -> (w: (Seq<Turn>, Turn))
    requires
        events.len() > 0,
        under_way(r, events.drop_last(), turns, t),
        refresh_after(r, events.drop_last()).stage is Fetch,
        events.last() is Fetched || events.last() is FetchFailed,
    ensures
        under_way(r, events, w.0, w.1),
{
    let before = events.drop_last();
    let was = refresh_after(r, before);
    let now = refresh_after(r, events);
    let last = events.len() - 1;
    let n = was.next;
    assert(events.take(last) =~= before);
    assert(refresh_asked(r, events, last) == refresh::refresh_requested(was)) by {
        reveal(refresh_asked);
    }
    lemma_way_before(r, events, turns, t);
    let j = lemma_item_for(r.items, r.projects[n].project_id, 0);
    let u = turned(t, was, last, j);
    assert(u.item == j) by {
        if u.item < j {
            assert(r.items[u.item].project_id != r.projects[n].project_id);
        }
        if j < u.item {
            assert(r.items[j].project_id != r.projects[n].project_id);
        }
    }
    assert(now == refresh::refreshed(was, events[last]));
    reveal(refresh::refreshed);
    assert(fetch_answered(r, events, n, u));
    if now.stage is Head {
        assert(now.projects[n] == fetched(r, events, n, u));
        assert(accounted(r, events, turns, n, now)) by {
            assert forall|k: int| 0 <= k < n implies judged(
                r,
                events,
                k,
                #[trigger] turns[k],
                now.projects[k],
            ) by {
                assert(now.projects[k] == was.projects[k]);
            }
        }
        (turns, u)
    } else {
        assert(out_of_reach(r, events, n, u, now.projects[n]));
        assert(judged(r, events, n, u, now.projects[n])) by {
            reveal(judged);
        }
        lemma_account(r, events, turns, u, was, now);
        assert forall|k: int| 0 <= k < n + 1 implies (#[trigger] turns.push(u)[k]).last
            < events.len() by {
            if k < n {
                assert(turns[k].last < before.len());
            }
        }
        (turns.push(u), u)
    }
}

proof fn lemma_head_step(
    r: RefreshOf,
    events: Seq<RefreshEventView>,
    turns: Seq<Turn>,
    t: Turn,
) -> (w: (Seq<Turn>, Turn))
    requires
        events.len() > 0,
        under_way(r, events.drop_last(), turns, t),
        refresh_after(r, events.drop_last()).stage is Head,
        events.last() is Ran,
    ensures
        under_way(r, events, w.0, w.1),
{
    let before = events.drop_last();
    let was = refresh_after(r, before);
    let now = refresh_after(r, events);
    let last = events.len() - 1;
    let n = was.next;
    assert(events.take(last) =~= before);
    assert(refresh_asked(r, events, last) == refresh::refresh_requested(was)) by {
        reveal(refresh_asked);
    }
    lemma_way_before(r, events, turns, t);
    let u = turned(t, was, last, 0);
    assert(now == refresh::refreshed(was, events[last]));
    reveal(refresh::refreshed);
    assert(head_answered(r, events, n, u));
    assert(fetched(r, events, n, u) == fetched(r, events, n, t));
    assert(hosted(r, events, u) == hosted(r, events, t));
    assert(text_map::text_at(was.projects[n].advertised_heads, was.branch) == hosted(r, events, u));
    assert(was.projects[n].state == r.projects[n].state);
    assert(local_head(events, u) == text::trim(events[last]->Ran_0.stdout));
    if now.stage is Compare {
        (turns, u)
    } else {
        assert(judged(r, events, n, u, now.projects[n])) by {
            reveal(judged);
        }
        lemma_account(r, events, turns, u, was, now);
        assert forall|k: int| 0 <= k < n + 1 implies (#[trigger] turns.push(u)[k]).last
            < events.len() by {
            if k < n {
                assert(turns[k].last < before.len());
            }
        }
        (turns.push(u), u)
    }
}

proof fn lemma_compare_step(
    r: RefreshOf,
    events: Seq<RefreshEventView>,
    turns: Seq<Turn>,
    t: Turn,
) -> (w: (Seq<Turn>, Turn))
    requires
        events.len() > 0,
        under_way(r, events.drop_last(), turns, t),
        refresh_after(r, events.drop_last()).stage is Compare,
        events.last() is Ran,
    ensures
        under_way(r, events, w.0, w.1),
{
    let before = events.drop_last();
    let was = refresh_after(r, before);
    let now = refresh_after(r, events);
    let last = events.len() - 1;
    let n = was.next;
    assert(events.take(last) =~= before);
    assert(refresh_asked(r, events, last) == refresh::refresh_requested(was)) by {
        reveal(refresh_asked);
    }
    lemma_way_before(r, events, turns, t);
    let u = turned(t, was, last, 0);
    assert(now == refresh::refreshed(was, events[last]));
    reveal(refresh::refreshed);
    assert(fetched(r, events, n, u) == fetched(r, events, n, t));
    assert(hosted(r, events, u) == hosted(r, events, t));
    assert(text_map::text_at(was.projects[n].advertised_heads, was.branch) == hosted(r, events, u));
    assert(local_head(events, u) == local_head(events, t));
    assert(order_answered(r, events, n, u));
    assert(judged(r, events, n, u, now.projects[n])) by {
        reveal(judged);
    }
    lemma_account(r, events, turns, u, was, now);
    assert forall|k: int| 0 <= k < n + 1 implies (#[trigger] turns.push(u)[k]).last
        < events.len() by {
        if k < n {
            assert(turns[k].last < before.len());
        }
    }
    (turns.push(u), u)
}

proof fn lemma_under_way(r: RefreshOf, events: Seq<RefreshEventView>) -> (w: (Seq<Turn>, Turn))
    ensures
        under_way(r, events, w.0, w.1),
    decreases events.len(),
{
    if events.len() == 0 {
        let none = Seq::<Turn>::empty();
        assert(under_way(r, events, none, arbitrary()));
        (none, arbitrary())
    } else {
        let before = events.drop_last();
        let was = refresh_after(r, before);
        let (turns, t) = lemma_under_way(r, before);
        let e = events.last();
        if was.stage is Branch && e is Branch {
            lemma_branch_step(r, events, turns, t)
        } else if was.stage is Fetch && (e is Fetched || e is FetchFailed) {
            lemma_fetch_step(r, events, turns, t)
        } else if was.stage is Head && e is Ran {
            lemma_head_step(r, events, turns, t)
        } else if was.stage is Compare && e is Ran {
            lemma_compare_step(r, events, turns, t)
        } else {
            lemma_way_before(r, events, turns, t);
            reveal(refresh::refreshed);
            (turns, t)
        }
    }
}

/// When a refresh is over, it has dealt with every project, one after the other, as the answers
/// say. In the list to publish is exactly each project that is authorized, fetched and not in
/// conflict, and whose branch the remote either does not have or has at another commit that Git
/// called an ancestor of the local one; it stands there with its branch and its local commit. In
/// the list to move is exactly each one whose commit on the remote Git called no ancestor of the
/// local commit.
pub proof fn law_every_project_is_judged(r: RefreshOf, events: Seq<RefreshEventView>)
    requires
        refresh::refresh_requested(refresh_after(r, events)) == RefreshActionView::Done,
    ensures
        exists|turns: Seq<Turn>| #[trigger]
            accounted(r, events, turns, r.projects.len() as int, refresh_after(r, events)),
{
    let (turns, t) = lemma_under_way(r, events);
    assert(accounted(r, events, turns, r.projects.len() as int, refresh_after(r, events)));
}

proof fn lemma_failure_is_over(r: RefreshOf, events: Seq<RefreshEventView>)
    ensures
        refresh_after(r, events).failure is Some ==> refresh_after(r, events).stage is Done,
    decreases events.len(),
{
    if events.len() > 0 {
        lemma_failure_is_over(r, events.drop_last());
        reveal(refresh::refreshed);
    }
}

/// A refresh fails only where Git failed to name a local commit or to compare two commits, with its
/// message.
pub proof fn law_refresh_fails_with_git(r: RefreshOf, events: Seq<RefreshEventView>)
    ensures
        refresh::refresh_requested(refresh_after(r, events)) is Fail ==> exists|i: int|
            0 <= i < events.len() && refresh_asked(r, events, i) is Git && #[trigger] events[i]
                == RefreshEventView::Failed(refresh::refresh_requested(refresh_after(r, events))->Fail_0),
    decreases events.len(),
{
    if events.len() > 0 {
        let before = events.drop_last();
        let last = events.len() - 1;
        law_refresh_fails_with_git(r, before);
        lemma_failure_is_over(r, before);
        assert(events.take(last) =~= before);
        if refresh::refresh_requested(refresh_after(r, events)) is Fail {
            reveal(refresh::refreshed);
            if refresh::refresh_requested(refresh_after(r, before)) is Fail {
                let i = choose|i: int|
                    0 <= i < before.len() && refresh_asked(r, before, i) is Git
                        && #[trigger] before[i] == RefreshEventView::Failed(
                        refresh::refresh_requested(refresh_after(r, before))->Fail_0,
                    );
                lemma_refresh_asked(r, events, i);
                assert(events[i] == before[i]);
            } else {
                assert(refresh_asked(r, events, last) == refresh::refresh_requested(refresh_after(r, before))) by {
                    reveal(refresh_asked);
                }
                assert(events[last] is Failed);
            }
        }
    }
}

/// Every answer takes a refresh further: to another question about the project, or past it.
pub proof fn law_refresh_goes_on(s: RefreshView, e: RefreshEventView)
    requires
        match s.stage {
            RefreshStage::Branch => e is Branch,
            RefreshStage::Fetch => e is Fetched || e is FetchFailed,
            RefreshStage::Head => e is Ran || e is Failed,
            RefreshStage::Compare => e is Ran || e is Failed,
            RefreshStage::Done => false,
        },
    ensures
        refresh::refreshed(s, e).stage != s.stage || refresh::refreshed(s, e).next == s.next + 1,
{
    reveal(refresh::refreshed);
}

} // verus!
