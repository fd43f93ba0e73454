//! What an adoption compares a directory with before it puts the directory on a commit, and on
//! whose answers.
use vstd::prelude::*;
use crate::adopt;
use crate::paths;
use crate::process;
use crate::remote;
use crate::text;
use crate::adopt::{AdoptActionView, AdoptEventView, AdoptStage, AdoptView};
use crate::process::{GitCallView, RunOptionsView};
use crate::protocol::CatalogProjectView;

verus! {

/// What an adoption begins with.
pub struct AdoptOf {
    pub destination: Seq<char>,
    pub project: CatalogProjectView,
    pub token: Option<Seq<char>>,
    pub remote_name: Seq<char>,
}

/// Where the questions about one commit were answered.
pub struct Try {
    pub tree: int,
    pub compared: int,
}

/// Where in a run of events each question of an adoption was answered.
pub struct AdoptTrail {
    pub metadata: int,
    pub made: int,
    pub remote: int,
    pub url: int,
    pub mapped: int,
    pub fetched: int,
    pub listed: int,
    /// The commits that were refused, in the order of the list.
    pub tries: Seq<Try>,
    /// The commit that matched.
    pub found: Try,
    pub default_asked: int,
    /// The heads that do not hold the commit, in the order of the list.
    pub refused: Seq<int>,
    /// The head that holds it.
    pub head: int,
    pub reached: int,
    pub installed: int,
    pub fault: int,
}

/// The state of an adoption after a run of events.
pub open spec fn adopt_after(a: AdoptOf, events: Seq<AdoptEventView>) -> AdoptView {
    adopt::adopt_replayed(adopt::adopt_start(a.destination, a.project, a.token, a.remote_name), events)
}

/// What an adoption asked for before event `i`.
#[verifier::opaque]
pub open spec fn adopt_asked(a: AdoptOf, events: Seq<AdoptEventView>, i: int) -> AdoptActionView {
    adopt::adopt_requested(adopt_after(a, events.take(i)))
}

/// At event `i` this command was answered.
pub open spec fn ran_at(
    a: AdoptOf,
    events: Seq<AdoptEventView>,
    i: int,
    call: GitCallView,
) -> bool {
    &&& 0 <= i < events.len()
    &&& adopt_asked(a, events, i) == AdoptActionView::Git(call)
    &&& events[i] is Ran
}

/// The branches of a remote, mapped to those that Git keeps of it.
pub open spec fn heads_mapping(remote_name: Seq<char>) -> Seq<char> {
    "+refs/heads/*:refs/remotes/"@ + remote_name + "/*"@
}

/// The directory held no repository; one was made in it, with the remote of the project, all
/// branches of the remote were fetched, and the commits were listed.
#[verifier::opaque]
pub open spec fn was_listed(a: AdoptOf, events: Seq<AdoptEventView>, h: AdoptTrail) -> bool {
    let d = a.destination;
    &&& 0 <= h.metadata < events.len()
    &&& adopt_asked(a, events, h.metadata) == AdoptActionView::Exists(paths::joined(d, ".git"@))
    &&& events[h.metadata] == AdoptEventView::Exists(false)
    &&& h.metadata < h.made < h.remote < h.url < h.mapped < h.fetched < h.listed
    &&& ran_at(
        a,
        events,
        h.made,
        process::must_run(d, seq!["init"@, "--initial-branch="@ + a.project.default_branch]),
    )
    &&& ran_at(a, events, h.remote, process::may_fail(d, seq!["remote"@, "get-url"@, a.remote_name]))
    &&& ran_at(
        a,
        events,
        h.url,
        process::must_run(
            d,
            seq![
                "remote"@,
                if events[h.remote]->Ran_0.code == 0 {
                    "set-url"@
                } else {
                    "add"@
                },
                a.remote_name,
                a.project.remote_url,
            ],
        ),
    )
    &&& ran_at(
        a,
        events,
        h.mapped,
        process::must_run(
            d,
            seq![
                "config"@,
                "remote."@ + a.remote_name + ".fetch"@,
                heads_mapping(a.remote_name),
            ],
        ),
    )
    &&& ran_at(
        a,
        events,
        h.fetched,
        GitCallView {
            args: seq![
                "fetch"@,
                "--prune"@,
                "--no-tags"@,
                a.remote_name,
                heads_mapping(a.remote_name),
            ],
            options: (RunOptionsView {
                cwd: Some(d),
                env: remote::token_env(a.token),
                input: None,
                allow_failure: false,
            }),
        },
    )
    &&& ran_at(a, events, h.listed, process::must_run(d, seq!["rev-list"@, "--topo-order"@, "--all"@]))
}

/// The commits that were listed.
pub open spec fn revisions_in(events: Seq<AdoptEventView>, h: AdoptTrail) -> Seq<Seq<char>> {
    text::lines(events[h.listed]->Ran_0.stdout)
}

/// The tree of the `k`th commit was read into the index.
pub open spec fn tree_read(
    a: AdoptOf,
    events: Seq<AdoptEventView>,
    h: AdoptTrail,
    k: int,
    t: Try,
) -> bool {
    &&& ran_at(
        a,
        events,
        t.tree,
        process::may_fail(a.destination, seq!["read-tree"@, revisions_in(events, h)[k]]),
    )
    &&& h.listed < t.tree
    &&& events[t.tree]->Ran_0.code == 0
}

/// From then on nothing was asked up to event `i`, but for one comparison of all files of the
/// directory, without exception and whatever their change, with that index.
pub open spec fn only_compared(
    a: AdoptOf,
    events: Seq<AdoptEventView>,
    t: Try,
    i: int,
) -> bool {
    forall|j: int|
        t.tree < j <= i ==> #[trigger] adopt_asked(a, events, j) == AdoptActionView::Git(
            process::may_fail(a.destination, seq!["diff"@, "--quiet"@, "--"@, "."@]),
        )
}

/// The `k`th commit was refused: its tree cannot be read, or the files of the directory differ from
/// it.
#[verifier::opaque]
pub open spec fn commit_refused(
    a: AdoptOf,
    events: Seq<AdoptEventView>,
    h: AdoptTrail,
    k: int,
    t: Try,
) -> bool {
    ||| {
        &&& h.listed < t.tree < events.len()
        &&& adopt_asked(a, events, t.tree) == AdoptActionView::Git(
            process::may_fail(a.destination, seq!["read-tree"@, revisions_in(events, h)[k]]),
        )
        &&& events[t.tree] is Failed || (events[t.tree] is Ran && events[t.tree]->Ran_0.code != 0)
    }
    ||| {
        &&& tree_read(a, events, h, k, t)
        &&& t.tree < t.compared < events.len()
        &&& only_compared(a, events, t, t.compared)
        &&& events[t.compared] is Failed || (events[t.compared] is Ran
            && events[t.compared]->Ran_0.code != 0)
    }
}

/// Every commit of the list before the `k`th was refused.
#[verifier::opaque]
pub open spec fn all_refused(
    a: AdoptOf,
    events: Seq<AdoptEventView>,
    h: AdoptTrail,
    k: int,
) -> bool {
    &&& h.tries.len() == k
    &&& forall|i: int| 0 <= i < k ==> commit_refused(a, events, h, i, #[trigger] h.tries[i])
}

/// The commit that matched: the first of the list whose tree could be read, and from which the
/// files of the directory do not differ.
pub open spec fn match_in(events: Seq<AdoptEventView>, h: AdoptTrail) -> Seq<char> {
    revisions_in(events, h)[h.tries.len() as int]
}

/// A commit was found to match.
#[verifier::opaque]
pub open spec fn was_found(a: AdoptOf, events: Seq<AdoptEventView>, h: AdoptTrail) -> bool {
    let k = h.tries.len() as int;
    &&& was_listed(a, events, h)
    &&& k < revisions_in(events, h).len()
    &&& all_refused(a, events, h, k)
    &&& tree_read(a, events, h, k, h.found)
    &&& h.found.tree < h.found.compared < events.len()
    &&& only_compared(a, events, h.found, h.found.compared)
    &&& events[h.found.compared] is Ran
    &&& events[h.found.compared]->Ran_0.code == 0
}

/// At event `i` Git said whether the commit that matched is an ancestor of the `k`th head.
pub open spec fn head_asked(
    a: AdoptOf,
    events: Seq<AdoptEventView>,
    h: AdoptTrail,
    k: int,
    i: int,
) -> bool {
    &&& 0 <= k < a.project.advertised_heads.len()
    &&& h.found.compared < i
    &&& ran_at(
        a,
        events,
        i,
        process::may_fail(
            a.destination,
            seq![
                "merge-base"@,
                "--is-ancestor"@,
                match_in(events, h),
                a.project.advertised_heads[k].oid,
            ],
        ),
    )
}

/// The `k`th head is the first of the default branch.
pub open spec fn is_default(a: AdoptOf, k: int) -> bool {
    &&& 0 <= k < a.project.advertised_heads.len()
    &&& a.project.advertised_heads[k].name == a.project.default_branch
    &&& forall|i: int|
        0 <= i < k ==> (#[trigger] a.project.advertised_heads[i]).name
            != a.project.default_branch
}

/// The default branch has no head, or its head does not hold the commit that matched.
#[verifier::opaque]
pub open spec fn default_refused(a: AdoptOf, events: Seq<AdoptEventView>, h: AdoptTrail) -> bool {
    ||| forall|i: int|
        0 <= i < a.project.advertised_heads.len() ==> (
        #[trigger] a.project.advertised_heads[i]).name != a.project.default_branch
    ||| exists|k: int|
        #[trigger] is_default(a, k) && head_asked(a, events, h, k, h.default_asked)
            && events[h.default_asked]->Ran_0.code != 0
}

/// The first `n` heads do not hold the commit that matched.
#[verifier::opaque]
pub open spec fn heads_refused(
    a: AdoptOf,
    events: Seq<AdoptEventView>,
    h: AdoptTrail,
    n: int,
) -> bool {
    &&& h.refused.len() == n
    &&& forall|k: int|
        0 <= k < n ==> head_asked(a, events, h, k, #[trigger] h.refused[k])
            && events[h.refused[k]]->Ran_0.code != 0
}

/// The branch to adopt the directory onto: the default branch, where its head holds the commit that
/// matched, else the first one whose head does.
#[verifier::opaque]
pub open spec fn was_chosen(a: AdoptOf, events: Seq<AdoptEventView>, h: AdoptTrail) -> bool {
    &&& was_found(a, events, h)
    &&& head_asked(a, events, h, h.head, h.reached)
    &&& events[h.reached]->Ran_0.code == 0
    &&& {
        ||| is_default(a, h.head)
        ||| default_refused(a, events, h) && heads_refused(a, events, h, h.head)
    }
}

/// The commands that put the directory on the branch at the commit that matched, without a change
/// to its files.
pub open spec fn place_orders(
    a: AdoptOf,
    events: Seq<AdoptEventView>,
    h: AdoptTrail,
) -> Seq<GitCallView> {
    let d = a.destination;
    let branch = a.project.advertised_heads[h.head].name;
    let commit = match_in(events, h);
    seq![
        process::must_run(d, seq!["symbolic-ref"@, "HEAD"@, "refs/heads/"@ + branch]),
        process::must_run(d, seq!["update-ref"@, "refs/heads/"@ + branch, commit]),
        process::must_run(d, seq!["reset"@, "--mixed"@, commit]),
        process::must_run(d, seq!["config"@, "branch."@ + branch + ".remote"@, a.remote_name]),
        process::must_run(d, seq!["config"@, "branch."@ + branch + ".merge"@, "refs/heads/"@ + branch]),
    ]
}

/// Why an adoption failed.
#[verifier::opaque]
pub open spec fn adopt_fault(
    a: AdoptOf,
    events: Seq<AdoptEventView>,
    h: AdoptTrail,
    message: Seq<char>,
) -> bool {
    ||| 0 <= h.fault < events.len() && events[h.fault] == AdoptEventView::Failed(message)
    ||| {
        &&& 0 <= h.fault < events.len()
        &&& adopt_asked(a, events, h.fault) == AdoptActionView::Exists(
            paths::joined(a.destination, ".git"@),
        )
        &&& events[h.fault] == AdoptEventView::Exists(true)
        &&& message == a.destination + " contains Git metadata but is not a valid worktree"@
    }
    ||| {
        &&& was_listed(a, events, h)
        &&& all_refused(a, events, h, revisions_in(events, h).len() as int)
        &&& message == a.destination
            + " does not exactly match the tracked files of any hosted commit; refusing to adopt it"@
    }
    ||| {
        &&& was_found(a, events, h)
        &&& default_refused(a, events, h)
        &&& heads_refused(a, events, h, a.project.advertised_heads.len() as int)
        &&& message == "matching commit "@ + match_in(events, h)
            + " is not reachable from an advertised hosted branch"@
    }
}

proof fn lemma_adopt_asked(a: AdoptOf, events: Seq<AdoptEventView>, i: int)
    requires
        0 <= i < events.len() - 1,
    ensures
        adopt_asked(a, events.drop_last(), i) == adopt_asked(a, events, i),
        events.drop_last()[i] == events[i],
{
    reveal(adopt_asked);
    assert(events.drop_last().take(i) =~= events.take(i));
}

proof fn lemma_all_asked(a: AdoptOf, events: Seq<AdoptEventView>)
    requires
        events.len() > 0,
    ensures
        forall|i: int|
            0 <= i < events.len() - 1 ==> #[trigger] adopt_asked(a, events.drop_last(), i)
                == adopt_asked(a, events, i) && events.drop_last()[i] == events[i],
{
    assert forall|i: int| 0 <= i < events.len() - 1 implies #[trigger] adopt_asked(
        a,
        events.drop_last(),
        i,
    ) == adopt_asked(a, events, i) && events.drop_last()[i] == events[i] by {
        lemma_adopt_asked(a, events, i);
    }
}

proof fn lemma_listed_grows(a: AdoptOf, events: Seq<AdoptEventView>, h: AdoptTrail)
    requires
        events.len() > 0,
        was_listed(a, events.drop_last(), h),
    ensures
        was_listed(a, events, h),
        0 <= h.listed < events.len() - 1,
        revisions_in(events, h) == revisions_in(events.drop_last(), h),
{
    reveal(was_listed);
    lemma_all_asked(a, events);
}

proof fn lemma_refused_grows(
    a: AdoptOf,
    events: Seq<AdoptEventView>,
    h: AdoptTrail,
    k: int,
    t: Try,
)
    requires
        events.len() > 0,
        0 <= h.listed < events.len() - 1,
        commit_refused(a, events.drop_last(), h, k, t),
    ensures
        commit_refused(a, events, h, k, t),
{
    reveal(commit_refused);
    lemma_adopt_asked(a, events, h.listed);
    lemma_adopt_asked(a, events, t.tree);
    let before = events.drop_last();
    if tree_read(a, before, h, k, t) && only_compared(a, before, t, t.compared) && t.compared
        < before.len() {
        assert(only_compared(a, events, t, t.compared)) by {
            assert forall|j: int| t.tree < j <= t.compared implies #[trigger] adopt_asked(
                a,
                events,
                j,
            ) == AdoptActionView::Git(
                process::may_fail(a.destination, seq!["diff"@, "--quiet"@, "--"@, "."@]),
            ) by {
                lemma_adopt_asked(a, events, j);
                assert(adopt_asked(a, before, j) == adopt_asked(a, events, j));
            }
        }
        if t.tree < t.compared {
            lemma_adopt_asked(a, events, t.compared);
        }
    }
}

proof fn lemma_all_refused_grows(a: AdoptOf, events: Seq<AdoptEventView>, h: AdoptTrail, k: int)
    requires
        events.len() > 0,
        0 <= h.listed < events.len() - 1,
        all_refused(a, events.drop_last(), h, k),
    ensures
        all_refused(a, events, h, k),
{
    reveal(all_refused);
    assert forall|i: int| 0 <= i < k implies commit_refused(
        a,
        events,
        h,
        i,
        #[trigger] h.tries[i],
    ) by {
        lemma_refused_grows(a, events, h, i, h.tries[i]);
    }
}

proof fn lemma_found_grows(a: AdoptOf, events: Seq<AdoptEventView>, h: AdoptTrail)
    requires
        events.len() > 0,
        was_found(a, events.drop_last(), h),
    ensures
        was_found(a, events, h),
        match_in(events, h) == match_in(events.drop_last(), h),
        h.found.compared < events.len() - 1,
{
    reveal(was_found);
    let before = events.drop_last();
    lemma_listed_grows(a, events, h);
    lemma_all_refused_grows(a, events, h, h.tries.len() as int);
    lemma_adopt_asked(a, events, h.found.tree);
    lemma_adopt_asked(a, events, h.found.compared);
    assert forall|j: int| h.found.tree < j <= h.found.compared implies #[trigger] adopt_asked(
        a,
        events,
        j,
    ) == AdoptActionView::Git(
        process::may_fail(a.destination, seq!["diff"@, "--quiet"@, "--"@, "."@]),
    ) by {
        lemma_adopt_asked(a, events, j);
        assert(adopt_asked(a, before, j) == adopt_asked(a, events, j));
    }
}

proof fn lemma_heads_grow(a: AdoptOf, events: Seq<AdoptEventView>, h: AdoptTrail, n: int)
    requires
        events.len() > 0,
        match_in(events, h) == match_in(events.drop_last(), h),
    ensures
        default_refused(a, events.drop_last(), h) ==> default_refused(a, events, h),
        heads_refused(a, events.drop_last(), h, n) ==> heads_refused(a, events, h, n),
{
    reveal(default_refused);
    reveal(heads_refused);
    lemma_all_asked(a, events);
    let before = events.drop_last();
    if heads_refused(a, before, h, n) {
        assert forall|k: int| 0 <= k < n implies head_asked(
            a,
            events,
            h,
            k,
            #[trigger] h.refused[k],
        ) && events[h.refused[k]]->Ran_0.code != 0 by {
            assert(head_asked(a, before, h, k, h.refused[k]));
        }
    }
    if default_refused(a, before, h) {
        if exists|k: int|
            #[trigger] is_default(a, k) && head_asked(a, before, h, k, h.default_asked)
                && before[h.default_asked]->Ran_0.code != 0 {
            let k = choose|k: int|
                #[trigger] is_default(a, k) && head_asked(a, before, h, k, h.default_asked)
                    && before[h.default_asked]->Ran_0.code != 0;
            assert(is_default(a, k) && head_asked(a, events, h, k, h.default_asked));
        }
    }
}

proof fn lemma_chosen_grows(a: AdoptOf, events: Seq<AdoptEventView>, h: AdoptTrail)
    requires
        events.len() > 0,
        was_chosen(a, events.drop_last(), h),
    ensures
        was_chosen(a, events, h),
        match_in(events, h) == match_in(events.drop_last(), h),
{
    reveal(was_chosen);
    lemma_found_grows(a, events, h);
    lemma_heads_grow(a, events, h, h.head);
    lemma_adopt_asked(a, events, h.reached);
}

proof fn lemma_fault_grows(
    a: AdoptOf,
    events: Seq<AdoptEventView>,
    h: AdoptTrail,
    message: Seq<char>,
)
    requires
        events.len() > 0,
        adopt_fault(a, events.drop_last(), h, message),
    ensures
        adopt_fault(a, events, h, message),
{
    reveal(adopt_fault);
    let before = events.drop_last();
    if 0 <= h.fault < before.len() {
        lemma_adopt_asked(a, events, h.fault);
    }
    if was_listed(a, before, h) {
        lemma_listed_grows(a, events, h);
        if all_refused(a, before, h, revisions_in(before, h).len() as int) {
            lemma_all_refused_grows(a, events, h, revisions_in(before, h).len() as int);
        }
    }
    if was_found(a, before, h) {
        lemma_found_grows(a, events, h);
        lemma_heads_grow(a, events, h, a.project.advertised_heads.len() as int);
    }
}

/// The first `n` steps up to the list of commits.
#[verifier::opaque]
spec fn set_up(a: AdoptOf, events: Seq<AdoptEventView>, h: AdoptTrail, n: int) -> bool {
    let d = a.destination;
    &&& n >= 1 ==> 0 <= h.metadata < events.len() && adopt_asked(a, events, h.metadata)
        == AdoptActionView::Exists(paths::joined(d, ".git"@)) && events[h.metadata]
        == AdoptEventView::Exists(false)
    &&& n >= 2 ==> h.metadata < h.made && ran_at(
        a,
        events,
        h.made,
        process::must_run(d, seq!["init"@, "--initial-branch="@ + a.project.default_branch]),
    )
    &&& n >= 3 ==> h.made < h.remote && ran_at(
        a,
        events,
        h.remote,
        process::may_fail(d, seq!["remote"@, "get-url"@, a.remote_name]),
    )
    &&& n >= 4 ==> h.remote < h.url && ran_at(
        a,
        events,
        h.url,
        process::must_run(
            d,
            seq![
                "remote"@,
                if events[h.remote]->Ran_0.code == 0 {
                    "set-url"@
                } else {
                    "add"@
                },
                a.remote_name,
                a.project.remote_url,
            ],
        ),
    )
    &&& n >= 5 ==> h.url < h.mapped && ran_at(
        a,
        events,
        h.mapped,
        process::must_run(
            d,
            seq![
                "config"@,
                "remote."@ + a.remote_name + ".fetch"@,
                heads_mapping(a.remote_name),
            ],
        ),
    )
    &&& n >= 6 ==> h.mapped < h.fetched && ran_at(
        a,
        events,
        h.fetched,
        GitCallView {
            args: seq![
                "fetch"@,
                "--prune"@,
                "--no-tags"@,
                a.remote_name,
                heads_mapping(a.remote_name),
            ],
            options: (RunOptionsView {
                cwd: Some(d),
                env: remote::token_env(a.token),
                input: None,
                allow_failure: false,
            }),
        },
    )
    &&& n >= 7 ==> h.fetched < h.listed && ran_at(
        a,
        events,
        h.listed,
        process::must_run(d, seq!["rev-list"@, "--topo-order"@, "--all"@]),
    )
}

proof fn lemma_set_up(a: AdoptOf, events: Seq<AdoptEventView>, h: AdoptTrail)
    requires
        set_up(a, events, h, 7),
    ensures
        was_listed(a, events, h),
{
    reveal(set_up);
    reveal(was_listed);
}

proof fn lemma_set_up_grows(a: AdoptOf, events: Seq<AdoptEventView>, h: AdoptTrail, n: int)
    requires
        events.len() > 0,
        set_up(a, events.drop_last(), h, n),
    ensures
        set_up(a, events, h, n),
        n == 1 ==> h.metadata < events.len() - 1,
        n == 2 ==> h.made < events.len() - 1,
        n == 3 ==> h.remote < events.len() - 1 && events[h.remote]
            == events.drop_last()[h.remote],
        n == 4 ==> h.url < events.len() - 1,
        n == 5 ==> h.mapped < events.len() - 1,
        n == 6 ==> h.fetched < events.len() - 1,
{
    reveal(set_up);
    lemma_all_asked(a, events);
}

/// What an adoption knows at its stage is what it was told.
#[verifier::opaque]
spec fn adopt_told(
    a: AdoptOf,
    events: Seq<AdoptEventView>,
    h: AdoptTrail,
    s: AdoptView,
) -> bool {
    &&& s.destination == a.destination
    &&& s.remote_name == a.remote_name
    &&& s.remote_url == a.project.remote_url
    &&& s.default_branch == a.project.default_branch
    &&& s.heads == a.project.advertised_heads
    &&& s.token == a.token
    &&& s.stage !is Cleanup && s.stage !is Finished ==> s.failure is None
    &&& match s.stage {
        AdoptStage::Metadata => true,
        AdoptStage::Init => set_up(a, events, h, 1),
        AdoptStage::Remote => set_up(a, events, h, 2),
        AdoptStage::Url => set_up(a, events, h, 3) && s.known == (events[h.remote]->Ran_0.code
            == 0),
        AdoptStage::Mapping => set_up(a, events, h, 4),
        AdoptStage::Fetch => set_up(a, events, h, 5),
        AdoptStage::Revisions => set_up(a, events, h, 6),
        AdoptStage::Tree => was_listed(a, events, h) && s.revisions == revisions_in(events, h)
            && 0 <= s.at < s.revisions.len() && all_refused(a, events, h, s.at),
        AdoptStage::Compare => was_listed(a, events, h) && s.revisions == revisions_in(events, h)
            && 0 <= s.at < s.revisions.len() && all_refused(a, events, h, s.at) && tree_read(
            a,
            events,
            h,
            s.at,
            h.found,
        ) && only_compared(a, events, h.found, events.len() - 1),
        AdoptStage::Default => was_found(a, events, h) && s.baseline == match_in(events, h)
            && is_default(a, s.at),
        AdoptStage::Head => was_found(a, events, h) && s.baseline == match_in(events, h)
            && default_refused(a, events, h) && heads_refused(a, events, h, s.at) && 0 <= s.at
            < s.heads.len(),
        AdoptStage::Install => was_chosen(a, events, h) && s.baseline == match_in(events, h)
            && s.branch == a.project.advertised_heads[h.head].name,
        AdoptStage::Cleanup => s.failure is Some && adopt_fault(a, events, h, s.failure->0),
        AdoptStage::Finished => match s.failure {
            Some(message) => adopt_fault(a, events, h, message),
            None => adopt_done(a, events, h),
        },
    }
}

/// The directory was put on the branch at the commit that matched.
pub open spec fn adopt_done(a: AdoptOf, events: Seq<AdoptEventView>, h: AdoptTrail) -> bool {
    &&& was_chosen(a, events, h)
    &&& 0 <= h.installed < events.len()
    &&& adopt_asked(a, events, h.installed) == AdoptActionView::Install(place_orders(a, events, h))
    &&& events[h.installed] is Did
}

proof fn lemma_told_grows(
    a: AdoptOf,
    events: Seq<AdoptEventView>,
    h: AdoptTrail,
    s: AdoptView,
)
    requires
        events.len() > 0,
        s == adopt_after(a, events.drop_last()),
        adopt_told(a, events.drop_last(), h, s),
        adopt_asked(a, events, events.len() - 1) == adopt::adopt_requested(s),
    ensures
        adopt_told(a, events, h, s),
{
    reveal(adopt_told);
    let before = events.drop_last();
    match s.stage {
        AdoptStage::Metadata => {},
        AdoptStage::Init => lemma_set_up_grows(a, events, h, 1),
        AdoptStage::Remote => lemma_set_up_grows(a, events, h, 2),
        AdoptStage::Url => lemma_set_up_grows(a, events, h, 3),
        AdoptStage::Mapping => lemma_set_up_grows(a, events, h, 4),
        AdoptStage::Fetch => lemma_set_up_grows(a, events, h, 5),
        AdoptStage::Revisions => lemma_set_up_grows(a, events, h, 6),
        AdoptStage::Tree => {
            lemma_listed_grows(a, events, h);
            lemma_all_refused_grows(a, events, h, s.at);
        },
        AdoptStage::Compare => {
            lemma_listed_grows(a, events, h);
            lemma_all_refused_grows(a, events, h, s.at);
            lemma_adopt_asked(a, events, h.found.tree);
            assert forall|j: int| h.found.tree < j <= events.len() - 1 implies #[trigger] adopt_asked(
                a,
                events,
                j,
            ) == AdoptActionView::Git(
                process::may_fail(a.destination, seq!["diff"@, "--quiet"@, "--"@, "."@]),
            ) by {
                if j < events.len() - 1 {
                    lemma_adopt_asked(a, events, j);
                    assert(adopt_asked(a, before, j) == adopt_asked(a, events, j));
                }
            }
        },
        AdoptStage::Default => lemma_found_grows(a, events, h),
        AdoptStage::Head => {
            lemma_found_grows(a, events, h);
            lemma_heads_grow(a, events, h, s.at);
        },
        AdoptStage::Install => lemma_chosen_grows(a, events, h),
        AdoptStage::Cleanup => lemma_fault_grows(a, events, h, s.failure->0),
        AdoptStage::Finished => match s.failure {
            Some(message) => lemma_fault_grows(a, events, h, message),
            None => {
                lemma_chosen_grows(a, events, h);
                lemma_adopt_asked(a, events, h.installed);
            },
        },
    }
}

/// Whether two trails agree up to the list of commits.
spec fn same_list(h: AdoptTrail, r: AdoptTrail) -> bool {
    &&& h.metadata == r.metadata
    &&& h.made == r.made
    &&& h.remote == r.remote
    &&& h.url == r.url
    &&& h.mapped == r.mapped
    &&& h.fetched == r.fetched
    &&& h.listed == r.listed
}

proof fn lemma_same_list(a: AdoptOf, events: Seq<AdoptEventView>, h: AdoptTrail, r: AdoptTrail)
    requires
        same_list(h, r),
    ensures
        was_listed(a, events, h) == was_listed(a, events, r),
        revisions_in(events, h) == revisions_in(events, r),
        forall|k: int, t: Try| #[trigger]
            commit_refused(a, events, h, k, t) == commit_refused(a, events, r, k, t),
        forall|k: int| h.tries == r.tries ==> #[trigger] all_refused(a, events, h, k) == all_refused(
            a,
            events,
            r,
            k,
        ),
{
    reveal(was_listed);
    reveal(commit_refused);
    assert forall|k: int, t: Try| #[trigger]
        commit_refused(a, events, h, k, t) == commit_refused(a, events, r, k, t) by {}
    assert forall|k: int| h.tries == r.tries implies #[trigger] all_refused(a, events, h, k)
        == all_refused(a, events, r, k) by {
        reveal(all_refused);
        assert forall|i: int| 0 <= i < k && i < h.tries.len() implies commit_refused(
            a,
            events,
            h,
            i,
            #[trigger] h.tries[i],
        ) == commit_refused(a, events, r, i, r.tries[i]) by {}
    }
}

proof fn lemma_same_match(a: AdoptOf, events: Seq<AdoptEventView>, h: AdoptTrail, r: AdoptTrail)
    requires
        same_list(h, r),
        h.tries == r.tries,
        h.found == r.found,
    ensures
        was_found(a, events, h) == was_found(a, events, r),
        match_in(events, h) == match_in(events, r),
        h.default_asked == r.default_asked ==> default_refused(a, events, h) == default_refused(
            a,
            events,
            r,
        ),
        forall|n: int| h.refused == r.refused ==> #[trigger] heads_refused(a, events, h, n)
            == heads_refused(a, events, r, n),
{
    lemma_same_list(a, events, h, r);
    assert(was_found(a, events, h) == was_found(a, events, r)) by {
        reveal(was_found);
    }
    assert forall|k: int, i: int| #[trigger]
        head_asked(a, events, h, k, i) == head_asked(a, events, r, k, i) by {}
    if h.default_asked == r.default_asked {
        reveal(default_refused);
    }
    assert forall|n: int| h.refused == r.refused implies #[trigger] heads_refused(a, events, h, n)
        == heads_refused(a, events, r, n) by {
        reveal(heads_refused);
    }
}

/// An adoption before its next step.
#[verifier::opaque]
spec fn adopt_ready(
    a: AdoptOf,
    events: Seq<AdoptEventView>,
    h: AdoptTrail,
    was: AdoptView,
) -> bool {
    &&& events.len() > 0
    &&& adopt_told(a, events, h, was)
    &&& adopt_asked(a, events, events.len() - 1) == adopt::adopt_requested(was)
    &&& adopt_after(a, events) == adopt::adopted(was, events[events.len() - 1])
    &&& was.stage is Init ==> h.metadata < events.len() - 1
    &&& was.stage is Remote ==> h.made < events.len() - 1
    &&& was.stage is Url ==> h.remote < events.len() - 1
    &&& was.stage is Mapping ==> h.url < events.len() - 1
    &&& was.stage is Fetch ==> h.mapped < events.len() - 1
    &&& was.stage is Revisions ==> h.fetched < events.len() - 1
    &&& was.stage is Tree ==> h.listed < events.len() - 1
    &&& was.stage is Compare ==> h.found.tree < events.len() - 1
    &&& was.stage is Default || was.stage is Head ==> h.found.compared < events.len() - 1
}

/// The step up to the list of commits that is answered last.
spec fn set_up_noticed(h: AdoptTrail, s: AdoptView, last: int) -> AdoptTrail {
    let h = AdoptTrail { fault: last, ..h };
    match s.stage {
        AdoptStage::Metadata => AdoptTrail { metadata: last, ..h },
        AdoptStage::Init => AdoptTrail { made: last, ..h },
        AdoptStage::Remote => AdoptTrail { remote: last, ..h },
        AdoptStage::Url => AdoptTrail { url: last, ..h },
        AdoptStage::Mapping => AdoptTrail { mapped: last, ..h },
        AdoptStage::Fetch => AdoptTrail { fetched: last, ..h },
        _ => AdoptTrail { listed: last, tries: Seq::empty(), ..h },
    }
}

proof fn lemma_set_up_step(
    a: AdoptOf,
    events: Seq<AdoptEventView>,
    h: AdoptTrail,
    was: AdoptView,
) -> (r: AdoptTrail)
    requires
        adopt_ready(a, events, h, was),
        was.stage is Metadata || was.stage is Init || was.stage is Remote || was.stage is Url
            || was.stage is Mapping || was.stage is Fetch,
    ensures
        adopt_told(a, events, r, adopt_after(a, events)),
{
    reveal(adopt_ready);
    reveal(adopt_told);
    reveal(adopt::adopted);
    let last = events.len() - 1;
    let r = set_up_noticed(h, was, last);
    let now = adopt_after(a, events);
    if now.failure is Some {
        assert(adopt_fault(a, events, r, now.failure->0)) by {
            reveal(adopt_fault);
        }
        r
    } else if now.stage == was.stage {
        h
    } else {
        reveal(set_up);
        r
    }
}

proof fn lemma_list_step(
    a: AdoptOf,
    events: Seq<AdoptEventView>,
    h: AdoptTrail,
    was: AdoptView,
) -> (r: AdoptTrail)
    requires
        adopt_ready(a, events, h, was),
        was.stage is Revisions,
    ensures
        adopt_told(a, events, r, adopt_after(a, events)),
{
    reveal(adopt_ready);
    reveal(adopt_told);
    reveal(adopt::adopted);
    let last = events.len() - 1;
    let r = set_up_noticed(h, was, last);
    let now = adopt_after(a, events);
    if events[last] is Ran {
        assert(set_up(a, events, r, 7)) by {
            reveal(set_up);
        }
        lemma_set_up(a, events, r);
        assert(all_refused(a, events, r, 0)) by {
            reveal(all_refused);
        }
        if now.failure is Some {
            assert(adopt_fault(a, events, r, now.failure->0)) by {
                reveal(adopt_fault);
            }
        }
        r
    } else if events[last] is Failed {
        assert(adopt_fault(a, events, r, now.failure->0)) by {
            reveal(adopt_fault);
        }
        r
    } else {
        h
    }
}

/// One more commit is refused.
proof fn lemma_one_refused(
    a: AdoptOf,
    events: Seq<AdoptEventView>,
    h: AdoptTrail,
    t: Try,
    k: int,
) -> (r: AdoptTrail)
    requires
        was_listed(a, events, h),
        all_refused(a, events, h, k),
        commit_refused(a, events, h, k, t),
    ensures
        r == (AdoptTrail { tries: h.tries.push(t), ..h }),
        was_listed(a, events, r),
        revisions_in(events, r) == revisions_in(events, h),
        all_refused(a, events, r, k + 1),
{
    let r = AdoptTrail { tries: h.tries.push(t), ..h };
    lemma_same_list(a, events, h, r);
    reveal(all_refused);
    assert forall|i: int| 0 <= i < k + 1 implies commit_refused(
        a,
        events,
        r,
        i,
        #[trigger] r.tries[i],
    ) by {
        if i < k {
            assert(commit_refused(a, events, h, i, h.tries[i]));
        }
        assert(commit_refused(a, events, h, i, r.tries[i]));
    }
    r
}

proof fn lemma_tree_step(
    a: AdoptOf,
    events: Seq<AdoptEventView>,
    h: AdoptTrail,
    was: AdoptView,
) -> (r: AdoptTrail)
    requires
        adopt_ready(a, events, h, was),
        was.stage is Tree,
    ensures
        adopt_told(a, events, r, adopt_after(a, events)),
{
    reveal(adopt_ready);
    reveal(adopt_told);
    reveal(adopt::adopted);
    let last = events.len() - 1;
    let now = adopt_after(a, events);
    let t = Try { tree: last, compared: last };
    assert(0 <= h.listed) by {
        reveal(was_listed);
    }
    if now.stage is Compare {
        let r = AdoptTrail { found: t, ..h };
        lemma_same_list(a, events, h, r);
        r
    } else if events[last] is Failed || events[last] is Ran {
        assert(commit_refused(a, events, h, was.at, t)) by {
            reveal(commit_refused);
        }
        let r = lemma_one_refused(a, events, h, t, was.at);
        if now.failure is Some {
            assert(adopt_fault(a, events, r, now.failure->0)) by {
                reveal(adopt_fault);
            }
        }
        r
    } else {
        h
    }
}

proof fn lemma_default(a: AdoptOf, from: int)
    requires
        0 <= from,
        forall|i: int|
            0 <= i < from && i < a.project.advertised_heads.len() ==> (
            #[trigger] a.project.advertised_heads[i]).name != a.project.default_branch,
    ensures
        match adopt::head_position(a.project.advertised_heads, a.project.default_branch, from) {
            Some(k) => is_default(a, k),
            None => forall|i: int|
                0 <= i < a.project.advertised_heads.len() ==> (
                #[trigger] a.project.advertised_heads[i]).name != a.project.default_branch,
        },
    decreases a.project.advertised_heads.len() - from,
{
    if from < a.project.advertised_heads.len() && a.project.advertised_heads[from].name
        != a.project.default_branch {
        lemma_default(a, from + 1);
    }
}

proof fn lemma_compare_step(
    a: AdoptOf,
    events: Seq<AdoptEventView>,
    h: AdoptTrail,
    was: AdoptView,
) -> (r: AdoptTrail)
    requires
        adopt_ready(a, events, h, was),
        was.stage is Compare,
    ensures
        adopt_told(a, events, r, adopt_after(a, events)),
{
    reveal(adopt_ready);
    reveal(adopt_told);
    reveal(adopt::adopted);
    let last = events.len() - 1;
    let now = adopt_after(a, events);
    let t = Try { compared: last, ..h.found };
    if events[last] is Ran && events[last]->Ran_0.code == 0 {
        let r = AdoptTrail { found: t, refused: Seq::empty(), ..h };
        lemma_same_list(a, events, h, r);
        assert(h.tries.len() == was.at) by {
            reveal(all_refused);
        }
        assert(was_found(a, events, r)) by {
            reveal(was_found);
        }
        lemma_default(a, 0);
        assert(heads_refused(a, events, r, 0)) by {
            reveal(heads_refused);
        }
        if !(now.stage is Default) {
            assert(default_refused(a, events, r)) by {
                reveal(default_refused);
            }
        }
        if now.failure is Some {
            assert(adopt_fault(a, events, r, now.failure->0)) by {
                reveal(adopt_fault);
            }
        }
        r
    } else if events[last] is Failed || events[last] is Ran {
        assert(commit_refused(a, events, h, was.at, t)) by {
            reveal(commit_refused);
        }
        let r = lemma_one_refused(a, events, h, t, was.at);
        if now.failure is Some {
            assert(adopt_fault(a, events, r, now.failure->0)) by {
                reveal(adopt_fault);
            }
        }
        r
    } else {
        h
    }
}

proof fn lemma_default_step(
    a: AdoptOf,
    events: Seq<AdoptEventView>,
    h: AdoptTrail,
    was: AdoptView,
) -> (r: AdoptTrail)
    requires
        adopt_ready(a, events, h, was),
        was.stage is Default,
    ensures
        adopt_told(a, events, r, adopt_after(a, events)),
{
    reveal(adopt_ready);
    reveal(adopt_told);
    reveal(adopt::adopted);
    let last = events.len() - 1;
    let now = adopt_after(a, events);
    let r = AdoptTrail {
        default_asked: last,
        refused: Seq::empty(),
        head: was.at,
        reached: last,
        fault: last,
        ..h
    };
    lemma_same_match(a, events, h, r);
    if events[last] is Ran {
        assert(head_asked(a, events, r, was.at, last));
        assert(heads_refused(a, events, r, 0)) by {
            reveal(heads_refused);
        }
        if events[last]->Ran_0.code == 0 {
            assert(was_chosen(a, events, r)) by {
                reveal(was_chosen);
            }
        } else {
            assert(default_refused(a, events, r)) by {
                reveal(default_refused);
                assert(is_default(a, was.at));
            }
        }
        if now.failure is Some {
            assert(adopt_fault(a, events, r, now.failure->0)) by {
                reveal(adopt_fault);
            }
        }
        r
    } else if events[last] is Failed {
        assert(adopt_fault(a, events, r, now.failure->0)) by {
            reveal(adopt_fault);
        }
        r
    } else {
        h
    }
}

proof fn lemma_head_step(
    a: AdoptOf,
    events: Seq<AdoptEventView>,
    h: AdoptTrail,
    was: AdoptView,
) -> (r: AdoptTrail)
    requires
        adopt_ready(a, events, h, was),
        was.stage is Head,
    ensures
        adopt_told(a, events, r, adopt_after(a, events)),
{
    reveal(adopt_ready);
    reveal(adopt_told);
    reveal(adopt::adopted);
    let last = events.len() - 1;
    let now = adopt_after(a, events);
    if events[last] is Ran && events[last]->Ran_0.code == 0 {
        let r = AdoptTrail { head: was.at, reached: last, ..h };
        lemma_same_match(a, events, h, r);
        assert(head_asked(a, events, r, was.at, last));
        assert(was_chosen(a, events, r)) by {
            reveal(was_chosen);
        }
        r
    } else if events[last] is Ran {
        let r = AdoptTrail { refused: h.refused.push(last), ..h };
        lemma_same_match(a, events, h, r);
        assert(heads_refused(a, events, r, was.at + 1)) by {
            reveal(heads_refused);
            assert forall|k: int| 0 <= k < was.at + 1 implies head_asked(
                a,
                events,
                r,
                k,
                #[trigger] r.refused[k],
            ) && events[r.refused[k]]->Ran_0.code != 0 by {
                if k < was.at {
                    assert(head_asked(a, events, h, k, h.refused[k]));
                }
            }
        }
        if now.failure is Some {
            assert(adopt_fault(a, events, r, now.failure->0)) by {
                reveal(adopt_fault);
            }
        }
        r
    } else if events[last] is Failed {
        let r = AdoptTrail { fault: last, ..h };
        assert(adopt_fault(a, events, r, now.failure->0)) by {
            reveal(adopt_fault);
        }
        r
    } else {
        h
    }
}

proof fn lemma_last_step(
    a: AdoptOf,
    events: Seq<AdoptEventView>,
    h: AdoptTrail,
    was: AdoptView,
) -> (r: AdoptTrail)
    requires
        adopt_ready(a, events, h, was),
        was.stage is Install || was.stage is Cleanup || was.stage is Finished,
    ensures
        adopt_told(a, events, r, adopt_after(a, events)),
{
    reveal(adopt_ready);
    reveal(adopt_told);
    reveal(adopt::adopted);
    let last = events.len() - 1;
    let now = adopt_after(a, events);
    if was.stage is Install && events[last] is Did {
        let r = AdoptTrail { installed: last, ..h };
        lemma_same_match(a, events, h, r);
        assert(was_chosen(a, events, r)) by {
            reveal(was_chosen);
        }
        r
    } else if was.stage is Install && events[last] is Failed {
        let r = AdoptTrail { fault: last, ..h };
        assert(adopt_fault(a, events, r, now.failure->0)) by {
            reveal(adopt_fault);
        }
        r
    } else {
        h
    }
}

proof fn lemma_ready(a: AdoptOf, events: Seq<AdoptEventView>, h: AdoptTrail)
    requires
        events.len() > 0,
        adopt_told(a, events.drop_last(), h, adopt_after(a, events.drop_last())),
    ensures
        adopt_ready(a, events, h, adopt_after(a, events.drop_last())),
{
    let before = events.drop_last();
    let was = adopt_after(a, before);
    let last = events.len() - 1;
    assert(events.take(last) =~= before);
    assert(adopt_asked(a, events, last) == adopt::adopt_requested(was)) by {
        reveal(adopt_asked);
    }
    lemma_told_grows(a, events, h, was);
    reveal(adopt_ready);
    assert(adopt_after(a, events) == adopt::adopted(was, events[last]));
    reveal(adopt_told);
    match was.stage {
        AdoptStage::Init => lemma_set_up_grows(a, events, h, 1),
        AdoptStage::Remote => lemma_set_up_grows(a, events, h, 2),
        AdoptStage::Url => lemma_set_up_grows(a, events, h, 3),
        AdoptStage::Mapping => lemma_set_up_grows(a, events, h, 4),
        AdoptStage::Fetch => lemma_set_up_grows(a, events, h, 5),
        AdoptStage::Revisions => lemma_set_up_grows(a, events, h, 6),
        AdoptStage::Tree => lemma_listed_grows(a, events, h),
        AdoptStage::Default => lemma_found_grows(a, events, h),
        AdoptStage::Head => lemma_found_grows(a, events, h),
        _ => {},
    }
}

proof fn lemma_adopt_trail(a: AdoptOf, events: Seq<AdoptEventView>) -> (h: AdoptTrail)
    ensures
        adopt_told(a, events, h, adopt_after(a, events)),
    decreases events.len(),
{
    if events.len() == 0 {
        reveal(adopt_told);
        arbitrary()
    } else {
        let before = events.drop_last();
        let was = adopt_after(a, before);
        let h = lemma_adopt_trail(a, before);
        lemma_ready(a, events, h);
        if was.stage is Revisions {
            lemma_list_step(a, events, h, was)
        } else if was.stage is Tree {
            lemma_tree_step(a, events, h, was)
        } else if was.stage is Compare {
            lemma_compare_step(a, events, h, was)
        } else if was.stage is Default {
            lemma_default_step(a, events, h, was)
        } else if was.stage is Head {
            lemma_head_step(a, events, h, was)
        } else if was.stage is Install || was.stage is Cleanup || was.stage is Finished {
            lemma_last_step(a, events, h, was)
        } else {
            lemma_set_up_step(a, events, h, was)
        }
    }
}

/// A directory is put on a branch only at a commit whose tree Git read, and from which, directly
/// afterwards, a plain comparison of all files of the directory found no difference. It is the first
/// commit of the list of which this holds. The branch is one whose head Git said to hold that
/// commit: the default branch where it does, else the first that does.
pub proof fn law_adoption_compares_everything(a: AdoptOf, events: Seq<AdoptEventView>)
    requires
        adopt::adopt_requested(adopt_after(a, events)) is Install,
    ensures
        exists|h: AdoptTrail|
            #[trigger] was_chosen(a, events, h) && adopt::adopt_requested(adopt_after(a, events))
                == AdoptActionView::Install(place_orders(a, events, h)),
{
    let h = lemma_adopt_trail(a, events);
    reveal(adopt_told);
    assert(was_chosen(a, events, h));
}

/// An adoption is over without an error only where the directory was put on such a commit.
pub proof fn law_adoption_ends_in_place(a: AdoptOf, events: Seq<AdoptEventView>)
    requires
        adopt::adopt_requested(adopt_after(a, events)) is Return,
    ensures
        exists|h: AdoptTrail| #[trigger] adopt_done(a, events, h),
{
    let h = lemma_adopt_trail(a, events);
    reveal(adopt_told);
    assert(adopt_done(a, events, h));
}

/// An adoption fails only for the reason that it names: a directory is refused only where every
/// commit of the list was, and a matching commit only where every head was asked about it.
pub proof fn law_adoption_fails_for_reasons(a: AdoptOf, events: Seq<AdoptEventView>)
    requires
        adopt::adopt_requested(adopt_after(a, events)) is Fail,
    ensures
        exists|h: AdoptTrail| #[trigger]
            adopt_fault(a, events, h, adopt::adopt_requested(adopt_after(a, events))->Fail_0),
{
    let h = lemma_adopt_trail(a, events);
    reveal(adopt_told);
    assert(adopt_fault(a, events, h, adopt::adopt_requested(adopt_after(a, events))->Fail_0));
}

/// Every answer takes an adoption to another question.
pub proof fn law_adoption_goes_on(s: AdoptView, e: AdoptEventView)
    requires
        match s.stage {
            AdoptStage::Metadata => e is Exists || e is Failed,
            AdoptStage::Install => e is Did || e is Failed,
            AdoptStage::Cleanup => true,
            AdoptStage::Finished => false,
            _ => e is Ran || e is Failed,
        },
    ensures
        adopt::adopted(s, e).stage != s.stage || adopt::adopted(s, e).at == s.at + 1,
{
    reveal(adopt::adopted);
}

} // verus!
