//! How a hosted project becomes a worktree, answer by answer.
use vstd::prelude::*;
use crate::adopt;
use crate::materialize;
use crate::paths;
use crate::process;
use crate::remote;
use crate::text;
use crate::text_map;
use crate::materialize::{MaterializeActionView, MaterializeEventView, MaterializeView};
use crate::process::{GitCallView, RunOptionsView, RunResultView};
use crate::protocol::{AdvertisedHeadView, CatalogProjectView};
use crate::transaction::ReconcileResultView;

verus! {

/// A project that is not there yet is cloned from its remote, which must then have a commit checked
/// out.
pub proof fn law_course_of_a_clone(
    s: MaterializeView,
    run: RunResultView,
)
    requires
        s.stage is Exists
            || s.stage is Parent
            || s.stage is Clone
            || s.stage is Verify
            || s.stage is Switch,
    ensures
        ({
            let d = s.destination;
            let known = s.project.advertised_heads.len() > 0;
            let ask = MaterializeActionView::Git(
                process::may_fail(d, seq!["remote"@, "get-url"@, s.remote_name]),
            );
            let next = |e: MaterializeEventView| materialize::materialize_requested(materialize::materialized(s, e));
            &&& s.stage is Exists ==> {
                &&& materialize::materialize_requested(s) == MaterializeActionView::Exists(d)
                &&& next(MaterializeEventView::Exists(true)) == MaterializeActionView::Git(
                    process::may_fail(d, seq!["rev-parse"@, "--is-inside-work-tree"@]),
                )
                &&& !known ==> next(MaterializeEventView::Exists(false))
                    == MaterializeActionView::Make(d)
                &&& known ==> next(MaterializeEventView::Exists(false))
                    == MaterializeActionView::Make(
                    match paths::parent(d) {
                        Some(above) => above,
                        None => "."@,
                    },
                )
            }
            &&& s.stage is Parent ==> next(MaterializeEventView::Did)
                == MaterializeActionView::Git(
                GitCallView {
                    args: seq!["clone"@, "--origin"@, s.remote_name, s.project.remote_url, d],
                    options: (RunOptionsView {
                        cwd: paths::parent(d),
                        env: remote::token_env(s.token),
                        input: None,
                        allow_failure: false,
                    }),
                },
            )
            &&& s.stage is Clone ==> next(MaterializeEventView::Ran(run))
                == MaterializeActionView::Git(
                process::may_fail(d, seq!["rev-parse"@, "--verify"@, "HEAD"@]),
            )
            &&& s.stage is Verify && run.code == 0 ==> next(MaterializeEventView::Ran(run)) == ask
            &&& s.stage is Verify && run.code != 0 ==> next(MaterializeEventView::Ran(run))
                == MaterializeActionView::Git(
                process::must_run(
                    d,
                    seq![
                        "switch"@,
                        "-c"@,
                        materialize::switch_branch(s.project),
                        "--track"@,
                        s.remote_name + "/"@ + materialize::switch_branch(s.project),
                    ],
                ),
            )
            &&& s.stage is Switch ==> next(MaterializeEventView::Ran(run)) == ask
        }),
{
    reveal(materialize::materialized);
}

/// Where nothing is hosted, a worktree is begun with the remote of the project; one that is there is
/// used as it is, and adopted where it is no worktree yet.
pub proof fn law_course_of_a_worktree(
    s: MaterializeView,
    run: RunResultView,
)
    requires
        s.stage is Directory
            || s.stage is Init
            || s.stage is Add
            || s.stage is Inside
            || s.stage is Adopt,
    ensures
        ({
            let d = s.destination;
            let known = s.project.advertised_heads.len() > 0;
            let ask = MaterializeActionView::Git(
                process::may_fail(d, seq!["remote"@, "get-url"@, s.remote_name]),
            );
            let next = |e: MaterializeEventView| materialize::materialize_requested(materialize::materialized(s, e));
            &&& s.stage is Directory ==> next(MaterializeEventView::Did)
                == MaterializeActionView::Git(
                process::must_run(d, seq!["init"@, "--initial-branch="@ + s.project.default_branch]),
            )
            &&& s.stage is Init ==> next(MaterializeEventView::Ran(run))
                == MaterializeActionView::Git(
                process::must_run(d, seq!["remote"@, "add"@, s.remote_name, s.project.remote_url]),
            )
            &&& s.stage is Add ==> next(MaterializeEventView::Ran(run)) == ask
            &&& s.stage is Inside && run.code == 0 ==> next(MaterializeEventView::Ran(run)) == ask
            &&& s.stage is Inside && run.code != 0 && known ==> next(
                MaterializeEventView::Ran(run),
            ) == MaterializeActionView::Adopt
            &&& s.stage is Inside && run.code != 0 && !known ==> next(
                MaterializeEventView::Ran(run),
            ) == MaterializeActionView::Fail(d + " exists but is not a Git worktree"@)
            &&& s.stage is Adopt ==> next(MaterializeEventView::Did) == ask
        }),
{
    reveal(materialize::materialized);
}

/// The remote gets the address of the project and all of its branches mapped, before anything is
/// fetched.
pub proof fn law_course_of_a_remote(
    s: MaterializeView,
    run: RunResultView,
    path: Seq<char>,
    hosted: Map<Seq<char>, Seq<char>>,
    local: Map<Seq<char>, Seq<char>>,
)
    requires
        s.stage is Remote
            || s.stage is Url
            || s.stage is Mapping
            || s.stage is Canonical
            || s.stage is Fetch
            || s.stage is Local,
    ensures
        ({
            let d = s.destination;
            let next = |e: MaterializeEventView| materialize::materialize_requested(materialize::materialized(s, e));
            &&& s.stage is Remote && run.code == 0 ==> next(MaterializeEventView::Ran(run))
                == MaterializeActionView::Git(
                process::must_run(d, seq!["remote"@, "set-url"@, s.remote_name, s.project.remote_url]),
            )
            &&& s.stage is Remote && run.code != 0 ==> next(MaterializeEventView::Ran(run))
                == MaterializeActionView::Git(
                process::must_run(d, seq!["remote"@, "add"@, s.remote_name, s.project.remote_url]),
            )
            &&& s.stage is Url ==> next(MaterializeEventView::Ran(run))
                == MaterializeActionView::Git(
                process::must_run(
                    d,
                    seq![
                        "config"@,
                        "remote."@ + s.remote_name + ".fetch"@,
                        "+refs/heads/*:refs/remotes/"@ + s.remote_name + "/*"@,
                    ],
                ),
            )
            &&& s.stage is Mapping ==> next(MaterializeEventView::Ran(run))
                == MaterializeActionView::Canonical(d)
            &&& s.stage is Canonical ==> next(MaterializeEventView::Path(path))
                == MaterializeActionView::Fetch(path, s.remote_name)
            &&& s.stage is Fetch ==> next(MaterializeEventView::Heads(hosted))
                == MaterializeActionView::Local(d) && materialize::materialized(
                s,
                MaterializeEventView::Heads(hosted),
            ).hosted == hosted
            &&& s.stage is Local ==> next(MaterializeEventView::Heads(local))
                == MaterializeActionView::Branch(d) && materialize::materialized(
                s,
                MaterializeEventView::Heads(local),
            ).local == local
        }),
{
    reveal(materialize::materialized);
}

/// The plain mappings of the branches between two positions that are not hosted, in order.
pub open spec fn unhosted_refspecs(
    names: Seq<Seq<char>>,
    hosted: Map<Seq<char>, Seq<char>>,
    from: int,
    to: int,
) -> Seq<Seq<char>>
    decreases to - from,
{
    if from >= to {
        Seq::empty()
    } else if !hosted.contains_key(names[from]) {
        seq!["refs/heads/"@ + names[from] + ":refs/heads/"@ + names[from]] + unhosted_refspecs(
            names,
            hosted,
            from + 1,
            to,
        )
    } else {
        unhosted_refspecs(names, hosted, from + 1, to)
    }
}

/// A scan of the branches goes on past those that are not hosted, each of which is to be pushed as
/// it is, and past those with the same commit here and there; it stops at the first that has to be
/// compared. What was to be pushed before stays so, and nothing else changes.
pub proof fn law_scan_stops_where_commits_differ(s: MaterializeView, at: int)
    requires
        0 <= at <= s.names.len(),
    ensures
        at <= materialize::scanned(s, at).at <= s.names.len(),
        materialize::scanned(s, at) == (MaterializeView {
            at: materialize::scanned(s, at).at,
            publish: materialize::scanned(s, at).publish,
            ..s
        }),
        s.publish.is_prefix_of(materialize::scanned(s, at).publish),
        forall|k: int|
            at <= k < materialize::scanned(s, at).at ==> !s.hosted.contains_key(#[trigger] s.names[k]) || (
            s.local.contains_key(s.names[k]) && s.local[s.names[k]] == s.hosted[s.names[k]]),
        materialize::scanned(s, at).at < s.names.len() ==> s.hosted.contains_key(
            s.names[materialize::scanned(s, at).at],
        ) && !(s.local.contains_key(s.names[materialize::scanned(s, at).at])
            && s.local[s.names[materialize::scanned(s, at).at]] == s.hosted[s.names[materialize::scanned(s, at).at]]),
        materialize::scanned(s, at).publish == s.publish + unhosted_refspecs(
            s.names,
            s.hosted,
            at,
            materialize::scanned(s, at).at,
        ),
    decreases s.names.len() - at,
{
    assert(s.publish =~= s.publish.subrange(0, s.publish.len() as int));
    assert(s.publish =~= s.publish + Seq::<Seq<char>>::empty());
    if at < s.names.len() {
        let name = s.names[at];
        let more = MaterializeView { publish: s.publish.push(materialize::plain_refspec(name)), ..s };
        if !s.hosted.contains_key(name) {
            law_scan_stops_where_commits_differ(more, at + 1);
            let now = materialize::scanned(s, at);
            let rest = unhosted_refspecs(s.names, s.hosted, at + 1, now.at);
            assert(now == materialize::scanned(more, at + 1));
            assert(more.publish + rest =~= s.publish + (seq![materialize::plain_refspec(name)] + rest));
            assert(s.publish =~= now.publish.subrange(0, s.publish.len() as int));
        } else if s.local.contains_key(name) && s.local[name] == s.hosted[name] {
            law_scan_stops_where_commits_differ(s, at + 1);
        }
    }
}

/// Each branch that differs is compared both ways. Where neither commit is an ancestor of the other,
/// the project is refused and nothing is pushed; where the hosted one is an ancestor of the local
/// one, the branch is to be pushed as it is; else it is left alone.
pub proof fn law_branches_are_compared_both_ways(
    s: MaterializeView,
    behind: RunResultView,
    ahead: RunResultView,
)
    requires
        s.stage is Behind,
        s.failure is None,
        0 <= s.at < s.names.len(),
        s.hosted.contains_key(s.names[s.at]),
        s.local.contains_key(s.names[s.at]),
    ensures
        ({
            let d = s.destination;
            let name = s.names[s.at];
            let s1 = materialize::materialized(s, MaterializeEventView::Ran(behind));
            let s2 = materialize::materialized(s1, MaterializeEventView::Ran(ahead));
            let refspec = "refs/heads/"@ + name + ":refs/heads/"@ + name;
            &&& materialize::materialize_requested(s) == MaterializeActionView::Git(
                process::may_fail(
                    d,
                    seq!["merge-base"@, "--is-ancestor"@, s.hosted[name], s.local[name]],
                ),
            )
            &&& materialize::materialize_requested(s1) == MaterializeActionView::Git(
                process::may_fail(
                    d,
                    seq!["merge-base"@, "--is-ancestor"@, s.local[name], s.hosted[name]],
                ),
            )
            &&& behind.code != 0 && ahead.code != 0 ==> materialize::materialize_requested(s2)
                == MaterializeActionView::Fail(
                "local and hosted histories for branch "@ + name
                    + " diverge; RepoSync will not choose a project identity or overwrite either history"@,
            )
            &&& behind.code == 0 ==> s.publish.push(refspec).is_prefix_of(s2.publish)
                && !(materialize::materialize_requested(s2) is Fail)
            &&& behind.code != 0 && ahead.code == 0 ==> {
                let skipped = materialize::scanned(s, s.at + 1);
                &&& s2.publish == skipped.publish
                &&& !(materialize::materialize_requested(s2) is Fail)
            }
        }),
{
    reveal(materialize::materialized);
    let name = s.names[s.at];
    let s1 = materialize::materialized(s, MaterializeEventView::Ran(behind));
    let more = MaterializeView { publish: s.publish.push(materialize::plain_refspec(name)), ..s1 };
    law_scan_stops_where_commits_differ(more, s.at + 1);
    law_scan_stops_where_commits_differ(s1, s.at + 1);
    law_scan_stops_where_commits_differ(s, s.at + 1);
    lemma_scan_same(s, s1, s.at + 1);
    lemma_picked_keeps(
        MaterializeView {
            names: text_map::sorted_keys(s.hosted),
            selected: Map::empty(),
            ..materialize::scanned(more, s.at + 1)
        },
        0,
    );
    lemma_picked_keeps(
        MaterializeView {
            names: text_map::sorted_keys(s.hosted),
            selected: Map::empty(),
            ..materialize::scanned(s1, s.at + 1)
        },
        0,
    );
}

proof fn lemma_scan_same(a: MaterializeView, b: MaterializeView, at: int)
    requires
        0 <= at,
        a.names == b.names,
        a.hosted == b.hosted,
        a.local == b.local,
        a.publish == b.publish,
    ensures
        materialize::scanned(a, at).publish == materialize::scanned(b, at).publish,
    decreases a.names.len() - at,
{
    if at < a.names.len() {
        let name = a.names[at];
        if !a.hosted.contains_key(name) {
            lemma_scan_same(
                MaterializeView { publish: a.publish.push(materialize::plain_refspec(name)), ..a },
                MaterializeView { publish: b.publish.push(materialize::plain_refspec(name)), ..b },
                at + 1,
            );
        } else if a.local.contains_key(name) && a.local[name] == a.hosted[name] {
            lemma_scan_same(a, b, at + 1);
        }
    }
}

proof fn lemma_picked_keeps(s: MaterializeView, at: int)
    requires
        0 <= at,
    ensures
        materialize::picked(s, at).publish == s.publish,
        materialize::picked(s, at).failure == s.failure,
        materialize::picked(s, at).hosted == s.hosted,
        materialize::picked(s, at).local == s.local,
        materialize::picked(s, at).names == s.names,
    decreases s.names.len() - at,
{
    if at < s.names.len() {
        let name = s.names[at];
        if !(s.local.contains_key(name) && s.local[name] != materialize::oid_of(s.hosted, name)) {
            lemma_picked_keeps(
                MaterializeView {
                    selected: s.selected.insert(name, materialize::oid_of(s.hosted, name)),
                    ..s
                },
                at + 1,
            );
        }
    }
}

/// What is pushed is pushed as it is, with the token; the remote is fetched again afterwards. The
/// worktree is moved only where Git says that its commit is an ancestor of the hosted one, and from
/// the one to the other; a move that is not applied ends it.
pub proof fn law_course_of_a_push_and_a_move(
    s: MaterializeView,
    run: RunResultView,
    moved: ReconcileResultView,
    branch: Seq<char>,
)
    requires
        s.failure is None,
        s.branch == Some(branch),
        s.hosted.contains_key(branch),
        s.local.contains_key(branch),
    ensures
        ({
            let d = s.destination;
            let pushing = |args: Seq<Seq<char>>|
                MaterializeActionView::Git(
                    GitCallView {
                        args,
                        options: (RunOptionsView {
                            cwd: Some(d),
                            env: remote::token_env(s.token),
                            input: None,
                            allow_failure: false,
                        }),
                    },
                );
            let next = |e: MaterializeEventView| materialize::materialize_requested(materialize::materialized(s, e));
            &&& s.stage is PushAll ==> {
                &&& materialize::materialize_requested(s) == pushing(
                    seq!["push"@, s.remote_name, "refs/heads/*:refs/heads/*"@],
                )
                &&& next(MaterializeEventView::Ran(run)) == MaterializeActionView::Fetch(
                    s.local_path,
                    s.remote_name,
                )
            }
            &&& s.stage is Push ==> {
                &&& materialize::materialize_requested(s) == pushing(seq!["push"@, s.remote_name] + s.publish)
                &&& next(MaterializeEventView::Ran(run)) == MaterializeActionView::Fetch(
                    s.local_path,
                    s.remote_name,
                )
            }
            &&& s.stage is Join ==> {
                &&& materialize::materialize_requested(s) == MaterializeActionView::Git(
                    process::may_fail(
                        d,
                        seq!["merge-base"@, "--is-ancestor"@, s.local[branch], s.hosted[branch]],
                    ),
                )
                &&& run.code == 0 ==> next(MaterializeEventView::Ran(run))
                    == MaterializeActionView::Move(d, s.local[branch], s.hosted[branch])
                &&& run.code != 0 ==> !(next(MaterializeEventView::Ran(run)) is Move)
            }
            &&& s.stage is Move ==> {
                &&& materialize::materialize_requested(s) == MaterializeActionView::Move(
                    d,
                    s.local[branch],
                    s.hosted[branch],
                )
                &&& moved.outcome == "applied"@ ==> next(MaterializeEventView::Moved(moved))
                    == MaterializeActionView::Local(d)
                &&& moved.outcome != "applied"@ ==> next(MaterializeEventView::Moved(moved))
                    == MaterializeActionView::Fail(
                    "joining the hosted project conflicts: "@ + match moved.detail {
                        Some(detail) => detail,
                        None => moved.outcome,
                    },
                )
            }
        }),
{
    reveal(materialize::materialized);
}

/// A hosted branch counts as applied at its hosted commit where the commits do not differ; where
/// they do, at the local one if Git says that it is an ancestor of the hosted one.
pub proof fn law_applied_commits_are_shared(s: MaterializeView, run: RunResultView)
    requires
        s.stage is Select,
        s.failure is None,
        0 <= s.at < s.names.len(),
        s.names.no_duplicates(),
        s.hosted.contains_key(s.names[s.at]),
        s.local.contains_key(s.names[s.at]),
    ensures
        ({
            let name = s.names[s.at];
            let now = materialize::materialized(s, MaterializeEventView::Ran(run));
            &&& materialize::materialize_requested(s) == MaterializeActionView::Git(
                process::may_fail(
                    s.destination,
                    seq!["merge-base"@, "--is-ancestor"@, s.local[name], s.hosted[name]],
                ),
            )
            &&& now.selected.contains_key(name)
            &&& now.selected[name] == if run.code == 0 {
                s.local[name]
            } else {
                s.hosted[name]
            }
        }),
{
    reveal(materialize::materialized);
    let name = s.names[s.at];
    let chosen = if run.code == 0 {
        s.local[name]
    } else {
        s.hosted[name]
    };
    let more = MaterializeView { selected: s.selected.insert(name, chosen), ..s };
    lemma_pick(more, s.at + 1, name);
}

/// The branches that a pick passes are those that are not here or have the same commit, and they
/// count as applied at the hosted one; others keep what they had.
proof fn lemma_pick(s: MaterializeView, at: int, other: Seq<char>)
    requires
        0 <= at <= s.names.len(),
        s.names.no_duplicates(),
        forall|k: int| at <= k < s.names.len() ==> #[trigger] s.names[k] != other,
        s.selected.contains_key(other),
    ensures
        materialize::picked(s, at).selected.contains_key(other),
        materialize::picked(s, at).selected[other] == s.selected[other],
    decreases s.names.len() - at,
{
    if at < s.names.len() {
        let name = s.names[at];
        if !(s.local.contains_key(name) && s.local[name] != materialize::oid_of(s.hosted, name)) {
            lemma_pick(
                MaterializeView {
                    selected: s.selected.insert(name, materialize::oid_of(s.hosted, name)),
                    ..s
                },
                at + 1,
                other,
            );
        }
    }
}

/// The branch to check out where a clone chose none: the default branch where it is hosted; else
/// one that is, and before which no other comes in text order.
pub proof fn law_branch_to_check_out(p: CatalogProjectView)
    requires
        p.advertised_heads.len() > 0,
    ensures
        (exists|i: int|
            0 <= i < p.advertised_heads.len() && (#[trigger] p.advertised_heads[i]).name
                == p.default_branch) ==> materialize::switch_branch(p) == p.default_branch,
        exists|i: int|
            0 <= i < p.advertised_heads.len() && (#[trigger] p.advertised_heads[i]).name
                == materialize::switch_branch(p),
        materialize::switch_branch(p) != p.default_branch ==> forall|i: int|
            0 <= i < p.advertised_heads.len() ==> !text::text_less(
                (#[trigger] p.advertised_heads[i]).name,
                materialize::switch_branch(p),
            ),
{
    let heads = p.advertised_heads;
    lemma_smallest(heads);
    if exists|i: int| 0 <= i < heads.len() && (#[trigger] heads[i]).name == p.default_branch {
        lemma_some_head(heads, p.default_branch, 0);
    } else {
        lemma_no_head(heads, p.default_branch, 0);
    }
}

proof fn lemma_some_head(heads: Seq<AdvertisedHeadView>, name: Seq<char>, from: int)
    requires
        0 <= from,
        exists|i: int| from <= i < heads.len() && (#[trigger] heads[i]).name == name,
    ensures
        adopt::head_position(heads, name, from) is Some,
    decreases heads.len() - from,
{
    let i = choose|i: int| from <= i < heads.len() && (#[trigger] heads[i]).name == name;
    if heads[from].name != name {
        assert(from + 1 <= i);
        lemma_some_head(heads, name, from + 1);
    }
}

proof fn lemma_no_head(heads: Seq<AdvertisedHeadView>, name: Seq<char>, from: int)
    requires
        0 <= from,
        forall|i: int| 0 <= i < heads.len() ==> (#[trigger] heads[i]).name != name,
    ensures
        adopt::head_position(heads, name, from) is None,
    decreases heads.len() - from,
{
    if from < heads.len() {
        assert(heads[from].name != name);
        lemma_no_head(heads, name, from + 1);
    }
}

proof fn lemma_smallest(heads: Seq<AdvertisedHeadView>)
    requires
        heads.len() > 0,
    ensures
        exists|i: int|
            0 <= i < heads.len() && (#[trigger] heads[i]).name == materialize::smallest_name(heads),
        forall|i: int|
            0 <= i < heads.len() ==> !text::text_less((#[trigger] heads[i]).name, materialize::smallest_name(heads)),
    decreases heads.len(),
{
    let last = heads.len() - 1;
    if heads.len() == 1 {
        text::lemma_text_less_irreflexive(heads[0].name);
        assert(heads[0].name == materialize::smallest_name(heads));
    } else {
        let front = heads.drop_last();
        lemma_smallest(front);
        let before = materialize::smallest_name(front);
        let i = choose|i: int| 0 <= i < front.len() && (#[trigger] front[i]).name == before;
        assert(heads[i] == front[i]);
        assert(heads[last] == heads.last());
        text::lemma_text_less_irreflexive(heads.last().name);
        assert forall|k: int| 0 <= k < heads.len() implies !text::text_less(
            (#[trigger] heads[k]).name,
            materialize::smallest_name(heads),
        ) by {
            if k < last {
                assert(heads[k] == front[k]);
                assert(!text::text_less(front[k].name, before));
                if text::text_less(heads.last().name, before) && text::text_less(
                    heads[k].name,
                    heads.last().name,
                ) {
                    text::lemma_text_less_transitive(heads[k].name, heads.last().name, before);
                }
            }
        }
    }
}

/// The project as it is checked out: what the catalog says of it, the hosted commits, and those that
/// count as applied. Its workspace has a generation of its own once something is hosted.
pub proof fn law_project_as_checked_out(s: MaterializeView)
    ensures
        ({
            let p = materialize::checked_out(s);
            &&& p.project_id == s.project.project_id
            &&& p.local_path == s.local_path
            &&& p.remote_url == s.project.remote_url
            &&& p.remote_name == s.remote_name
            &&& p.default_branch == s.project.default_branch
            &&& p.server_generation == s.project.project_generation
            &&& p.advertised_heads == s.hosted
            &&& p.last_applied_heads == s.selected
            &&& p.active_branch == s.branch
            &&& p.workspace_generation == if s.hosted.dom() =~= Set::empty() {
                0u64
            } else {
                1u64
            }
            &&& p.state == "CURRENT"@
            &&& p.durability == "REMOTELY_DURABLE"@
            &&& p.conflict is None
            &&& p.last_error is None
        }),
{
}

} // verus!
