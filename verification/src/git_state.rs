//! Reading and preserving the state of a Git worktree.
use vstd::prelude::*;
use crate::paths;
use crate::process;
use crate::text;
use crate::paths::join_path;
use crate::process::{
    git, git_strict, words2, words3, words4, words5, GitCall, GitCallView, Next, RunOptions,
    RunOptionsView, RunResult, RunResultView,
};
use crate::text::{
    cat2, chars_of, copy_list, has_prefix, insert_ordered, keep_nonempty, list_has, part_of,
    same_list, same_text, split_text, trimmed,
};

verus! {

/// The three layers of a worktree and the files outside of them.
#[derive(Debug, Clone, PartialEq, Eq)]
pub struct WorkspaceSnapshot {
    pub head: String,
    pub index_tree: String,
    pub working_tree: String,
    pub untracked: Vec<String>,
}

/// What a [`WorkspaceSnapshot`] holds.
pub struct WorkspaceSnapshotView {
    pub head: Seq<char>,
    pub index_tree: Seq<char>,
    pub working_tree: Seq<char>,
    pub untracked: Seq<Seq<char>>,
}

impl View for WorkspaceSnapshot {
    type V = WorkspaceSnapshotView;

    open spec fn view(&self) -> WorkspaceSnapshotView {
        WorkspaceSnapshotView {
            head: self.head@,
            index_tree: self.index_tree@,
            working_tree: self.working_tree@,
            untracked: text::views(self.untracked@),
        }
    }
}

impl WorkspaceSnapshot {
    /// A second value with the same contents.
    pub fn copy(&self) -> (r: Self)
        ensures
            r@ == self@,
    {
        WorkspaceSnapshot {
            head: self.head.clone(),
            index_tree: self.index_tree.clone(),
            working_tree: self.working_tree.clone(),
            untracked: copy_list(&self.untracked),
        }
    }
}

impl WorkspaceSnapshot {
    /// Whether two snapshots hold the same layers and files.
    pub fn same(&self, other: &Self) -> (r: bool)
        ensures
            r == (self@ == other@),
    {
        same_text(self.head.as_str(), other.head.as_str()) && same_text(
            self.index_tree.as_str(),
            other.index_tree.as_str(),
        ) && same_text(self.working_tree.as_str(), other.working_tree.as_str()) && same_list(
            &self.untracked,
            &other.untracked,
        )
    }
}

/// The commits that preserve the index and the working tree.
#[derive(Debug, Clone, PartialEq, Eq)]
pub struct SyntheticChain {
    pub index_commit: String,
    pub working_commit: String,
}

/// What a [`SyntheticChain`] holds.
pub struct SyntheticChainView {
    pub index_commit: Seq<char>,
    pub working_commit: Seq<char>,
}

impl View for SyntheticChain {
    type V = SyntheticChainView;

    open spec fn view(&self) -> SyntheticChainView {
        SyntheticChainView {
            index_commit: self.index_commit@,
            working_commit: self.working_commit@,
        }
    }
}

impl SyntheticChain {
    /// A second value with the same contents.
    pub fn copy(&self) -> (r: Self)
        ensures
            r@ == self@,
    {
        SyntheticChain {
            index_commit: self.index_commit.clone(),
            working_commit: self.working_commit.clone(),
        }
    }
}

/// The results of the runs so far.
pub open spec fn results(runs: Seq<RunResult>) -> Seq<RunResultView> {
    runs.map_values(|r: RunResult| r@)
}

/// The paths of a listing that separates them by null characters.
pub open spec fn listed_paths(output: Seq<char>) -> Seq<Seq<char>> {
    text::nonempty(text::split(output, '\0'))
}

/// Reads a listing that separates paths by null characters.
pub fn parse_paths(output: &str) -> (r: Vec<String>)
    ensures
        text::views(r@) == listed_paths(output@),
{
    keep_nonempty(split_text(output, '\0'))
}

/// The branch that the worktree is on.
pub fn current_branch(project_path: &str, runs: &Vec<RunResult>) -> (r: Next<String>)
    ensures
        match r {
            Next::Run(call) => runs.len() == 0 && call@ == process::git_in(
                project_path@,
                seq!["symbolic-ref"@, "--short"@, "HEAD"@],
            ),
            Next::Done(value) => runs.len() > 0 && value@ == text::trim(runs@[0].stdout@),
        },
{
    if runs.len() == 0 {
        Next::Run(git_strict(project_path, words3("symbolic-ref", "--short", "HEAD")))
    } else {
        Next::Done(trimmed(runs[0].stdout.as_str()))
    }
}

/// The files that Git does not track.
pub fn list_untracked(project_path: &str, runs: &Vec<RunResult>) -> (r: Next<Vec<String>>)
    ensures
        match r {
            Next::Run(call) => runs.len() == 0 && call@ == process::git_in(
                project_path@,
                seq!["ls-files"@, "--others"@, "-z"@],
            ),
            Next::Done(value) => runs.len() > 0 && text::views(value@) == listed_paths(runs@[0].stdout@),
        },
{
    if runs.len() == 0 {
        Next::Run(git_strict(project_path, words3("ls-files", "--others", "-z")))
    } else {
        Next::Done(parse_paths(runs[0].stdout.as_str()))
    }
}

/// The paths of all files in a tree.
pub fn tree_paths(project_path: &str, tree: &str, runs: &Vec<RunResult>) -> (r: Next<Vec<String>>)
    ensures
        match r {
            Next::Run(call) => runs.len() == 0 && call@ == process::git_in(
                project_path@,
                seq!["ls-tree"@, "-r"@, "--name-only"@, "-z"@, tree@],
            ),
            Next::Done(value) => runs.len() > 0 && text::views(value@) == listed_paths(runs@[0].stdout@),
        },
{
    if runs.len() == 0 {
        Next::Run(git_strict(project_path, words5("ls-tree", "-r", "--name-only", "-z", tree)))
    } else {
        Next::Done(parse_paths(runs[0].stdout.as_str()))
    }
}

/// The ref that HEAD points to.
pub fn read_head_ref(project_path: &str, runs: &Vec<RunResult>) -> (r: Next<String>)
    ensures
        match r {
            Next::Run(call) => runs.len() == 0 && call@ == process::git_in(
                project_path@,
                seq!["symbolic-ref"@, "HEAD"@],
            ),
            Next::Done(value) => runs.len() > 0 && value@ == text::trim(runs@[0].stdout@),
        },
{
    if runs.len() == 0 {
        Next::Run(git_strict(project_path, words2("symbolic-ref", "HEAD")))
    } else {
        Next::Done(trimmed(runs[0].stdout.as_str()))
    }
}

/// The object that a name stands for.
pub fn rev(project_path: &str, name: &str, runs: &Vec<RunResult>) -> (r: Next<String>)
    ensures
        match r {
            Next::Run(call) => runs.len() == 0 && call@ == process::git_in(
                project_path@,
                seq!["rev-parse"@, "--verify"@, name@],
            ),
            Next::Done(value) => runs.len() > 0 && value@ == text::trim(runs@[0].stdout@),
        },
{
    if runs.len() == 0 {
        Next::Run(git_strict(project_path, words3("rev-parse", "--verify", name)))
    } else {
        Next::Done(trimmed(runs[0].stdout.as_str()))
    }
}

/// The directory of the repository, below the project where Git names it so.
pub fn git_dir(project_path: &str, runs: &Vec<RunResult>) -> (r: Next<String>)
    ensures
        match r {
            Next::Run(call) => runs.len() == 0 && call@ == process::git_in(
                project_path@,
                seq!["rev-parse"@, "--git-dir"@],
            ),
            Next::Done(value) => runs.len() > 0 && value@ == paths::joined(
                project_path@,
                text::trim(runs@[0].stdout@),
            ),
        },
{
    if runs.len() == 0 {
        Next::Run(git_strict(project_path, words2("rev-parse", "--git-dir")))
    } else {
        let raw = trimmed(runs[0].stdout.as_str());
        Next::Done(join_path(project_path, raw.as_str()))
    }
}

/// Git with an index file of its own.
pub open spec fn git_with_index(
    cwd: Seq<char>,
    index_file: Seq<char>,
    args: Seq<Seq<char>>,
) -> GitCallView {
    GitCallView {
        args,
        options: (RunOptionsView {
            cwd: Some(cwd),
            env: seq![("GIT_INDEX_FILE"@, index_file)],
            ..process::plain_options()
        }),
    }
}

fn git_indexed(cwd: &str, index_file: &str, args: Vec<String>) -> (r: GitCall)
    ensures
        r@ == git_with_index(cwd@, index_file@, text::views(args@)),
{
    let env = vec![("GIT_INDEX_FILE".to_owned(), index_file.to_owned())];
    assert(process::pairs(env@) =~= seq![("GIT_INDEX_FILE"@, index_file@)]);
    git(cwd, args, RunOptions { cwd: None, env, input: None, allow_failure: false })
}

/// The command that the capture of a worktree runs after those whose results are given: the
/// commit, the staged tree, then the tree that a temporary index holds once the tracked files are
/// added to the staged ones, and the untracked files.
pub open spec fn capture_call(
    path: Seq<char>,
    index_file: Seq<char>,
    done: Seq<RunResultView>,
) -> GitCallView {
    if done.len() == 0 {
        process::git_in(path, seq!["rev-parse"@, "--verify"@, "HEAD"@])
    } else if done.len() == 1 {
        process::git_in(path, seq!["write-tree"@])
    } else if done.len() == 2 {
        git_with_index(path, index_file, seq!["read-tree"@, text::trim(done[1].stdout)])
    } else if done.len() == 3 {
        git_with_index(path, index_file, seq!["add"@, "-u"@, "--"@, "."@])
    } else if done.len() == 4 {
        git_with_index(path, index_file, seq!["write-tree"@])
    } else {
        process::git_in(path, seq!["ls-files"@, "--others"@, "-z"@])
    }
}

/// The snapshot that the six results of a capture make up.
pub open spec fn captured(done: Seq<RunResultView>) -> WorkspaceSnapshotView {
    WorkspaceSnapshotView {
        head: text::trim(done[0].stdout),
        index_tree: text::trim(done[1].stdout),
        working_tree: text::trim(done[4].stdout),
        untracked: listed_paths(done[5].stdout),
    }
}

/// Captures the layers of a worktree without changing it, with a temporary index at `index_file`.
pub fn capture_workspace(project_path: &str, index_file: &str, runs: &Vec<RunResult>) -> (r: Next<
    WorkspaceSnapshot,
>)
    ensures
        match r {
            Next::Run(call) => runs.len() < 6 && call@ == capture_call(
                project_path@,
                index_file@,
                results(runs@),
            ),
            Next::Done(snapshot) => runs.len() >= 6 && snapshot@ == captured(results(runs@)),
        },
{
    let ghost done = results(runs@);
    if runs.len() == 0 {
        return Next::Run(git_strict(project_path, words3("rev-parse", "--verify", "HEAD")));
    }
    if runs.len() == 1 {
        return Next::Run(git_strict(project_path, crate::process::words1("write-tree")));
    }
    assert(done[1] == runs@[1]@);
    if runs.len() == 2 {
        let tree = trimmed(runs[1].stdout.as_str());
        return Next::Run(
            git_indexed(project_path, index_file, words2("read-tree", tree.as_str())),
        );
    }
    if runs.len() == 3 {
        return Next::Run(git_indexed(project_path, index_file, words4("add", "-u", "--", ".")));
    }
    if runs.len() == 4 {
        return Next::Run(
            git_indexed(project_path, index_file, crate::process::words1("write-tree")),
        );
    }
    if runs.len() == 5 {
        return Next::Run(git_strict(project_path, words3("ls-files", "--others", "-z")));
    }
    assert(done[0] == runs@[0]@ && done[4] == runs@[4]@ && done[5] == runs@[5]@);
    Next::Done(
        WorkspaceSnapshot {
            head: trimmed(runs[0].stdout.as_str()),
            index_tree: trimmed(runs[1].stdout.as_str()),
            working_tree: trimmed(runs[4].stdout.as_str()),
            untracked: parse_paths(runs[5].stdout.as_str()),
        },
    )
}

/// A commit of `tree` on top of `parent` under the name of the recovery, with a message.
pub open spec fn recovery_commit(
    path: Seq<char>,
    tree: Seq<char>,
    parent: Seq<char>,
    message: Seq<char>,
) -> GitCallView {
    GitCallView {
        args: seq!["commit-tree"@, tree, "-p"@, parent],
        options: (RunOptionsView {
            cwd: Some(path),
            env: seq![
                ("GIT_AUTHOR_NAME"@, "RepoSync Recovery"@),
                ("GIT_AUTHOR_EMAIL"@, "recovery@reposync.local"@),
                ("GIT_COMMITTER_NAME"@, "RepoSync Recovery"@),
                ("GIT_COMMITTER_EMAIL"@, "recovery@reposync.local"@),
            ],
            input: Some(message),
            allow_failure: false,
        }),
    }
}

fn commit_for_recovery(path: &str, tree: &str, parent: &str, message: &str) -> (r: GitCall)
    ensures
        r@ == recovery_commit(path@, tree@, parent@, message@),
{
    let env = vec![
        ("GIT_AUTHOR_NAME".to_owned(), "RepoSync Recovery".to_owned()),
        ("GIT_AUTHOR_EMAIL".to_owned(), "recovery@reposync.local".to_owned()),
        ("GIT_COMMITTER_NAME".to_owned(), "RepoSync Recovery".to_owned()),
        ("GIT_COMMITTER_EMAIL".to_owned(), "recovery@reposync.local".to_owned()),
    ];
    let options = RunOptions {
        cwd: None,
        env,
        input: Some(message.to_owned()),
        allow_failure: false,
    };
    let r = git(path, words4("commit-tree", tree, "-p", parent), options);
    assert(process::pairs(env@) =~= recovery_commit(path@, tree@, parent@, message@).options.env);
    r
}

/// Preserves a snapshot as a commit of its index on its head, and a commit of its working tree on
/// that one.
pub fn create_synthetic_chain(
    project_path: &str,
    snapshot: &WorkspaceSnapshot,
    runs: &Vec<RunResult>,
) -> (r: Next<SyntheticChain>)
    ensures
        match r {
            Next::Run(call) => {
                ||| runs.len() == 0 && call@ == recovery_commit(
                    project_path@,
                    snapshot.index_tree@,
                    snapshot.head@,
                    "RepoSync synthetic index\n"@,
                )
                ||| runs.len() == 1 && call@ == recovery_commit(
                    project_path@,
                    snapshot.working_tree@,
                    text::trim(runs@[0].stdout@),
                    "RepoSync synthetic working tree\n"@,
                )
            },
            Next::Done(chain) => runs.len() >= 2 && chain@ == (SyntheticChainView {
                index_commit: text::trim(runs@[0].stdout@),
                working_commit: text::trim(runs@[1].stdout@),
            }),
        },
{
    if runs.len() == 0 {
        return Next::Run(
            commit_for_recovery(
                project_path,
                snapshot.index_tree.as_str(),
                snapshot.head.as_str(),
                "RepoSync synthetic index\n",
            ),
        );
    }
    let index_commit = trimmed(runs[0].stdout.as_str());
    if runs.len() == 1 {
        return Next::Run(
            commit_for_recovery(
                project_path,
                snapshot.working_tree.as_str(),
                index_commit.as_str(),
                "RepoSync synthetic working tree\n",
            ),
        );
    }
    Next::Done(
        SyntheticChain { index_commit, working_commit: trimmed(runs[1].stdout.as_str()) },
    )
}

/// Whether a directory above `path` is in the list, as a file.
pub open spec fn below_listed(path: Seq<char>, incoming: Seq<Seq<char>>) -> bool {
    exists|k: int| 0 <= k < path.len() && path[k] == '/' && incoming.contains(#[trigger] path.take(k))
}

/// Whether something below `path` is in the list.
pub open spec fn above_listed(path: Seq<char>, incoming: Seq<Seq<char>>) -> bool {
    exists|i: int|
        0 <= i < incoming.len() && path.push('/').is_prefix_of(#[trigger] incoming[i])
}

/// Whether a file at `path` cannot stand beside the incoming files: one of them has the same path,
/// stands where `path` needs a directory, or needs a directory where `path` stands.
pub open spec fn collides(path: Seq<char>, incoming: Seq<Seq<char>>) -> bool {
    incoming.contains(path) || below_listed(path, incoming) || above_listed(path, incoming)
}

/// `list` holds exactly the untracked paths that collide, in order and without repetitions.
pub open spec fn lists_collisions(
    list: Seq<Seq<char>>,
    untracked: Seq<Seq<char>>,
    incoming: Seq<Seq<char>>,
) -> bool {
    &&& text::increasing(list)
    &&& forall|p: Seq<char>| #[trigger]
        list.contains(p) <==> (untracked.contains(p) && collides(p, incoming))
}

/// The untracked paths that collide, in order and without repetitions.
pub open spec fn collisions(untracked: Seq<Seq<char>>, incoming: Seq<Seq<char>>) -> Seq<Seq<char>> {
    choose|list: Seq<Seq<char>>| lists_collisions(list, untracked, incoming)
}

proof fn lemma_collisions_listed(
    untracked: Seq<Seq<char>>,
    incoming: Seq<Seq<char>>,
) -> (r: Seq<Seq<char>>)
    ensures
        lists_collisions(r, untracked, incoming),
    decreases untracked.len(),
{
    if untracked.len() == 0 {
        Seq::empty()
    } else {
        let before = untracked.drop_last();
        let p = untracked.last();
        let list = lemma_collisions_listed(before, incoming);
        let r = if collides(p, incoming) {
            text::lemma_increasing_with(list, p)
        } else {
            list
        };
        assert forall|q: Seq<char>| #[trigger]
            r.contains(q) <==> (untracked.contains(q) && collides(q, incoming)) by {
            assert(list.contains(q) <==> (before.contains(q) && collides(q, incoming)));
            if before.contains(q) {
                let k = choose|k: int| 0 <= k < before.len() && before[k] == q;
                assert(untracked[k] == q);
            }
            if untracked.contains(q) {
                let k = choose|k: int| 0 <= k < untracked.len() && untracked[k] == q;
                if k < before.len() {
                    assert(before[k] == q);
                }
            }
            assert(untracked[untracked.len() - 1] == p);
        }
        r
    }
}

/// Whether two files cannot stand side by side: they have the same path, or one of them stands
/// where the other needs a directory.
pub open spec fn in_the_way(a: Seq<char>, b: Seq<char>) -> bool {
    a == b || a.push('/').is_prefix_of(b) || b.push('/').is_prefix_of(a)
}

/// The collisions are exactly the untracked paths that are in the way of an incoming one, or have
/// one in their way; each is named once, and in text order.
pub proof fn law_collisions_are_those_in_the_way(
    untracked: Seq<Seq<char>>,
    incoming: Seq<Seq<char>>,
)
    ensures
        forall|u: Seq<char>| #[trigger]
            collisions(untracked, incoming).contains(u) <==> (untracked.contains(u) && exists|
                p: Seq<char>,
            |
                incoming.contains(p) && #[trigger] in_the_way(u, p)),
        forall|i: int, j: int|
            0 <= i < j < collisions(untracked, incoming).len() ==> text::text_less(
                #[trigger] collisions(untracked, incoming)[i],
                #[trigger] collisions(untracked, incoming)[j],
            ),
{
    let listed = lemma_collisions_listed(untracked, incoming);
    let list = collisions(untracked, incoming);
    assert(lists_collisions(list, untracked, incoming));
    assert forall|u: Seq<char>| #[trigger]
        list.contains(u) <==> (untracked.contains(u) && exists|p: Seq<char>|
            incoming.contains(p) && #[trigger] in_the_way(u, p)) by {
        if collides(u, incoming) {
            if incoming.contains(u) {
                assert(in_the_way(u, u));
            } else if below_listed(u, incoming) {
                let k = choose|k: int|
                    0 <= k < u.len() && u[k] == '/' && incoming.contains(#[trigger] u.take(k));
                let p = u.take(k);
                assert(p.push('/') =~= u.take(k + 1));
                assert(p.push('/').is_prefix_of(u));
                assert(in_the_way(u, p));
            } else {
                let i = choose|i: int|
                    0 <= i < incoming.len() && u.push('/').is_prefix_of(#[trigger] incoming[i]);
                assert(in_the_way(u, incoming[i]));
                assert(incoming.contains(incoming[i]));
            }
        }
        if exists|p: Seq<char>| incoming.contains(p) && #[trigger] in_the_way(u, p) {
            let p = choose|p: Seq<char>| incoming.contains(p) && #[trigger] in_the_way(u, p);
            if u != p {
                if u.push('/').is_prefix_of(p) {
                    let i = choose|i: int| 0 <= i < incoming.len() && incoming[i] == p;
                    assert(u.push('/').is_prefix_of(incoming[i]));
                    assert(above_listed(u, incoming));
                } else {
                    let k = p.len() as int;
                    assert(p.push('/')[k] == '/');
                    assert(u[k] == p.push('/')[k]);
                    assert(u.take(k) =~= p);
                    assert(below_listed(u, incoming));
                }
            }
        }
    }
}

fn is_below_listed(path: &str, incoming: &Vec<String>) -> (r: bool)
    ensures
        r == below_listed(path@, text::views(incoming@)),
{
    let c = chars_of(path);
    let mut k: usize = 0;
    while k < c.len()
        invariant
            0 <= k <= c.len(),
            c@ == path@,
            forall|j: int|
                0 <= j < k && path@[j] == '/' ==> !text::views(incoming@).contains(
                    #[trigger] path@.take(j),
                ),
        decreases c.len() - k,
    {
        if c[k] == '/' {
            let above = part_of(&c, 0, k);
            assert(c@.subrange(0, k as int) =~= path@.take(k as int));
            if list_has(incoming, above.as_str()) {
                return true;
            }
        }
        k += 1;
    }
    false
}

fn is_above_listed(path: &str, incoming: &Vec<String>) -> (r: bool)
    ensures
        r == above_listed(path@, text::views(incoming@)),
{
    let directory = cat2(path, "/");
    proof {
        reveal_strlit("/");
    }
    assert(directory@ =~= path@.push('/'));
    let mut i: usize = 0;
    while i < incoming.len()
        invariant
            0 <= i <= incoming.len(),
            directory@ == path@.push('/'),
            forall|j: int|
                0 <= j < i ==> !path@.push('/').is_prefix_of(#[trigger] text::views(incoming@)[j]),
        decreases incoming.len() - i,
    {
        assert(text::views(incoming@)[i as int] == incoming@[i as int]@);
        if has_prefix(incoming[i].as_str(), directory.as_str()) {
            return true;
        }
        i += 1;
    }
    false
}

/// The untracked files that incoming tracked files would collide with, in order and without
/// repetitions.
pub fn find_untracked_collisions(untracked: &Vec<String>, incoming: &Vec<String>) -> (r: Vec<
    String,
>)
    ensures
        lists_collisions(text::views(r@), text::views(untracked@), text::views(incoming@)),
        text::views(r@) == collisions(text::views(untracked@), text::views(incoming@)),
{
    let mut r: Vec<String> = Vec::new();
    let mut i: usize = 0;
    let ghost all = text::views(untracked@);
    while i < untracked.len()
        invariant
            0 <= i <= untracked.len(),
            all == text::views(untracked@),
            lists_collisions(text::views(r@), all.take(i as int), text::views(incoming@)),
        decreases untracked.len() - i,
    {
        assert(all[i as int] == untracked@[i as int]@);
        let hit = list_has(incoming, untracked[i].as_str()) || is_below_listed(
            untracked[i].as_str(),
            incoming,
        ) || is_above_listed(untracked[i].as_str(), incoming);
        if hit {
            insert_ordered(&mut r, untracked[i].as_str());
        }
        assert(all.take(i + 1) =~= all.take(i as int).push(all[i as int]));
        assert forall|p: Seq<char>| #[trigger]
            all.take(i + 1).contains(p) <==> (all.take(i as int).contains(p) || p
                == all[i as int]) by {
            vstd::seq_lib::lemma_seq_contains_after_push(all.take(i as int), all[i as int], p);
        }
        i += 1;
    }
    assert(all.take(i as int) =~= all);
    proof {
        text::lemma_increasing_unique(text::views(r@), collisions(text::views(untracked@), text::views(incoming@)));
    }
    r
}

/// A command that reads what it is asked of, and writes nothing but objects.
pub open spec fn only_reads(call: GitCallView) -> bool {
    call.args.len() > 0 && (call.args[0] == "rev-parse"@ || call.args[0] == "write-tree"@
        || call.args[0] == "ls-files"@)
}

/// A command whose index is the given file.
pub open spec fn uses_index(call: GitCallView, index_file: Seq<char>) -> bool {
    call.options.env == seq![("GIT_INDEX_FILE"@, index_file)]
}

/// Whatever came of the commands before, a capture of a worktree only reads its repository, or
/// changes the temporary index: no command moves a ref, changes the index of the worktree, or writes
/// a file of it.
pub proof fn law_capture_changes_nothing(
    path: Seq<char>,
    index_file: Seq<char>,
    done: Seq<RunResultView>,
)
    ensures
        ({
            let call = capture_call(path, index_file, done);
            &&& call.options.cwd == Some(path)
            &&& only_reads(call) || (uses_index(call, index_file) && (call.args[0] == "read-tree"@
                || call.args[0] == "add"@))
            &&& call.args.len() > 0 && call.args[0] == "read-tree"@ ==> call.args.len() == 2
        }),
{
    reveal_strlit("rev-parse");
    reveal_strlit("write-tree");
    reveal_strlit("ls-files");
    reveal_strlit("read-tree");
    reveal_strlit("add");
    assert("rev-parse"@[2] != "read-tree"@[2]);
}

/// A capture whose commands say the same as those of an earlier one gives the same snapshot.
pub proof fn law_capture_is_repeatable(a: Seq<RunResultView>, b: Seq<RunResultView>)
    requires
        a.len() >= 6,
        b.len() >= 6,
        forall|i: int| 0 <= i < 6 ==> (#[trigger] a[i]).stdout == b[i].stdout,
    ensures
        captured(a) == captured(b),
{
    assert(a[0].stdout == b[0].stdout);
    assert(a[1].stdout == b[1].stdout);
    assert(a[4].stdout == b[4].stdout);
    assert(a[5].stdout == b[5].stdout);
}

} // verus!
