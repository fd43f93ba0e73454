//! Making a directory with the files of a hosted commit a worktree of the project.
use vstd::prelude::*;
use crate::paths;
use crate::process;
use crate::protocol;
use crate::reconcile;
use crate::remote;
use crate::text;
use crate::transaction;
use crate::paths::join_path;
use crate::process::{
    git_lenient, git_strict, words2, words3, words4, GitCall, GitCallView, RunResult, RunResultView,
};
use crate::protocol::{AdvertisedHead, AdvertisedHeadView, CatalogProject, CatalogProjectView};
use crate::reconcile::is_ancestor;
use crate::remote::{fetch_all, map_heads, set_url};
use crate::text::{cat2, cat3, copy_option, lines_of, same_text};

verus! {

/// How far an adoption has come.
#[derive(Debug, Clone, Copy, PartialEq, Eq, Structural)]
pub enum AdoptStage {
    Metadata,
    Init,
    Remote,
    Url,
    Mapping,
    Fetch,
    Revisions,
    Tree,
    Compare,
    Default,
    Head,
    Install,
    Cleanup,
    Finished,
}

/// An adoption, step by step: [`Adopt::request`] says what is to be done next, and
/// [`Adopt::advance`] takes what came of it.
#[derive(Debug, Clone, PartialEq, Eq)]
pub struct Adopt {
    pub stage: AdoptStage,
    pub destination: String,
    pub remote_name: String,
    pub remote_url: String,
    pub default_branch: String,
    pub heads: Vec<AdvertisedHead>,
    pub token: Option<String>,
    /// Whether the remote is known already.
    pub known: bool,
    /// The hosted commits.
    pub revisions: Vec<String>,
    /// The commit, then the head, that is looked at.
    pub at: usize,
    /// The commit whose files the directory has.
    pub baseline: String,
    pub branch: String,
    pub failure: Option<String>,
}

/// What an [`Adopt`] holds.
pub struct AdoptView {
    pub stage: AdoptStage,
    pub destination: Seq<char>,
    pub remote_name: Seq<char>,
    pub remote_url: Seq<char>,
    pub default_branch: Seq<char>,
    pub heads: Seq<AdvertisedHeadView>,
    pub token: Option<Seq<char>>,
    pub known: bool,
    pub revisions: Seq<Seq<char>>,
    pub at: int,
    pub baseline: Seq<char>,
    pub branch: Seq<char>,
    pub failure: Option<Seq<char>>,
}

impl View for Adopt {
    type V = AdoptView;

    open spec fn view(&self) -> AdoptView {
        AdoptView {
            stage: self.stage,
            destination: self.destination@,
            remote_name: self.remote_name@,
            remote_url: self.remote_url@,
            default_branch: self.default_branch@,
            heads: protocol::head_views(self.heads@),
            token: text::opt_view(self.token),
            known: self.known,
            revisions: text::views(self.revisions@),
            at: self.at as int,
            baseline: self.baseline@,
            branch: self.branch@,
            failure: text::opt_view(self.failure),
        }
    }
}

/// What an adoption asks for.
#[derive(Debug, Clone, PartialEq, Eq)]
pub enum AdoptAction {
    /// Say whether a path exists.
    Exists(String),
    /// Run this command.
    Git(GitCall),
    /// Run these commands in order, each of which must succeed.
    Install(Vec<GitCall>),
    /// Remove a directory with all it holds, if that is possible.
    Remove(String),
    /// The adoption is over.
    Return,
    /// The adoption is over with this error.
    Fail(String),
}

/// What a [`AdoptAction`] holds.
pub enum AdoptActionView {
    Exists(Seq<char>),
    Git(GitCallView),
    Install(Seq<GitCallView>),
    Remove(Seq<char>),
    Return,
    Fail(Seq<char>),
}

impl View for AdoptAction {
    type V = AdoptActionView;

    open spec fn view(&self) -> AdoptActionView {
        match *self {
            AdoptAction::Exists(a) => AdoptActionView::Exists(a@),
            AdoptAction::Git(a) => AdoptActionView::Git(a@),
            AdoptAction::Install(a) => AdoptActionView::Install(transaction::calls(a@)),
            AdoptAction::Remove(a) => AdoptActionView::Remove(a@),
            AdoptAction::Return => AdoptActionView::Return,
            AdoptAction::Fail(a) => AdoptActionView::Fail(a@),
        }
    }
}

/// What came of a step.
#[derive(Debug, Clone, PartialEq, Eq)]
pub enum AdoptEvent {
    Exists(bool),
    Ran(RunResult),
    /// What was asked for is done.
    Did,
    Failed(String),
}

/// What a [`AdoptEvent`] holds.
pub enum AdoptEventView {
    Exists(bool),
    Ran(RunResultView),
    Did,
    Failed(Seq<char>),
}

impl View for AdoptEvent {
    type V = AdoptEventView;

    open spec fn view(&self) -> AdoptEventView {
        match *self {
            AdoptEvent::Exists(a) => AdoptEventView::Exists(a),
            AdoptEvent::Ran(a) => AdoptEventView::Ran(a@),
            AdoptEvent::Did => AdoptEventView::Did,
            AdoptEvent::Failed(a) => AdoptEventView::Failed(a@),
        }
    }
}

/// The directory that Git keeps in a worktree.
pub open spec fn metadata_of(destination: Seq<char>) -> Seq<char> {
    paths::joined(destination, ".git"@)
}

/// The position of the head of a branch, from `from` on.
pub open spec fn head_position(heads: Seq<AdvertisedHeadView>, name: Seq<char>, from: int) -> Option<
    int,
>
    decreases heads.len() - from,
{
    if from < 0 || from >= heads.len() {
        None
    } else if heads[from].name == name {
        Some(from)
    } else {
        head_position(heads, name, from + 1)
    }
}

/// The commands that put the worktree on a branch at a commit, without a change to its files.
pub open spec fn place_calls(
    destination: Seq<char>,
    remote_name: Seq<char>,
    branch: Seq<char>,
    baseline: Seq<char>,
) -> Seq<GitCallView> {
    let reference = "refs/heads/"@ + branch;
    seq![
        process::git_in(destination, seq!["symbolic-ref"@, "HEAD"@, reference]),
        process::git_in(destination, seq!["update-ref"@, reference, baseline]),
        process::git_in(destination, seq!["reset"@, "--mixed"@, baseline]),
        process::git_in(destination, seq!["config"@, "branch."@ + branch + ".remote"@, remote_name]),
        process::git_in(destination, seq!["config"@, "branch."@ + branch + ".merge"@, reference]),
    ]
}

/// What an adoption asks for at its stage.
pub open spec fn adopt_requested(s: AdoptView) -> AdoptActionView {
    let d = s.destination;
    match s.stage {
        AdoptStage::Metadata => AdoptActionView::Exists(metadata_of(d)),
        AdoptStage::Init => AdoptActionView::Git(
            process::git_in(d, seq!["init"@, "--initial-branch="@ + s.default_branch]),
        ),
        AdoptStage::Remote => AdoptActionView::Git(
            process::git_try(d, seq!["remote"@, "get-url"@, s.remote_name]),
        ),
        AdoptStage::Url => AdoptActionView::Git(
            remote::set_url_call(d, s.known, s.remote_name, s.remote_url),
        ),
        AdoptStage::Mapping => AdoptActionView::Git(remote::mapping_call(d, s.remote_name)),
        AdoptStage::Fetch => AdoptActionView::Git(remote::fetch_call(d, s.remote_name, s.token, false)),
        AdoptStage::Revisions => AdoptActionView::Git(
            process::git_in(d, seq!["rev-list"@, "--topo-order"@, "--all"@]),
        ),
        AdoptStage::Tree => AdoptActionView::Git(
            process::git_try(d, seq!["read-tree"@, s.revisions[s.at]]),
        ),
        AdoptStage::Compare => AdoptActionView::Git(
            process::git_try(d, seq!["diff"@, "--quiet"@, "--"@, "."@]),
        ),
        AdoptStage::Default => AdoptActionView::Git(
            reconcile::ancestor_call(d, s.baseline, s.heads[s.at].oid),
        ),
        AdoptStage::Head => AdoptActionView::Git(
            reconcile::ancestor_call(d, s.baseline, s.heads[s.at].oid),
        ),
        AdoptStage::Install => AdoptActionView::Install(
            place_calls(d, s.remote_name, s.branch, s.baseline),
        ),
        AdoptStage::Cleanup => AdoptActionView::Remove(metadata_of(d)),
        AdoptStage::Finished => match s.failure {
            Some(message) => AdoptActionView::Fail(message),
            None => AdoptActionView::Return,
        },
    }
}

/// An adoption at another stage.
pub open spec fn adopt_at(s: AdoptView, stage: AdoptStage) -> AdoptView {
    AdoptView { stage, ..s }
}

/// An adoption that failed: what Git keeps is removed, once it was made.
pub open spec fn adopt_failed(s: AdoptView, message: Seq<char>) -> AdoptView {
    AdoptView {
        stage: if s.stage == AdoptStage::Metadata || s.stage == AdoptStage::Init {
            AdoptStage::Finished
        } else {
            AdoptStage::Cleanup
        },
        failure: Some(message),
        ..s
    }
}

/// An adoption that looks at the commit at a position, if there is one.
pub open spec fn adopt_revision(s: AdoptView, at: int) -> AdoptView {
    if at < s.revisions.len() {
        AdoptView { stage: AdoptStage::Tree, at, ..s }
    } else {
        adopt_failed(
            s,
            s.destination
                + " does not exactly match the tracked files of any hosted commit; refusing to adopt it"@,
        )
    }
}

/// An adoption that looks at the head at a position, if there is one.
pub open spec fn adopt_head(s: AdoptView, at: int) -> AdoptView {
    if at < s.heads.len() {
        AdoptView { stage: AdoptStage::Head, at, ..s }
    } else {
        adopt_failed(
            s,
            "matching commit "@ + s.baseline
                + " is not reachable from an advertised hosted branch"@,
        )
    }
}

/// An adoption that found the commit whose files the directory has.
pub open spec fn adopt_matched(s: AdoptView) -> AdoptView {
    let now = AdoptView { baseline: s.revisions[s.at], ..s };
    match head_position(s.heads, s.default_branch, 0) {
        Some(i) => AdoptView { stage: AdoptStage::Default, at: i, ..now },
        None => adopt_head(now, 0),
    }
}

/// An adoption onto the branch of the head that is looked at.
pub open spec fn adopt_onto(s: AdoptView) -> AdoptView {
    AdoptView { stage: AdoptStage::Install, branch: s.heads[s.at].name, ..s }
}

/// The adoption after an event.
#[verifier::opaque]
pub open spec fn adopted(s: AdoptView, e: AdoptEventView) -> AdoptView {
    match (s.stage, e) {
        (AdoptStage::Finished, _) => s,
        (AdoptStage::Cleanup, _) => adopt_at(s, AdoptStage::Finished),
        (AdoptStage::Metadata, AdoptEventView::Exists(there)) => if there {
            adopt_failed(
                s,
                s.destination + " contains Git metadata but is not a valid worktree"@,
            )
        } else {
            adopt_at(s, AdoptStage::Init)
        },
        (AdoptStage::Init, AdoptEventView::Ran(_)) => adopt_at(s, AdoptStage::Remote),
        (AdoptStage::Remote, AdoptEventView::Ran(result)) => AdoptView {
            stage: AdoptStage::Url,
            known: result.code == 0,
            ..s
        },
        (AdoptStage::Url, AdoptEventView::Ran(_)) => adopt_at(s, AdoptStage::Mapping),
        (AdoptStage::Mapping, AdoptEventView::Ran(_)) => adopt_at(s, AdoptStage::Fetch),
        (AdoptStage::Fetch, AdoptEventView::Ran(_)) => adopt_at(s, AdoptStage::Revisions),
        (AdoptStage::Revisions, AdoptEventView::Ran(result)) => adopt_revision(
            AdoptView { revisions: text::lines(result.stdout), ..s },
            0,
        ),
        (AdoptStage::Tree, AdoptEventView::Ran(result)) => if result.code == 0 {
            adopt_at(s, AdoptStage::Compare)
        } else {
            adopt_revision(s, s.at + 1)
        },
        (AdoptStage::Compare, AdoptEventView::Ran(result)) => if result.code == 0 {
            adopt_matched(s)
        } else {
            adopt_revision(s, s.at + 1)
        },
        (AdoptStage::Tree, AdoptEventView::Failed(_)) => adopt_revision(s, s.at + 1),
        (AdoptStage::Compare, AdoptEventView::Failed(_)) => adopt_revision(s, s.at + 1),
        (AdoptStage::Default, AdoptEventView::Ran(result)) => if result.code == 0 {
            adopt_onto(s)
        } else {
            adopt_head(s, 0)
        },
        (AdoptStage::Head, AdoptEventView::Ran(result)) => if result.code == 0 {
            adopt_onto(s)
        } else {
            adopt_head(s, s.at + 1)
        },
        (AdoptStage::Install, AdoptEventView::Did) => adopt_at(s, AdoptStage::Finished),
        (_, AdoptEventView::Failed(message)) => adopt_failed(s, message),
        _ => s,
    }
}

/// The commit, or the head, that an adoption looks at is there.
pub open spec fn adopt_valid(s: AdoptView) -> bool {
    &&& (s.stage == AdoptStage::Tree || s.stage == AdoptStage::Compare) ==> 0 <= s.at
        < s.revisions.len()
    &&& (s.stage == AdoptStage::Default || s.stage == AdoptStage::Head) ==> 0 <= s.at
        < s.heads.len()
}

/// An adoption at its start.
pub open spec fn adopt_start(
    destination: Seq<char>,
    project: CatalogProjectView,
    token: Option<Seq<char>>,
    remote_name: Seq<char>,
) -> AdoptView {
    AdoptView {
        stage: AdoptStage::Metadata,
        destination,
        remote_name,
        remote_url: project.remote_url,
        default_branch: project.default_branch,
        heads: project.advertised_heads,
        token,
        known: false,
        revisions: Seq::empty(),
        at: 0,
        baseline: Seq::empty(),
        branch: Seq::empty(),
        failure: None,
    }
}

/// The head of a branch.
pub(crate) fn find_head(heads: &Vec<AdvertisedHead>, name: &str) -> (r: Option<usize>)
    ensures
        match r {
            Some(i) => i < heads.len() && head_position(protocol::head_views(heads@), name@, 0) == Some(
                i as int,
            ),
            None => head_position(protocol::head_views(heads@), name@, 0) is None,
        },
{
    let ghost all = protocol::head_views(heads@);
    let mut i: usize = 0;
    while i < heads.len()
        invariant
            0 <= i <= heads.len(),
            all == protocol::head_views(heads@),
            head_position(all, name@, 0) == head_position(all, name@, i as int),
        decreases heads.len() - i,
    {
        assert(all[i as int] == heads@[i as int]@);
        if same_text(heads[i].name.as_str(), name) {
            return Some(i);
        }
        i += 1;
    }
    None
}

/// A second list with the same heads.
pub(crate) fn copy_heads(heads: &Vec<AdvertisedHead>) -> (r: Vec<AdvertisedHead>)
    ensures
        protocol::head_views(r@) == protocol::head_views(heads@),
{
    let mut r: Vec<AdvertisedHead> = Vec::new();
    let mut i: usize = 0;
    while i < heads.len()
        invariant
            0 <= i <= heads.len(),
            r.len() == i,
            forall|j: int| 0 <= j < i ==> (#[trigger] r@[j])@ == heads@[j]@,
        decreases heads.len() - i,
    {
        r.push(heads[i].copy());
        i += 1;
    }
    assert(protocol::head_views(r@) =~= protocol::head_views(heads@));
    r
}

proof fn lemma_head_found(heads: Seq<AdvertisedHeadView>, name: Seq<char>, from: int)
    requires
        0 <= from,
    ensures
        head_position(heads, name, from) matches Some(i) ==> from <= i < heads.len()
            && heads[i].name == name,
    decreases heads.len() - from,
{
    if from < heads.len() && heads[from].name != name {
        lemma_head_found(heads, name, from + 1);
    }
}

/// Starts the adoption of a directory as a worktree of a project.
pub fn adopt_exact_snapshot(
    destination: &str,
    catalog_project: &CatalogProject,
    token: &Option<String>,
    remote_name: &str,
) -> (r: Adopt)
    ensures
        r@ == adopt_start(destination@, catalog_project@, text::opt_view(*token), remote_name@),
        adopt_valid(r@),
{
    let r = Adopt {
        stage: AdoptStage::Metadata,
        destination: destination.to_owned(),
        remote_name: remote_name.to_owned(),
        remote_url: catalog_project.remote_url.clone(),
        default_branch: catalog_project.default_branch.clone(),
        heads: copy_heads(&catalog_project.advertised_heads),
        token: copy_option(token),
        known: false,
        revisions: Vec::new(),
        at: 0,
        baseline: String::new(),
        branch: String::new(),
        failure: None,
    };
    assert(r@.revisions =~= Seq::empty());
    assert(r@.baseline =~= Seq::empty());
    assert(r@.branch =~= Seq::empty());
    r
}

fn place(destination: &str, remote_name: &str, branch: &str, baseline: &str) -> (r: Vec<GitCall>)
    ensures
        transaction::calls(r@) == place_calls(destination@, remote_name@, branch@, baseline@),
{
    let reference = cat2("refs/heads/", branch);
    let remote_key = cat3("branch.", branch, ".remote");
    let merge_key = cat3("branch.", branch, ".merge");
    let r = vec![
        git_strict(destination, words3("symbolic-ref", "HEAD", reference.as_str())),
        git_strict(destination, words3("update-ref", reference.as_str(), baseline)),
        git_strict(destination, words3("reset", "--mixed", baseline)),
        git_strict(destination, words3("config", remote_key.as_str(), remote_name)),
        git_strict(destination, words3("config", merge_key.as_str(), reference.as_str())),
    ];
    assert(transaction::calls(r@) =~= place_calls(destination@, remote_name@, branch@, baseline@));
    r
}

impl Adopt {
    /// What is to be done next.
    pub fn request(&self) -> (r: AdoptAction)
        requires
            adopt_valid(self@),
        ensures
            r@ == adopt_requested(self@),
    {
        let d = self.destination.as_str();
        let remote = self.remote_name.as_str();
        match self.stage {
            AdoptStage::Metadata => AdoptAction::Exists(join_path(d, ".git")),
            AdoptStage::Init => {
                let option = cat2("--initial-branch=", self.default_branch.as_str());
                AdoptAction::Git(git_strict(d, words2("init", option.as_str())))
            },
            AdoptStage::Remote => AdoptAction::Git(
                git_lenient(d, words3("remote", "get-url", remote)),
            ),
            AdoptStage::Url => AdoptAction::Git(
                set_url(d, self.known, remote, self.remote_url.as_str()),
            ),
            AdoptStage::Mapping => AdoptAction::Git(map_heads(d, remote)),
            AdoptStage::Fetch => AdoptAction::Git(fetch_all(d, remote, &self.token, false)),
            AdoptStage::Revisions => AdoptAction::Git(
                git_strict(d, words3("rev-list", "--topo-order", "--all")),
            ),
            AdoptStage::Tree => {
                assert(self@.revisions[self@.at] == self.revisions@[self.at as int]@);
                AdoptAction::Git(
                    git_lenient(d, words2("read-tree", self.revisions[self.at].as_str())),
                )
            },
            AdoptStage::Compare => AdoptAction::Git(
                git_lenient(d, words4("diff", "--quiet", "--", ".")),
            ),
            AdoptStage::Default => {
                assert(self@.heads[self@.at] == self.heads@[self.at as int]@);
                AdoptAction::Git(
                    is_ancestor(d, self.baseline.as_str(), self.heads[self.at].oid.as_str()),
                )
            },
            AdoptStage::Head => {
                assert(self@.heads[self@.at] == self.heads@[self.at as int]@);
                AdoptAction::Git(
                    is_ancestor(d, self.baseline.as_str(), self.heads[self.at].oid.as_str()),
                )
            },
            AdoptStage::Install => AdoptAction::Install(
                place(d, remote, self.branch.as_str(), self.baseline.as_str()),
            ),
            AdoptStage::Cleanup => AdoptAction::Remove(join_path(d, ".git")),
            AdoptStage::Finished => match &self.failure {
                Some(message) => AdoptAction::Fail(message.clone()),
                None => AdoptAction::Return,
            },
        }
    }

    fn fail(&mut self, message: String)
        ensures
            final(self)@ == adopt_failed(old(self)@, message@),
    {
        self.stage = match self.stage {
            AdoptStage::Metadata => AdoptStage::Finished,
            AdoptStage::Init => AdoptStage::Finished,
            _ => AdoptStage::Cleanup,
        };
        self.failure = Some(message);
    }

    fn look_at_revision(&mut self, at: usize)
        ensures
            final(self)@ == adopt_revision(old(self)@, at as int),
    {
        if at < self.revisions.len() {
            self.stage = AdoptStage::Tree;
            self.at = at;
        } else {
            let message = cat2(
                self.destination.as_str(),
                " does not exactly match the tracked files of any hosted commit; refusing to adopt it",
            );
            self.fail(message);
        }
    }

    fn look_at_head(&mut self, at: usize)
        ensures
            final(self)@ == adopt_head(old(self)@, at as int),
    {
        if at < self.heads.len() {
            self.stage = AdoptStage::Head;
            self.at = at;
        } else {
            let message = cat3(
                "matching commit ",
                self.baseline.as_str(),
                " is not reachable from an advertised hosted branch",
            );
            self.fail(message);
        }
    }

    fn at_match(&mut self)
        requires
            adopt_valid(old(self)@),
            old(self)@.stage == AdoptStage::Compare,
        ensures
            final(self)@ == adopt_matched(old(self)@),
    {
        assert(self@.revisions[self@.at] == self.revisions@[self.at as int]@);
        self.baseline = self.revisions[self.at].clone();
        match find_head(&self.heads, self.default_branch.as_str()) {
            Some(i) => {
                self.stage = AdoptStage::Default;
                self.at = i;
            },
            None => {
                self.look_at_head(0);
            },
        }
    }

    fn at_reachable(&mut self)
        requires
            0 <= old(self)@.at < old(self)@.heads.len(),
        ensures
            final(self)@ == adopt_onto(old(self)@),
    {
        assert(self@.heads[self@.at] == self.heads@[self.at as int]@);
        self.branch = self.heads[self.at].name.clone();
        self.stage = AdoptStage::Install;
    }

    /// Takes what came of the step that was asked for.
    pub fn advance(&mut self, event: AdoptEvent)
        requires
            adopt_valid(old(self)@),
        ensures
            final(self)@ == adopted(old(self)@, event@),
            adopt_valid(final(self)@),
    {
        reveal(adopted);
        proof {
            lemma_head_found(self@.heads, self@.default_branch, 0);
        }
        assert(self@.revisions.len() == self.revisions.len());
        assert(self@.heads.len() == self.heads.len());
        match (self.stage, event) {
            (AdoptStage::Finished, _) => {},
            (AdoptStage::Cleanup, _) => {
                self.stage = AdoptStage::Finished;
            },
            (AdoptStage::Metadata, AdoptEvent::Exists(there)) => {
                if there {
                    let message = cat2(
                        self.destination.as_str(),
                        " contains Git metadata but is not a valid worktree",
                    );
                    self.fail(message);
                } else {
                    self.stage = AdoptStage::Init;
                }
            },
            (AdoptStage::Init, AdoptEvent::Ran(_)) => {
                self.stage = AdoptStage::Remote;
            },
            (AdoptStage::Remote, AdoptEvent::Ran(result)) => {
                self.known = result.code == 0;
                self.stage = AdoptStage::Url;
            },
            (AdoptStage::Url, AdoptEvent::Ran(_)) => {
                self.stage = AdoptStage::Mapping;
            },
            (AdoptStage::Mapping, AdoptEvent::Ran(_)) => {
                self.stage = AdoptStage::Fetch;
            },
            (AdoptStage::Fetch, AdoptEvent::Ran(_)) => {
                self.stage = AdoptStage::Revisions;
            },
            (AdoptStage::Revisions, AdoptEvent::Ran(result)) => {
                self.revisions = lines_of(result.stdout.as_str());
                self.look_at_revision(0);
            },
            (AdoptStage::Tree, AdoptEvent::Ran(result)) => {
                if result.code == 0 {
                    self.stage = AdoptStage::Compare;
                } else {
                    let next = self.at + 1;
                    self.look_at_revision(next);
                }
            },
            (AdoptStage::Compare, AdoptEvent::Ran(result)) => {
                if result.code == 0 {
                    self.at_match();
                } else {
                    let next = self.at + 1;
                    self.look_at_revision(next);
                }
            },
            (AdoptStage::Tree, AdoptEvent::Failed(_)) => {
                let next = self.at + 1;
                self.look_at_revision(next);
            },
            (AdoptStage::Compare, AdoptEvent::Failed(_)) => {
                let next = self.at + 1;
                self.look_at_revision(next);
            },
            (AdoptStage::Default, AdoptEvent::Ran(result)) => {
                if result.code == 0 {
                    self.at_reachable();
                } else {
                    self.look_at_head(0);
                }
            },
            (AdoptStage::Head, AdoptEvent::Ran(result)) => {
                if result.code == 0 {
                    self.at_reachable();
                } else {
                    let next = self.at + 1;
                    self.look_at_head(next);
                }
            },
            (AdoptStage::Install, AdoptEvent::Did) => {
                self.stage = AdoptStage::Finished;
            },
            (_, AdoptEvent::Failed(message)) => {
                self.fail(message);
            },
            _ => {},
        }
    }
}

/// The adoption after a number of events.
pub open spec fn adopt_replayed(s: AdoptView, events: Seq<AdoptEventView>) -> AdoptView
    decreases events.len(),
{
    if events.len() == 0 {
        s
    } else {
        adopted(adopt_replayed(s, events.drop_last()), events.last())
    }
}

/// The files of the directory were found to be those of the commit that is adopted.
pub open spec fn was_matched(s: AdoptView, events: Seq<AdoptEventView>, i: int) -> bool {
    let at = adopt_replayed(s, events.take(i));
    &&& 0 <= i < events.len()
    &&& at.stage == AdoptStage::Compare
    &&& events[i] matches AdoptEventView::Ran(result)
    &&& result.code == 0
    &&& at.revisions[at.at] == adopt_replayed(s, events).baseline
}

/// The stages after a matching commit was found.
pub open spec fn after_match(stage: AdoptStage) -> bool {
    stage == AdoptStage::Default || stage == AdoptStage::Head || stage == AdoptStage::Install
}

proof fn lemma_match_step(s: AdoptView, e: AdoptEventView)
    ensures
        ({
            let now = adopted(s, e);
            after_match(now.stage) ==> (after_match(s.stage) && now.baseline == s.baseline) || (
            s.stage == AdoptStage::Compare && (e matches AdoptEventView::Ran(result)
                && result.code == 0) && now.baseline == s.revisions[s.at])
        }),
{
    reveal(adopted);
}

/// A directory is put on a commit only after its files were found to be exactly those of that
/// commit.
pub proof fn law_adoption_is_exact(s: AdoptView, events: Seq<AdoptEventView>)
    requires
        s.stage == AdoptStage::Metadata,
        after_match(adopt_replayed(s, events).stage),
    ensures
        exists|i: int| was_matched(s, events, i),
    decreases events.len(),
{
    if events.len() > 0 {
        let front = events.drop_last();
        let before = adopt_replayed(s, front);
        lemma_match_step(before, events.last());
        if after_match(before.stage) {
            law_adoption_is_exact(s, front);
            let i = choose|i: int| was_matched(s, front, i);
            assert(front.take(i) =~= events.take(i));
            assert(front[i] == events[i]);
            assert(was_matched(s, events, i));
        } else {
            assert(events.take(events.len() - 1) =~= front);
            assert(was_matched(s, events, events.len() - 1));
        }
    }
}

/// What Git keeps was asked to be removed.
pub open spec fn was_cleaned(s: AdoptView, events: Seq<AdoptEventView>, i: int) -> bool {
    0 <= i <= events.len() && adopt_replayed(s, events.take(i)).stage == AdoptStage::Cleanup
}

/// The repository of the directory was made.
pub open spec fn was_made(s: AdoptView, events: Seq<AdoptEventView>, i: int) -> bool {
    0 <= i <= events.len() && adopt_replayed(s, events.take(i)).stage == AdoptStage::Remote
}

proof fn lemma_clean_step(s: AdoptView, e: AdoptEventView)
    ensures
        ({
            let now = adopted(s, e);
            &&& s.stage == AdoptStage::Finished ==> now == s
            &&& now.stage == AdoptStage::Finished && s.stage != AdoptStage::Finished
                && now.failure is Some && s.failure is None ==> s.stage == AdoptStage::Metadata
                || s.stage == AdoptStage::Init
            &&& s.failure is Some && s.stage != AdoptStage::Finished && s.stage
                != AdoptStage::Cleanup ==> now.failure is Some
            &&& now.failure is Some && s.failure is None ==> now.stage == AdoptStage::Finished
                || now.stage == AdoptStage::Cleanup
            &&& s.failure is Some && (s.stage == AdoptStage::Finished || s.stage
                == AdoptStage::Cleanup) ==> now.stage == AdoptStage::Finished && now.failure
                == s.failure
            &&& (now.stage == AdoptStage::Metadata || now.stage == AdoptStage::Init) ==> (s.stage
                == AdoptStage::Metadata || s.stage == AdoptStage::Init)
            &&& s.stage == AdoptStage::Init ==> now.stage == AdoptStage::Init || now.stage
                == AdoptStage::Remote || now.stage == AdoptStage::Finished
        }),
{
    reveal(adopted);
}

spec fn adopt_clean(s: AdoptView, events: Seq<AdoptEventView>) -> bool {
    let now = adopt_replayed(s, events);
    &&& now.failure is Some ==> now.stage == AdoptStage::Finished || now.stage
        == AdoptStage::Cleanup
    &&& now.stage == AdoptStage::Finished && now.failure is Some ==> (exists|i: int|
        was_cleaned(s, events, i)) || (forall|i: int|
        0 <= i <= events.len() ==> before_made(#[trigger] adopt_replayed(s, events.take(i)).stage))
    &&& (now.stage == AdoptStage::Metadata || now.stage == AdoptStage::Init) ==> forall|i: int|
        0 <= i <= events.len() ==> before_made(#[trigger] adopt_replayed(s, events.take(i)).stage)
}

/// The stages of an adoption whose repository was not made.
pub open spec fn before_made(stage: AdoptStage) -> bool {
    stage == AdoptStage::Metadata || stage == AdoptStage::Init || stage == AdoptStage::Finished
}

proof fn lemma_adopt_clean(s: AdoptView, events: Seq<AdoptEventView>)
    requires
        s.stage == AdoptStage::Metadata,
        s.failure is None,
    ensures
        adopt_clean(s, events),
    decreases events.len(),
{
    if events.len() == 0 {
        assert forall|i: int| 0 <= i <= events.len() implies before_made(
            #[trigger] adopt_replayed(s, events.take(i)).stage,
        ) by {
            assert(events.take(i) =~= events);
        }
    } else {
        let front = events.drop_last();
        let before = adopt_replayed(s, front);
        let now = adopt_replayed(s, events);
        lemma_adopt_clean(s, front);
        lemma_clean_step(before, events.last());
        assert(events.take(events.len() as int) =~= events);
        assert forall|i: int| 0 <= i < events.len() implies #[trigger] events.take(i) =~= front.take(
            i,
        ) by {}
        if before.stage == AdoptStage::Cleanup {
            assert(front.take(front.len() as int) =~= front);
            assert(was_cleaned(s, events, events.len() - 1));
        } else if exists|i: int| was_cleaned(s, front, i) {
            let i = choose|i: int| was_cleaned(s, front, i);
            assert(was_cleaned(s, events, i));
        }
        if forall|i: int|
            0 <= i <= front.len() ==> before_made(
                #[trigger] adopt_replayed(s, front.take(i)).stage,
            ) {
            if before_made(now.stage) {
                assert forall|i: int| 0 <= i <= events.len() implies before_made(
                    #[trigger] adopt_replayed(s, events.take(i)).stage,
                ) by {
                    if i < events.len() {
                        assert(before_made(adopt_replayed(s, front.take(i)).stage));
                    }
                }
            }
        }
    }
}

/// An adoption that fails removes what Git keeps in the directory, unless nothing was made there.
pub proof fn law_failed_adoption_leaves_nothing(s: AdoptView, events: Seq<AdoptEventView>, made: int)
    requires
        s.stage == AdoptStage::Metadata,
        s.failure is None,
        was_made(s, events, made),
        adopt_replayed(s, events).stage == AdoptStage::Finished,
        adopt_replayed(s, events).failure is Some,
    ensures
        exists|i: int| was_cleaned(s, events, i),
{
    lemma_adopt_clean(s, events);
    assert(!before_made(adopt_replayed(s, events.take(made)).stage));
}

} // verus!
