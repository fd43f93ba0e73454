//! Comparing every project with what the provider and the remote say.
use vstd::prelude::*;
use crate::process;
use crate::reconcile;
use crate::remote;
use crate::state;
use crate::text;
use crate::text_map;
use crate::process::{git_strict, words2, GitCall, GitCallView, RunResult, RunResultView};
use crate::reconcile::is_ancestor;
use crate::remote::{HeartbeatItem, HeartbeatItemView};
use crate::state::{LocalProject, LocalProjectView};
use crate::text::{copy_option, same_text, trimmed};
use crate::text_map::{drop_text, lookup, put_text};

verus! {

/// How far a refresh has come with a project.
#[derive(Debug, Clone, Copy, PartialEq, Eq, Structural)]
pub enum RefreshStage {
    Branch,
    Fetch,
    Head,
    Compare,
    Done,
}

/// A commit that the remote does not have.
#[derive(Debug, Clone, PartialEq, Eq)]
pub struct Unpublished {
    pub project_id: String,
    pub branch: String,
    pub head: String,
}

/// What a [`Unpublished`] holds.
pub struct UnpublishedView {
    pub project_id: Seq<char>,
    pub branch: Seq<char>,
    pub head: Seq<char>,
}

impl View for Unpublished {
    type V = UnpublishedView;

    open spec fn view(&self) -> UnpublishedView {
        UnpublishedView {
            project_id: self.project_id@,
            branch: self.branch@,
            head: self.head@,
        }
    }
}

impl Unpublished {
    /// A second value with the same contents.
    pub fn copy(&self) -> (r: Self)
        ensures
            r@ == self@,
    {
        Unpublished {
            project_id: self.project_id.clone(),
            branch: self.branch.clone(),
            head: self.head.clone(),
        }
    }
}

/// A refresh of all projects, step by step: [`Refresh::request`] says what is to be done next, and
/// [`Refresh::advance`] takes what came of it.
#[derive(Debug)]
pub struct Refresh {
    pub stage: RefreshStage,
    pub projects: Vec<LocalProject>,
    /// What the provider said of the projects.
    pub items: Vec<HeartbeatItem>,
    /// The project that the refresh is at.
    pub next: usize,
    pub branch: String,
    pub head: String,
    /// What is to be published afterwards.
    pub publish: Vec<Unpublished>,
    /// The projects that are to be moved afterwards.
    pub reconcile: Vec<String>,
    pub failure: Option<String>,
}

/// What a [`Refresh`] holds.
pub struct RefreshView {
    pub stage: RefreshStage,
    pub projects: Seq<LocalProjectView>,
    pub items: Seq<HeartbeatItemView>,
    pub next: int,
    pub branch: Seq<char>,
    pub head: Seq<char>,
    pub publish: Seq<UnpublishedView>,
    pub reconcile: Seq<Seq<char>>,
    pub failure: Option<Seq<char>>,
}

/// The contents of a list of commits.
pub open spec fn unpublished_views(list: Seq<Unpublished>) -> Seq<UnpublishedView> {
    list.map_values(|u: Unpublished| u@)
}

impl View for Refresh {
    type V = RefreshView;

    open spec fn view(&self) -> RefreshView {
        RefreshView {
            stage: self.stage,
            projects: state::project_views(self.projects@),
            items: remote::item_views(self.items@),
            next: self.next as int,
            branch: self.branch@,
            head: self.head@,
            publish: unpublished_views(self.publish@),
            reconcile: text::views(self.reconcile@),
            failure: text::opt_view(self.failure),
        }
    }
}

/// What a refresh asks for.
#[derive(Debug, Clone, PartialEq, Eq)]
pub enum RefreshAction {
    /// Ask for the branch of the worktree at this path.
    Branch(String),
    /// Fetch a branch: the path, the name of the remote, and the branch.
    Fetch(String, String, String),
    /// Run this command.
    Git(GitCall),
    /// The refresh is over.
    Done,
    /// The refresh is over with this error.
    Fail(String),
}

/// What a [`RefreshAction`] holds.
pub enum RefreshActionView {
    Branch(Seq<char>),
    Fetch(Seq<char>, Seq<char>, Seq<char>),
    Git(GitCallView),
    Done,
    Fail(Seq<char>),
}

impl View for RefreshAction {
    type V = RefreshActionView;

    open spec fn view(&self) -> RefreshActionView {
        match *self {
            RefreshAction::Branch(a) => RefreshActionView::Branch(a@),
            RefreshAction::Fetch(a, b, c) => RefreshActionView::Fetch(a@, b@, c@),
            RefreshAction::Git(a) => RefreshActionView::Git(a@),
            RefreshAction::Done => RefreshActionView::Done,
            RefreshAction::Fail(a) => RefreshActionView::Fail(a@),
        }
    }
}

/// What came of a step.
#[derive(Debug, Clone, PartialEq, Eq)]
pub enum RefreshEvent {
    /// The branch, if there is one.
    Branch(Option<String>),
    /// The commit of the branch, if the remote has it.
    Fetched(Option<String>),
    FetchFailed(String),
    Ran(RunResult),
    Failed(String),
}

/// What a [`RefreshEvent`] holds.
pub enum RefreshEventView {
    Branch(Option<Seq<char>>),
    Fetched(Option<Seq<char>>),
    FetchFailed(Seq<char>),
    Ran(RunResultView),
    Failed(Seq<char>),
}

impl View for RefreshEvent {
    type V = RefreshEventView;

    open spec fn view(&self) -> RefreshEventView {
        match *self {
            RefreshEvent::Branch(a) => RefreshEventView::Branch(text::opt_view(a)),
            RefreshEvent::Fetched(a) => RefreshEventView::Fetched(text::opt_view(a)),
            RefreshEvent::FetchFailed(a) => RefreshEventView::FetchFailed(a@),
            RefreshEvent::Ran(a) => RefreshEventView::Ran(a@),
            RefreshEvent::Failed(a) => RefreshEventView::Failed(a@),
        }
    }
}

/// The first answer for a project, from `from` on.
pub open spec fn item_for(items: Seq<HeartbeatItemView>, id: Seq<char>, from: int) -> Option<
    HeartbeatItemView,
>
    decreases items.len() - from,
{
    if from < 0 || from >= items.len() {
        None
    } else if items[from].project_id == id {
        Some(items[from])
    } else {
        item_for(items, id, from + 1)
    }
}

/// A project on the branch that was found, else on the one that is known.
pub open spec fn on_branch(p: LocalProjectView, found: Option<Seq<char>>) -> LocalProjectView {
    LocalProjectView {
        active_branch: Some(
            match found {
                Some(branch) => branch,
                None => state::branch_of(p),
            },
        ),
        ..p
    }
}

/// A project that is not moved any more, for a reason.
pub open spec fn stopped(p: LocalProjectView, state: Seq<char>, reason: Seq<char>) -> LocalProjectView {
    LocalProjectView { state, last_error: Some(reason), ..p }
}

/// A project whose branch has this commit on the remote, or none.
pub open spec fn advertised(
    p: LocalProjectView,
    branch: Seq<char>,
    head: Option<Seq<char>>,
) -> LocalProjectView {
    LocalProjectView {
        advertised_heads: match head {
            Some(head) => p.advertised_heads.insert(branch, head),
            None => p.advertised_heads.remove(branch),
        },
        ..p
    }
}

/// A project whose error is forgotten where everything is durable.
pub open spec fn settled(p: LocalProjectView) -> LocalProjectView {
    if p.durability == "REMOTELY_DURABLE"@ {
        LocalProjectView { last_error: None, ..p }
    } else {
        p
    }
}

/// A project in a state.
pub open spec fn in_state(p: LocalProjectView, state: Seq<char>) -> LocalProjectView {
    LocalProjectView { state, ..p }
}

/// A project whose branch has this commit, on the remote and here.
pub open spec fn applied(p: LocalProjectView, branch: Seq<char>, head: Seq<char>) -> LocalProjectView {
    LocalProjectView { last_applied_heads: p.last_applied_heads.insert(branch, head), ..p }
}

/// What a refresh asks for at its stage.
pub open spec fn refresh_requested(s: RefreshView) -> RefreshActionView {
    let p = s.projects[s.next];
    match s.stage {
        RefreshStage::Branch => RefreshActionView::Branch(p.local_path),
        RefreshStage::Fetch => RefreshActionView::Fetch(p.local_path, p.remote_name, s.branch),
        RefreshStage::Head => RefreshActionView::Git(
            process::git_in(p.local_path, seq!["rev-parse"@, "HEAD"@]),
        ),
        RefreshStage::Compare => RefreshActionView::Git(
            reconcile::ancestor_call(
                p.local_path,
                match text_map::text_at(p.advertised_heads, s.branch) {
                    Some(target) => target,
                    None => Seq::empty(),
                },
                s.head,
            ),
        ),
        RefreshStage::Done => match s.failure {
            Some(message) => RefreshActionView::Fail(message),
            None => RefreshActionView::Done,
        },
    }
}

/// A refresh with another value for the project it is at.
pub open spec fn with_project(s: RefreshView, p: LocalProjectView) -> RefreshView {
    RefreshView { projects: s.projects.update(s.next, p), ..s }
}

/// A refresh that goes on to the next project.
pub open spec fn onward(s: RefreshView) -> RefreshView {
    RefreshView {
        next: s.next + 1,
        stage: if s.next + 1 < s.projects.len() {
            RefreshStage::Branch
        } else {
            RefreshStage::Done
        },
        ..s
    }
}

/// A refresh that has one more commit to publish.
pub open spec fn publishing(s: RefreshView, head: Seq<char>) -> RefreshView {
    RefreshView {
        publish: s.publish.push(
            UnpublishedView { project_id: s.projects[s.next].project_id, branch: s.branch, head },
        ),
        ..s
    }
}

/// A refresh that has one more project to move.
pub open spec fn moving(s: RefreshView) -> RefreshView {
    RefreshView { reconcile: s.reconcile.push(s.projects[s.next].project_id), ..s }
}

/// A refresh that failed.
pub open spec fn refresh_failed(s: RefreshView, message: Seq<char>) -> RefreshView {
    RefreshView { stage: RefreshStage::Done, failure: Some(message), ..s }
}

/// A refresh that knows the branch of the project it is at.
pub open spec fn refresh_branch(s: RefreshView, found: Option<Seq<char>>) -> RefreshView {
    let p = on_branch(s.projects[s.next], found);
    match item_for(s.items, p.project_id, 0) {
        None => onward(
            with_project(
                s,
                stopped(
                    p,
                    "ACCESS_LOST"@,
                    "provider heartbeat omitted a locally subscribed project"@,
                ),
            ),
        ),
        Some(item) => if item.membership != "ACTIVE"@ {
            onward(
                with_project(
                    s,
                    stopped(
                        p,
                        "ACCESS_LOST"@,
                        "device credential no longer authorizes this subscribed project"@,
                    ),
                ),
            )
        } else {
            RefreshView {
                stage: RefreshStage::Fetch,
                branch: state::branch_of(p),
                ..with_project(
                    s,
                    LocalProjectView { server_generation: item.project_generation, ..p },
                )
            }
        },
    }
}

/// A refresh that fetched the branch of the project it is at.
pub open spec fn refresh_fetched(s: RefreshView, head: Option<Seq<char>>) -> RefreshView {
    let p = s.projects[s.next];
    let known = match head {
        Some(head) => Some(head),
        None => match item_for(s.items, p.project_id, 0) {
            Some(item) => item.head,
            None => None,
        },
    };
    RefreshView { stage: RefreshStage::Head, ..with_project(s, advertised(p, s.branch, known)) }
}

/// A refresh that knows the local commit of the project it is at.
pub open spec fn refresh_head(s: RefreshView, head: Seq<char>) -> RefreshView {
    let p = s.projects[s.next];
    if p.state == "CONFLICTED"@ {
        onward(with_project(s, settled(p)))
    } else {
        match text_map::text_at(p.advertised_heads, s.branch) {
            None => onward(publishing(with_project(s, settled(in_state(p, "CURRENT"@))), head)),
            Some(target) => if target == head {
                onward(
                    with_project(s, settled(applied(in_state(p, "CURRENT"@), s.branch, target))),
                )
            } else {
                RefreshView { stage: RefreshStage::Compare, head, ..s }
            },
        }
    }
}

/// A refresh that knows whether the remote commit is part of the local history.
pub open spec fn refresh_compared(s: RefreshView, behind: bool) -> RefreshView {
    let p = s.projects[s.next];
    if behind {
        onward(publishing(with_project(s, settled(in_state(p, "CURRENT"@))), s.head))
    } else {
        onward(moving(with_project(s, settled(in_state(p, "REMOTE_AHEAD"@)))))
    }
}

/// The refresh after an event.
#[verifier::opaque]
pub open spec fn refreshed(s: RefreshView, e: RefreshEventView) -> RefreshView {
    match (s.stage, e) {
        (RefreshStage::Branch, RefreshEventView::Branch(found)) => refresh_branch(s, found),
        (RefreshStage::Fetch, RefreshEventView::Fetched(head)) => refresh_fetched(s, head),
        (RefreshStage::Fetch, RefreshEventView::FetchFailed(reason)) => onward(
            with_project(s, stopped(s.projects[s.next], "OFFLINE"@, reason)),
        ),
        (RefreshStage::Head, RefreshEventView::Ran(result)) => refresh_head(s, text::trim(result.stdout)),
        (RefreshStage::Compare, RefreshEventView::Ran(result)) => refresh_compared(
            s,
            result.code == 0,
        ),
        (RefreshStage::Head, RefreshEventView::Failed(message)) => refresh_failed(s, message),
        (RefreshStage::Compare, RefreshEventView::Failed(message)) => refresh_failed(s, message),
        _ => s,
    }
}

/// A refresh at its start.
pub open spec fn refresh_start(
    projects: Seq<LocalProjectView>,
    items: Seq<HeartbeatItemView>,
) -> RefreshView {
    RefreshView {
        stage: if projects.len() > 0 {
            RefreshStage::Branch
        } else {
            RefreshStage::Done
        },
        projects,
        items,
        next: 0,
        branch: Seq::empty(),
        head: Seq::empty(),
        publish: Seq::empty(),
        reconcile: Seq::empty(),
        failure: None,
    }
}

/// A refresh is at a project unless it is over.
pub open spec fn refresh_valid(s: RefreshView) -> bool {
    s.stage == RefreshStage::Done || 0 <= s.next < s.projects.len()
}

fn find_item(items: &Vec<HeartbeatItem>, id: &str) -> (r: Option<usize>)
    ensures
        match r {
            Some(i) => i < items.len() && item_for(remote::item_views(items@), id@, 0) == Some(
                items@[i as int]@,
            ),
            None => item_for(remote::item_views(items@), id@, 0) is None,
        },
{
    let ghost all = remote::item_views(items@);
    let mut i: usize = 0;
    while i < items.len()
        invariant
            0 <= i <= items.len(),
            all == remote::item_views(items@),
            item_for(all, id@, 0) == item_for(all, id@, i as int),
        decreases items.len() - i,
    {
        assert(all[i as int] == items@[i as int]@);
        if same_text(items[i].project_id.as_str(), id) {
            return Some(i);
        }
        i += 1;
    }
    None
}

impl LocalProject {
    /// Stops moving the project, for a reason.
    pub fn stop(&mut self, state: &str, reason: &str)
        ensures
            final(self)@ == stopped(old(self)@, state@, reason@),
    {
        self.state = state.to_owned();
        self.last_error = Some(reason.to_owned());
    }

    /// Takes note of the commit that a branch has on the remote.
    pub fn advertise(&mut self, branch: &str, head: &Option<String>)
        ensures
            final(self)@ == advertised(old(self)@, branch@, text::opt_view(*head)),
    {
        match head {
            Some(head) => {
                put_text(&mut self.advertised_heads, branch, head.as_str());
            },
            None => {
                drop_text(&mut self.advertised_heads, branch);
            },
        }
    }

    /// Takes note of the commit that a branch has here.
    pub fn apply(&mut self, branch: &str, head: &str)
        ensures
            final(self)@ == applied(old(self)@, branch@, head@),
    {
        put_text(&mut self.last_applied_heads, branch, head);
    }

    /// Forgets the error where everything is durable.
    pub fn settle(&mut self)
        ensures
            final(self)@ == settled(old(self)@),
    {
        if same_text(self.durability.as_str(), "REMOTELY_DURABLE") {
            self.last_error = None;
        }
    }
}

impl Refresh {
    /// A refresh of projects, given what the provider said of them.
    pub fn new(projects: Vec<LocalProject>, items: Vec<HeartbeatItem>) -> (r: Self)
        ensures
            r@ == refresh_start(state::project_views(projects@), remote::item_views(items@)),
            refresh_valid(r@),
    {
        let stage = if projects.len() > 0 {
            RefreshStage::Branch
        } else {
            RefreshStage::Done
        };
        let r = Refresh {
            stage,
            projects,
            items,
            next: 0,
            branch: String::new(),
            head: String::new(),
            publish: Vec::new(),
            reconcile: Vec::new(),
            failure: None,
        };
        assert(r@.publish =~= Seq::empty());
        assert(r@.reconcile =~= Seq::empty());
        r
    }

    /// What is to be done next.
    pub fn request(&self) -> (r: RefreshAction)
        requires
            refresh_valid(self@),
        ensures
            r@ == refresh_requested(self@),
    {
        match self.stage {
            RefreshStage::Done => match &self.failure {
                Some(message) => RefreshAction::Fail(message.clone()),
                None => RefreshAction::Done,
            },
            RefreshStage::Branch => {
                RefreshAction::Branch(self.projects[self.next].local_path.clone())
            },
            RefreshStage::Fetch => {
                let p = &self.projects[self.next];
                RefreshAction::Fetch(
                    p.local_path.clone(),
                    p.remote_name.clone(),
                    self.branch.clone(),
                )
            },
            RefreshStage::Head => {
                let p = &self.projects[self.next];
                RefreshAction::Git(git_strict(p.local_path.as_str(), words2("rev-parse", "HEAD")))
            },
            RefreshStage::Compare => {
                let p = &self.projects[self.next];
                let target = match lookup(&p.advertised_heads, self.branch.as_str()) {
                    Some(target) => target,
                    None => {
                        let none = String::new();
                        assert(none@ =~= Seq::empty());
                        none
                    },
                };
                RefreshAction::Git(
                    is_ancestor(p.local_path.as_str(), target.as_str(), self.head.as_str()),
                )
            },
        }
    }

    fn go_on(&mut self)
        requires
            0 <= old(self)@.next < old(self)@.projects.len(),
        ensures
            final(self)@ == onward(old(self)@),
    {
        assert(self@.projects.len() == self.projects.len());
        self.next = self.next + 1;
        self.stage = if self.next < self.projects.len() {
            RefreshStage::Branch
        } else {
            RefreshStage::Done
        };
    }

    fn note_publication(&mut self, head: &str)
        requires
            0 <= old(self)@.next < old(self)@.projects.len(),
        ensures
            final(self)@ == publishing(old(self)@, head@),
    {
        let item = Unpublished {
            project_id: self.projects[self.next].project_id.clone(),
            branch: self.branch.clone(),
            head: head.to_owned(),
        };
        let ghost one = item@;
        self.publish.push(item);
        assert(self@.publish =~= old(self)@.publish.push(one));
    }

    fn note_move(&mut self)
        requires
            0 <= old(self)@.next < old(self)@.projects.len(),
        ensures
            final(self)@ == moving(old(self)@),
    {
        let id = self.projects[self.next].project_id.clone();
        self.reconcile.push(id);
        assert(self@.reconcile =~= old(self)@.reconcile.push(
            old(self)@.projects[old(self)@.next].project_id,
        ));
    }

    fn at_branch(&mut self, found: Option<String>)
        requires
            0 <= old(self)@.next < old(self)@.projects.len(),
        ensures
            final(self)@ == refresh_branch(old(self)@, text::opt_view(found)),
    {
        let i = self.next;
        let branch = match found {
            Some(branch) => branch,
            None => self.projects[i].branch(),
        };
        let ghost p = on_branch(self@.projects[i as int], text::opt_view(found));
        let place = find_item(&self.items, self.projects[i].project_id.as_str());
        self.projects[i].active_branch = Some(branch.clone());
        assert(self@.projects =~= old(self)@.projects.update(i as int, p));
        match place {
            None => {
                self.projects[i].stop(
                    "ACCESS_LOST",
                    "provider heartbeat omitted a locally subscribed project",
                );
                assert(self@ == with_project(old(self)@, self@.projects[i as int])) by {
                    assert(self@.projects =~= old(self)@.projects.update(
                        i as int,
                        self@.projects[i as int],
                    ));
                }
                self.go_on();
            },
            Some(k) => {
                if !same_text(self.items[k].membership.as_str(), "ACTIVE") {
                    self.projects[i].stop(
                        "ACCESS_LOST",
                        "device credential no longer authorizes this subscribed project",
                    );
                    assert(self@ == with_project(old(self)@, self@.projects[i as int])) by {
                        assert(self@.projects =~= old(self)@.projects.update(
                            i as int,
                            self@.projects[i as int],
                        ));
                    }
                    self.go_on();
                } else {
                    self.projects[i].server_generation = self.items[k].project_generation;
                    self.branch = branch;
                    self.stage = RefreshStage::Fetch;
                    assert(self@.projects =~= old(self)@.projects.update(
                        i as int,
                        self@.projects[i as int],
                    ));
                }
            },
        }
    }

    fn at_fetched(&mut self, head: Option<String>)
        requires
            0 <= old(self)@.next < old(self)@.projects.len(),
        ensures
            final(self)@ == refresh_fetched(old(self)@, text::opt_view(head)),
    {
        let i = self.next;
        let known = match head {
            Some(head) => Some(head),
            None => match find_item(&self.items, self.projects[i].project_id.as_str()) {
                Some(k) => copy_option(&self.items[k].head),
                None => None,
            },
        };
        let branch = self.branch.clone();
        self.projects[i].advertise(branch.as_str(), &known);
        self.stage = RefreshStage::Head;
        assert(self@.projects =~= old(self)@.projects.update(i as int, self@.projects[i as int]));
    }

    fn at_head(&mut self, head: String)
        requires
            0 <= old(self)@.next < old(self)@.projects.len(),
        ensures
            final(self)@ == refresh_head(old(self)@, head@),
    {
        let i = self.next;
        let branch = self.branch.clone();
        if same_text(self.projects[i].state.as_str(), "CONFLICTED") {
            self.projects[i].settle();
            assert(self@.projects =~= old(self)@.projects.update(
                i as int,
                self@.projects[i as int],
            ));
            self.go_on();
            return ;
        }
        match lookup(&self.projects[i].advertised_heads, branch.as_str()) {
            None => {
                self.projects[i].state = "CURRENT".to_owned();
                self.projects[i].settle();
                assert(self@.projects =~= old(self)@.projects.update(
                    i as int,
                    self@.projects[i as int],
                ));
                self.note_publication(head.as_str());
                self.go_on();
            },
            Some(target) => {
                if same_text(target.as_str(), head.as_str()) {
                    self.projects[i].state = "CURRENT".to_owned();
                    self.projects[i].apply(branch.as_str(), target.as_str());
                    self.projects[i].settle();
                    assert(self@.projects =~= old(self)@.projects.update(
                        i as int,
                        self@.projects[i as int],
                    ));
                    self.go_on();
                } else {
                    self.stage = RefreshStage::Compare;
                    self.head = head;
                }
            },
        }
    }

    fn at_compared(&mut self, behind: bool)
        requires
            0 <= old(self)@.next < old(self)@.projects.len(),
        ensures
            final(self)@ == refresh_compared(old(self)@, behind),
    {
        let i = self.next;
        self.projects[i].state = if behind {
            "CURRENT".to_owned()
        } else {
            "REMOTE_AHEAD".to_owned()
        };
        self.projects[i].settle();
        assert(self@.projects =~= old(self)@.projects.update(i as int, self@.projects[i as int]));
        if behind {
            let head = self.head.clone();
            self.note_publication(head.as_str());
        } else {
            self.note_move();
        }
        self.go_on();
    }

    /// Takes what came of the step that was asked for.
    pub fn advance(&mut self, event: RefreshEvent)
        requires
            refresh_valid(old(self)@),
        ensures
            final(self)@ == refreshed(old(self)@, event@),
            refresh_valid(final(self)@),
    {
        reveal(refreshed);
        match (self.stage, event) {
            (RefreshStage::Branch, RefreshEvent::Branch(found)) => {
                self.at_branch(found);
            },
            (RefreshStage::Fetch, RefreshEvent::Fetched(head)) => {
                self.at_fetched(head);
            },
            (RefreshStage::Fetch, RefreshEvent::FetchFailed(reason)) => {
                let i = self.next;
                self.projects[i].stop("OFFLINE", reason.as_str());
                assert(self@.projects =~= old(self)@.projects.update(
                    i as int,
                    self@.projects[i as int],
                ));
                self.go_on();
            },
            (RefreshStage::Head, RefreshEvent::Ran(result)) => {
                let head = trimmed(result.stdout.as_str());
                self.at_head(head);
            },
            (RefreshStage::Compare, RefreshEvent::Ran(result)) => {
                self.at_compared(result.code == 0);
            },
            (RefreshStage::Head, RefreshEvent::Failed(message)) => {
                self.stage = RefreshStage::Done;
                self.failure = Some(message);
            },
            (RefreshStage::Compare, RefreshEvent::Failed(message)) => {
                self.stage = RefreshStage::Done;
                self.failure = Some(message);
            },
            _ => {},
        }
    }
}

/// The refresh after a number of events.
pub open spec fn refresh_replayed(s: RefreshView, events: Seq<RefreshEventView>) -> RefreshView
    decreases events.len(),
{
    if events.len() == 0 {
        s
    } else {
        refreshed(refresh_replayed(s, events.drop_last()), events.last())
    }
}

/// What a refresh never changes of a project.
pub open spec fn same_checkout(a: LocalProjectView, b: LocalProjectView) -> bool {
    a.project_id == b.project_id && a.local_path == b.local_path && a.remote_name == b.remote_name
        && a.remote_url == b.remote_url && a.default_branch == b.default_branch
        && a.workspace_generation == b.workspace_generation && a.durability == b.durability
        && a.conflict == b.conflict && a.service == b.service && a.checkout_id == b.checkout_id
}

/// What a refresh makes of a conflict: it stays, unless the project is out of reach.
pub open spec fn conflict_held(a: LocalProjectView, b: LocalProjectView) -> bool {
    a.state == "CONFLICTED"@ ==> b.state == "CONFLICTED"@ || b.state == "ACCESS_LOST"@ || b.state
        == "OFFLINE"@
}

proof fn lemma_refresh_step(s: RefreshView, e: RefreshEventView)
    requires
        refresh_valid(s),
    ensures
        refresh_valid(refreshed(s, e)),
        refreshed(s, e).projects.len() == s.projects.len(),
        refreshed(s, e).next >= s.next,
        forall|k: int|
            0 <= k < s.projects.len() ==> same_checkout(
                s.projects[k],
                #[trigger] refreshed(s, e).projects[k],
            ) && (k != s.next ==> refreshed(s, e).projects[k] == s.projects[k]),
        0 <= s.next < s.projects.len() && s.stage != RefreshStage::Compare ==> conflict_held(
            s.projects[s.next],
            refreshed(s, e).projects[s.next],
        ),
        refreshed(s, e).stage == RefreshStage::Compare && refreshed(s, e).next < s.projects.len()
            && s.stage != RefreshStage::Compare ==> refreshed(s, e).projects[refreshed(
            s,
            e,
        ).next].state != "CONFLICTED"@,
        refreshed(s, e).stage == RefreshStage::Compare ==> refreshed(s, e).next == s.next,
        refreshed(s, e).stage == RefreshStage::Compare && s.stage == RefreshStage::Compare
            ==> refreshed(s, e).projects == s.projects,
{
    reveal(refreshed);
    reveal_strlit("CONFLICTED");
}

/// A refresh keeps the list of projects, and of each project its identity, where it is checked
/// out, its conflict and whether its commits are durable.
pub proof fn law_refresh_keeps_projects(s: RefreshView, events: Seq<RefreshEventView>)
    requires
        refresh_valid(s),
    ensures
        refresh_valid(refresh_replayed(s, events)),
        refresh_replayed(s, events).projects.len() == s.projects.len(),
        forall|k: int|
            0 <= k < s.projects.len() ==> same_checkout(
                s.projects[k],
                #[trigger] refresh_replayed(s, events).projects[k],
            ),
    decreases events.len(),
{
    if events.len() > 0 {
        let before = refresh_replayed(s, events.drop_last());
        law_refresh_keeps_projects(s, events.drop_last());
        lemma_refresh_step(before, events.last());
        assert forall|k: int| 0 <= k < s.projects.len() implies same_checkout(
            s.projects[k],
            #[trigger] refresh_replayed(s, events).projects[k],
        ) by {
            assert(same_checkout(s.projects[k], before.projects[k]));
            assert(same_checkout(before.projects[k], refreshed(before, events.last()).projects[k]));
        }
    }
}

/// The states that a refresh does not leave a conflict for.
pub open spec fn unmoved(state: Seq<char>) -> bool {
    state == "CONFLICTED"@ || state == "ACCESS_LOST"@ || state == "OFFLINE"@
}

/// No project that the refresh is to come to has been changed, and none in conflict is compared.
spec fn refresh_kept(start: RefreshView, s: RefreshView) -> bool {
    &&& s.projects.len() == start.projects.len()
    &&& forall|k: int|
        0 <= k < start.projects.len() && start.projects[k].state == "CONFLICTED"@ ==> unmoved(
            #[trigger] s.projects[k].state,
        )
    &&& forall|k: int|
        s.next <= k < start.projects.len() && start.projects[k].state == "CONFLICTED"@ ==> (
        #[trigger] s.projects[k]).state == "CONFLICTED"@
    &&& s.stage == RefreshStage::Compare && 0 <= s.next < s.projects.len()
        ==> s.projects[s.next].state != "CONFLICTED"@
}

proof fn lemma_conflicts_held(s: RefreshView, events: Seq<RefreshEventView>)
    requires
        refresh_valid(s),
        0 <= s.next,
        s.stage != RefreshStage::Compare,
    ensures
        refresh_valid(refresh_replayed(s, events)),
        refresh_kept(s, refresh_replayed(s, events)),
        0 <= refresh_replayed(s, events).next,
    decreases events.len(),
{
    if events.len() > 0 {
        let before = refresh_replayed(s, events.drop_last());
        let e = events.last();
        let after = refreshed(before, e);
        lemma_conflicts_held(s, events.drop_last());
        lemma_refresh_step(before, e);
        lemma_conflict_step(before, e);
        assert forall|k: int|
            0 <= k < s.projects.len() && s.projects[k].state == "CONFLICTED"@ implies unmoved(
            #[trigger] after.projects[k].state,
        ) by {
            assert(unmoved(before.projects[k].state));
            if k == before.next {
                assert(before.projects[k].state == "CONFLICTED"@);
            }
        }
        assert forall|k: int|
            after.next <= k < s.projects.len() && s.projects[k].state == "CONFLICTED"@ implies (
        #[trigger] after.projects[k]).state == "CONFLICTED"@ by {
            assert(before.projects[k].state == "CONFLICTED"@);
        }
    }
}

proof fn lemma_conflict_step(s: RefreshView, e: RefreshEventView)
    ensures
        ({
            let now = refreshed(s, e);
            0 <= s.next < s.projects.len() && s.projects[s.next].state == "CONFLICTED"@ && s.stage
                != RefreshStage::Compare && now.next == s.next ==> now.projects[s.next].state
                == "CONFLICTED"@
        }),
{
    reveal(refreshed);
}

/// A refresh never resolves a conflict: a project in conflict stays so unless it is out of reach.
pub proof fn law_refresh_holds_conflicts(
    projects: Seq<LocalProjectView>,
    items: Seq<HeartbeatItemView>,
    events: Seq<RefreshEventView>,
    k: int,
)
    requires
        0 <= k < projects.len(),
        projects[k].state == "CONFLICTED"@,
    ensures
        unmoved(refresh_replayed(refresh_start(projects, items), events).projects[k].state),
{
    lemma_conflicts_held(refresh_start(projects, items), events);
}

} // verus!
