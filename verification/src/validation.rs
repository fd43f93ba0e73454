//! How the commands of a project validate a commit, in a worktree of their own.
use vstd::prelude::*;
use crate::config;
use crate::paths;
use crate::process;
use crate::random;
use crate::text;
use crate::config::ProjectConfig;
use crate::paths::join_path;
use crate::process::{git_lenient, git_strict, words4, words5, GitCall, GitCallView};
use crate::random::unique_hyphenated;
use crate::text::{cat2, copy_list};

verus! {

/// What is done next.
#[derive(Debug, Clone, Copy, PartialEq, Eq, Structural)]
pub enum ValidationStage {
    /// Make the worktree.
    Add,
    /// Run a command.
    Run,
    /// Remove the worktree.
    Remove,
    Finished,
}

/// The validation of a commit.
#[derive(Debug)]
pub struct Validation {
    pub stage: ValidationStage,
    pub project_path: String,
    pub worktree: String,
    pub candidate: String,
    pub validations: Vec<Vec<String>>,
    /// The command that is run.
    pub at: usize,
    pub failure: Option<String>,
}

/// What a [`Validation`] holds.
#[verifier::ext_equal]
pub struct ValidationView {
    pub stage: ValidationStage,
    pub project_path: Seq<char>,
    pub worktree: Seq<char>,
    pub candidate: Seq<char>,
    pub validations: Seq<Seq<Seq<char>>>,
    pub at: int,
    pub failure: Option<Seq<char>>,
}

impl View for Validation {
    type V = ValidationView;

    open spec fn view(&self) -> ValidationView {
        ValidationView {
            stage: self.stage,
            project_path: self.project_path@,
            worktree: self.worktree@,
            candidate: self.candidate@,
            validations: config::command_views(self.validations@),
            at: self.at as int,
            failure: text::opt_view(self.failure),
        }
    }
}

/// What is to be done.
#[derive(Debug)]
pub enum ValidationAction {
    /// Run this command of Git.
    Git(GitCall),
    /// Run these words as a command, in this directory.
    Run(Vec<String>, String),
    /// The commit is valid.
    Done,
    /// The commit is not valid, for this reason.
    Fail(String),
}

/// What a [`ValidationAction`] holds.
pub enum ValidationActionView {
    Git(GitCallView),
    Run(Seq<Seq<char>>, Seq<char>),
    Done,
    Fail(Seq<char>),
}

impl View for ValidationAction {
    type V = ValidationActionView;

    open spec fn view(&self) -> ValidationActionView {
        match *self {
            ValidationAction::Git(call) => ValidationActionView::Git(call@),
            ValidationAction::Run(words, directory) => ValidationActionView::Run(
                text::views(words@),
                directory@,
            ),
            ValidationAction::Done => ValidationActionView::Done,
            ValidationAction::Fail(reason) => ValidationActionView::Fail(reason@),
        }
    }
}

/// What came of a step.
#[derive(Debug, Clone, PartialEq, Eq)]
pub enum ValidationEvent {
    /// It succeeded.
    Did,
    /// It failed, for this reason.
    Failed(String),
}

/// What a [`ValidationEvent`] holds.
pub enum ValidationEventView {
    Did,
    Failed(Seq<char>),
}

impl View for ValidationEvent {
    type V = ValidationEventView;

    open spec fn view(&self) -> ValidationEventView {
        match *self {
            ValidationEvent::Did => ValidationEventView::Did,
            ValidationEvent::Failed(reason) => ValidationEventView::Failed(reason@),
        }
    }
}

/// The command that makes a worktree of a commit, on no branch.
pub open spec fn add_call(
    project_path: Seq<char>,
    worktree: Seq<char>,
    candidate: Seq<char>,
) -> GitCallView {
    process::git_in(
        project_path,
        seq!["worktree"@, "add"@, "--detach"@, worktree, candidate],
    )
}

/// The command that removes a worktree; it may fail.
pub open spec fn remove_call(project_path: Seq<char>, worktree: Seq<char>) -> GitCallView {
    process::git_try(project_path, seq!["worktree"@, "remove"@, "--force"@, worktree])
}

/// The validation of a commit at its start: without commands it is over at once.
pub open spec fn validation_start(
    project_path: Seq<char>,
    worktree: Seq<char>,
    candidate: Seq<char>,
    validations: Seq<Seq<Seq<char>>>,
) -> ValidationView {
    ValidationView {
        stage: if validations.len() == 0 {
            ValidationStage::Finished
        } else {
            ValidationStage::Add
        },
        project_path,
        worktree,
        candidate,
        validations,
        at: 0,
        failure: None,
    }
}

/// What is to be done next.
pub open spec fn validation_requested(s: ValidationView) -> ValidationActionView {
    match s.stage {
        ValidationStage::Add => ValidationActionView::Git(
            add_call(s.project_path, s.worktree, s.candidate),
        ),
        ValidationStage::Run => ValidationActionView::Run(s.validations[s.at], s.worktree),
        ValidationStage::Remove => ValidationActionView::Git(
            remove_call(s.project_path, s.worktree),
        ),
        ValidationStage::Finished => match s.failure {
            Some(reason) => ValidationActionView::Fail(reason),
            None => ValidationActionView::Done,
        },
    }
}

/// What holds after a step.
pub open spec fn validated(s: ValidationView, e: ValidationEventView) -> ValidationView {
    match (s.stage, e) {
        (ValidationStage::Finished, _) => s,
        (ValidationStage::Remove, _) => ValidationView { stage: ValidationStage::Finished, ..s },
        (_, ValidationEventView::Failed(reason)) => ValidationView {
            stage: ValidationStage::Remove,
            failure: Some(reason),
            ..s
        },
        (ValidationStage::Add, ValidationEventView::Did) => ValidationView {
            stage: ValidationStage::Run,
            ..s
        },
        (ValidationStage::Run, ValidationEventView::Did) => if s.at + 1 < s.validations.len() {
            ValidationView { at: s.at + 1, ..s }
        } else {
            ValidationView { stage: ValidationStage::Remove, ..s }
        },
    }
}

/// What holds of every validation: there is a command to run.
pub open spec fn validation_valid(s: ValidationView) -> bool {
    &&& 0 <= s.at
    &&& s.stage == ValidationStage::Add || s.stage == ValidationStage::Run ==> s.at
        < s.validations.len()
}

impl Validation {
    /// The validation of a commit by commands, in a worktree at the given place.
    pub fn new(
        project_path: &str,
        worktree: &str,
        candidate: &str,
        validations: Vec<Vec<String>>,
    ) -> (r: Validation)
        ensures
            r@ == validation_start(
                project_path@,
                worktree@,
                candidate@,
                config::command_views(validations@),
            ),
            validation_valid(r@),
    {
        let stage = if validations.len() == 0 {
            ValidationStage::Finished
        } else {
            ValidationStage::Add
        };
        Validation {
            stage,
            project_path: project_path.to_owned(),
            worktree: worktree.to_owned(),
            candidate: candidate.to_owned(),
            validations,
            at: 0,
            failure: None,
        }
    }

    /// What is to be done next.
    pub fn request(&self) -> (r: ValidationAction)
        requires
            validation_valid(self@),
        ensures
            r@ == validation_requested(self@),
    {
        match self.stage {
            ValidationStage::Add => ValidationAction::Git(
                git_strict(
                    self.project_path.as_str(),
                    words5(
                        "worktree",
                        "add",
                        "--detach",
                        self.worktree.as_str(),
                        self.candidate.as_str(),
                    ),
                ),
            ),
            ValidationStage::Run => {
                assert(self@.validations[self.at as int] == text::views(
                    self.validations@[self.at as int]@,
                ));
                ValidationAction::Run(copy_list(&self.validations[self.at]), self.worktree.clone())
            },
            ValidationStage::Remove => ValidationAction::Git(
                git_lenient(
                    self.project_path.as_str(),
                    words4("worktree", "remove", "--force", self.worktree.as_str()),
                ),
            ),
            ValidationStage::Finished => match &self.failure {
                Some(reason) => ValidationAction::Fail(reason.clone()),
                None => ValidationAction::Done,
            },
        }
    }

    /// Takes what came of the step that was asked for.
    pub fn advance(&mut self, event: ValidationEvent)
        requires
            validation_valid(old(self)@),
        ensures
            final(self)@ == validated(old(self)@, event@),
            validation_valid(final(self)@),
    {
        match self.stage {
            ValidationStage::Finished => {},
            ValidationStage::Remove => {
                self.stage = ValidationStage::Finished;
            },
            ValidationStage::Add => match event {
                ValidationEvent::Did => {
                    self.stage = ValidationStage::Run;
                },
                ValidationEvent::Failed(reason) => {
                    self.failure = Some(reason);
                    self.stage = ValidationStage::Remove;
                },
            },
            ValidationStage::Run => match event {
                ValidationEvent::Did => {
                    assert(self@.validations.len() == self.validations.len());
                    if self.at + 1 < self.validations.len() {
                        self.at = self.at + 1;
                    } else {
                        self.stage = ValidationStage::Remove;
                    }
                },
                ValidationEvent::Failed(reason) => {
                    self.failure = Some(reason);
                    self.stage = ValidationStage::Remove;
                },
            },
        }
    }
}

/// Starts the validation of a commit by the commands of its project, in a new worktree below the
/// directory of the state. Chance decides the name of the worktree.
pub fn validate_candidate(
    project_path: &str,
    root: &str,
    candidate: &str,
    configuration: ProjectConfig,
) -> (r: Validation)
    ensures
        exists|name: Seq<char>| #[trigger]
            random::is_unique_name(name) && r@ == validation_start(
                project_path@,
                paths::joined(root@, "validation-"@ + name),
                candidate@,
                config::command_views(configuration.validations@),
            ),
        validation_valid(r@),
{
    let name = unique_hyphenated();
    let file = cat2("validation-", name.as_str());
    let worktree = join_path(root, file.as_str());
    assert(random::is_unique_name(name@));
    Validation::new(project_path, worktree.as_str(), candidate, configuration.validations)
}

/// What holds after a number of steps.
pub open spec fn validation_replayed(
    s: ValidationView,
    events: Seq<ValidationEventView>,
) -> ValidationView
    decreases events.len(),
{
    if events.len() == 0 {
        s
    } else {
        validated(validation_replayed(s, events.drop_last()), events.last())
    }
}

/// The first `n` steps succeeded.
pub open spec fn all_did(events: Seq<ValidationEventView>, n: int) -> bool {
    n <= events.len() && forall|i: int| 0 <= i < n ==> #[trigger] events[i] is Did
}

/// While every step succeeds, the commit is checked out in the worktree, the commands are run there
/// one after the other in the order in which they are declared, and the worktree is removed: then
/// the commit is valid.
pub proof fn law_commands_run_in_order(
    project_path: Seq<char>,
    worktree: Seq<char>,
    candidate: Seq<char>,
    validations: Seq<Seq<Seq<char>>>,
    events: Seq<ValidationEventView>,
)
    requires
        validations.len() > 0,
        all_did(events, events.len() as int),
    ensures
        validation_requested(
            validation_replayed(
                validation_start(project_path, worktree, candidate, validations),
                events,
            ),
        ) == if events.len() == 0 {
            ValidationActionView::Git(add_call(project_path, worktree, candidate))
        } else if events.len() <= validations.len() {
            ValidationActionView::Run(validations[events.len() - 1], worktree)
        } else if events.len() == validations.len() + 1 {
            ValidationActionView::Git(remove_call(project_path, worktree))
        } else {
            ValidationActionView::Done
        },
{
    lemma_course(project_path, worktree, candidate, validations, events);
}

/// The state after steps that all succeeded.
proof fn lemma_course(
    project_path: Seq<char>,
    worktree: Seq<char>,
    candidate: Seq<char>,
    validations: Seq<Seq<Seq<char>>>,
    events: Seq<ValidationEventView>,
)
    requires
        validations.len() > 0,
        all_did(events, events.len() as int),
    ensures
        ({
            let n = validations.len() as int;
            let k = events.len() as int;
            let s = validation_start(project_path, worktree, candidate, validations);
            validation_replayed(s, events) == (ValidationView {
                stage: if k == 0 {
                    ValidationStage::Add
                } else if k <= n {
                    ValidationStage::Run
                } else if k == n + 1 {
                    ValidationStage::Remove
                } else {
                    ValidationStage::Finished
                },
                at: if k == 0 {
                    0
                } else if k <= n {
                    k - 1
                } else {
                    n - 1
                },
                ..s
            })
        }),
    decreases events.len(),
{
    if events.len() > 0 {
        let before = events.drop_last();
        assert forall|i: int| 0 <= i < before.len() implies #[trigger] before[i] is Did by {
            assert(events[i] is Did);
        }
        lemma_course(project_path, worktree, candidate, validations, before);
        assert(events[events.len() - 1] is Did);
    }
}

/// The state after the first step that failed.
proof fn lemma_failed_course(
    project_path: Seq<char>,
    worktree: Seq<char>,
    candidate: Seq<char>,
    validations: Seq<Seq<Seq<char>>>,
    events: Seq<ValidationEventView>,
    f: int,
)
    requires
        0 <= f <= validations.len(),
        f < events.len(),
        validations.len() > 0,
        all_did(events, f),
        events[f] is Failed,
    ensures
        ({
            let s = validation_start(project_path, worktree, candidate, validations);
            let now = validation_replayed(s, events);
            &&& now.stage == if events.len() == f + 1 {
                ValidationStage::Remove
            } else {
                ValidationStage::Finished
            }
            &&& now.failure == Some(events[f]->Failed_0)
            &&& now.project_path == project_path
            &&& now.worktree == worktree
        }),
    decreases events.len(),
{
    let before = events.drop_last();
    if events.len() == f + 1 {
        assert forall|i: int| 0 <= i < before.len() implies #[trigger] before[i] is Did by {
            assert(events[i] is Did);
        }
        lemma_course(project_path, worktree, candidate, validations, before);
        assert(events.last() == events[f]);
    } else {
        assert(before[f] == events[f]);
        assert forall|i: int| 0 <= i < f implies #[trigger] before[i] is Did by {
            assert(events[i] is Did);
        }
        lemma_failed_course(project_path, worktree, candidate, validations, before, f);
    }
}

/// The first failure ends a validation: no further command is run, the worktree is removed, and the
/// commit is refused for that reason.
pub proof fn law_first_failure_ends(
    project_path: Seq<char>,
    worktree: Seq<char>,
    candidate: Seq<char>,
    validations: Seq<Seq<Seq<char>>>,
    events: Seq<ValidationEventView>,
    f: int,
)
    requires
        0 <= f <= validations.len(),
        f < events.len(),
        validations.len() > 0,
        all_did(events, f),
        events[f] is Failed,
    ensures
        validation_requested(
            validation_replayed(
                validation_start(project_path, worktree, candidate, validations),
                events,
            ),
        ) == if events.len() == f + 1 {
            ValidationActionView::Git(remove_call(project_path, worktree))
        } else {
            ValidationActionView::Fail(events[f]->Failed_0)
        },
{
    lemma_failed_course(project_path, worktree, candidate, validations, events, f);
}

/// The first step that failed among the first `n`, if there is one.
proof fn lemma_first_failure(events: Seq<ValidationEventView>, n: int) -> (f: int)
    requires
        0 <= n <= events.len(),
    ensures
        all_did(events, f),
        0 <= f <= n,
        f < n ==> events[f] is Failed,
    decreases n,
{
    if n == 0 {
        0
    } else {
        let f = lemma_first_failure(events, n - 1);
        if f < n - 1 {
            f
        } else if events[n - 1] is Did {
            n
        } else {
            f
        }
    }
}

/// A commit is found valid exactly when there is no command, or the checkout and every command
/// succeeded; and where there is a command, the worktree was removed before anything is said of the
/// commit.
pub proof fn law_valid_if_all_succeed(
    project_path: Seq<char>,
    worktree: Seq<char>,
    candidate: Seq<char>,
    validations: Seq<Seq<Seq<char>>>,
    events: Seq<ValidationEventView>,
)
    ensures
        ({
            let s = validation_start(project_path, worktree, candidate, validations);
            let n = validations.len() as int;
            let asked = validation_requested(validation_replayed(s, events));
            &&& asked is Done <==> n == 0 || (events.len() >= n + 2 && all_did(events, n + 1))
            &&& (asked is Done || asked is Fail) && n > 0 ==> exists|k: int|
                0 <= k < events.len() && validation_requested(
                    #[trigger] validation_replayed(s, events.take(k)),
                ) == ValidationActionView::Git(remove_call(project_path, worktree))
        }),
{
    let s = validation_start(project_path, worktree, candidate, validations);
    let n = validations.len() as int;
    let now = validation_replayed(s, events);
    if n == 0 {
        lemma_over(s, events);
    } else {
        let limit = if events.len() <= n + 1 {
            events.len() as int
        } else {
            n + 1
        };
        let f = lemma_first_failure(events, limit);
        if f < limit {
            lemma_failed_course(project_path, worktree, candidate, validations, events, f);
            assert(!all_did(events, n + 1));
            let k = f + 1;
            if k < events.len() {
                let part = events.take(k);
                assert(part[f] == events[f]);
                lemma_failed_course(project_path, worktree, candidate, validations, part, f);
                assert(validation_requested(validation_replayed(s, part))
                    == ValidationActionView::Git(remove_call(project_path, worktree)));
            }
        } else if events.len() <= n + 1 {
            lemma_course(project_path, worktree, candidate, validations, events);
        } else {
            let part = events.take(n + 1);
            assert forall|i: int| 0 <= i < part.len() implies #[trigger] part[i] is Did by {
                assert(events[i] is Did);
            }
            lemma_course(project_path, worktree, candidate, validations, part);
            assert(validation_requested(validation_replayed(s, part)) == ValidationActionView::Git(
                remove_call(project_path, worktree),
            ));
            lemma_finished(s, events, n + 2);
        }
    }
}

proof fn lemma_over(s: ValidationView, events: Seq<ValidationEventView>)
    requires
        s.stage == ValidationStage::Finished,
    ensures
        validation_replayed(s, events) == s,
    decreases events.len(),
{
    if events.len() > 0 {
        lemma_over(s, events.drop_last());
    }
}

/// After the step that removes the worktree nothing changes any more.
proof fn lemma_finished(s: ValidationView, events: Seq<ValidationEventView>, k: int)
    requires
        0 < k <= events.len(),
        validation_replayed(s, events.take(k - 1)).stage == ValidationStage::Remove,
    ensures
        validation_replayed(s, events) == (ValidationView {
            stage: ValidationStage::Finished,
            ..validation_replayed(s, events.take(k - 1))
        }),
    decreases events.len(),
{
    let before = events.drop_last();
    if events.len() == k {
        assert(before =~= events.take(k - 1));
    } else {
        assert(before.take(k - 1) =~= events.take(k - 1));
        lemma_finished(s, before, k);
    }
}

} // verus!
