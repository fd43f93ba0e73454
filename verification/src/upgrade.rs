//! How one build of the program takes the place of all others on a machine.
use vstd::prelude::*;
use crate::install;
use crate::json;
use crate::paths;
use crate::text;
use crate::install::{check_activation, check_daemon, InstallError};
use crate::json::Json;

verus! {

/// What is done next.
#[derive(Debug, Clone, Copy, PartialEq, Eq, Structural)]
pub enum UpgradeStage {
    /// Put the build in its place.
    Stage,
    /// See where the program that runs lies.
    Compare,
    /// Have the daemon started anew.
    Supervise,
    /// Ask the daemon who it is.
    Ping,
    /// Take the fingerprint of the build.
    Fingerprint,
    /// Repair the adapters of all projects.
    Adapters,
    /// Remove installations of older kinds.
    Legacy,
    /// Point the launcher at the build.
    Launch,
    /// Remove the other builds.
    Prune,
    Finished,
}

/// The activation of a build.
#[derive(Debug)]
pub struct Upgrade {
    pub stage: UpgradeStage,
    /// Where the build lies.
    pub executable: String,
    /// What the daemon answered.
    pub answer: Json,
    pub fingerprint: String,
    pub failure: Option<String>,
}

/// What an [`Upgrade`] holds.
#[verifier::ext_equal]
pub struct UpgradeView {
    pub stage: UpgradeStage,
    pub executable: Seq<char>,
    pub answer: Json,
    pub fingerprint: Seq<char>,
    pub failure: Option<Seq<char>>,
}

impl View for Upgrade {
    type V = UpgradeView;

    open spec fn view(&self) -> UpgradeView {
        UpgradeView {
            stage: self.stage,
            executable: self.executable@,
            answer: self.answer,
            fingerprint: self.fingerprint@,
            failure: text::opt_view(self.failure),
        }
    }
}

/// What is to be done.
#[derive(Debug, Clone, PartialEq, Eq)]
pub enum UpgradeAction {
    /// Put the program that runs in the place of its build.
    Stage,
    /// See where the program that runs and this one lie, without links.
    Compare(String),
    /// Have the daemon started anew.
    Supervise,
    /// Ask the daemon who it is.
    Ping,
    /// Take the fingerprint of this file.
    Fingerprint(String),
    /// Repair the adapters of all projects.
    Adapters,
    /// Remove installations of older kinds.
    Legacy,
    /// Point the launcher at this program.
    Launch(String),
    /// Remove the builds other than this one.
    Prune(String),
    /// The build is active.
    Return,
    /// The build is not active, for this reason.
    Fail(String),
}

/// What an [`UpgradeAction`] holds.
pub enum UpgradeActionView {
    Stage,
    Compare(Seq<char>),
    Supervise,
    Ping,
    Fingerprint(Seq<char>),
    Adapters,
    Legacy,
    Launch(Seq<char>),
    Prune(Seq<char>),
    Return,
    Fail(Seq<char>),
}

impl View for UpgradeAction {
    type V = UpgradeActionView;

    open spec fn view(&self) -> UpgradeActionView {
        match *self {
            UpgradeAction::Stage => UpgradeActionView::Stage,
            UpgradeAction::Compare(a) => UpgradeActionView::Compare(a@),
            UpgradeAction::Supervise => UpgradeActionView::Supervise,
            UpgradeAction::Ping => UpgradeActionView::Ping,
            UpgradeAction::Fingerprint(a) => UpgradeActionView::Fingerprint(a@),
            UpgradeAction::Adapters => UpgradeActionView::Adapters,
            UpgradeAction::Legacy => UpgradeActionView::Legacy,
            UpgradeAction::Launch(a) => UpgradeActionView::Launch(a@),
            UpgradeAction::Prune(a) => UpgradeActionView::Prune(a@),
            UpgradeAction::Return => UpgradeActionView::Return,
            UpgradeAction::Fail(a) => UpgradeActionView::Fail(a@),
        }
    }
}

/// What came of a step.
#[derive(Debug)]
pub enum UpgradeEvent {
    /// The build lies here.
    Staged(String),
    /// Where the program that runs and the build lie.
    Places(String, String),
    /// The daemon answered.
    Answered(Json),
    /// The fingerprint of the build.
    Digest(String),
    /// What was asked for is done.
    Did,
    Failed(String),
}

/// What an [`UpgradeEvent`] holds.
pub enum UpgradeEventView {
    Staged(Seq<char>),
    Places(Seq<char>, Seq<char>),
    Answered(Json),
    Digest(Seq<char>),
    Did,
    Failed(Seq<char>),
}

impl View for UpgradeEvent {
    type V = UpgradeEventView;

    open spec fn view(&self) -> UpgradeEventView {
        match *self {
            UpgradeEvent::Staged(a) => UpgradeEventView::Staged(a@),
            UpgradeEvent::Places(a, b) => UpgradeEventView::Places(a@, b@),
            UpgradeEvent::Answered(answer) => UpgradeEventView::Answered(answer),
            UpgradeEvent::Digest(a) => UpgradeEventView::Digest(a@),
            UpgradeEvent::Did => UpgradeEventView::Did,
            UpgradeEvent::Failed(a) => UpgradeEventView::Failed(a@),
        }
    }
}

/// An activation at its start.
pub open spec fn upgrade_start() -> UpgradeView {
    UpgradeView {
        stage: UpgradeStage::Stage,
        executable: Seq::empty(),
        answer: Json::Null,
        fingerprint: Seq::empty(),
        failure: None,
    }
}

/// What is to be done next.
pub open spec fn upgrade_requested(s: UpgradeView) -> UpgradeActionView {
    match s.stage {
        UpgradeStage::Stage => UpgradeActionView::Stage,
        UpgradeStage::Compare => UpgradeActionView::Compare(s.executable),
        UpgradeStage::Supervise => UpgradeActionView::Supervise,
        UpgradeStage::Ping => UpgradeActionView::Ping,
        UpgradeStage::Fingerprint => UpgradeActionView::Fingerprint(s.executable),
        UpgradeStage::Adapters => UpgradeActionView::Adapters,
        UpgradeStage::Legacy => UpgradeActionView::Legacy,
        UpgradeStage::Launch => UpgradeActionView::Launch(s.executable),
        UpgradeStage::Prune => UpgradeActionView::Prune(s.executable),
        UpgradeStage::Finished => match s.failure {
            Some(reason) => UpgradeActionView::Fail(reason),
            None => UpgradeActionView::Return,
        },
    }
}

/// An activation that failed.
pub open spec fn upgrade_failed(s: UpgradeView, reason: Seq<char>) -> UpgradeView {
    UpgradeView { stage: UpgradeStage::Finished, failure: Some(reason), ..s }
}

/// What holds after a step.
pub open spec fn upgraded_after(s: UpgradeView, e: UpgradeEventView) -> UpgradeView {
    match (s.stage, e) {
        (UpgradeStage::Finished, _) => s,
        (_, UpgradeEventView::Failed(reason)) => upgrade_failed(s, reason),
        (UpgradeStage::Stage, UpgradeEventView::Staged(executable)) => UpgradeView {
            stage: UpgradeStage::Compare,
            executable,
            ..s
        },
        (UpgradeStage::Compare, UpgradeEventView::Places(current, staged)) => if paths::same_place(
            current,
            staged,
        ) {
            UpgradeView { stage: UpgradeStage::Supervise, ..s }
        } else {
            upgrade_failed(s, install::install_text(InstallError::NotStaged))
        },
        (UpgradeStage::Supervise, UpgradeEventView::Did) => UpgradeView {
            stage: UpgradeStage::Ping,
            ..s
        },
        (UpgradeStage::Ping, UpgradeEventView::Answered(answer)) => UpgradeView {
            stage: UpgradeStage::Fingerprint,
            answer,
            ..s
        },
        (UpgradeStage::Fingerprint, UpgradeEventView::Digest(fingerprint)) => if json::text_field(
            s.answer,
            "binaryId"@,
        ) == Some(fingerprint) {
            UpgradeView { stage: UpgradeStage::Adapters, fingerprint, ..s }
        } else {
            upgrade_failed(
                UpgradeView { fingerprint, ..s },
                install::install_text(InstallError::NotActivated),
            )
        },
        (UpgradeStage::Adapters, UpgradeEventView::Did) => UpgradeView {
            stage: UpgradeStage::Legacy,
            ..s
        },
        (UpgradeStage::Legacy, UpgradeEventView::Did) => UpgradeView {
            stage: UpgradeStage::Launch,
            ..s
        },
        (UpgradeStage::Launch, UpgradeEventView::Did) => UpgradeView {
            stage: UpgradeStage::Prune,
            ..s
        },
        (UpgradeStage::Prune, UpgradeEventView::Did) => UpgradeView {
            stage: UpgradeStage::Finished,
            ..s
        },
        _ => s,
    }
}

/// Starts the activation of a build.
pub fn activate_upgrade() -> (r: Upgrade)
    ensures
        r@ == upgrade_start(),
{
    let r = Upgrade {
        stage: UpgradeStage::Stage,
        executable: String::new(),
        answer: Json::Null,
        fingerprint: String::new(),
        failure: None,
    };
    assert(r@ =~= upgrade_start());
    r
}

impl Upgrade {
    /// What is to be done next.
    pub fn request(&self) -> (r: UpgradeAction)
        ensures
            r@ == upgrade_requested(self@),
    {
        match self.stage {
            UpgradeStage::Stage => UpgradeAction::Stage,
            UpgradeStage::Compare => UpgradeAction::Compare(self.executable.clone()),
            UpgradeStage::Supervise => UpgradeAction::Supervise,
            UpgradeStage::Ping => UpgradeAction::Ping,
            UpgradeStage::Fingerprint => UpgradeAction::Fingerprint(self.executable.clone()),
            UpgradeStage::Adapters => UpgradeAction::Adapters,
            UpgradeStage::Legacy => UpgradeAction::Legacy,
            UpgradeStage::Launch => UpgradeAction::Launch(self.executable.clone()),
            UpgradeStage::Prune => UpgradeAction::Prune(self.executable.clone()),
            UpgradeStage::Finished => match &self.failure {
                Some(reason) => UpgradeAction::Fail(reason.clone()),
                None => UpgradeAction::Return,
            },
        }
    }

    fn fail(&mut self, reason: String)
        ensures
            final(self)@ == upgrade_failed(old(self)@, reason@),
    {
        self.failure = Some(reason);
        self.stage = UpgradeStage::Finished;
    }

    /// Takes what came of the step that was asked for.
    pub fn advance(&mut self, event: UpgradeEvent)
        ensures
            final(self)@ == upgraded_after(old(self)@, event@),
    {
        match event {
            UpgradeEvent::Failed(reason) => {
                if self.stage != UpgradeStage::Finished {
                    self.fail(reason);
                }
            },
            UpgradeEvent::Staged(executable) => {
                if self.stage == UpgradeStage::Stage {
                    self.executable = executable;
                    self.stage = UpgradeStage::Compare;
                }
            },
            UpgradeEvent::Places(current, staged) => {
                if self.stage == UpgradeStage::Compare {
                    match check_activation(current.as_str(), staged.as_str()) {
                        Ok(_) => {
                            self.stage = UpgradeStage::Supervise;
                        },
                        Err(e) => {
                            let reason = e.message();
                            self.fail(reason);
                        },
                    }
                }
            },
            UpgradeEvent::Answered(answer) => {
                if self.stage == UpgradeStage::Ping {
                    self.answer = answer;
                    self.stage = UpgradeStage::Fingerprint;
                }
            },
            UpgradeEvent::Digest(fingerprint) => {
                if self.stage == UpgradeStage::Fingerprint {
                    let checked = check_daemon(&self.answer, fingerprint.as_str());
                    self.fingerprint = fingerprint;
                    match checked {
                        Ok(_) => {
                            self.stage = UpgradeStage::Adapters;
                        },
                        Err(e) => {
                            let reason = e.message();
                            self.fail(reason);
                        },
                    }
                }
            },
            UpgradeEvent::Did => match self.stage {
                UpgradeStage::Supervise => {
                    self.stage = UpgradeStage::Ping;
                },
                UpgradeStage::Adapters => {
                    self.stage = UpgradeStage::Legacy;
                },
                UpgradeStage::Legacy => {
                    self.stage = UpgradeStage::Launch;
                },
                UpgradeStage::Launch => {
                    self.stage = UpgradeStage::Prune;
                },
                UpgradeStage::Prune => {
                    self.stage = UpgradeStage::Finished;
                },
                _ => {},
            },
        }
    }
}

/// What holds after a number of steps.
pub open spec fn upgrade_replayed(s: UpgradeView, events: Seq<UpgradeEventView>) -> UpgradeView
    decreases events.len(),
{
    if events.len() == 0 {
        s
    } else {
        upgraded_after(upgrade_replayed(s, events.drop_last()), events.last())
    }
}

/// Steps that take something away, or say that the build is active.
pub open spec fn is_final_step(action: UpgradeActionView) -> bool {
    action is Adapters || action is Legacy || action is Launch || action is Prune || action
        is Return
}

/// At event `j` the program that ran was found to be the build that was put in its place.
pub open spec fn compared_at(s: UpgradeView, events: Seq<UpgradeEventView>, j: int) -> bool {
    &&& 0 <= j < events.len()
    &&& upgrade_replayed(s, events.take(j)).stage == UpgradeStage::Compare
    &&& events[j] matches UpgradeEventView::Places(current, staged)
    &&& paths::same_place(current, staged)
}

/// Nothing is repaired, removed or called active before the daemon was found to be the build that
/// was put in place, and that build to be the program that runs.
pub proof fn law_upgrade_is_verified_first(events: Seq<UpgradeEventView>)
    ensures
        ({
            let now = upgrade_replayed(upgrade_start(), events);
            is_final_step(upgrade_requested(now)) ==> {
                &&& json::text_field(now.answer, "binaryId"@) == Some(now.fingerprint)
                &&& exists|j: int| #[trigger] compared_at(upgrade_start(), events, j)
            }
        }),
    decreases events.len(),
{
    lemma_compared(events);
    if events.len() > 0 {
        law_upgrade_is_verified_first(events.drop_last());
        lemma_compared(events.drop_last());
    }
}

proof fn lemma_compared(events: Seq<UpgradeEventView>)
    ensures
        ({
            let now = upgrade_replayed(upgrade_start(), events);
            &&& now.stage != UpgradeStage::Finished ==> now.failure is None
            &&& now.stage == UpgradeStage::Stage || now.stage == UpgradeStage::Compare
                || now.failure is Some || exists|j: int| #[trigger]
                compared_at(upgrade_start(), events, j)
        }),
    decreases events.len(),
{
    if events.len() > 0 {
        let s = upgrade_start();
        let before = events.drop_last();
        let was = upgrade_replayed(s, before);
        let now = upgrade_replayed(s, events);
        let last = events.len() - 1;
        lemma_compared(before);
        assert(events.take(last) =~= before);
        if !(now.stage == UpgradeStage::Stage || now.stage == UpgradeStage::Compare || now.failure
            is Some) {
            if was.stage == UpgradeStage::Compare {
                assert(compared_at(s, events, last));
            } else {
                let j = choose|j: int| #[trigger] compared_at(s, before, j);
                assert(events.take(j) =~= before.take(j));
                assert(compared_at(s, events, j));
            }
        }
    }
}

} // verus!
