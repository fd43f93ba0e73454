//! How a command reaches a daemon of its own build, which is started where none runs.
use vstd::prelude::*;
use crate::daemon;
use crate::json;
use crate::text;
use crate::daemon::{daemon_matches_client, has_stopped, stale_pid, startup_failure, DaemonError};
use crate::json::Json;

verus! {

/// How often a daemon that is to end is looked for.
pub const STOP_ROUNDS: u32 = 50;

/// How often a daemon that was started is looked for.
pub const START_ROUNDS: u32 = 150;

/// What is done next.
#[derive(Debug, Clone, Copy, PartialEq, Eq, Structural)]
pub enum StartupStage {
    /// See whether a daemon answers.
    Ping,
    /// Ask a daemon of another build to end.
    Stop,
    /// See whether it has ended.
    Stopping,
    /// Start a daemon.
    Start,
    /// See whether it answers.
    Starting,
    /// Read what it wrote.
    Log,
    /// Send the request.
    Send,
    Failed,
}

/// The way to a daemon.
#[derive(Debug)]
pub struct Startup {
    pub stage: StartupStage,
    /// The fingerprint of the program.
    pub binary_id: String,
    /// The process that asks.
    pub own_pid: u32,
    /// The process of the daemon that is to end.
    pub pid: i32,
    pub rounds: u32,
    /// What was wrong when the daemon was last looked for.
    pub last: Option<String>,
    pub failure: String,
}

/// What a [`Startup`] holds.
#[verifier::ext_equal]
pub struct StartupView {
    pub stage: StartupStage,
    pub binary_id: Seq<char>,
    pub own_pid: u32,
    pub pid: i32,
    pub rounds: int,
    pub last: Option<Seq<char>>,
    pub failure: Seq<char>,
}

impl View for Startup {
    type V = StartupView;

    open spec fn view(&self) -> StartupView {
        StartupView {
            stage: self.stage,
            binary_id: self.binary_id@,
            own_pid: self.own_pid,
            pid: self.pid,
            rounds: self.rounds as int,
            last: text::opt_view(self.last),
            failure: self.failure@,
        }
    }
}

/// What is to be done.
#[derive(Debug, Clone, PartialEq, Eq)]
pub enum StartupAction {
    /// Ask the daemon who it is.
    Ping,
    /// Ask this process to end; that it is gone already is no failure.
    Stop(i32),
    /// Wait a moment, then ask the daemon who it is.
    PingLater,
    /// Start a daemon of this build.
    Start,
    /// Read what the daemon wrote.
    Log,
    /// Send the request, and return what comes back.
    Send,
    /// There is no daemon to send the request to, for this reason.
    Fail(String),
}

/// What a [`StartupAction`] holds.
pub enum StartupActionView {
    Ping,
    Stop(i32),
    PingLater,
    Start,
    Log,
    Send,
    Fail(Seq<char>),
}

impl View for StartupAction {
    type V = StartupActionView;

    open spec fn view(&self) -> StartupActionView {
        match *self {
            StartupAction::Ping => StartupActionView::Ping,
            StartupAction::Stop(pid) => StartupActionView::Stop(pid),
            StartupAction::PingLater => StartupActionView::PingLater,
            StartupAction::Start => StartupActionView::Start,
            StartupAction::Log => StartupActionView::Log,
            StartupAction::Send => StartupActionView::Send,
            StartupAction::Fail(reason) => StartupActionView::Fail(reason@),
        }
    }
}

/// What came of a step.
#[derive(Debug)]
pub enum StartupEvent {
    /// A daemon answered.
    Answered(Json),
    /// No daemon answered, for this reason.
    Silent(String),
    /// What was asked for is done.
    Did,
    /// What the daemon wrote.
    Logged(String),
    /// The step failed, for this reason.
    Failed(String),
}

/// What a [`StartupEvent`] holds.
pub enum StartupEventView {
    Answered(Json),
    Silent(Seq<char>),
    Did,
    Logged(Seq<char>),
    Failed(Seq<char>),
}

impl View for StartupEvent {
    type V = StartupEventView;

    open spec fn view(&self) -> StartupEventView {
        match *self {
            StartupEvent::Answered(answer) => StartupEventView::Answered(answer),
            StartupEvent::Silent(reason) => StartupEventView::Silent(reason@),
            StartupEvent::Did => StartupEventView::Did,
            StartupEvent::Logged(log) => StartupEventView::Logged(log@),
            StartupEvent::Failed(reason) => StartupEventView::Failed(reason@),
        }
    }
}

/// Whether an answer is that of a daemon of the build with this fingerprint.
pub open spec fn is_own_build(answer: Json, binary_id: Seq<char>) -> bool {
    json::text_field(answer, "binaryId"@) == Some(binary_id)
}

/// The way to a daemon at its start.
pub open spec fn startup_begin(binary_id: Seq<char>, own_pid: u32) -> StartupView {
    StartupView {
        stage: StartupStage::Ping,
        binary_id,
        own_pid,
        pid: 0,
        rounds: 0,
        last: None,
        failure: Seq::empty(),
    }
}

/// What is to be done next.
pub open spec fn startup_requested(s: StartupView) -> StartupActionView {
    match s.stage {
        StartupStage::Ping => StartupActionView::Ping,
        StartupStage::Stop => StartupActionView::Stop(s.pid),
        StartupStage::Stopping | StartupStage::Starting => StartupActionView::PingLater,
        StartupStage::Start => StartupActionView::Start,
        StartupStage::Log => StartupActionView::Log,
        StartupStage::Send => StartupActionView::Send,
        StartupStage::Failed => StartupActionView::Fail(s.failure),
    }
}

/// A way that leads nowhere.
pub open spec fn startup_failed(s: StartupView, reason: Seq<char>) -> StartupView {
    StartupView { stage: StartupStage::Failed, failure: reason, ..s }
}

/// What holds after a daemon that was started was looked for in vain.
pub open spec fn startup_missed(s: StartupView, reason: Seq<char>) -> StartupView {
    StartupView {
        stage: if s.rounds + 1 < START_ROUNDS {
            StartupStage::Starting
        } else {
            StartupStage::Log
        },
        rounds: s.rounds + 1,
        last: Some(reason),
        ..s
    }
}

/// What holds after a step. A daemon of this build is used; one of another build is asked to end
/// first; then one is started and waited for.
pub open spec fn startup_next(s: StartupView, e: StartupEventView) -> StartupView {
    match (s.stage, e) {
        (StartupStage::Ping, StartupEventView::Answered(answer)) => if is_own_build(
            answer,
            s.binary_id,
        ) {
            StartupView { stage: StartupStage::Send, ..s }
        } else {
            match daemon::stale_process(json::number_field(answer, "pid"@), s.own_pid) {
                Ok(pid) => StartupView { stage: StartupStage::Stop, pid, ..s },
                Err(e) => startup_failed(s, daemon::daemon_text(e)),
            }
        },
        (StartupStage::Ping, StartupEventView::Silent(_)) => StartupView {
            stage: StartupStage::Start,
            ..s
        },
        (StartupStage::Stop, StartupEventView::Did) => StartupView {
            stage: StartupStage::Stopping,
            rounds: 0,
            ..s
        },
        (StartupStage::Stopping, StartupEventView::Answered(answer)) => if json::number_field(
            answer,
            "pid"@,
        ) != Some(s.pid as nat) {
            StartupView { stage: StartupStage::Start, ..s }
        } else if s.rounds + 1 < STOP_ROUNDS {
            StartupView { rounds: s.rounds + 1, ..s }
        } else {
            startup_failed(s, daemon::daemon_text(DaemonError::StillRunning(s.pid)))
        },
        (StartupStage::Stopping, StartupEventView::Silent(_)) => StartupView {
            stage: StartupStage::Start,
            ..s
        },
        (StartupStage::Start, StartupEventView::Did) => StartupView {
            stage: StartupStage::Starting,
            rounds: 0,
            ..s
        },
        (StartupStage::Starting, StartupEventView::Answered(answer)) => if is_own_build(
            answer,
            s.binary_id,
        ) {
            StartupView { stage: StartupStage::Send, ..s }
        } else {
            startup_missed(s, "another RepoSync daemon with a different binary is running"@)
        },
        (StartupStage::Starting, StartupEventView::Silent(reason)) => startup_missed(s, reason),
        (StartupStage::Log, StartupEventView::Logged(log)) => startup_failed(
            s,
            daemon::startup_words(s.last, log),
        ),
        (StartupStage::Stop, StartupEventView::Failed(reason)) => startup_failed(s, reason),
        (StartupStage::Start, StartupEventView::Failed(reason)) => startup_failed(s, reason),
        _ => s,
    }
}

/// What holds of every way to a daemon: a daemon is looked for only so often.
pub open spec fn startup_valid(s: StartupView) -> bool {
    &&& 0 <= s.pid
    &&& 0 <= s.rounds
    &&& s.stage == StartupStage::Stopping ==> s.rounds < STOP_ROUNDS
    &&& s.stage == StartupStage::Starting ==> s.rounds < START_ROUNDS
}

impl Startup {
    /// The way to a daemon of the build with a fingerprint, for a process.
    pub fn new(binary_id: &str, own_pid: u32) -> (r: Self)
        ensures
            r@ == startup_begin(binary_id@, own_pid),
            startup_valid(r@),
    {
        let r = Startup {
            stage: StartupStage::Ping,
            binary_id: binary_id.to_owned(),
            own_pid,
            pid: 0,
            rounds: 0,
            last: None,
            failure: String::new(),
        };
        assert(r@.failure =~= Seq::empty());
        r
    }

    /// What is to be done next.
    pub fn request(&self) -> (r: StartupAction)
        ensures
            r@ == startup_requested(self@),
    {
        match self.stage {
            StartupStage::Ping => StartupAction::Ping,
            StartupStage::Stop => StartupAction::Stop(self.pid),
            StartupStage::Stopping | StartupStage::Starting => StartupAction::PingLater,
            StartupStage::Start => StartupAction::Start,
            StartupStage::Log => StartupAction::Log,
            StartupStage::Send => StartupAction::Send,
            StartupStage::Failed => StartupAction::Fail(self.failure.clone()),
        }
    }

    fn fail(&mut self, reason: String)
        ensures
            final(self)@ == startup_failed(old(self)@, reason@),
    {
        self.failure = reason;
        self.stage = StartupStage::Failed;
    }

    fn miss(&mut self, reason: String)
        requires
            startup_valid(old(self)@),
            old(self)@.stage == StartupStage::Starting,
        ensures
            final(self)@ == startup_missed(old(self)@, reason@),
    {
        self.last = Some(reason);
        self.rounds = self.rounds + 1;
        if self.rounds >= START_ROUNDS {
            self.stage = StartupStage::Log;
        }
    }

    fn answered(&mut self, answer: Json)
        requires
            startup_valid(old(self)@),
        ensures
            final(self)@ == startup_next(old(self)@, StartupEventView::Answered(answer)),
    {
        match self.stage {
            StartupStage::Ping => {
                if daemon_matches_client(&answer, self.binary_id.as_str()) {
                    self.stage = StartupStage::Send;
                } else {
                    match stale_pid(&answer, self.own_pid) {
                        Ok(pid) => {
                            self.pid = pid;
                            self.stage = StartupStage::Stop;
                        },
                        Err(e) => {
                            let reason = e.message();
                            self.fail(reason);
                        },
                    }
                }
            },
            StartupStage::Stopping => {
                let pid: i32 = self.pid;
                if has_stopped(&Some(answer), pid) {
                    self.stage = StartupStage::Start;
                } else if self.rounds + 1 < STOP_ROUNDS {
                    self.rounds = self.rounds + 1;
                } else {
                    let reason = DaemonError::StillRunning(pid).message();
                    self.fail(reason);
                }
            },
            StartupStage::Starting => {
                if daemon_matches_client(&answer, self.binary_id.as_str()) {
                    self.stage = StartupStage::Send;
                } else {
                    self.miss(
                        "another RepoSync daemon with a different binary is running".to_owned(),
                    );
                }
            },
            _ => {},
        }
    }

    /// Takes what came of the step that was asked for.
    pub fn advance(&mut self, event: StartupEvent)
        requires
            startup_valid(old(self)@),
        ensures
            final(self)@ == startup_next(old(self)@, event@),
            startup_valid(final(self)@),
    {
        match event {
            StartupEvent::Answered(answer) => {
                self.answered(answer);
            },
            StartupEvent::Silent(reason) => match self.stage {
                StartupStage::Ping | StartupStage::Stopping => {
                    self.stage = StartupStage::Start;
                },
                StartupStage::Starting => {
                    self.miss(reason);
                },
                _ => {},
            },
            StartupEvent::Did => match self.stage {
                StartupStage::Stop => {
                    self.stage = StartupStage::Stopping;
                    self.rounds = 0;
                },
                StartupStage::Start => {
                    self.stage = StartupStage::Starting;
                    self.rounds = 0;
                },
                _ => {},
            },
            StartupEvent::Logged(log) => match self.stage {
                StartupStage::Log => {
                    let reason = startup_failure(&self.last, log.as_str());
                    self.fail(reason);
                },
                _ => {},
            },
            StartupEvent::Failed(reason) => match self.stage {
                StartupStage::Stop | StartupStage::Start => {
                    self.fail(reason);
                },
                _ => {},
            },
        }
    }
}

/// What holds after a number of steps.
pub open spec fn startup_replayed(s: StartupView, events: Seq<StartupEventView>) -> StartupView
    decreases events.len(),
{
    if events.len() == 0 {
        s
    } else {
        startup_next(startup_replayed(s, events.drop_last()), events.last())
    }
}

/// A daemon of the build with this fingerprint answered at some step.
pub open spec fn answered_at(
    events: Seq<StartupEventView>,
    j: int,
    binary_id: Seq<char>,
) -> bool {
    0 <= j < events.len() && (events[j] matches StartupEventView::Answered(answer) && is_own_build(
        answer,
        binary_id,
    ))
}

/// At some step a daemon of another build answered, and named this process.
pub open spec fn named_at(
    events: Seq<StartupEventView>,
    j: int,
    binary_id: Seq<char>,
    pid: i32,
) -> bool {
    0 <= j < events.len() && (events[j] matches StartupEventView::Answered(answer) && !is_own_build(
        answer,
        binary_id,
    ) && json::number_field(answer, "pid"@) == Some(pid as nat))
}

/// A request is sent only to a daemon of the same build, which answered before; and only the process
/// of a daemon of another build is asked to end, never the one that asks.
pub proof fn law_request_reaches_own_build(
    binary_id: Seq<char>,
    own_pid: u32,
    events: Seq<StartupEventView>,
)
    ensures
        ({
            let now = startup_replayed(startup_begin(binary_id, own_pid), events);
            &&& startup_valid(now)
            &&& now.binary_id == binary_id
            &&& now.own_pid == own_pid
            &&& startup_requested(now) is Send ==> exists|j: int| #[trigger]
                answered_at(events, j, binary_id)
            &&& startup_requested(now) is Stop ==> now.pid != own_pid && exists|j: int| #[trigger]
                named_at(events, j, binary_id, now.pid)
        }),
    decreases events.len(),
{
    if events.len() > 0 {
        let before = events.drop_last();
        let was = startup_replayed(startup_begin(binary_id, own_pid), before);
        let now = startup_replayed(startup_begin(binary_id, own_pid), events);
        let last = events.len() - 1;
        law_request_reaches_own_build(binary_id, own_pid, before);
        if now.stage == StartupStage::Send {
            if was.stage == StartupStage::Send {
                let j = choose|j: int| #[trigger] answered_at(before, j, binary_id);
                assert(events[j] == before[j]);
                assert(answered_at(events, j, binary_id));
            } else {
                assert(answered_at(events, last, binary_id));
            }
        }
        if now.stage == StartupStage::Stop {
            if was.stage == StartupStage::Stop {
                let j = choose|j: int| #[trigger] named_at(before, j, binary_id, was.pid);
                assert(events[j] == before[j]);
                assert(named_at(events, j, binary_id, now.pid));
            } else {
                assert(named_at(events, last, binary_id, now.pid));
            }
        }
    }
}

} // verus!
