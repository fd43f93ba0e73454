//! The call of a hook by an agent, from its event to its answer.
use vstd::prelude::*;
use crate::cli;
use crate::json;
use crate::text;
use crate::cli::{
    codex_hook_for_input, hook_files, hook_plan, HookEffect, HookEffectView, HookFiles,
    HookFilesView, HookOutput, HookOutputView, HookPlan, MarkerChange, MarkerChangeView,
};
use crate::hooks::{make_object, text_pair};
use crate::json::{Json, JsonView};
use crate::text::{copy_option, same_text};

verus! {

/// What is done next.
#[derive(Debug, Clone, Copy, PartialEq, Eq, Structural)]
pub enum CallStage {
    /// Look for the lease of the call.
    Own,
    /// Look for it where older versions kept it.
    Legacy,
    /// Read it.
    Read,
    /// Ask the daemon.
    Ask,
    /// Make the directory of the session.
    Directory,
    /// Look whether the session was told of a conflict.
    Told,
    /// Keep the lease of the call.
    Lease,
    /// Change the marker of a conflict.
    Marker,
    /// Remove the lease of the call.
    Forget,
    Finished,
}

/// The call of a hook.
#[derive(Debug)]
pub struct HookCall {
    pub stage: CallStage,
    pub project_id: String,
    pub input: Json,
    pub files: HookFiles,
    /// Where the lease that is given back was found.
    pub lease_path: String,
    /// What was found there.
    pub lease: Json,
    /// What the daemon replied, or why it could not be asked.
    pub reply: Result<Json, String>,
    pub effect: HookEffect,
    pub failure: Option<String>,
}

/// What a [`HookCall`] holds.
#[verifier::ext_equal]
pub struct HookCallView {
    pub stage: CallStage,
    pub project_id: Seq<char>,
    pub input: Json,
    pub files: HookFilesView,
    pub lease_path: Seq<char>,
    pub lease: Json,
    pub reply: Result<Json, Seq<char>>,
    pub effect: HookEffectView,
    pub failure: Option<Seq<char>>,
}

impl View for HookCall {
    type V = HookCallView;

    open spec fn view(&self) -> HookCallView {
        HookCallView {
            stage: self.stage,
            project_id: self.project_id@,
            input: self.input,
            files: self.files@,
            lease_path: self.lease_path@,
            lease: self.lease,
            reply: match self.reply {
                Ok(reply) => Ok(reply),
                Err(reason) => Err(reason@),
            },
            effect: self.effect@,
            failure: text::opt_view(self.failure),
        }
    }
}

/// What is to be done.
#[derive(Debug, Clone, PartialEq)]
pub enum CallAction {
    /// Say whether there is a file.
    Exists(String),
    /// Read the document in a file.
    Read(String),
    /// Send a request to the daemon.
    Ask(Json),
    /// Make a directory.
    Directory(String),
    /// Write a document to a file that only its owner reads.
    Write(String, Json),
    /// Remove a file.
    Remove(String),
    /// Answer.
    Return(HookOutput),
    /// The hook fails, for this reason.
    Fail(String),
}

/// What a [`CallAction`] holds.
pub enum CallActionView {
    Exists(Seq<char>),
    Read(Seq<char>),
    Ask(JsonView),
    Directory(Seq<char>),
    Write(Seq<char>, JsonView),
    Remove(Seq<char>),
    Return(HookOutputView),
    Fail(Seq<char>),
}

impl View for CallAction {
    type V = CallActionView;

    open spec fn view(&self) -> CallActionView {
        match *self {
            CallAction::Exists(a) => CallActionView::Exists(a@),
            CallAction::Read(a) => CallActionView::Read(a@),
            CallAction::Ask(a) => CallActionView::Ask(a@),
            CallAction::Directory(a) => CallActionView::Directory(a@),
            CallAction::Write(a, b) => CallActionView::Write(a@, b@),
            CallAction::Remove(a) => CallActionView::Remove(a@),
            CallAction::Return(a) => CallActionView::Return(a@),
            CallAction::Fail(a) => CallActionView::Fail(a@),
        }
    }
}

/// What came of a step.
#[derive(Debug)]
pub enum CallEvent {
    /// Whether there is the file.
    There(bool),
    /// What was read, or what the daemon replied.
    Document(Json),
    /// What was asked for is done.
    Did,
    Failed(String),
}

/// What a [`CallEvent`] holds.
pub enum CallEventView {
    There(bool),
    Document(Json),
    Did,
    Failed(Seq<char>),
}

impl View for CallEvent {
    type V = CallEventView;

    open spec fn view(&self) -> CallEventView {
        match *self {
            CallEvent::There(there) => CallEventView::There(there),
            CallEvent::Document(document) => CallEventView::Document(document),
            CallEvent::Did => CallEventView::Did,
            CallEvent::Failed(reason) => CallEventView::Failed(reason@),
        }
    }
}

/// A field of a document; a missing one is null.
pub open spec fn field_or_null(document: Json, key: Seq<char>) -> JsonView {
    match json::field(document, key) {
        Some(value) => value@,
        None => JsonView::Null,
    }
}

/// What the daemon is asked, by what a hook does.
pub open spec fn request_of(
    plan: HookPlan,
    project_id: Seq<char>,
    input: Json,
    lease: Json,
) -> JsonView {
    match plan {
        HookPlan::Acquire => JsonView::Object(
            seq![
                ("method"@, JsonView::Text("acquireAccess"@)),
                ("project_id"@, JsonView::Text(project_id)),
                ("session_id"@, field_or_null(input, "session_id"@)),
                ("call_id"@, field_or_null(input, "tool_use_id"@)),
                ("access_hint"@, JsonView::Text("unknown"@)),
            ],
        ),
        HookPlan::Release => JsonView::Object(
            seq![
                ("method"@, JsonView::Text("releaseAccess"@)),
                ("lease_id"@, field_or_null(lease, "leaseId"@)),
                ("outcome"@, JsonView::Text("success"@)),
                ("mutation_hint"@, JsonView::Text("possible"@)),
            ],
        ),
        _ => JsonView::Object(
            seq![
                ("method"@, JsonView::Text("accessState"@)),
                ("project_id"@, JsonView::Text(project_id)),
            ],
        ),
    }
}

/// What is kept of the lease of a call.
pub open spec fn lease_record(lease_id: Seq<char>, project_id: Seq<char>, input: Json) -> JsonView {
    JsonView::Object(
        seq![
            ("leaseId"@, JsonView::Text(lease_id)),
            ("projectId"@, JsonView::Text(project_id)),
            ("toolUseId"@, field_or_null(input, "tool_use_id"@)),
        ],
    )
}

/// What the marker of a conflict holds.
pub open spec fn marker_record(branch: Seq<char>, remote_ref: Seq<char>) -> JsonView {
    JsonView::Object(
        seq![("branch"@, JsonView::Text(branch)), ("remoteRef"@, JsonView::Text(remote_ref))],
    )
}

/// The call of a hook at its start.
pub open spec fn call_start(
    state_root: Seq<char>,
    project_id: Seq<char>,
    input: Json,
) -> HookCallView {
    HookCallView {
        stage: match cli::plan_for(input) {
            HookPlan::Nothing => CallStage::Finished,
            HookPlan::Release => CallStage::Own,
            _ => CallStage::Ask,
        },
        project_id,
        input,
        files: cli::files_for(
            state_root,
            project_id,
            json::text_field(input, "session_id"@),
            json::text_field(input, "tool_use_id"@),
        ),
        lease_path: Seq::empty(),
        lease: Json::Null,
        reply: Err(Seq::empty()),
        effect: cli::only_says(None),
        failure: None,
    }
}

/// What is to be done next.
pub open spec fn call_requested(s: HookCallView) -> CallActionView {
    match s.stage {
        CallStage::Own => CallActionView::Exists(s.files.lease),
        CallStage::Legacy => CallActionView::Exists(s.files.legacy_lease),
        CallStage::Read => CallActionView::Read(s.lease_path),
        CallStage::Ask => CallActionView::Ask(
            request_of(cli::plan_for(s.input), s.project_id, s.input, s.lease),
        ),
        CallStage::Directory => CallActionView::Directory(s.files.directory),
        CallStage::Told => CallActionView::Exists(s.files.marker),
        CallStage::Lease => CallActionView::Write(
            s.files.lease,
            lease_record(
                match s.effect.lease {
                    Some(id) => id,
                    None => Seq::empty(),
                },
                s.project_id,
                s.input,
            ),
        ),
        CallStage::Marker => match s.effect.marker {
            MarkerChangeView::Write(branch, remote_ref) => CallActionView::Write(
                s.files.marker,
                marker_record(branch, remote_ref),
            ),
            _ => CallActionView::Remove(s.files.marker),
        },
        CallStage::Forget => CallActionView::Remove(s.lease_path),
        CallStage::Finished => match s.failure {
            Some(reason) => CallActionView::Fail(reason),
            None => CallActionView::Return(s.effect.output),
        },
    }
}

/// A call whose failure is only told.
pub open spec fn call_told(s: HookCallView, reason: Seq<char>) -> HookCallView {
    HookCallView {
        stage: CallStage::Finished,
        reply: Err(reason),
        effect: cli::effect_of(s.input, false, Err(reason)),
        ..s
    }
}

/// What follows once the lease is kept, or none is there.
pub open spec fn marker_stage(effect: HookEffectView) -> CallStage {
    if effect.marker is Keep {
        CallStage::Finished
    } else {
        CallStage::Marker
    }
}

/// What follows once the daemon has replied: before a tool is used, the directory of the session is
/// made.
pub open spec fn replied_stage(input: Json) -> CallStage {
    if cli::plan_for(input) == HookPlan::Release {
        CallStage::Forget
    } else if json::text_field(input, "hook_event_name"@) == Some("PreToolUse"@) {
        CallStage::Directory
    } else {
        CallStage::Told
    }
}

/// What holds after a step. Where the daemon cannot be asked, or the lease of the call cannot be
/// given back, this is only told.
pub open spec fn call_after(s: HookCallView, e: CallEventView) -> HookCallView {
    match (s.stage, e) {
        (CallStage::Finished, _) => s,
        (CallStage::Read, CallEventView::Failed(reason)) => call_told(s, reason),
        (CallStage::Ask, CallEventView::Failed(reason)) => call_told(s, reason),
        (CallStage::Forget, CallEventView::Failed(reason)) => call_told(s, reason),
        (_, CallEventView::Failed(reason)) => HookCallView {
            stage: CallStage::Finished,
            failure: Some(reason),
            ..s
        },
        (CallStage::Own, CallEventView::There(there)) => if there {
            HookCallView { stage: CallStage::Read, lease_path: s.files.lease, ..s }
        } else {
            HookCallView { stage: CallStage::Legacy, ..s }
        },
        (CallStage::Legacy, CallEventView::There(there)) => if there {
            HookCallView { stage: CallStage::Read, lease_path: s.files.legacy_lease, ..s }
        } else {
            HookCallView { stage: CallStage::Finished, ..s }
        },
        (CallStage::Read, CallEventView::Document(lease)) => HookCallView {
            stage: CallStage::Ask,
            lease,
            ..s
        },
        (CallStage::Ask, CallEventView::Document(reply)) => HookCallView {
            stage: replied_stage(s.input),
            reply: Ok(reply),
            ..s
        },
        (CallStage::Directory, CallEventView::Did) => HookCallView { stage: CallStage::Told, ..s },
        (CallStage::Told, CallEventView::There(told)) => {
            let effect = cli::effect_of(s.input, told, s.reply);
            HookCallView {
                stage: if effect.lease is Some {
                    CallStage::Lease
                } else {
                    marker_stage(effect)
                },
                effect,
                ..s
            }
        },
        (CallStage::Lease, CallEventView::Did) => HookCallView {
            stage: marker_stage(s.effect),
            ..s
        },
        (CallStage::Marker, CallEventView::Did) => HookCallView {
            stage: CallStage::Finished,
            ..s
        },
        (CallStage::Forget, CallEventView::Did) => HookCallView {
            stage: CallStage::Finished,
            ..s
        },
        _ => s,
    }
}

fn pair_or_null(key: &str, document: &Json, name: &str) -> (r: (String, Json))
    ensures
        r.0@ == key@,
        r.1@ == field_or_null(*document, name@),
{
    match document.get(name) {
        Some(value) => (key.to_owned(), value.copy()),
        None => (key.to_owned(), Json::Null),
    }
}

fn request_for(plan: HookPlan, project_id: &str, input: &Json, lease: &Json) -> (r: Json)
    ensures
        r@ == request_of(plan, project_id@, *input, *lease),
{
    let fields = match plan {
        HookPlan::Acquire => vec![
            text_pair("method", "acquireAccess"),
            text_pair("project_id", project_id),
            pair_or_null("session_id", input, "session_id"),
            pair_or_null("call_id", input, "tool_use_id"),
            text_pair("access_hint", "unknown"),
        ],
        HookPlan::Release => vec![
            text_pair("method", "releaseAccess"),
            pair_or_null("lease_id", lease, "leaseId"),
            text_pair("outcome", "success"),
            text_pair("mutation_hint", "possible"),
        ],
        _ => vec![text_pair("method", "accessState"), text_pair("project_id", project_id)],
    };
    assert(json::field_views(fields@) =~= request_of(plan, project_id@, *input, *lease)->Object_0);
    make_object(fields)
}

fn lease_document(lease_id: &str, project_id: &str, input: &Json) -> (r: Json)
    ensures
        r@ == lease_record(lease_id@, project_id@, *input),
{
    let fields = vec![
        text_pair("leaseId", lease_id),
        text_pair("projectId", project_id),
        pair_or_null("toolUseId", input, "tool_use_id"),
    ];
    assert(json::field_views(fields@) =~= lease_record(lease_id@, project_id@, *input)->Object_0);
    make_object(fields)
}

fn marker_document(branch: &str, remote_ref: &str) -> (r: Json)
    ensures
        r@ == marker_record(branch@, remote_ref@),
{
    let fields = vec![text_pair("branch", branch), text_pair("remoteRef", remote_ref)];
    assert(json::field_views(fields@) =~= marker_record(branch@, remote_ref@)->Object_0);
    make_object(fields)
}

fn after_lease(effect: &HookEffect) -> (r: CallStage)
    ensures
        r == marker_stage(effect@),
{
    match &effect.marker {
        MarkerChange::Keep => CallStage::Finished,
        _ => CallStage::Marker,
    }
}

impl HookCall {
    /// Starts the call of a hook for a project.
    pub fn new(state_root: &str, project_id: &str, input: Json) -> (r: HookCall)
        ensures
            r@ == call_start(state_root@, project_id@, input),
    {
        let stage = match hook_plan(&input) {
            HookPlan::Nothing => CallStage::Finished,
            HookPlan::Release => CallStage::Own,
            _ => CallStage::Ask,
        };
        let files = hook_files(state_root, project_id, &input);
        let r = HookCall {
            stage,
            project_id: project_id.to_owned(),
            input,
            files,
            lease_path: String::new(),
            lease: Json::Null,
            reply: Err(String::new()),
            effect: HookEffect {
                lease: None,
                marker: MarkerChange::Keep,
                output: HookOutput { system: None, context: None },
            },
            failure: None,
        };
        assert(r@ =~= call_start(state_root@, project_id@, input));
        r
    }

    /// What is to be done next.
    pub fn request(&self) -> (r: CallAction)
        ensures
            r@ == call_requested(self@),
    {
        match self.stage {
            CallStage::Own => CallAction::Exists(self.files.lease.clone()),
            CallStage::Legacy => CallAction::Exists(self.files.legacy_lease.clone()),
            CallStage::Read => CallAction::Read(self.lease_path.clone()),
            CallStage::Ask => CallAction::Ask(
                request_for(
                    hook_plan(&self.input),
                    self.project_id.as_str(),
                    &self.input,
                    &self.lease,
                ),
            ),
            CallStage::Directory => CallAction::Directory(self.files.directory.clone()),
            CallStage::Told => CallAction::Exists(self.files.marker.clone()),
            CallStage::Lease => {
                let id = match &self.effect.lease {
                    Some(id) => id.clone(),
                    None => {
                        let none = String::new();
                        assert(none@ =~= Seq::empty());
                        none
                    },
                };
                CallAction::Write(
                    self.files.lease.clone(),
                    lease_document(id.as_str(), self.project_id.as_str(), &self.input),
                )
            },
            CallStage::Marker => match &self.effect.marker {
                MarkerChange::Write(branch, remote_ref) => CallAction::Write(
                    self.files.marker.clone(),
                    marker_document(branch.as_str(), remote_ref.as_str()),
                ),
                _ => CallAction::Remove(self.files.marker.clone()),
            },
            CallStage::Forget => CallAction::Remove(self.lease_path.clone()),
            CallStage::Finished => match &self.failure {
                Some(reason) => CallAction::Fail(reason.clone()),
                None => CallAction::Return(
                    HookOutput {
                        system: copy_option(&self.effect.output.system),
                        context: copy_option(&self.effect.output.context),
                    },
                ),
            },
        }
    }

    fn tell(&mut self, reason: String)
        ensures
            final(self)@ == call_told(old(self)@, reason@),
    {
        self.reply = Err(reason);
        self.effect = codex_hook_for_input(&self.input, false, &self.reply);
        self.stage = CallStage::Finished;
    }

    fn replied(&mut self, reply: Json)
        ensures
            final(self)@ == (HookCallView {
                stage: replied_stage(old(self)@.input),
                reply: Ok(reply),
                ..old(self)@
            }),
    {
        let before = match self.input.text_at("hook_event_name") {
            Some(name) => same_text(name, "PreToolUse"),
            None => false,
        };
        if hook_plan(&self.input) == HookPlan::Release {
            self.stage = CallStage::Forget;
        } else if before {
            self.stage = CallStage::Directory;
        } else {
            self.stage = CallStage::Told;
        }
        self.reply = Ok(reply);
    }

    /// Takes what came of the step that was asked for.
    pub fn advance(&mut self, event: CallEvent)
        ensures
            final(self)@ == call_after(old(self)@, event@),
    {
        match event {
            CallEvent::Failed(reason) => match self.stage {
                CallStage::Read => {
                    self.tell(reason);
                },
                CallStage::Ask => {
                    self.tell(reason);
                },
                CallStage::Forget => {
                    self.tell(reason);
                },
                CallStage::Finished => {},
                _ => {
                    self.failure = Some(reason);
                    self.stage = CallStage::Finished;
                },
            },
            CallEvent::There(there) => match self.stage {
                CallStage::Own => {
                    if there {
                        self.lease_path = self.files.lease.clone();
                        self.stage = CallStage::Read;
                    } else {
                        self.stage = CallStage::Legacy;
                    }
                },
                CallStage::Legacy => {
                    if there {
                        self.lease_path = self.files.legacy_lease.clone();
                        self.stage = CallStage::Read;
                    } else {
                        self.stage = CallStage::Finished;
                    }
                },
                CallStage::Told => {
                    self.effect = codex_hook_for_input(&self.input, there, &self.reply);
                    if self.effect.lease.is_some() {
                        self.stage = CallStage::Lease;
                    } else {
                        self.stage = after_lease(&self.effect);
                    }
                },
                _ => {},
            },
            CallEvent::Document(document) => match self.stage {
                CallStage::Read => {
                    self.lease = document;
                    self.stage = CallStage::Ask;
                },
                CallStage::Ask => {
                    self.replied(document);
                },
                _ => {},
            },
            CallEvent::Did => match self.stage {
                CallStage::Directory => {
                    self.stage = CallStage::Told;
                },
                CallStage::Lease => {
                    self.stage = after_lease(&self.effect);
                },
                CallStage::Marker => {
                    self.stage = CallStage::Finished;
                },
                CallStage::Forget => {
                    self.stage = CallStage::Finished;
                },
                _ => {},
            },
        }
    }
}

/// What holds after a number of steps.
pub open spec fn call_replayed(s: HookCallView, events: Seq<CallEventView>) -> HookCallView
    decreases events.len(),
{
    if events.len() == 0 {
        s
    } else {
        call_after(call_replayed(s, events.drop_last()), events.last())
    }
}

/// At event `j` the daemon replied to a request.
pub open spec fn replied_at(
    s: HookCallView,
    events: Seq<CallEventView>,
    j: int,
    request: JsonView,
) -> bool {
    &&& 0 <= j < events.len()
    &&& call_requested(call_replayed(s, events.take(j))) == CallActionView::Ask(request)
    &&& events[j] is Document
}

/// A tool is never kept from being used because the daemon cannot be reached: the hook answers at
/// once, with words for the user alone.
pub proof fn law_unreachable_daemon_is_only_told(s: HookCallView, reason: Seq<char>)
    requires
        call_requested(s) is Ask,
        cli::plan_for(s.input) != HookPlan::Nothing,
        s.failure is None,
    ensures
        call_requested(call_after(s, CallEventView::Failed(reason))) matches CallActionView::Return(
            output,
        ) && output.system is Some && output.context is None,
{
}

/// The lease that the daemon grants is kept, with the call that it is for, before the hook answers.
pub proof fn law_granted_lease_is_kept(s: HookCallView, reply: Json, told: bool)
    requires
        s.stage == CallStage::Told,
        s.reply == Ok::<Json, Seq<char>>(reply),
        cli::plan_for(s.input) == HookPlan::Acquire,
        json::text_field(reply, "lease_id"@) is Some,
    ensures
        call_requested(call_after(s, CallEventView::There(told))) == CallActionView::Write(
            s.files.lease,
            lease_record(json::text_field(reply, "lease_id"@)->0, s.project_id, s.input),
        ),
{
}

proof fn lemma_same_call(s: HookCallView, events: Seq<CallEventView>)
    ensures
        call_replayed(s, events).input == s.input,
        call_replayed(s, events).project_id == s.project_id,
    decreases events.len(),
{
    if events.len() > 0 {
        lemma_same_call(s, events.drop_last());
    }
}

/// The file of a lease is removed only after the daemon took that lease back.
pub proof fn law_lease_is_given_back_before_it_is_forgotten(
    state_root: Seq<char>,
    project_id: Seq<char>,
    input: Json,
    events: Seq<CallEventView>,
)
    ensures
        ({
            let s = call_start(state_root, project_id, input);
            let now = call_replayed(s, events);
            now.stage == CallStage::Forget ==> {
                &&& call_requested(now) == CallActionView::Remove(now.lease_path)
                &&& exists|j: int| #[trigger]
                    replied_at(
                        s,
                        events,
                        j,
                        request_of(HookPlan::Release, project_id, input, now.lease),
                    )
            }
        }),
    decreases events.len(),
{
    let s = call_start(state_root, project_id, input);
    if events.len() > 0 {
        let before = events.drop_last();
        let was = call_replayed(s, before);
        let now = call_replayed(s, events);
        let last = events.len() - 1;
        let asked = request_of(HookPlan::Release, project_id, input, now.lease);
        law_lease_is_given_back_before_it_is_forgotten(state_root, project_id, input, before);
        lemma_same_call(s, before);
        assert(events.take(last) =~= before);
        if now.stage == CallStage::Forget {
            if was.stage == CallStage::Ask {
                assert(replied_at(s, events, last, asked));
            } else {
                let j = choose|j: int| #[trigger] replied_at(s, before, j, asked);
                assert(events.take(j) =~= before.take(j));
                assert(replied_at(s, events, j, asked));
            }
        }
    }
}

} // verus!
