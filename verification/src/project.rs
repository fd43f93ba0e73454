//! Creating, repairing, joining and leaving projects, and the accounts that they belong to.
use vstd::prelude::*;
use crate::address;
use crate::credentials;
use crate::digest;
use crate::hooks;
use crate::join;
use crate::paths;
use crate::peer;
use crate::process;
use crate::protocol;
use crate::random;
use crate::state;
use crate::text;
use crate::text_map;
use crate::credentials::{canonical_origin, CredentialError};
use crate::digest::digest_text;
use crate::hooks::set_member;
use crate::identity::{repository_root, Identity, IdentityError, IdentityView};
use crate::join::{Join, Places, PlacesView};
use crate::json::{Json, JsonView};
use crate::materialize::Materialize;
use crate::paths::{file_name, has_path, join_path, same_path};
use crate::peer::find_hosted;
use crate::process::{git_strict, words3, GitCall, GitCallView, Next, RunResult, RunResultView};
use crate::protocol::{Catalog, CatalogProject, CatalogProjectView};
use crate::provider::Discovery;
use crate::random::tagged;
use crate::state::{
    Config, ConfigView, LocalCatalog, LocalProject, LocalProjectView, ProviderConfigView,
};
use crate::text::{
    cat2, cat3, cat4, cat5, chars_of, copy_option, list_has, part_of, same_text, trimmed,
};
use crate::text_map::{keys_of, lookup};

verus! {

/// How far the creation of a project has come.
#[derive(Debug, Clone, Copy, PartialEq, Eq, Structural)]
pub enum CreateStage {
    Authenticate,
    Catalog,
    Local,
    Branch,
    Record,
    Write,
    Create,
    Materialize,
    Identity,
    Configure,
    Register,
    Adapters,
    Sync,
    Publish,
    Forget,
    Finished,
}

/// The creation of a project from a worktree, or the repair of one that has an identity, step by
/// step: [`ProjectCreation::request`] says what is to be done next, and
/// [`ProjectCreation::advance`] takes what came of it.
#[derive(Debug)]
pub struct ProjectCreation {
    pub stage: CreateStage,
    /// Whether the worktree becomes a project of its own, whatever it belongs to.
    pub fork: bool,
    /// Whether the worktree keeps its identity.
    pub repair: bool,
    pub root: String,
    pub state_root: String,
    pub prior: Identity,
    /// The provider to use, where one was asked for.
    pub provider: Option<String>,
    pub name: Option<String>,
    pub origin: String,
    pub token: String,
    /// Where the provider creates projects.
    pub endpoint: Option<String>,
    pub branch: String,
    /// What is kept of the attempt, so that another attempt asks for the same project.
    pub record: Json,
    /// What tells the attempt from others.
    pub key: String,
    /// The hosted project.
    pub project: Option<CatalogProject>,
    pub generation: Option<u64>,
    /// The project as it is checked out.
    pub local: Option<LocalProject>,
    pub failure: Option<String>,
}

/// What a [`ProjectCreation`] holds.
pub struct ProjectCreationView {
    pub stage: CreateStage,
    pub fork: bool,
    pub repair: bool,
    pub root: Seq<char>,
    pub state_root: Seq<char>,
    pub prior: IdentityView,
    pub provider: Option<Seq<char>>,
    pub name: Option<Seq<char>>,
    pub origin: Seq<char>,
    pub token: Seq<char>,
    pub endpoint: Option<Seq<char>>,
    pub branch: Seq<char>,
    pub record: JsonView,
    pub key: Seq<char>,
    pub project: Option<CatalogProjectView>,
    pub generation: Option<u64>,
    pub local: Option<LocalProjectView>,
    pub failure: Option<Seq<char>>,
}

/// The contents of a hosted project, where there is one.
pub open spec fn hosted_view(project: Option<CatalogProject>) -> Option<CatalogProjectView> {
    match project {
        Some(p) => Some(p@),
        None => None,
    }
}

/// The contents of a project of this machine, where there is one.
pub open spec fn local_view(project: Option<LocalProject>) -> Option<LocalProjectView> {
    match project {
        Some(p) => Some(p@),
        None => None,
    }
}

impl View for ProjectCreation {
    type V = ProjectCreationView;

    open spec fn view(&self) -> ProjectCreationView {
        ProjectCreationView {
            stage: self.stage,
            fork: self.fork,
            repair: self.repair,
            root: self.root@,
            state_root: self.state_root@,
            prior: self.prior@,
            provider: text::opt_view(self.provider),
            name: text::opt_view(self.name),
            origin: self.origin@,
            token: self.token@,
            endpoint: text::opt_view(self.endpoint),
            branch: self.branch@,
            record: self.record@,
            key: self.key@,
            project: hosted_view(self.project),
            generation: self.generation,
            local: local_view(self.local),
            failure: text::opt_view(self.failure),
        }
    }
}

/// What a creation asks for.
#[derive(Debug, Clone, PartialEq, Eq)]
pub enum CreateAction {
    /// Log in with the provider, or with the one that is in use.
    Authenticate(Option<String>),
    /// Fetch the hosted catalog of an origin with a token.
    Catalog(String, String),
    /// Load the projects of this machine.
    Local,
    /// Run this command.
    Git(GitCall),
    /// Read the record of an earlier attempt at this path.
    ReadRecord(String),
    /// Write the record to this path.
    WriteRecord(String),
    /// Ask for a project at an endpoint, with a token, a name, a branch and a key.
    Create(String, String, String, String, String),
    /// Check the hosted project out at a path, with a token.
    Materialize(String, String),
    /// Give the worktree an identity with an origin and a project.
    Identify(String, String, String),
    /// Put the configuration of the project in place.
    Configure(String),
    /// Tell the daemon of the project, with the generation of the catalog.
    Register(Option<u64>),
    /// Install what tools need for a project.
    Adapters(String),
    /// Synchronize a project.
    Sync(String),
    /// Publish a project.
    Publish(String),
    /// Remove the record at this path.
    Forget(String),
    /// The creation is over.
    Return,
    /// The creation is over with this error.
    Fail(String),
}

/// What a [`CreateAction`] holds.
pub enum CreateActionView {
    Authenticate(Option<Seq<char>>),
    Catalog(Seq<char>, Seq<char>),
    Local,
    Git(GitCallView),
    ReadRecord(Seq<char>),
    WriteRecord(Seq<char>),
    Create(Seq<char>, Seq<char>, Seq<char>, Seq<char>, Seq<char>),
    Materialize(Seq<char>, Seq<char>),
    Identify(Seq<char>, Seq<char>, Seq<char>),
    Configure(Seq<char>),
    Register(Option<u64>),
    Adapters(Seq<char>),
    Sync(Seq<char>),
    Publish(Seq<char>),
    Forget(Seq<char>),
    Return,
    Fail(Seq<char>),
}

impl View for CreateAction {
    type V = CreateActionView;

    open spec fn view(&self) -> CreateActionView {
        match *self {
            CreateAction::Authenticate(a) => CreateActionView::Authenticate(text::opt_view(a)),
            CreateAction::Catalog(a, b) => CreateActionView::Catalog(a@, b@),
            CreateAction::Local => CreateActionView::Local,
            CreateAction::Git(a) => CreateActionView::Git(a@),
            CreateAction::ReadRecord(a) => CreateActionView::ReadRecord(a@),
            CreateAction::WriteRecord(a) => CreateActionView::WriteRecord(a@),
            CreateAction::Create(a, b, c, d, e) => CreateActionView::Create(a@, b@, c@, d@, e@),
            CreateAction::Materialize(a, b) => CreateActionView::Materialize(a@, b@),
            CreateAction::Identify(a, b, c) => CreateActionView::Identify(a@, b@, c@),
            CreateAction::Configure(a) => CreateActionView::Configure(a@),
            CreateAction::Register(a) => CreateActionView::Register(a),
            CreateAction::Adapters(a) => CreateActionView::Adapters(a@),
            CreateAction::Sync(a) => CreateActionView::Sync(a@),
            CreateAction::Publish(a) => CreateActionView::Publish(a@),
            CreateAction::Forget(a) => CreateActionView::Forget(a@),
            CreateAction::Return => CreateActionView::Return,
            CreateAction::Fail(a) => CreateActionView::Fail(a@),
        }
    }
}

/// What came of a step.
#[derive(Debug)]
pub enum CreateEvent {
    /// The origin, the token, and where the provider creates projects.
    Authenticated(String, String, Option<String>),
    Catalog(Catalog),
    Local(Vec<LocalProject>),
    Ran(RunResult),
    /// The record of an earlier attempt, and a key for a first one.
    Record(Json, String),
    Created(CatalogProject),
    Materialized(LocalProject),
    Identified(Identity),
    /// What was asked for is done.
    Did,
    Failed(String),
}

/// What a [`CreateEvent`] holds.
pub enum CreateEventView {
    Authenticated(Seq<char>, Seq<char>, Option<Seq<char>>),
    Catalog(Seq<char>, u64, Seq<CatalogProjectView>),
    Local(Seq<LocalProjectView>),
    Ran(RunResultView),
    Record(JsonView, Seq<char>),
    Created(CatalogProjectView),
    Materialized(LocalProjectView),
    Identified(IdentityView),
    Did,
    Failed(Seq<char>),
}

impl View for CreateEvent {
    type V = CreateEventView;

    open spec fn view(&self) -> CreateEventView {
        match *self {
            CreateEvent::Authenticated(origin, token, endpoint) => CreateEventView::Authenticated(
                origin@,
                token@,
                text::opt_view(endpoint),
            ),
            CreateEvent::Catalog(catalog) => CreateEventView::Catalog(
                catalog.protocol@,
                catalog.catalog_generation,
                protocol::catalog_views(catalog.projects@),
            ),
            CreateEvent::Local(projects) => CreateEventView::Local(state::project_views(projects@)),
            CreateEvent::Ran(result) => CreateEventView::Ran(result@),
            CreateEvent::Record(record, fresh) => CreateEventView::Record(record@, fresh@),
            CreateEvent::Created(project) => CreateEventView::Created(project@),
            CreateEvent::Materialized(project) => CreateEventView::Materialized(project@),
            CreateEvent::Identified(identity) => CreateEventView::Identified(identity@),
            CreateEvent::Did => CreateEventView::Did,
            CreateEvent::Failed(message) => CreateEventView::Failed(message@),
        }
    }
}

/// Where the record of an attempt is kept: it depends on the provider, the worktree and what was
/// asked for.
pub open spec fn record_path(
    state_root: Seq<char>,
    origin: Seq<char>,
    root: Seq<char>,
    fork: bool,
) -> Seq<char> {
    let purpose = if fork {
        "fork"@
    } else {
        "init"@
    };
    paths::joined(
        paths::joined(state_root, "project-creations"@),
        digest::text_digest(origin + "\0"@ + root + "\0"@ + purpose) + ".json"@,
    )
}

fn creation_path(state_root: &str, origin: &str, root: &str, fork: bool) -> (r: String)
    ensures
        r@ == record_path(state_root@, origin@, root@, fork),
{
    let purpose = if fork {
        "fork"
    } else {
        "init"
    };
    let text = cat5(origin, "\0", root, "\0", purpose);
    let digest = digest_text(text.as_str());
    let name = cat2(digest.as_str(), ".json");
    let directory = join_path(state_root, "project-creations");
    join_path(directory.as_str(), name.as_str())
}

/// The name of a project: the one that was asked for, or that of the directory.
pub open spec fn project_name(name: Option<Seq<char>>, root: Seq<char>) -> Seq<char> {
    match name {
        Some(name) => name,
        None => match paths::last_name(root) {
            Some(name) => name,
            None => Seq::empty(),
        },
    }
}

/// The identifier of the hosted project.
pub open spec fn hosted_id(s: ProjectCreationView) -> Seq<char> {
    match s.project {
        Some(p) => p.project_id,
        None => Seq::empty(),
    }
}

/// What a creation asks for at its stage.
pub open spec fn create_requested(s: ProjectCreationView) -> CreateActionView {
    match s.stage {
        CreateStage::Authenticate => CreateActionView::Authenticate(s.provider),
        CreateStage::Catalog => CreateActionView::Catalog(s.origin, s.token),
        CreateStage::Local => CreateActionView::Local,
        CreateStage::Branch => CreateActionView::Git(
            process::git_in(s.root, seq!["symbolic-ref"@, "--short"@, "HEAD"@]),
        ),
        CreateStage::Record => CreateActionView::ReadRecord(
            record_path(s.state_root, s.origin, s.root, s.fork),
        ),
        CreateStage::Write => CreateActionView::WriteRecord(
            record_path(s.state_root, s.origin, s.root, s.fork),
        ),
        CreateStage::Create => CreateActionView::Create(
            match s.endpoint {
                Some(endpoint) => endpoint,
                None => Seq::empty(),
            },
            s.token,
            project_name(s.name, s.root),
            s.branch,
            s.key,
        ),
        CreateStage::Materialize => CreateActionView::Materialize(s.root, s.token),
        CreateStage::Identity => CreateActionView::Identify(s.root, s.origin, hosted_id(s)),
        CreateStage::Configure => CreateActionView::Configure(s.root),
        CreateStage::Register => CreateActionView::Register(s.generation),
        CreateStage::Adapters => CreateActionView::Adapters(hosted_id(s)),
        CreateStage::Sync => CreateActionView::Sync(hosted_id(s)),
        CreateStage::Publish => CreateActionView::Publish(hosted_id(s)),
        CreateStage::Forget => CreateActionView::Forget(
            record_path(s.state_root, s.origin, s.root, s.fork),
        ),
        CreateStage::Finished => match s.failure {
            Some(message) => CreateActionView::Fail(message),
            None => CreateActionView::Return,
        },
    }
}

/// A creation at another stage.
pub open spec fn create_at(s: ProjectCreationView, stage: CreateStage) -> ProjectCreationView {
    ProjectCreationView { stage, ..s }
}

/// A creation that failed: nothing is undone, so that it can be tried again.
pub open spec fn create_failed(s: ProjectCreationView, message: Seq<char>) -> ProjectCreationView {
    ProjectCreationView { stage: CreateStage::Finished, failure: Some(message), ..s }
}

/// Why a text does not stand for a provider.
pub open spec fn origin_refusal(value: Seq<char>) -> Seq<char> {
    if address::url_parts(value) is None {
        "invalid provider URL "@ + value
    } else {
        "RepoSync providers must use HTTPS except on localhost"@
    }
}

/// A repair at its start: the worktree stays with its provider.
pub open spec fn repair_start(
    s: ProjectCreationView,
    id: Seq<char>,
    requested: Option<Seq<char>>,
) -> ProjectCreationView {
    match s.prior.service {
        None => create_failed(s, "existing RepoSync identity has no provider"@),
        Some(service) => {
            let now = ProjectCreationView { provider: Some(service), ..s };
            match requested {
                None => now,
                Some(other) => match credentials::origin_of(other) {
                    None => create_failed(now, origin_refusal(other)),
                    Some(origin) => match credentials::origin_of(service) {
                        None => create_failed(now, origin_refusal(service)),
                        Some(own) => if origin == own {
                            now
                        } else {
                            create_failed(
                                now,
                                "checkout already belongs to "@ + service + " / "@ + id
                                    + "; use `resync project fork` to separate it"@,
                            )
                        },
                    },
                },
            }
        },
    }
}

/// A creation at its start.
pub open spec fn create_start(
    root: Seq<char>,
    state_root: Seq<char>,
    prior: IdentityView,
    fork: bool,
    name: Option<Seq<char>>,
    provider: Option<Seq<char>>,
) -> ProjectCreationView {
    let s = ProjectCreationView {
        stage: CreateStage::Authenticate,
        fork,
        repair: prior.project_id is Some && !fork,
        root,
        state_root,
        prior,
        provider,
        name,
        origin: Seq::empty(),
        token: Seq::empty(),
        endpoint: None,
        branch: Seq::empty(),
        record: JsonView::Null,
        key: Seq::empty(),
        project: None,
        generation: None,
        local: None,
        failure: None,
    };
    if s.repair {
        repair_start(s, prior.project_id->0, provider)
    } else {
        s
    }
}

/// A project of this machine that a repair brought up to date.
pub open spec fn repaired_project(s: ProjectCreationView, local: LocalProjectView) -> LocalProjectView {
    match s.project {
        Some(p) => LocalProjectView {
            remote_url: p.remote_url,
            default_branch: p.default_branch,
            server_generation: p.project_generation,
            service: s.prior.service,
            checkout_id: s.prior.checkout_id,
            ..local
        },
        None => local,
    }
}

/// The position of the project with an identifier and a path, from `from` on.
pub open spec fn checkout_position(
    projects: Seq<LocalProjectView>,
    id: Seq<char>,
    root: Seq<char>,
    from: int,
) -> Option<int>
    decreases projects.len() - from,
{
    if from < 0 || from >= projects.len() {
        None
    } else if projects[from].project_id == id && paths::same_place(projects[from].local_path, root) {
        Some(from)
    } else {
        checkout_position(projects, id, root, from + 1)
    }
}

/// The identifier of the project that the worktree belongs to.
pub open spec fn prior_id(s: ProjectCreationView) -> Seq<char> {
    match s.prior.project_id {
        Some(id) => id,
        None => Seq::empty(),
    }
}

/// The key of an attempt: that of an earlier one, where there is one.
pub open spec fn attempt_key(record: JsonView, fresh: Seq<char>) -> Seq<char> {
    match hooks::member(record, "idempotencyKey"@) {
        Some(JsonView::Text(key)) => key,
        _ => fresh,
    }
}

/// The record of an attempt.
pub open spec fn attempt_record(
    record: JsonView,
    key: Seq<char>,
    origin: Seq<char>,
    root: Seq<char>,
) -> JsonView {
    hooks::with_member(
        hooks::with_member(
            hooks::with_member(record, "idempotencyKey"@, JsonView::Text(key)),
            "provider"@,
            JsonView::Text(origin),
        ),
        "repository"@,
        JsonView::Text(root),
    )
}

/// The creation after an event.
#[verifier::opaque]
pub open spec fn creation_after(s: ProjectCreationView, e: CreateEventView) -> ProjectCreationView {
    match (s.stage, e) {
        (CreateStage::Finished, _) => s,
        (_, CreateEventView::Failed(message)) => create_failed(s, message),
        (
            CreateStage::Authenticate,
            CreateEventView::Authenticated(origin, token, endpoint),
        ) => ProjectCreationView {
            stage: if s.repair {
                CreateStage::Catalog
            } else {
                CreateStage::Branch
            },
            origin,
            token,
            endpoint,
            ..s
        },
        (CreateStage::Catalog, CreateEventView::Catalog(_, generation, projects)) => match peer::hosted_position(
            projects,
            prior_id(s),
            0,
        ) {
            Some(i) => ProjectCreationView {
                stage: CreateStage::Local,
                project: Some(projects[i]),
                generation: Some(generation),
                ..s
            },
            None => create_failed(
                s,
                "ACCESS_LOST: "@ + prior_id(s)
                    + " is not owned by the active device account; verify the provider login and device registration"@,
            ),
        },
        (CreateStage::Local, CreateEventView::Local(projects)) => match checkout_position(
            projects,
            prior_id(s),
            s.root,
            0,
        ) {
            Some(i) => ProjectCreationView {
                stage: CreateStage::Configure,
                local: Some(repaired_project(s, projects[i])),
                ..s
            },
            None => create_at(s, CreateStage::Materialize),
        },
        (CreateStage::Branch, CreateEventView::Ran(result)) => {
            let now = ProjectCreationView { branch: text::trim(result.stdout), ..s };
            if s.endpoint is None {
                create_failed(now, "provider discovery is missing projects endpoint"@)
            } else {
                create_at(now, CreateStage::Record)
            }
        },
        (CreateStage::Record, CreateEventView::Record(record, fresh)) => {
            let key = attempt_key(record, fresh);
            ProjectCreationView {
                stage: CreateStage::Write,
                key,
                record: attempt_record(record, key, s.origin, s.root),
                ..s
            }
        },
        (CreateStage::Write, CreateEventView::Did) => create_at(s, CreateStage::Create),
        (CreateStage::Create, CreateEventView::Created(project)) => ProjectCreationView {
            stage: CreateStage::Materialize,
            project: Some(project),
            ..s
        },
        (CreateStage::Materialize, CreateEventView::Materialized(local)) => if s.repair {
            ProjectCreationView {
                stage: CreateStage::Configure,
                local: Some(repaired_project(s, local)),
                ..s
            }
        } else {
            ProjectCreationView { stage: CreateStage::Identity, local: Some(local), ..s }
        },
        (CreateStage::Identity, CreateEventView::Identified(identity)) => ProjectCreationView {
            stage: CreateStage::Configure,
            local: match s.local {
                Some(local) => Some(
                    LocalProjectView {
                        service: identity.service,
                        checkout_id: identity.checkout_id,
                        ..local
                    },
                ),
                None => None,
            },
            ..s
        },
        (CreateStage::Configure, CreateEventView::Did) => create_at(s, CreateStage::Register),
        (CreateStage::Register, CreateEventView::Did) => create_at(s, CreateStage::Adapters),
        (CreateStage::Adapters, CreateEventView::Did) => create_at(
            s,
            if s.repair {
                CreateStage::Sync
            } else {
                CreateStage::Forget
            },
        ),
        (CreateStage::Sync, CreateEventView::Did) => create_at(s, CreateStage::Publish),
        (CreateStage::Publish, CreateEventView::Did) => create_at(s, CreateStage::Finished),
        (CreateStage::Forget, CreateEventView::Did) => create_at(s, CreateStage::Finished),
        _ => s,
    }
}

fn refusal(value: &str, e: CredentialError) -> (r: String)
    requires
        match e {
            CredentialError::InvalidUrl(url) => address::url_parts(value@) is None && url@ == value@,
            CredentialError::Insecure => address::url_parts(value@) is Some,
            _ => false,
        },
    ensures
        r@ == origin_refusal(value@),
{
    e.message()
}

/// A key for the first attempt to create a project.
pub fn creation_key() -> (r: String)
    ensures
        random::is_tagged(r@, "pcr_"@, 32),
{
    tagged("pcr_")
}

/// Starts the creation of a project from a worktree, or, where it has an identity and is not to be
/// separated, its repair.
pub fn project_create(
    root: &str,
    state_root: &str,
    prior: &Identity,
    fork: bool,
    name: &Option<String>,
    provider: &Option<String>,
) -> (r: ProjectCreation)
    ensures
        r@ == create_start(
            root@,
            state_root@,
            prior@,
            fork,
            text::opt_view(*name),
            text::opt_view(*provider),
        ),
{
    let mut r = ProjectCreation {
        stage: CreateStage::Authenticate,
        fork,
        repair: prior.project_id.is_some() && !fork,
        root: root.to_owned(),
        state_root: state_root.to_owned(),
        prior: prior.copy(),
        provider: copy_option(provider),
        name: copy_option(name),
        origin: String::new(),
        token: String::new(),
        endpoint: None,
        branch: String::new(),
        record: Json::Null,
        key: String::new(),
        project: None,
        generation: None,
        local: None,
        failure: None,
    };
    assert(r@.origin =~= Seq::empty());
    assert(r@.token =~= Seq::empty());
    assert(r@.branch =~= Seq::empty());
    assert(r@.key =~= Seq::empty());
    if fork {
        return r;
    }
    let id = match &prior.project_id {
        Some(id) => id.as_str(),
        None => {
            return r;
        },
    };
    let service = match &prior.service {
        Some(service) => service.as_str(),
        None => {
            r.fail("existing RepoSync identity has no provider".to_owned());
            return r;
        },
    };
    r.provider = Some(service.to_owned());
    match provider {
        Some(other) => match canonical_origin(other.as_str()) {
            Ok(origin) => match canonical_origin(service) {
                Ok(own) => {
                    if !same_text(origin.as_str(), own.as_str()) {
                        let message = cat5(
                            "checkout already belongs to ",
                            service,
                            " / ",
                            id,
                            "; use `resync project fork` to separate it",
                        );
                        r.fail(message);
                    }
                },
                Err(e) => {
                    let message = refusal(service, e);
                    r.fail(message);
                },
            },
            Err(e) => {
                let message = refusal(other.as_str(), e);
                r.fail(message);
            },
        },
        None => {},
    }
    r
}

fn find_checkout(projects: &Vec<LocalProject>, id: &str, root: &str) -> (r: Option<usize>)
    ensures
        match r {
            Some(i) => i < projects.len() && checkout_position(
                state::project_views(projects@),
                id@,
                root@,
                0,
            ) == Some(i as int),
            None => checkout_position(state::project_views(projects@), id@, root@, 0) is None,
        },
{
    let ghost all = state::project_views(projects@);
    let mut i: usize = 0;
    while i < projects.len()
        invariant
            0 <= i <= projects.len(),
            all == state::project_views(projects@),
            checkout_position(all, id@, root@, 0) == checkout_position(all, id@, root@, i as int),
        decreases projects.len() - i,
    {
        assert(all[i as int] == projects@[i as int]@);
        if same_text(projects[i].project_id.as_str(), id) && same_path(
            projects[i].local_path.as_str(),
            root,
        ) {
            return Some(i);
        }
        i += 1;
    }
    None
}

impl ProjectCreation {
    fn hosted_project_id(&self) -> (r: String)
        ensures
            r@ == hosted_id(self@),
    {
        match &self.project {
            Some(project) => project.project_id.clone(),
            None => {
                let none = String::new();
                assert(none@ =~= Seq::empty());
                none
            },
        }
    }

    fn prior_project_id(&self) -> (r: String)
        ensures
            r@ == prior_id(self@),
    {
        match &self.prior.project_id {
            Some(id) => id.clone(),
            None => {
                let none = String::new();
                assert(none@ =~= Seq::empty());
                none
            },
        }
    }

    fn attempt_path(&self) -> (r: String)
        ensures
            r@ == record_path(self@.state_root, self@.origin, self@.root, self@.fork),
    {
        creation_path(
            self.state_root.as_str(),
            self.origin.as_str(),
            self.root.as_str(),
            self.fork,
        )
    }

    fn chosen_name(&self) -> (r: String)
        ensures
            r@ == project_name(self@.name, self@.root),
    {
        match &self.name {
            Some(name) => name.clone(),
            None => match file_name(self.root.as_str()) {
                Some(name) => name,
                None => {
                    let none = String::new();
                    assert(none@ =~= Seq::empty());
                    none
                },
            },
        }
    }

    /// What is to be done next.
    pub fn request(&self) -> (r: CreateAction)
        ensures
            r@ == create_requested(self@),
    {
        match self.stage {
            CreateStage::Authenticate => CreateAction::Authenticate(copy_option(&self.provider)),
            CreateStage::Catalog => CreateAction::Catalog(self.origin.clone(), self.token.clone()),
            CreateStage::Local => CreateAction::Local,
            CreateStage::Branch => CreateAction::Git(
                git_strict(self.root.as_str(), words3("symbolic-ref", "--short", "HEAD")),
            ),
            CreateStage::Record => CreateAction::ReadRecord(self.attempt_path()),
            CreateStage::Write => CreateAction::WriteRecord(self.attempt_path()),
            CreateStage::Create => {
                let endpoint = match &self.endpoint {
                    Some(endpoint) => endpoint.clone(),
                    None => String::new(),
                };
                assert(self.endpoint is None ==> endpoint@ =~= Seq::empty());
                CreateAction::Create(
                    endpoint,
                    self.token.clone(),
                    self.chosen_name(),
                    self.branch.clone(),
                    self.key.clone(),
                )
            },
            CreateStage::Materialize => CreateAction::Materialize(
                self.root.clone(),
                self.token.clone(),
            ),
            CreateStage::Identity => CreateAction::Identify(
                self.root.clone(),
                self.origin.clone(),
                self.hosted_project_id(),
            ),
            CreateStage::Configure => CreateAction::Configure(self.root.clone()),
            CreateStage::Register => CreateAction::Register(self.generation),
            CreateStage::Adapters => CreateAction::Adapters(self.hosted_project_id()),
            CreateStage::Sync => CreateAction::Sync(self.hosted_project_id()),
            CreateStage::Publish => CreateAction::Publish(self.hosted_project_id()),
            CreateStage::Forget => CreateAction::Forget(self.attempt_path()),
            CreateStage::Finished => match &self.failure {
                Some(message) => CreateAction::Fail(message.clone()),
                None => CreateAction::Return,
            },
        }
    }

    fn fail(&mut self, message: String)
        ensures
            final(self)@ == create_failed(old(self)@, message@),
    {
        self.stage = CreateStage::Finished;
        self.failure = Some(message);
    }

    fn bring_up_to_date(&self, local: LocalProject) -> (r: LocalProject)
        ensures
            r@ == repaired_project(self@, local@),
    {
        let mut local = local;
        match &self.project {
            Some(project) => {
                local.remote_url = project.remote_url.clone();
                local.default_branch = project.default_branch.clone();
                local.server_generation = project.project_generation;
                local.service = copy_option(&self.prior.service);
                local.checkout_id = copy_option(&self.prior.checkout_id);
            },
            None => {},
        }
        local
    }

    fn at_record(&mut self, record: Json, fresh: String)
        requires
            old(self)@.stage == CreateStage::Record,
        ensures
            final(self)@ == creation_after(
                old(self)@,
                CreateEventView::Record(record@, fresh@),
            ),
    {
        reveal(creation_after);
        proof {
            hooks::lemma_field_view(record, "idempotencyKey"@);
        }
        let key = match record.get("idempotencyKey") {
            Some(Json::Text(key)) => key.clone(),
            _ => fresh,
        };
        assert(key@ == attempt_key(record@, fresh@));
        let with_key = set_member(record, "idempotencyKey", Json::Text(key.clone()));
        let with_provider = set_member(with_key, "provider", Json::Text(self.origin.clone()));
        self.record = set_member(with_provider, "repository", Json::Text(self.root.clone()));
        self.key = key;
        self.stage = CreateStage::Write;
    }

    fn at_catalog(&mut self, catalog: Catalog)
        requires
            old(self)@.stage == CreateStage::Catalog,
        ensures
            final(self)@ == creation_after(
                old(self)@,
                CreateEventView::Catalog(
                    catalog.protocol@,
                    catalog.catalog_generation,
                    protocol::catalog_views(catalog.projects@),
                ),
            ),
    {
        reveal(creation_after);
        let id = self.prior_project_id();
        match find_hosted(&catalog.projects, id.as_str()) {
            Some(i) => {
                let mut projects = catalog.projects;
                let project = projects.remove(i);
                assert(project@ == protocol::catalog_views(catalog.projects@)[i as int]);
                self.project = Some(project);
                self.generation = Some(catalog.catalog_generation);
                self.stage = CreateStage::Local;
            },
            None => {
                let message = cat3(
                    "ACCESS_LOST: ",
                    id.as_str(),
                    " is not owned by the active device account; verify the provider login and device registration",
                );
                self.fail(message);
            },
        }
    }

    fn at_local(&mut self, projects: Vec<LocalProject>)
        requires
            old(self)@.stage == CreateStage::Local,
        ensures
            final(self)@ == creation_after(
                old(self)@,
                CreateEventView::Local(state::project_views(projects@)),
            ),
    {
        reveal(creation_after);
        let id = self.prior_project_id();
        match find_checkout(&projects, id.as_str(), self.root.as_str()) {
            Some(i) => {
                let ghost all = state::project_views(projects@);
                let mut projects = projects;
                let local = projects.remove(i);
                assert(local@ == all[i as int]);
                self.local = Some(self.bring_up_to_date(local));
                self.stage = CreateStage::Configure;
            },
            None => {
                self.stage = CreateStage::Materialize;
            },
        }
    }

    fn at_materialized(&mut self, local: LocalProject)
        requires
            old(self)@.stage == CreateStage::Materialize,
        ensures
            final(self)@ == creation_after(old(self)@, CreateEventView::Materialized(local@)),
    {
        reveal(creation_after);
        if self.repair {
            self.local = Some(self.bring_up_to_date(local));
            self.stage = CreateStage::Configure;
        } else {
            self.local = Some(local);
            self.stage = CreateStage::Identity;
        }
    }

    fn at_identified(&mut self, identity: Identity)
        requires
            old(self)@.stage == CreateStage::Identity,
        ensures
            final(self)@ == creation_after(old(self)@, CreateEventView::Identified(identity@)),
    {
        reveal(creation_after);
        let mut current: Option<LocalProject> = None;
        std::mem::swap(&mut current, &mut self.local);
        match current {
            Some(found) => {
                let mut local = found;
                local.service = identity.service;
                local.checkout_id = identity.checkout_id;
                self.local = Some(local);
            },
            None => {},
        }
        self.stage = CreateStage::Configure;
    }

    /// Takes what came of the step that was asked for.
    pub fn advance(&mut self, event: CreateEvent)
        requires
            event matches CreateEvent::Record(record, _) ==> record is Object || record is Null,
        ensures
            final(self)@ == creation_after(old(self)@, event@),
    {
        reveal(creation_after);
        match (self.stage, event) {
            (CreateStage::Finished, _) => {},
            (_, CreateEvent::Failed(message)) => {
                self.fail(message);
            },
            (CreateStage::Authenticate, CreateEvent::Authenticated(origin, token, endpoint)) => {
                self.origin = origin;
                self.token = token;
                self.endpoint = endpoint;
                self.stage = if self.repair {
                    CreateStage::Catalog
                } else {
                    CreateStage::Branch
                };
            },
            (CreateStage::Catalog, CreateEvent::Catalog(catalog)) => {
                self.at_catalog(catalog);
            },
            (CreateStage::Local, CreateEvent::Local(projects)) => {
                self.at_local(projects);
            },
            (CreateStage::Branch, CreateEvent::Ran(result)) => {
                self.branch = trimmed(result.stdout.as_str());
                if self.endpoint.is_none() {
                    self.fail("provider discovery is missing projects endpoint".to_owned());
                } else {
                    self.stage = CreateStage::Record;
                }
            },
            (CreateStage::Record, CreateEvent::Record(record, fresh)) => {
                self.at_record(record, fresh);
            },
            (CreateStage::Write, CreateEvent::Did) => {
                self.stage = CreateStage::Create;
            },
            (CreateStage::Create, CreateEvent::Created(project)) => {
                self.project = Some(project);
                self.stage = CreateStage::Materialize;
            },
            (CreateStage::Materialize, CreateEvent::Materialized(local)) => {
                self.at_materialized(local);
            },
            (CreateStage::Identity, CreateEvent::Identified(identity)) => {
                self.at_identified(identity);
            },
            (CreateStage::Configure, CreateEvent::Did) => {
                self.stage = CreateStage::Register;
            },
            (CreateStage::Register, CreateEvent::Did) => {
                self.stage = CreateStage::Adapters;
            },
            (CreateStage::Adapters, CreateEvent::Did) => {
                self.stage = if self.repair {
                    CreateStage::Sync
                } else {
                    CreateStage::Forget
                };
            },
            (CreateStage::Sync, CreateEvent::Did) => {
                self.stage = CreateStage::Publish;
            },
            (CreateStage::Publish, CreateEvent::Did) => {
                self.stage = CreateStage::Finished;
            },
            (CreateStage::Forget, CreateEvent::Did) => {
                self.stage = CreateStage::Finished;
            },
            _ => {},
        }
    }

    /// What was done, in a word.
    pub fn operation(&self) -> (r: &'static str)
        ensures
            r@ == if self@.repair {
                "repaired"@
            } else if self@.fork {
                "forked"@
            } else {
                "initialized"@
            },
    {
        if self.repair {
            "repaired"
        } else if self.fork {
            "forked"
        } else {
            "initialized"
        }
    }
}

/// The creation after a number of events.
pub open spec fn creation_replayed(
    s: ProjectCreationView,
    events: Seq<CreateEventView>,
) -> ProjectCreationView
    decreases events.len(),
{
    if events.len() == 0 {
        s
    } else {
        creation_after(creation_replayed(s, events.drop_last()), events.last())
    }
}

/// A step at a stage was done.
pub open spec fn was_done(
    s: ProjectCreationView,
    events: Seq<CreateEventView>,
    stage: CreateStage,
    i: int,
) -> bool {
    &&& 0 <= i < events.len()
    &&& creation_replayed(s, events.take(i)).stage == stage
    &&& events[i] is Did
}

/// The record names the key, the provider and the worktree.
pub open spec fn is_recorded(s: ProjectCreationView) -> bool {
    &&& hooks::member(s.record, "idempotencyKey"@) == Some(JsonView::Text(s.key))
    &&& hooks::member(s.record, "provider"@) == Some(JsonView::Text(s.origin))
    &&& hooks::member(s.record, "repository"@) == Some(JsonView::Text(s.root))
}

proof fn lemma_attempt_record(
    record: JsonView,
    key: Seq<char>,
    origin: Seq<char>,
    root: Seq<char>,
)
    ensures
        ({
            let now = attempt_record(record, key, origin, root);
            &&& hooks::member(now, "idempotencyKey"@) == Some(JsonView::Text(key))
            &&& hooks::member(now, "provider"@) == Some(JsonView::Text(origin))
            &&& hooks::member(now, "repository"@) == Some(JsonView::Text(root))
        }),
{
    reveal_strlit("idempotencyKey");
    reveal_strlit("provider");
    reveal_strlit("repository");
    assert("idempotencyKey"@.len() != "provider"@.len());
    assert("idempotencyKey"@.len() != "repository"@.len());
    assert("provider"@.len() != "repository"@.len());
    let first = hooks::with_member(record, "idempotencyKey"@, JsonView::Text(key));
    let second = hooks::with_member(first, "provider"@, JsonView::Text(origin));
    hooks::lemma_member_set(record, "idempotencyKey"@, JsonView::Text(key));
    hooks::lemma_member_set(first, "provider"@, JsonView::Text(origin));
    hooks::lemma_member_set(second, "repository"@, JsonView::Text(root));
    hooks::lemma_member_other(first, "provider"@, JsonView::Text(origin), "idempotencyKey"@);
    hooks::lemma_member_other(second, "repository"@, JsonView::Text(root), "idempotencyKey"@);
    hooks::lemma_member_other(second, "repository"@, JsonView::Text(root), "provider"@);
}

proof fn lemma_create_step(s: ProjectCreationView, e: CreateEventView)
    ensures
        ({
            let now = creation_after(s, e);
            &&& now.repair == s.repair
            &&& now.fork == s.fork
            &&& now.root == s.root
            &&& now.prior == s.prior
            &&& now.stage == CreateStage::Create && s.stage != CreateStage::Create ==> s.stage
                == CreateStage::Write && e is Did
            &&& now.stage == CreateStage::Forget && s.stage != CreateStage::Forget ==> s.stage
                == CreateStage::Adapters && e is Did
            &&& now.stage == CreateStage::Adapters && s.stage != CreateStage::Adapters ==> s.stage
                == CreateStage::Register && e is Did
            &&& now.stage == CreateStage::Write && s.stage != CreateStage::Write ==> is_recorded(
                now,
            )
            &&& s.stage == CreateStage::Write || s.stage == CreateStage::Create ==> now.record
                == s.record && now.key == s.key && now.origin == s.origin
            &&& s.repair && !is_creating(s.stage) ==> !is_creating(now.stage)
            &&& s.repair && repair_holds(s) ==> repair_holds(now)
        }),
{
    reveal(creation_after);
    match (s.stage, e) {
        (CreateStage::Record, CreateEventView::Record(record, fresh)) => {
            lemma_attempt_record(record, attempt_key(record, fresh), s.origin, s.root);
        },
        _ => {},
    }
}

/// The stages in which a new project comes about.
pub open spec fn is_creating(stage: CreateStage) -> bool {
    stage == CreateStage::Branch || stage == CreateStage::Record || stage == CreateStage::Write
        || stage == CreateStage::Create || stage == CreateStage::Identity || stage
        == CreateStage::Forget
}

/// The project that a repair is about keeps the identity of the worktree.
pub open spec fn repair_holds(s: ProjectCreationView) -> bool {
    &&& s.local is Some ==> s.project is Some
    &&& s.local matches Some(local) ==> local.service == s.prior.service && local.checkout_id
        == s.prior.checkout_id
    &&& s.stage == CreateStage::Local || s.stage == CreateStage::Materialize ==> s.project is Some
    &&& !is_creating(s.stage)
}

spec fn create_sound(s: ProjectCreationView, events: Seq<CreateEventView>) -> bool {
    let now = creation_replayed(s, events);
    &&& now.stage == CreateStage::Write || now.stage == CreateStage::Create ==> is_recorded(now)
    &&& now.stage == CreateStage::Create ==> exists|i: int|
        was_done(s, events, CreateStage::Write, i)
    &&& now.stage == CreateStage::Adapters ==> exists|i: int|
        was_done(s, events, CreateStage::Register, i)
    &&& now.stage == CreateStage::Forget ==> (exists|i: int|
        was_done(s, events, CreateStage::Adapters, i)) && (exists|i: int|
        was_done(s, events, CreateStage::Register, i))
}

proof fn lemma_done_stays(
    s: ProjectCreationView,
    events: Seq<CreateEventView>,
    stage: CreateStage,
)
    requires
        events.len() > 0,
        exists|i: int| was_done(s, events.drop_last(), stage, i),
    ensures
        exists|i: int| was_done(s, events, stage, i),
{
    let front = events.drop_last();
    let i = choose|i: int| was_done(s, front, stage, i);
    assert(front.take(i) =~= events.take(i));
    assert(front[i] == events[i]);
    assert(was_done(s, events, stage, i));
}

proof fn lemma_create_sound(s: ProjectCreationView, events: Seq<CreateEventView>)
    requires
        s.stage == CreateStage::Authenticate || s.stage == CreateStage::Finished,
    ensures
        create_sound(s, events),
    decreases events.len(),
{
    if events.len() > 0 {
        let front = events.drop_last();
        let before = creation_replayed(s, front);
        let now = creation_replayed(s, events);
        lemma_create_sound(s, front);
        lemma_create_step(before, events.last());
        assert(events.take(events.len() - 1) =~= front);
        if events.last() is Did {
            assert(was_done(s, events, before.stage, events.len() - 1));
        }
        if now.stage == CreateStage::Create && before.stage == CreateStage::Create {
            lemma_done_stays(s, events, CreateStage::Write);
        }
        if now.stage == CreateStage::Adapters && before.stage == CreateStage::Adapters {
            lemma_done_stays(s, events, CreateStage::Register);
        }
        if now.stage == CreateStage::Forget {
            lemma_done_stays(s, events, CreateStage::Register);
            if before.stage == CreateStage::Forget {
                lemma_done_stays(s, events, CreateStage::Adapters);
            }
        }
    }
}

/// A project is asked for only after what tells the attempt from others was written down, so that
/// the same attempt can be made again.
pub proof fn law_attempt_is_recorded_first(s: ProjectCreationView, events: Seq<CreateEventView>)
    requires
        s.stage == CreateStage::Authenticate || s.stage == CreateStage::Finished,
        creation_replayed(s, events).stage == CreateStage::Create,
    ensures
        is_recorded(creation_replayed(s, events)),
        exists|i: int| was_done(s, events, CreateStage::Write, i),
{
    lemma_create_sound(s, events);
}

/// The record of an attempt is removed only after the daemon knows the project and the tools can
/// use it; whatever fails before leaves the record in place.
pub proof fn law_record_outlives_failures(s: ProjectCreationView, events: Seq<CreateEventView>)
    requires
        s.stage == CreateStage::Authenticate || s.stage == CreateStage::Finished,
        creation_replayed(s, events).stage == CreateStage::Forget,
    ensures
        exists|i: int| was_done(s, events, CreateStage::Register, i),
        exists|i: int| was_done(s, events, CreateStage::Adapters, i),
{
    lemma_create_sound(s, events);
}

/// An attempt that is made again asks with the key of the first: from the record that one attempt
/// wrote, the next reads the same key, and it writes the same record.
pub proof fn law_same_attempt_again(
    record: JsonView,
    first: Seq<char>,
    second: Seq<char>,
    origin: Seq<char>,
    root: Seq<char>,
)
    ensures
        ({
            let key = attempt_key(record, first);
            let written = attempt_record(record, key, origin, root);
            &&& attempt_key(written, second) == key
            &&& hooks::member(attempt_record(written, key, origin, root), "idempotencyKey"@) == Some(
                JsonView::Text(key),
            )
        }),
{
    let key = attempt_key(record, first);
    lemma_attempt_record(record, key, origin, root);
    lemma_attempt_record(attempt_record(record, key, origin, root), key, origin, root);
}

/// A worktree that has an identity, and is not to be separated, keeps it: no project is asked for,
/// and the project that the daemon learns of has the service and the checkout of the worktree.
pub proof fn law_repair_keeps_the_identity(
    root: Seq<char>,
    state_root: Seq<char>,
    prior: IdentityView,
    name: Option<Seq<char>>,
    provider: Option<Seq<char>>,
    events: Seq<CreateEventView>,
)
    requires
        prior.project_id is Some,
    ensures
        ({
            let now = creation_replayed(
                create_start(root, state_root, prior, false, name, provider),
                events,
            );
            &&& !is_creating(now.stage)
            &&& now.prior == prior
            &&& now.local matches Some(local) ==> local.service == prior.service
                && local.checkout_id == prior.checkout_id
        }),
{
    lemma_repair_holds(create_start(root, state_root, prior, false, name, provider), events);
}

proof fn lemma_repair_holds(s: ProjectCreationView, events: Seq<CreateEventView>)
    requires
        s.repair,
        repair_holds(s),
    ensures
        ({
            let now = creation_replayed(s, events);
            now.repair && repair_holds(now) && now.prior == s.prior
        }),
    decreases events.len(),
{
    if events.len() > 0 {
        let front = events.drop_last();
        lemma_repair_holds(s, front);
        lemma_create_step(creation_replayed(s, front), events.last());
    }
}

/// Why a project or an account cannot be used.
#[derive(Debug, Clone, PartialEq, Eq)]
pub enum ProjectError {
    /// There is no token for the provider.
    NotLoggedIn(String),
    /// The text does not stand for a provider.
    Provider(CredentialError),
    /// The worktree belongs to no project.
    NoIdentity,
    /// The project is not one of this machine.
    NotSubscribed(String),
    /// The account has no such project.
    NotHosted,
    /// The worktree belongs to another project: its service, and its identifier.
    Belongs(String, String),
    /// A login without a token.
    NoToken,
}

/// What a [`ProjectError`] says.
pub open spec fn project_text(e: ProjectError) -> Seq<char> {
    match e {
        ProjectError::NotLoggedIn(origin) => "not logged in to "@ + origin@
            + "; run `resync auth login "@ + origin@ + "`"@,
        ProjectError::Provider(inner) => credentials::credential_text(inner),
        ProjectError::NoIdentity => "current checkout has no RepoSync project identity"@,
        ProjectError::NotSubscribed(id) => "project "@ + id@ + " is not subscribed"@,
        ProjectError::NotHosted => "project is not in the active device account's catalog"@,
        ProjectError::Belongs(service, id) => "checkout already belongs to "@ + service@ + " / "@
            + id@ + "; use `resync project fork` for an independent project"@,
        ProjectError::NoToken => {
            "login requires --token, --token-command, or RESYNC_BOOTSTRAP_TOKEN"@
        },
    }
}

impl ProjectError {
    /// The message of the error.
    pub fn message(&self) -> (r: String)
        ensures
            r@ == project_text(*self),
    {
        match self {
            ProjectError::NotLoggedIn(origin) => {
                cat5(
                    "not logged in to ",
                    origin.as_str(),
                    "; run `resync auth login ",
                    origin.as_str(),
                    "`",
                )
            },
            ProjectError::Provider(inner) => inner.message(),
            ProjectError::NoIdentity => {
                "current checkout has no RepoSync project identity".to_owned()
            },
            ProjectError::NotSubscribed(id) => {
                cat3("project ", id.as_str(), " is not subscribed")
            },
            ProjectError::NotHosted => {
                "project is not in the active device account's catalog".to_owned()
            },
            ProjectError::Belongs(service, id) => {
                cat5(
                    "checkout already belongs to ",
                    service.as_str(),
                    " / ",
                    id.as_str(),
                    "; use `resync project fork` for an independent project",
                )
            },
            ProjectError::NoToken => {
                "login requires --token, --token-command, or RESYNC_BOOTSTRAP_TOKEN".to_owned()
            },
        }
    }
}

/// The provider that a command is about: the one that was asked for, else the active one, else the
/// default.
pub open spec fn chosen_provider(
    provider: Option<Seq<char>>,
    active: Option<Seq<char>>,
    default: Seq<char>,
) -> Seq<char> {
    match provider {
        Some(text) => text,
        None => match active {
            Some(text) => text,
            None => default,
        },
    }
}

fn choose_provider(provider: &Option<String>, config: &Config, default: &str) -> (r: String)
    ensures
        r@ == chosen_provider(text::opt_view(*provider), config@.active_provider, default@),
{
    match provider {
        Some(text) => text.clone(),
        None => match &config.active_provider {
            Some(text) => text.clone(),
            None => default.to_owned(),
        },
    }
}

/// The origin of the provider that a command is about.
pub fn configured_origin(provider: &Option<String>, config: &Config, default: &str) -> (r: Result<
    String,
    ProjectError,
>)
    ensures
        ({
            let chosen = chosen_provider(text::opt_view(*provider), config@.active_provider, default@);
            match r {
                Ok(origin) => credentials::origin_of(chosen) == Some(origin@),
                Err(e) => e matches ProjectError::Provider(inner) && credentials::is_refusal(
                    chosen,
                    inner,
                ),
            }
        }),
{
    let chosen = choose_provider(provider, config, default);
    match canonical_origin(chosen.as_str()) {
        Ok(origin) => Ok(origin),
        Err(e) => Err(ProjectError::Provider(e)),
    }
}

/// The token for a provider: the one that is kept for it, else that of an older configuration for
/// the same server.
pub open spec fn token_for(
    origin: Seq<char>,
    stored: Option<Seq<char>>,
    config: ConfigView,
) -> Option<Seq<char>> {
    if stored is Some {
        stored
    } else if config.server == Some(origin) {
        config.token
    } else {
        None
    }
}

/// The token for a provider; `stored` is the one that is kept for it.
pub fn configured_provider(origin: &str, stored: &Option<String>, config: &Config) -> (r: Result<
    String,
    ProjectError,
>)
    ensures
        match r {
            Ok(token) => token_for(origin@, text::opt_view(*stored), config@) == Some(token@),
            Err(e) => token_for(origin@, text::opt_view(*stored), config@) is None && (
            e matches ProjectError::NotLoggedIn(name) && name@ == origin@),
        },
{
    match stored {
        Some(token) => {
            return Ok(token.clone());
        },
        None => {},
    }
    let same = match &config.server {
        Some(server) => same_text(server.as_str(), origin),
        None => false,
    };
    if same {
        match &config.token {
            Some(token) => {
                return Ok(token.clone());
            },
            None => {},
        }
    }
    Err(ProjectError::NotLoggedIn(origin.to_owned()))
}

/// The token of a login: what a command wrote, where one was run, else the one that was given, in
/// the order of preference.
pub fn login_token(
    token: &Option<String>,
    legacy: &Option<String>,
    environment: &Option<String>,
    command_output: &Option<String>,
) -> (r: Result<String, ProjectError>)
    ensures
        r matches Ok(chosen) ==> Some(chosen@) == match text::opt_view(*command_output) {
            Some(text) => Some(text::trim(text)),
            None => if token is Some {
                text::opt_view(*token)
            } else if legacy is Some {
                text::opt_view(*legacy)
            } else {
                text::opt_view(*environment)
            },
        },
        r is Err <==> token is None && legacy is None && environment is None
            && command_output is None,
        r matches Err(e) ==> e == ProjectError::NoToken,
{
    match command_output {
        Some(text) => {
            return Ok(trimmed(text.as_str()));
        },
        None => {},
    }
    match token {
        Some(text) => Ok(text.clone()),
        None => match legacy {
            Some(text) => Ok(text.clone()),
            None => match environment {
                Some(text) => Ok(text.clone()),
                None => Err(ProjectError::NoToken),
            },
        },
    }
}

/// The providers that a command is about: all of them, in order, or the one that was chosen.
pub fn logout_origins(
    provider: &Option<String>,
    all: bool,
    config: &Config,
    default: &str,
) -> (r: Result<Vec<String>, ProjectError>)
    ensures
        ({
            let chosen = chosen_provider(text::opt_view(*provider), config@.active_provider, default@);
            if all {
                r matches Ok(list) && text::increasing(text::views(list@)) && forall|k: Seq<char>| #[trigger]
                    text::views(list@).contains(k) <==> config@.providers.contains_key(k)
            } else {
                match r {
                    Ok(list) => list.len() == 1 && credentials::origin_of(chosen) == Some(list@[0]@),
                    Err(e) => e matches ProjectError::Provider(inner) && credentials::is_refusal(
                    chosen,
                    inner,
                ),
                }
            }
        }),
{
    if all {
        return Ok(keys_of(&config.providers));
    }
    match configured_origin(provider, config, default) {
        Ok(origin) => Ok(vec![origin]),
        Err(e) => Err(e),
    }
}

/// What is known of providers without some of them.
pub open spec fn without_providers(
    providers: Map<Seq<char>, ProviderConfigView>,
    origins: Seq<Seq<char>>,
) -> Map<Seq<char>, ProviderConfigView>
    decreases origins.len(),
{
    if origins.len() == 0 {
        providers
    } else {
        without_providers(providers, origins.drop_last()).remove(origins.last())
    }
}

/// Whether a text is the first of the keys of a map, or there is none.
pub open spec fn is_first_of(
    text: Option<Seq<char>>,
    providers: Map<Seq<char>, ProviderConfigView>,
) -> bool {
    match text {
        Some(first) => providers.contains_key(first) && forall|k: Seq<char>| #[trigger]
            providers.contains_key(k) ==> k == first || text::text_less(first, k),
        None => forall|k: Seq<char>| !#[trigger] providers.contains_key(k),
    }
}

/// Forgets providers; if the active one is among them, the first of the others takes its place.
pub fn logout(config: &mut Config, origins: &Vec<String>)
    ensures
        final(config)@.providers == without_providers(old(config)@.providers, text::views(origins@)),
        final(config)@.server is None,
        final(config)@.token is None,
        final(config)@.protocol == old(config)@.protocol,
        ({
            let gone = old(config)@.active_provider matches Some(active) && text::views(
                origins@,
            ).contains(active);
            if gone {
                is_first_of(final(config)@.active_provider, final(config)@.providers)
            } else {
                final(config)@.active_provider == old(config)@.active_provider
            }
        }),
{
    let ghost before = config@;
    let ghost all = text::views(origins@);
    let mut i: usize = 0;
    assert(all.take(0) =~= Seq::empty());
    while i < origins.len()
        invariant
            0 <= i <= origins.len(),
            all == text::views(origins@),
            config@.providers == without_providers(before.providers, all.take(i as int)),
            config@.protocol == before.protocol,
            config@.active_provider == before.active_provider,
        decreases origins.len() - i,
    {
        assert(all.take(i + 1).drop_last() =~= all.take(i as int));
        assert(all.take(i + 1).last() == origins@[i as int]@);
        let ghost providers = config@.providers;
        let _ = config.providers.remove(origins[i].as_str());
        assert(config@.providers =~= providers.remove(origins@[i as int]@));
        i += 1;
    }
    assert(all.take(i as int) =~= all);
    let gone = match &config.active_provider {
        Some(active) => list_has(origins, active.as_str()),
        None => false,
    };
    if gone {
        let names = keys_of(&config.providers);
        assert forall|k: Seq<char>| #[trigger] config@.providers.contains_key(k) <==> text::views(
            names@,
        ).contains(k) by {
            assert(config@.providers.contains_key(k) <==> config.providers@.contains_key(k));
        }
        if names.len() > 0 {
            let ghost list = text::views(names@);
            assert(list[0] == names@[0]@);
            assert forall|k: Seq<char>| #[trigger] config@.providers.contains_key(k) implies k
                == list[0] || text::text_less(list[0], k) by {
                assert(list.contains(k));
                let j = choose|j: int| 0 <= j < list.len() && list[j] == k;
                assert(j == 0 || text::text_less(list[0], list[j]));
            }
            assert(list.contains(list[0]));
            config.active_provider = Some(names[0].clone());
        } else {
            assert(text::views(names@) =~= Seq::empty());
            config.active_provider = None;
        }
    }
    config.server = None;
    config.token = None;
}

/// A text without the slashes at its end.
pub open spec fn without_slashes(s: Seq<char>) -> Seq<char>
    decreases s.len(),
{
    if s.len() > 0 && s.last() == '/' {
        without_slashes(s.drop_last())
    } else {
        s
    }
}

/// Where a provider lists devices.
pub open spec fn devices_at(endpoints: Map<Seq<char>, Seq<char>>, origin: Seq<char>) -> Seq<char> {
    match text_map::text_at(endpoints, "devices"@) {
        Some(endpoint) => endpoint,
        None => origin + "/v1/devices"@,
    }
}

/// Where a provider lists devices.
pub fn devices_endpoint(discovery: &Discovery, origin: &str) -> (r: String)
    ensures
        r@ == devices_at(discovery@.endpoints, origin@),
{
    match lookup(&discovery.endpoints, "devices") {
        Some(endpoint) => endpoint,
        None => cat2(origin, "/v1/devices"),
    }
}

/// Where a provider revokes a device.
pub fn revoke_endpoint(discovery: &Discovery, origin: &str, device_id: &str) -> (r: String)
    ensures
        r@ == without_slashes(devices_at(discovery@.endpoints, origin@)) + "/"@ + device_id@
            + "/revoke"@,
{
    let base = devices_endpoint(discovery, origin);
    let c = chars_of(base.as_str());
    let mut end: usize = c.len();
    assert(base@.take(end as int) =~= base@);
    while end > 0 && c[end - 1] == '/'
        invariant
            0 <= end <= c.len(),
            c@ == base@,
            without_slashes(base@) == without_slashes(base@.take(end as int)),
        decreases end,
    {
        assert(base@.take(end as int).drop_last() =~= base@.take(end - 1));
        end -= 1;
    }
    let bare = part_of(&c, 0, end);
    assert(bare@ =~= base@.take(end as int));
    cat4(bare.as_str(), "/", device_id, "/revoke")
}

/// The project that a command is about: the one that was named, else that of the worktree.
pub fn project_id_or_identity(value: &Option<String>, identity: &Identity) -> (r: Result<
    String,
    ProjectError,
>)
    ensures
        match r {
            Ok(id) => Some(id@) == if value is Some {
                text::opt_view(*value)
            } else {
                identity@.project_id
            },
            Err(e) => value is None && identity@.project_id is None && e
                == ProjectError::NoIdentity,
        },
{
    match value {
        Some(id) => Ok(id.clone()),
        None => match &identity.project_id {
            Some(id) => Ok(id.clone()),
            None => Err(ProjectError::NoIdentity),
        },
    }
}

/// Where a project is joined: at the path that was given, else at the top of the worktree, which
/// is looked for only where no path was given.
pub fn join_destination(path: &Option<String>, current_directory: &str, runs: &Vec<RunResult>) -> (r:
    Result<Next<String>, IdentityError>)
    ensures
        match r {
            Ok(Next::Done(destination)) => match *path {
                Some(given) => destination@ == given@,
                None => runs.len() > 0 && runs@[0].code == 0 && destination@ == text::trim(
                    runs@[0].stdout@,
                ),
            },
            Ok(Next::Run(call)) => path is None && runs.len() == 0 && call@ == process::git_try(
                current_directory@,
                seq!["rev-parse"@, "--show-toplevel"@],
            ),
            Err(e) => path is None && runs.len() > 0 && runs@[0].code != 0 && e
                == IdentityError::NotWorktree,
        },
{
    match path {
        Some(given) => Ok(Next::Done(given.clone())),
        None => repository_root(current_directory, runs),
    }
}

/// Whether a worktree belongs to another project, or to the project of another provider.
pub open spec fn belongs_elsewhere(
    existing: IdentityView,
    project_id: Seq<char>,
    origin: Seq<char>,
) -> bool {
    existing.project_id is Some && existing.service is Some && (existing.project_id != Some(
        project_id,
    ) || existing.service != Some(origin))
}

/// Starts to join a project with an account, at a path or at the top of the worktree.
pub fn project_join(project_id: &str, path: &Option<String>) -> (r: Join)
    ensures
        r@ == join::join_start(
            false,
            project_id@,
            PlacesView { into: text::opt_view(*path), managed: None, home: None },
        ),
{
    let places = Places { into: copy_option(path), managed: None, home: None };
    Join::new(false, project_id, places)
}

/// The projects with another identifier.
pub open spec fn without_project(projects: Seq<LocalProjectView>, id: Seq<char>) -> Seq<
    LocalProjectView,
>
    decreases projects.len(),
{
    if projects.len() == 0 {
        projects
    } else {
        let before = without_project(projects.drop_last(), id);
        if projects.last().project_id == id {
            before
        } else {
            before.push(projects.last())
        }
    }
}

proof fn lemma_without_nothing(projects: Seq<LocalProjectView>, id: Seq<char>)
    ensures
        without_project(projects, id).len() <= projects.len(),
        without_project(projects, id).len() == projects.len() <==> forall|i: int|
            0 <= i < projects.len() ==> (#[trigger] projects[i]).project_id != id,
        without_project(projects, id).len() == projects.len() ==> without_project(projects, id)
            == projects,
    decreases projects.len(),
{
    if projects.len() > 0 {
        let front = projects.drop_last();
        lemma_without_nothing(front, id);
        if without_project(projects, id).len() == projects.len() {
            assert forall|i: int| 0 <= i < projects.len() implies (
            #[trigger] projects[i]).project_id != id by {
                if i < front.len() {
                    assert(front[i].project_id != id);
                }
            }
            assert(without_project(projects, id) =~= projects);
        }
        if forall|i: int| 0 <= i < projects.len() ==> (#[trigger] projects[i]).project_id != id {
            assert forall|i: int| 0 <= i < front.len() implies (#[trigger] front[i]).project_id
                != id by {
                assert(projects[i].project_id != id);
            }
            assert(projects.last() == projects[projects.len() - 1]);
        }
    }
}

/// Stops managing a project; its files stay.
pub fn unsubscribe(catalog: &mut LocalCatalog, id: &str) -> (r: Result<(), ProjectError>)
    ensures
        final(catalog).catalog_generation == old(catalog).catalog_generation,
        state::project_views(final(catalog).projects@) == without_project(
            state::project_views(old(catalog).projects@),
            id@,
        ),
        r is Ok <==> exists|i: int|
            0 <= i < old(catalog).projects@.len() && (
            #[trigger] old(catalog).projects@[i])@.project_id == id@,
        r matches Err(e) ==> (e matches ProjectError::NotSubscribed(name) && name@ == id@),
{
    let ghost before = state::project_views(catalog.projects@);
    let mut kept: Vec<LocalProject> = Vec::new();
    let mut rest: Vec<LocalProject> = Vec::new();
    std::mem::swap(&mut rest, &mut catalog.projects);
    let total = rest.len();
    let mut found = false;
    let mut taken: usize = 0;
    assert(before.take(0) =~= Seq::empty());
    assert(state::project_views(kept@) =~= Seq::empty());
    assert(state::project_views(rest@) =~= before.skip(0));
    while rest.len() > 0
        invariant
            taken + rest.len() == total,
            total == before.len(),
            state::project_views(rest@) == before.skip(taken as int),
            state::project_views(kept@) == without_project(before.take(taken as int), id@),
            found <==> exists|i: int|
                0 <= i < taken && (#[trigger] before[i]).project_id == id@,
        decreases rest.len(),
    {
        let ghost rest_before = state::project_views(rest@);
        let ghost kept_before = state::project_views(kept@);
        let project = rest.remove(0);
        assert(project@ == rest_before[0]);
        assert(project@ == before[taken as int]);
        assert(before.skip(taken as int).skip(1) =~= before.skip(taken + 1));
        assert(state::project_views(rest@) =~= rest_before.skip(1));
        assert(before.take(taken + 1).drop_last() =~= before.take(taken as int));
        if same_text(project.project_id.as_str(), id) {
            found = true;
            assert(before[taken as int].project_id == id@);
        } else {
            let ghost view = project@;
            kept.push(project);
            assert(state::project_views(kept@) =~= kept_before.push(view));
        }
        taken += 1;
    }
    assert(before.take(taken as int) =~= before);
    proof {
        lemma_without_nothing(before, id@);
        assert forall|i: int| 0 <= i < before.len() implies #[trigger] before[i] == old(
            catalog,
        ).projects@[i]@ by {}
        if found {
            let i = choose|i: int| 0 <= i < before.len() && (#[trigger] before[i]).project_id == id@;
            assert(old(catalog).projects@[i]@.project_id == id@);
        } else {
            assert forall|i: int| 0 <= i < old(catalog).projects@.len() implies (
            #[trigger] old(catalog).projects@[i])@.project_id != id@ by {
                assert(before[i].project_id != id@);
            }
        }
    }
    catalog.projects = kept;
    if found {
        Ok(())
    } else {
        Err(ProjectError::NotSubscribed(id.to_owned()))
    }
}

/// After a project was left, no project of the machine has its identifier, and every other project
/// is where it was.
pub proof fn law_left_projects_are_gone(projects: Seq<LocalProjectView>, id: Seq<char>)
    ensures
        forall|i: int|
            0 <= i < without_project(projects, id).len() ==> (
            #[trigger] without_project(projects, id)[i]).project_id != id,
        forall|i: int|
            0 <= i < projects.len() && (#[trigger] projects[i]).project_id != id
                ==> without_project(projects, id).contains(projects[i]),
    decreases projects.len(),
{
    if projects.len() > 0 {
        let front = projects.drop_last();
        let before = without_project(front, id);
        let now = without_project(projects, id);
        law_left_projects_are_gone(front, id);
        assert forall|i: int| 0 <= i < now.len() implies (#[trigger] now[i]).project_id != id by {
            if i < before.len() {
                assert(before[i].project_id != id);
            }
        }
        assert forall|i: int|
            0 <= i < projects.len() && (#[trigger] projects[i]).project_id != id implies now.contains(
            projects[i],
        ) by {
            if i < front.len() {
                assert(front[i].project_id != id);
                assert(before.contains(projects[i]));
                let j = choose|j: int| 0 <= j < before.len() && before[j] == projects[i];
                assert(now[j] == projects[i]);
            } else {
                assert(now[now.len() - 1] == projects[i]);
            }
        }
    }
}

/// The projects that wait for a conflict to be resolved, of which one may be asked for.
pub open spec fn is_listed(project: LocalProjectView, id: Option<Seq<char>>) -> bool {
    project.state == "CONFLICTED"@ && (id is None || id == Some(project.project_id))
}

/// The positions, among the first `n`, of the projects with a conflict.
pub open spec fn listed(projects: Seq<LocalProjectView>, id: Option<Seq<char>>, n: int) -> Seq<
    usize,
>
    decreases n,
{
    if n <= 0 {
        Seq::empty()
    } else {
        let before = listed(projects, id, n - 1);
        if is_listed(projects[n - 1], id) {
            before.push((n - 1) as usize)
        } else {
            before
        }
    }
}

/// Lists the projects with a conflict.
pub fn conflicts(projects: &Vec<LocalProject>, id: &Option<String>) -> (r: Vec<usize>)
    ensures
        r@ == listed(state::project_views(projects@), text::opt_view(*id), projects@.len() as int),
{
    let ghost all = state::project_views(projects@);
    let mut r: Vec<usize> = Vec::new();
    let mut i: usize = 0;
    while i < projects.len()
        invariant
            0 <= i <= projects.len(),
            all == state::project_views(projects@),
            r@ == listed(all, text::opt_view(*id), i as int),
        decreases projects.len() - i,
    {
        assert(all[i as int] == projects@[i as int]@);
        let asked = match id {
            Some(wanted) => same_text(wanted.as_str(), projects[i].project_id.as_str()),
            None => true,
        };
        if same_text(projects[i].state.as_str(), "CONFLICTED") && asked {
            r.push(i);
        }
        i += 1;
    }
    r
}

/// The paths of the first `n` projects; only those with a conflict, where that is asked for. Each
/// stands once.
pub open spec fn paths_of(projects: Seq<LocalProjectView>, conflicted: bool, n: int) -> Seq<
    Seq<char>,
>
    decreases n,
{
    if n <= 0 {
        Seq::empty()
    } else {
        let before = paths_of(projects, conflicted, n - 1);
        let path = projects[n - 1].local_path;
        if (conflicted && projects[n - 1].state != "CONFLICTED"@) || paths::holds_path(before, path) {
            before
        } else {
            before.push(path)
        }
    }
}

/// The paths of the projects, or of those with a conflict.
pub fn managed_paths(projects: &Vec<LocalProject>, conflicted: bool) -> (r: Vec<String>)
    ensures
        text::views(r@) == paths_of(state::project_views(projects@), conflicted, projects@.len() as int),
{
    let ghost all = state::project_views(projects@);
    let mut r: Vec<String> = Vec::new();
    let mut i: usize = 0;
    assert(text::views(r@) =~= Seq::empty());
    while i < projects.len()
        invariant
            0 <= i <= projects.len(),
            all == state::project_views(projects@),
            text::views(r@) == paths_of(all, conflicted, i as int),
        decreases projects.len() - i,
    {
        assert(all[i as int] == projects@[i as int]@);
        let wanted = !conflicted || same_text(projects[i].state.as_str(), "CONFLICTED");
        if wanted && !has_path(&r, projects[i].local_path.as_str()) {
            let ghost before = r@;
            r.push(projects[i].local_path.clone());
            assert(text::views(r@) =~= text::views(before).push(all[i as int].local_path));
        }
        i += 1;
    }
    r
}

/// Finds the project whose adapters are installed.
pub fn install_adapters(projects: &Vec<LocalProject>, project_id: &str) -> (r: Result<
    usize,
    ProjectError,
>)
    ensures
        match r {
            Ok(i) => i < projects.len() && projects@[i as int]@.project_id == project_id@
                && forall|j: int|
                0 <= j < i ==> (#[trigger] projects@[j])@.project_id != project_id@,
            Err(e) => (e matches ProjectError::NotSubscribed(name) && name@ == project_id@)
                && forall|j: int|
                0 <= j < projects.len() ==> (#[trigger] projects@[j])@.project_id != project_id@,
        },
{
    let mut i: usize = 0;
    while i < projects.len()
        invariant
            0 <= i <= projects.len(),
            forall|j: int| 0 <= j < i ==> (#[trigger] projects@[j])@.project_id != project_id@,
        decreases projects.len() - i,
    {
        if same_text(projects[i].project_id.as_str(), project_id) {
            return Ok(i);
        }
        i += 1;
    }
    Err(ProjectError::NotSubscribed(project_id.to_owned()))
}

} // verus!
