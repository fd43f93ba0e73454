//! How a machine joins a hosted project: with a ticket that another machine got for it, or with the
//! account that it is logged in to.
use vstd::prelude::*;
use crate::credentials;
use crate::json;
use crate::peer;
use crate::project;
use crate::protocol;
use crate::text;
use crate::text_map;
use crate::identity::{Identity, IdentityView};
use crate::json::Json;
use crate::peer::{find_hosted, may_relink, peer_destination, PeerError, PeerErrorView};
use crate::project::ProjectError;
use crate::protocol::{CatalogProject, CatalogProjectView};
use crate::provider::{Discovery, DiscoveryView};
use crate::state::{LocalProject, LocalProjectView};
use crate::text::same_text;
use crate::text_map::lookup;

verus! {

/// What is done next.
#[derive(Debug, Clone, Copy, PartialEq, Eq, Structural)]
pub enum JoinStage {
    /// Ask the provider to describe itself.
    Discover,
    /// Make a key.
    Key,
    /// Redeem the ticket.
    Redeem,
    /// Keep the login that the ticket was redeemed for.
    Store,
    /// Find the login.
    Authenticate,
    /// Fetch the catalog.
    Catalog,
    /// Find the destination.
    Place,
    /// Look at the destination.
    Look,
    /// Make the directory that is to hold the destination.
    Parent,
    /// Put the project into the destination.
    Materialize,
    /// Give the checkout its identity.
    Identify,
    /// Put the settings file in place.
    Configure,
    /// Record the project.
    Record,
    /// Install the adapters.
    Adapters,
    /// Have the daemon load its catalog.
    Reload,
    Finished,
}

/// Where a machine that has a ticket may keep a project.
#[derive(Debug)]
pub struct Places {
    pub into: Option<String>,
    pub managed: Option<String>,
    pub home: Option<String>,
}

/// What [`Places`] hold.
pub struct PlacesView {
    pub into: Option<Seq<char>>,
    pub managed: Option<Seq<char>>,
    pub home: Option<Seq<char>>,
}

impl View for Places {
    type V = PlacesView;

    open spec fn view(&self) -> PlacesView {
        PlacesView {
            into: text::opt_view(self.into),
            managed: text::opt_view(self.managed),
            home: text::opt_view(self.home),
        }
    }
}

/// A machine that joins a project.
#[derive(Debug)]
pub struct Join {
    pub stage: JoinStage,
    /// Whether it has a ticket, and not an account.
    pub ticket: bool,
    pub project_id: String,
    /// Where the project is to be kept.
    pub places: Places,
    pub origin: String,
    pub endpoint: String,
    pub token: Option<String>,
    pub generation: u64,
    pub project: Option<CatalogProject>,
    pub destination: String,
    pub local: Option<LocalProject>,
    pub failure: Option<String>,
}

/// What a [`Join`] holds.
#[verifier::ext_equal]
pub struct JoinView {
    pub stage: JoinStage,
    pub ticket: bool,
    pub project_id: Seq<char>,
    pub places: PlacesView,
    pub origin: Seq<char>,
    pub endpoint: Seq<char>,
    pub token: Option<Seq<char>>,
    pub generation: u64,
    pub project: Option<CatalogProjectView>,
    pub destination: Seq<char>,
    pub local: Option<LocalProjectView>,
    pub failure: Option<Seq<char>>,
}

impl View for Join {
    type V = JoinView;

    open spec fn view(&self) -> JoinView {
        JoinView {
            stage: self.stage,
            ticket: self.ticket,
            project_id: self.project_id@,
            places: self.places@,
            origin: self.origin@,
            endpoint: self.endpoint@,
            token: text::opt_view(self.token),
            generation: self.generation,
            project: match self.project {
                Some(project) => Some(project@),
                None => None,
            },
            destination: self.destination@,
            local: match self.local {
                Some(local) => Some(local@),
                None => None,
            },
            failure: text::opt_view(self.failure),
        }
    }
}

/// What is to be done.
#[derive(Debug)]
pub enum JoinAction {
    /// Ask the provider to describe itself.
    Discover,
    /// Make a key for this device.
    Key,
    /// Redeem the ticket at this address.
    Redeem(String),
    /// Keep the login that the ticket was redeemed for.
    Store,
    /// Find the login for the provider.
    Authenticate,
    /// Fetch the catalog of a service, with a token.
    Catalog(String, String),
    /// Find the top of the worktree.
    Place,
    /// Look at what is at this path.
    Look(String),
    /// Make the directory that holds this path.
    Parent(String),
    /// Put the project into this path, with a token.
    Materialize(String, String),
    /// Give the checkout at this path the identity of a project of a service.
    Identify(String, String, String),
    /// Put the settings file of the checkout at this path in place.
    Configure(String),
    /// Record the project, with the generation of the catalog: by the daemon, or in the catalog.
    Record(bool, u64),
    /// Install the adapters of a project.
    Adapters(String),
    /// Have the daemon load its catalog.
    Reload,
    /// The project is joined.
    Return,
    /// The project is not joined, for this reason.
    Fail(String),
}

/// What a [`JoinAction`] holds.
pub enum JoinActionView {
    Discover,
    Key,
    Redeem(Seq<char>),
    Store,
    Authenticate,
    Catalog(Seq<char>, Seq<char>),
    Place,
    Look(Seq<char>),
    Parent(Seq<char>),
    Materialize(Seq<char>, Seq<char>),
    Identify(Seq<char>, Seq<char>, Seq<char>),
    Configure(Seq<char>),
    Record(bool, u64),
    Adapters(Seq<char>),
    Reload,
    Return,
    Fail(Seq<char>),
}

impl View for JoinAction {
    type V = JoinActionView;

    open spec fn view(&self) -> JoinActionView {
        match *self {
            JoinAction::Discover => JoinActionView::Discover,
            JoinAction::Key => JoinActionView::Key,
            JoinAction::Redeem(a) => JoinActionView::Redeem(a@),
            JoinAction::Store => JoinActionView::Store,
            JoinAction::Authenticate => JoinActionView::Authenticate,
            JoinAction::Catalog(a, b) => JoinActionView::Catalog(a@, b@),
            JoinAction::Place => JoinActionView::Place,
            JoinAction::Look(a) => JoinActionView::Look(a@),
            JoinAction::Parent(a) => JoinActionView::Parent(a@),
            JoinAction::Materialize(a, b) => JoinActionView::Materialize(a@, b@),
            JoinAction::Identify(a, b, c) => JoinActionView::Identify(a@, b@, c@),
            JoinAction::Configure(a) => JoinActionView::Configure(a@),
            JoinAction::Record(a, b) => JoinActionView::Record(a, b),
            JoinAction::Adapters(a) => JoinActionView::Adapters(a@),
            JoinAction::Reload => JoinActionView::Reload,
            JoinAction::Return => JoinActionView::Return,
            JoinAction::Fail(a) => JoinActionView::Fail(a@),
        }
    }
}

/// What came of a step.
#[derive(Debug)]
pub enum JoinEvent {
    Discovered(Discovery),
    /// What the provider redeemed the ticket for.
    Redeemed(Json),
    /// The origin of the provider, and the token for it.
    Authenticated(String, String),
    /// The generation of the catalog, and its projects.
    Catalog(u64, Vec<CatalogProject>),
    Placed(String),
    /// Whether something is at the path, and its identity where that can be read.
    Found(bool, Option<Identity>),
    Materialized(LocalProject),
    Identified(Identity),
    /// What was asked for is done.
    Did,
    Failed(String),
}

/// What a [`JoinEvent`] holds.
pub enum JoinEventView {
    Discovered(DiscoveryView),
    Redeemed(Json),
    Authenticated(Seq<char>, Seq<char>),
    Catalog(u64, Seq<CatalogProjectView>),
    Placed(Seq<char>),
    Found(bool, Option<IdentityView>),
    Materialized(LocalProjectView),
    Identified(IdentityView),
    Did,
    Failed(Seq<char>),
}

impl View for JoinEvent {
    type V = JoinEventView;

    open spec fn view(&self) -> JoinEventView {
        match *self {
            JoinEvent::Discovered(d) => JoinEventView::Discovered(d@),
            JoinEvent::Redeemed(reply) => JoinEventView::Redeemed(reply),
            JoinEvent::Authenticated(a, b) => JoinEventView::Authenticated(a@, b@),
            JoinEvent::Catalog(n, projects) => JoinEventView::Catalog(
                n,
                protocol::catalog_views(projects@),
            ),
            JoinEvent::Placed(a) => JoinEventView::Placed(a@),
            JoinEvent::Found(exists, identity) => JoinEventView::Found(
                exists,
                match identity {
                    Some(identity) => Some(identity@),
                    None => None,
                },
            ),
            JoinEvent::Materialized(local) => JoinEventView::Materialized(local@),
            JoinEvent::Identified(identity) => JoinEventView::Identified(identity@),
            JoinEvent::Did => JoinEventView::Did,
            JoinEvent::Failed(a) => JoinEventView::Failed(a@),
        }
    }
}

/// A machine that joins a project, at its start.
pub open spec fn join_start(ticket: bool, project_id: Seq<char>, places: PlacesView) -> JoinView {
    JoinView {
        stage: if ticket {
            JoinStage::Discover
        } else {
            JoinStage::Authenticate
        },
        ticket,
        project_id,
        places,
        origin: Seq::empty(),
        endpoint: Seq::empty(),
        token: None,
        generation: 0,
        project: None,
        destination: Seq::empty(),
        local: None,
        failure: None,
    }
}

/// The token, or nothing.
pub open spec fn token_of(s: JoinView) -> Seq<char> {
    match s.token {
        Some(token) => token,
        None => Seq::empty(),
    }
}

/// Where the checkout lies.
pub open spec fn checkout_of(s: JoinView) -> Seq<char> {
    match s.local {
        Some(local) => local.local_path,
        None => s.destination,
    }
}

/// What is to be done next.
pub open spec fn join_requested(s: JoinView) -> JoinActionView {
    match s.stage {
        JoinStage::Discover => JoinActionView::Discover,
        JoinStage::Key => JoinActionView::Key,
        JoinStage::Redeem => JoinActionView::Redeem(s.endpoint),
        JoinStage::Store => JoinActionView::Store,
        JoinStage::Authenticate => JoinActionView::Authenticate,
        JoinStage::Catalog => JoinActionView::Catalog(s.origin, token_of(s)),
        JoinStage::Place => JoinActionView::Place,
        JoinStage::Look => JoinActionView::Look(s.destination),
        JoinStage::Parent => JoinActionView::Parent(s.destination),
        JoinStage::Materialize => JoinActionView::Materialize(s.destination, token_of(s)),
        JoinStage::Identify => JoinActionView::Identify(checkout_of(s), s.origin, s.project_id),
        JoinStage::Configure => JoinActionView::Configure(checkout_of(s)),
        JoinStage::Record => JoinActionView::Record(!s.ticket, s.generation),
        JoinStage::Adapters => JoinActionView::Adapters(s.project_id),
        JoinStage::Reload => JoinActionView::Reload,
        JoinStage::Finished => match s.failure {
            Some(reason) => JoinActionView::Fail(reason),
            None => JoinActionView::Return,
        },
    }
}

/// A machine that did not join.
pub open spec fn join_failed(s: JoinView, reason: Seq<char>) -> JoinView {
    JoinView { stage: JoinStage::Finished, failure: Some(reason), ..s }
}

/// A machine at another stage.
pub open spec fn join_at(s: JoinView, stage: JoinStage) -> JoinView {
    JoinView { stage, ..s }
}

/// What stands against the use of a destination with this identity, with a ticket: it belongs to
/// another project, or that cannot be told.
pub open spec fn ticket_refusal(
    current: IdentityView,
    origin: Seq<char>,
    project_id: Seq<char>,
) -> Option<Seq<char>> {
    if current.project_id is None {
        None
    } else if current.service is None {
        Some(peer::peer_text(PeerErrorView::Occupied))
    } else if credentials::origin_of(current.service->0) is None {
        Some(project::origin_refusal(current.service->0))
    } else if credentials::origin_of(origin) is None {
        Some(project::origin_refusal(origin))
    } else if credentials::origin_of(current.service->0) != credentials::origin_of(origin)
        || current.project_id != Some(project_id) {
        Some(peer::peer_text(PeerErrorView::Occupied))
    } else {
        None
    }
}

/// What stands against the use of a destination with this identity, with an account.
pub open spec fn account_refusal(
    current: IdentityView,
    origin: Seq<char>,
    project_id: Seq<char>,
) -> Option<Seq<char>> {
    if project::belongs_elsewhere(current, project_id, origin) {
        Some(
            "checkout already belongs to "@ + current.service->0 + " / "@ + current.project_id->0
                + "; use `resync project fork` for an independent project"@,
        )
    } else {
        None
    }
}

/// What stands against the use of a destination where something is or not.
pub open spec fn refusal_of(
    s: JoinView,
    exists: bool,
    identity: Option<IdentityView>,
) -> Option<Seq<char>> {
    match identity {
        Some(current) => if !exists {
            None
        } else if s.ticket {
            ticket_refusal(current, s.origin, s.project_id)
        } else {
            account_refusal(current, s.origin, s.project_id)
        },
        None => None,
    }
}

/// What holds once the destination was looked at.
pub open spec fn join_found(s: JoinView, exists: bool, identity: Option<IdentityView>) -> JoinView {
    match refusal_of(s, exists, identity) {
        Some(reason) => join_failed(s, reason),
        None => join_at(
            s,
            if s.ticket && !exists {
                JoinStage::Parent
            } else {
                JoinStage::Materialize
            },
        ),
    }
}

/// What holds once the catalog is there: the project has to be in it.
pub open spec fn join_listed(
    s: JoinView,
    generation: u64,
    projects: Seq<CatalogProjectView>,
) -> JoinView {
    match peer::hosted_position(projects, s.project_id, 0) {
        None => join_failed(
            s,
            if s.ticket {
                peer::peer_text(PeerErrorView::Unauthorized)
            } else {
                "project is not in the active device account's catalog"@
            },
        ),
        Some(i) => {
            let now = JoinView { generation, project: Some(projects[i]), ..s };
            if s.ticket {
                JoinView {
                    stage: JoinStage::Look,
                    destination: peer::destination_for(
                        s.places.into,
                        s.places.managed,
                        s.places.home,
                        s.project_id,
                        projects[i].name,
                    ),
                    ..now
                }
            } else {
                match s.places.into {
                    Some(path) => JoinView { stage: JoinStage::Look, destination: path, ..now },
                    None => join_at(now, JoinStage::Place),
                }
            }
        },
    }
}

/// A project with the identity of its checkout.
pub open spec fn with_identity(p: LocalProjectView, identity: IdentityView) -> LocalProjectView {
    LocalProjectView { service: identity.service, checkout_id: identity.checkout_id, ..p }
}

/// What holds after a step.
pub open spec fn joined_after(s: JoinView, e: JoinEventView) -> JoinView {
    match (s.stage, e) {
        (JoinStage::Finished, _) => s,
        (_, JoinEventView::Failed(reason)) => join_failed(s, reason),
        (JoinStage::Discover, JoinEventView::Discovered(d)) => JoinView {
            stage: JoinStage::Key,
            origin: d.origin,
            endpoint: match text_map::text_at(d.endpoints, "redeem_join_ticket"@) {
                Some(url) => url,
                None => Seq::empty(),
            },
            failure: match text_map::text_at(d.endpoints, "redeem_join_ticket"@) {
                Some(_) => None,
                None => Some(peer::peer_text(PeerErrorView::NoRedemption)),
            },
            ..s
        },
        (JoinStage::Key, JoinEventView::Did) => join_at(
            s,
            if s.failure is Some {
                JoinStage::Finished
            } else {
                JoinStage::Redeem
            },
        ),
        (JoinStage::Redeem, JoinEventView::Redeemed(reply)) => JoinView {
            stage: JoinStage::Store,
            token: json::text_field(reply, "token"@),
            ..s
        },
        (JoinStage::Store, JoinEventView::Did) => if s.token is Some {
            join_at(s, JoinStage::Catalog)
        } else {
            join_failed(s, peer::peer_text(PeerErrorView::NoToken))
        },
        (JoinStage::Authenticate, JoinEventView::Authenticated(origin, token)) => JoinView {
            stage: JoinStage::Catalog,
            origin,
            token: Some(token),
            ..s
        },
        (JoinStage::Catalog, JoinEventView::Catalog(generation, projects)) => join_listed(
            s,
            generation,
            projects,
        ),
        (JoinStage::Place, JoinEventView::Placed(path)) => JoinView {
            stage: JoinStage::Look,
            destination: path,
            ..s
        },
        (JoinStage::Look, JoinEventView::Found(exists, identity)) => join_found(
            s,
            exists,
            identity,
        ),
        (JoinStage::Parent, JoinEventView::Did) => join_at(s, JoinStage::Materialize),
        (JoinStage::Materialize, JoinEventView::Materialized(local)) => JoinView {
            stage: JoinStage::Identify,
            local: Some(local),
            ..s
        },
        (JoinStage::Identify, JoinEventView::Identified(identity)) => match s.local {
            Some(local) => JoinView {
                stage: JoinStage::Configure,
                local: Some(with_identity(local, identity)),
                ..s
            },
            None => s,
        },
        (JoinStage::Configure, JoinEventView::Did) => join_at(s, JoinStage::Record),
        (JoinStage::Record, JoinEventView::Did) => join_at(s, JoinStage::Adapters),
        (JoinStage::Adapters, JoinEventView::Did) => join_at(
            s,
            if s.ticket {
                JoinStage::Reload
            } else {
                JoinStage::Finished
            },
        ),
        (JoinStage::Reload, JoinEventView::Did) => join_at(s, JoinStage::Finished),
        _ => s,
    }
}

impl Join {
    /// A machine that joins a project.
    pub fn new(ticket: bool, project_id: &str, places: Places) -> (r: Self)
        ensures
            r@ == join_start(ticket, project_id@, places@),
    {
        let stage = if ticket {
            JoinStage::Discover
        } else {
            JoinStage::Authenticate
        };
        let r = Join {
            stage,
            ticket,
            project_id: project_id.to_owned(),
            places,
            origin: String::new(),
            endpoint: String::new(),
            token: None,
            generation: 0,
            project: None,
            destination: String::new(),
            local: None,
            failure: None,
        };
        assert(r@ =~= join_start(ticket, project_id@, places@));
        r
    }

    fn kept_token(&self) -> (r: String)
        ensures
            r@ == token_of(self@),
    {
        match &self.token {
            Some(token) => token.clone(),
            None => {
                let none = String::new();
                assert(none@ =~= Seq::empty());
                none
            },
        }
    }

    fn checkout(&self) -> (r: String)
        ensures
            r@ == checkout_of(self@),
    {
        match &self.local {
            Some(local) => local.local_path.clone(),
            None => self.destination.clone(),
        }
    }

    /// What is to be done next.
    pub fn request(&self) -> (r: JoinAction)
        ensures
            r@ == join_requested(self@),
    {
        match self.stage {
            JoinStage::Discover => JoinAction::Discover,
            JoinStage::Key => JoinAction::Key,
            JoinStage::Redeem => JoinAction::Redeem(self.endpoint.clone()),
            JoinStage::Store => JoinAction::Store,
            JoinStage::Authenticate => JoinAction::Authenticate,
            JoinStage::Catalog => JoinAction::Catalog(self.origin.clone(), self.kept_token()),
            JoinStage::Place => JoinAction::Place,
            JoinStage::Look => JoinAction::Look(self.destination.clone()),
            JoinStage::Parent => JoinAction::Parent(self.destination.clone()),
            JoinStage::Materialize => JoinAction::Materialize(
                self.destination.clone(),
                self.kept_token(),
            ),
            JoinStage::Identify => JoinAction::Identify(
                self.checkout(),
                self.origin.clone(),
                self.project_id.clone(),
            ),
            JoinStage::Configure => JoinAction::Configure(self.checkout()),
            JoinStage::Record => JoinAction::Record(!self.ticket, self.generation),
            JoinStage::Adapters => JoinAction::Adapters(self.project_id.clone()),
            JoinStage::Reload => JoinAction::Reload,
            JoinStage::Finished => match &self.failure {
                Some(reason) => JoinAction::Fail(reason.clone()),
                None => JoinAction::Return,
            },
        }
    }

    fn fail(&mut self, reason: String)
        ensures
            final(self)@ == join_failed(old(self)@, reason@),
    {
        self.failure = Some(reason);
        self.stage = JoinStage::Finished;
    }

    fn listed(&mut self, generation: u64, projects: Vec<CatalogProject>)
        ensures
            final(self)@ == join_listed(
                old(self)@,
                generation,
                protocol::catalog_views(projects@),
            ),
    {
        let found = find_hosted(&projects, self.project_id.as_str());
        let at: usize = match found {
            None => {
                let reason = if self.ticket {
                    PeerError::Unauthorized.message()
                } else {
                    ProjectError::NotHosted.message()
                };
                self.fail(reason);
                return;
            },
            Some(at) => at,
        };
        let ghost all = protocol::catalog_views(projects@);
        let mut list = projects;
        let project = list.remove(at);
        assert(all[at as int] == project@);
        self.generation = generation;
        if self.ticket {
            self.destination = peer_destination(
                text_of(&self.places.into),
                text_of(&self.places.managed),
                text_of(&self.places.home),
                self.project_id.as_str(),
                project.name.as_str(),
            );
            self.stage = JoinStage::Look;
        } else {
            match &self.places.into {
                Some(path) => {
                    self.destination = path.clone();
                    self.stage = JoinStage::Look;
                },
                None => {
                    self.stage = JoinStage::Place;
                },
            }
        }
        self.project = Some(project);
    }

    fn refusal(&self, exists: bool, identity: &Option<Identity>) -> (r: Option<String>)
        ensures
            text::opt_view(r) == refusal_of(
                self@,
                exists,
                match *identity {
                    Some(current) => Some(current@),
                    None => None,
                },
            ),
    {
        match identity {
            Some(current) => {
                if !exists {
                    return None;
                }
                if self.ticket {
                    ticket_refused(current, self.origin.as_str(), self.project_id.as_str())
                } else {
                    account_refused(current, self.origin.as_str(), self.project_id.as_str())
                }
            },
            None => None,
        }
    }

    fn found(&mut self, exists: bool, identity: Option<Identity>)
        ensures
            final(self)@ == join_found(
                old(self)@,
                exists,
                match identity {
                    Some(current) => Some(current@),
                    None => None,
                },
            ),
    {
        match self.refusal(exists, &identity) {
            Some(reason) => {
                self.fail(reason);
            },
            None => {
                if self.ticket && !exists {
                    self.stage = JoinStage::Parent;
                } else {
                    self.stage = JoinStage::Materialize;
                }
            },
        }
    }

    fn did(&mut self)
        ensures
            final(self)@ == joined_after(old(self)@, JoinEventView::Did),
    {
        match self.stage {
            JoinStage::Key => {
                if self.failure.is_some() {
                    self.stage = JoinStage::Finished;
                } else {
                    self.stage = JoinStage::Redeem;
                }
            },
            JoinStage::Store => {
                if self.token.is_some() {
                    self.stage = JoinStage::Catalog;
                } else {
                    let reason = PeerError::NoToken.message();
                    self.fail(reason);
                }
            },
            JoinStage::Parent => {
                self.stage = JoinStage::Materialize;
            },
            JoinStage::Configure => {
                self.stage = JoinStage::Record;
            },
            JoinStage::Record => {
                self.stage = JoinStage::Adapters;
            },
            JoinStage::Adapters => {
                if self.ticket {
                    self.stage = JoinStage::Reload;
                } else {
                    self.stage = JoinStage::Finished;
                }
            },
            JoinStage::Reload => {
                self.stage = JoinStage::Finished;
            },
            _ => {},
        }
    }

    fn discovered(&mut self, d: Discovery)
        requires
            old(self)@.stage == JoinStage::Discover,
        ensures
            final(self)@ == joined_after(old(self)@, JoinEventView::Discovered(d@)),
    {
        match lookup(&d.endpoints, "redeem_join_ticket") {
            Some(url) => {
                self.endpoint = url;
                self.failure = None;
            },
            None => {
                let none = String::new();
                assert(none@ =~= Seq::empty());
                self.endpoint = none;
                self.failure = Some(PeerError::NoRedemption.message());
            },
        }
        self.origin = d.origin;
        self.stage = JoinStage::Key;
    }

    /// Takes what came of the step that was asked for.
    pub fn advance(&mut self, event: JoinEvent)
        ensures
            final(self)@ == joined_after(old(self)@, event@),
    {
        match event {
            JoinEvent::Failed(reason) => {
                if self.stage != JoinStage::Finished {
                    self.fail(reason);
                }
            },
            JoinEvent::Discovered(d) => {
                if self.stage == JoinStage::Discover {
                    self.discovered(d);
                }
            },
            JoinEvent::Redeemed(reply) => {
                if self.stage == JoinStage::Redeem {
                    self.token = match reply.text_at("token") {
                        Some(token) => Some(token.to_owned()),
                        None => None,
                    };
                    self.stage = JoinStage::Store;
                }
            },
            JoinEvent::Authenticated(origin, token) => {
                if self.stage == JoinStage::Authenticate {
                    self.origin = origin;
                    self.token = Some(token);
                    self.stage = JoinStage::Catalog;
                }
            },
            JoinEvent::Catalog(generation, projects) => {
                if self.stage == JoinStage::Catalog {
                    self.listed(generation, projects);
                }
            },
            JoinEvent::Placed(path) => {
                if self.stage == JoinStage::Place {
                    self.destination = path;
                    self.stage = JoinStage::Look;
                }
            },
            JoinEvent::Found(exists, identity) => {
                if self.stage == JoinStage::Look {
                    self.found(exists, identity);
                }
            },
            JoinEvent::Materialized(local) => {
                if self.stage == JoinStage::Materialize {
                    self.local = Some(local);
                    self.stage = JoinStage::Identify;
                }
            },
            JoinEvent::Identified(identity) => {
                if self.stage == JoinStage::Identify {
                    match self.local.take() {
                        Some(mut local) => {
                            local.service = identity.service;
                            local.checkout_id = identity.checkout_id;
                            self.local = Some(local);
                            self.stage = JoinStage::Configure;
                        },
                        None => {},
                    }
                }
            },
            JoinEvent::Did => {
                self.did();
            },
        }
    }
}

fn text_of(value: &Option<String>) -> (r: Option<&str>)
    ensures
        peer::str_view(r) == text::opt_view(*value),
{
    match value {
        Some(text) => Some(text.as_str()),
        None => None,
    }
}

fn ticket_refused(current: &Identity, origin: &str, project_id: &str) -> (r: Option<String>)
    ensures
        text::opt_view(r) == ticket_refusal(current@, origin@, project_id@),
{
    let relink = may_relink(current, origin, project_id);
    match relink {
        Ok(may) => {
            if may {
                None
            } else {
                Some(PeerError::Occupied.message())
            }
        },
        Err(e) => {
            Some(e.message())
        },
    }
}

fn account_refused(current: &Identity, origin: &str, project_id: &str) -> (r: Option<String>)
    ensures
        text::opt_view(r) == account_refusal(current@, origin@, project_id@),
{
    match (&current.service, &current.project_id) {
        (Some(service), Some(id)) => {
            if same_text(id.as_str(), project_id) && same_text(service.as_str(), origin) {
                None
            } else {
                let error = ProjectError::Belongs(service.clone(), id.clone());
                Some(error.message())
            }
        },
        _ => None,
    }
}

/// What holds after a number of steps.
pub open spec fn join_replayed(s: JoinView, events: Seq<JoinEventView>) -> JoinView
    decreases events.len(),
{
    if events.len() == 0 {
        s
    } else {
        joined_after(join_replayed(s, events.drop_last()), events.last())
    }
}

/// At event `j` the destination was looked at, and nothing stood against its use.
pub open spec fn found_free(s: JoinView, events: Seq<JoinEventView>, j: int) -> bool {
    let before = join_replayed(s, events.take(j));
    &&& 0 <= j < events.len()
    &&& before.stage == JoinStage::Look
    &&& events[j] matches JoinEventView::Found(exists, identity)
    &&& refusal_of(before, exists, identity) is None
}

/// After the destination was looked at.
pub open spec fn is_late(stage: JoinStage) -> bool {
    stage == JoinStage::Parent || stage == JoinStage::Materialize || stage == JoinStage::Identify
        || stage == JoinStage::Configure || stage == JoinStage::Record || stage
        == JoinStage::Adapters || stage == JoinStage::Reload
}

/// The project was joined.
pub open spec fn is_joined(s: JoinView) -> bool {
    s.stage == JoinStage::Finished && s.failure is None
}

/// Nothing is put into a destination that belongs to another project: that was looked at before, and
/// the project that is put there is the one that the catalog lists under the identifier that was
/// asked for.
pub proof fn law_occupied_destination_is_left(
    ticket: bool,
    project_id: Seq<char>,
    places: PlacesView,
    events: Seq<JoinEventView>,
)
    ensures
        ({
            let s = join_start(ticket, project_id, places);
            let now = join_replayed(s, events);
            &&& now.project_id == project_id
            &&& now.project matches Some(p) ==> p.project_id == project_id
            &&& is_late(now.stage) || is_joined(now) ==> now.project is Some && exists|j: int|
                #[trigger] found_free(s, events, j)
            &&& is_joined(now) ==> now.local is Some
        }),
    decreases events.len(),
{
    let s = join_start(ticket, project_id, places);
    let now = join_replayed(s, events);
    if events.len() > 0 {
        let before = events.drop_last();
        let last = events.len() - 1;
        law_occupied_destination_is_left(ticket, project_id, places, before);
        lemma_steps_before(s, before);
        lemma_join_step(join_replayed(s, before), events.last());
        assert(events.take(last) =~= before);
        if is_late(now.stage) || is_joined(now) {
            if join_replayed(s, before).stage == JoinStage::Look {
                assert(found_free(s, events, last));
            } else {
                let j = choose|j: int| #[trigger] found_free(s, before, j);
                assert(events.take(j) =~= before.take(j));
                assert(found_free(s, events, j));
            }
        }
    }
}

/// What one step does to what is known of the project.
proof fn lemma_join_step(was: JoinView, e: JoinEventView)
    requires
        was.project matches Some(p) ==> p.project_id == was.project_id,
        was.stage == JoinStage::Look || was.stage == JoinStage::Place || is_late(was.stage)
            ==> was.project is Some && was.failure is None,
        was.stage != JoinStage::Key && was.stage != JoinStage::Finished ==> was.failure is None,
        was.stage == JoinStage::Identify || was.stage == JoinStage::Configure || was.stage
            == JoinStage::Record || was.stage == JoinStage::Adapters || was.stage
            == JoinStage::Reload ==> was.local is Some,
        is_joined(was) ==> was.project is Some && was.local is Some,
    ensures
        ({
            let now = joined_after(was, e);
            &&& now.project_id == was.project_id
            &&& now.project matches Some(p) ==> p.project_id == was.project_id
            &&& is_late(now.stage) || is_joined(now) ==> now.project is Some && (is_late(was.stage)
                || is_joined(was) || (was.stage == JoinStage::Look && (
            e matches JoinEventView::Found(there, identity) && refusal_of(was, there, identity)
                is None)))
            &&& is_joined(now) ==> now.local is Some
        }),
{
    if was.stage == JoinStage::Catalog && e is Catalog {
        lemma_hosted(e->Catalog_1, was.project_id, 0);
    }
}

/// What is known at the different stages.
proof fn lemma_steps_before(s: JoinView, events: Seq<JoinEventView>)
    requires
        s.project is None,
        s.local is None,
        s.failure is None,
        s.stage == JoinStage::Discover || s.stage == JoinStage::Authenticate,
    ensures
        ({
            let now = join_replayed(s, events);
            &&& (now.stage == JoinStage::Look || now.stage == JoinStage::Place || is_late(now.stage))
                ==> now.project is Some && now.failure is None
            &&& now.stage != JoinStage::Key && now.stage != JoinStage::Finished ==> now.failure is None
            &&& (now.stage == JoinStage::Identify || now.stage == JoinStage::Configure || now.stage
                == JoinStage::Record || now.stage == JoinStage::Adapters || now.stage
                == JoinStage::Reload) ==> now.local is Some
        }),
    decreases events.len(),
{
    if events.len() > 0 {
        lemma_steps_before(s, events.drop_last());
    }
}

proof fn lemma_hosted(projects: Seq<CatalogProjectView>, id: Seq<char>, from: int)
    requires
        0 <= from,
    ensures
        peer::hosted_position(projects, id, from) matches Some(i) ==> from <= i < projects.len()
            && projects[i].project_id == id,
    decreases projects.len() - from,
{
    if from < projects.len() {
        lemma_hosted(projects, id, from + 1);
    }
}

} // verus!
