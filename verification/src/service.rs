//! The daemon: what it knows, and how it answers requests.
use vstd::prelude::*;
use crate::daemon;
use crate::json;
use crate::publication;
use crate::state;
use crate::text;
use crate::text_map;
use crate::access::Access;
use crate::daemon::{
    access_state, find_project, migrate_projects, parse_method, queue_summary, register_project,
    release, report_checkout, AccessState, AccessStateView, DaemonError, Method, MethodView,
    QueueSummary, QueueSummaryView,
};
use crate::json::Json;
use crate::publication::{Publication, PublicationQueue, PublicationView};
use crate::state::{LocalCatalog, LocalProject, LocalProjectView};
use crate::text_map::{put_text, TextMap};

verus! {

/// What the daemon knows.
#[derive(Debug)]
pub struct ResyncDaemon {
    /// The fingerprint of the program.
    pub binary_id: String,
    pub catalog: LocalCatalog,
    pub publications: PublicationQueue,
    /// The projects that leases are on.
    pub lease_projects: TextMap<String>,
}

/// What a [`ResyncDaemon`] holds.
pub struct ResyncDaemonView {
    pub binary_id: Seq<char>,
    pub generation: u64,
    pub projects: Seq<LocalProjectView>,
    pub publications: Seq<PublicationView>,
    pub queue_version: u32,
    pub leases: Map<Seq<char>, Seq<char>>,
}

impl View for ResyncDaemon {
    type V = ResyncDaemonView;

    open spec fn view(&self) -> ResyncDaemonView {
        ResyncDaemonView {
            binary_id: self.binary_id@,
            generation: self.catalog.catalog_generation,
            projects: state::project_views(self.catalog.projects@),
            publications: publication::publication_views(self.publications.publications@),
            queue_version: self.publications.version,
            leases: text_map::texts(self.lease_projects@),
        }
    }
}

/// How the daemon answers a request, or what is to be done to answer it.
#[derive(Debug)]
pub enum Reply {
    /// The fingerprint of the program.
    Pong(String),
    /// A project is known now, under its identifier, at a generation of the catalog.
    Registered(String, u64),
    /// Load the catalog again, refresh it, and publish what waits.
    Reload,
    /// The positions of projects in the catalog, each with what waits to be published.
    Status(Vec<(usize, QueueSummary)>),
    /// Grant access to a project.
    Acquire(String),
    /// How a project may be used.
    Access(AccessState),
    /// A lease on this project is over.
    Released(String),
    /// Synchronize a project.
    Sync(String),
    /// Publish a branch of a project, or the one that it is on.
    Publish(String, Option<String>),
    /// Queue a commit: the project, the branch, and the commit.
    Queue(String, String, String),
    /// Queue the commit of the branch before, if one is given, then record the new branch of the
    /// project, and refresh: the project, the new branch, the branch before, and its commit.
    Checkout(String, String, Option<String>, String),
}

/// What a [`Reply`] holds.
pub enum ReplyView {
    Pong(Seq<char>),
    Registered(Seq<char>, u64),
    Reload,
    Status(Seq<(int, QueueSummaryView)>),
    Acquire(Seq<char>),
    Access(AccessStateView),
    Released(Seq<char>),
    Sync(Seq<char>),
    Publish(Seq<char>, Option<Seq<char>>),
    Queue(Seq<char>, Seq<char>, Seq<char>),
    Checkout(Seq<char>, Seq<char>, Option<Seq<char>>, Seq<char>),
}

/// The contents of a list of projects with what waits of them.
pub open spec fn status_views(list: Seq<(usize, QueueSummary)>) -> Seq<(int, QueueSummaryView)> {
    list.map_values(|item: (usize, QueueSummary)| (item.0 as int, item.1@))
}

impl View for Reply {
    type V = ReplyView;

    open spec fn view(&self) -> ReplyView {
        match *self {
            Reply::Pong(id) => ReplyView::Pong(id@),
            Reply::Registered(id, generation) => ReplyView::Registered(id@, generation),
            Reply::Reload => ReplyView::Reload,
            Reply::Status(list) => ReplyView::Status(status_views(list@)),
            Reply::Acquire(id) => ReplyView::Acquire(id@),
            Reply::Access(state) => ReplyView::Access(state@),
            Reply::Released(id) => ReplyView::Released(id@),
            Reply::Sync(id) => ReplyView::Sync(id@),
            Reply::Publish(id, branch) => ReplyView::Publish(id@, text::opt_view(branch)),
            Reply::Queue(id, branch, commit) => ReplyView::Queue(id@, branch@, commit@),
            Reply::Checkout(id, branch, before, oid) => ReplyView::Checkout(
                id@,
                branch@,
                text::opt_view(before),
                oid@,
            ),
        }
    }
}

/// The projects at positions from `from` up to `to`, with what waits of them.
pub open spec fn statuses(s: ResyncDaemonView, from: int, to: int) -> Seq<(int, QueueSummaryView)> {
    Seq::new(
        (to - from) as nat,
        |i: int|
            (
                from + i,
                daemon::summary(
                    s.publications,
                    s.projects[from + i].project_id,
                    s.publications.len() as int,
                ),
            ),
    )
}

/// How a project may be used.
pub open spec fn access_of(p: LocalProjectView) -> AccessStateView {
    AccessStateView {
        state: text::lower_text(p.state),
        reconciliation_mode: p.state == "CONFLICTED"@,
        branch: state::branch_of(p),
        remote_ref: daemon::remote_branch(p.remote_name, state::branch_of(p)),
    }
}

/// The branch whose commit is queued when another one is checked out.
pub open spec fn left_branch(active: Option<Seq<char>>, new: Seq<char>, oid: Seq<char>) -> Option<
    Seq<char>,
> {
    match active {
        Some(previous) => if previous != new && daemon::names_object(oid) {
            Some(previous)
        } else {
            None
        },
        None => None,
    }
}

/// The generation of the catalog after a project was registered.
pub open spec fn generation_after(current: u64, given: Option<u64>) -> u64 {
    match given {
        Some(n) => if n > current {
            n
        } else {
            current
        },
        None => current,
    }
}

/// The project that a request cannot do without.
pub open spec fn looked_for(method: MethodView) -> Option<Seq<char>> {
    match method {
        MethodView::Status(id) => id,
        MethodView::Access(id) => Some(id),
        MethodView::Checkout(id, _, _) => Some(id),
        _ => None,
    }
}

/// The answer to a request, and what the daemon knows after it: only registering a project and
/// releasing a lease change that.
pub open spec fn answers(
    s: ResyncDaemonView,
    method: MethodView,
    project: Option<LocalProjectView>,
) -> (ReplyView, ResyncDaemonView) {
    match method {
        MethodView::Ping => (ReplyView::Pong(s.binary_id), s),
        MethodView::Register(given) => {
            let p = project->0;
            let generation = generation_after(s.generation, given);
            (
                ReplyView::Registered(p.project_id, generation),
                ResyncDaemonView {
                    generation,
                    projects: daemon::unrelated(s.projects, p).push(p),
                    ..s
                },
            )
        },
        MethodView::Reload => (ReplyView::Reload, s),
        MethodView::Status(id) => match id {
            Some(name) => {
                let i = daemon::project_position(s.projects, name, 0)->0;
                (ReplyView::Status(statuses(s, i, i + 1)), s)
            },
            None => (ReplyView::Status(statuses(s, 0, s.projects.len() as int)), s),
        },
        MethodView::Acquire(id) => (ReplyView::Acquire(id), s),
        MethodView::Access(id) => (
            ReplyView::Access(access_of(s.projects[daemon::project_position(s.projects, id, 0)->0])),
            s,
        ),
        MethodView::Release(lease) => (
            ReplyView::Released(s.leases[lease]),
            ResyncDaemonView { leases: s.leases.remove(lease), ..s },
        ),
        MethodView::Sync(id) => (ReplyView::Sync(id), s),
        MethodView::Publish(id, branch) => (ReplyView::Publish(id, branch), s),
        MethodView::Commit(id, branch, commit) => (ReplyView::Queue(id, branch, commit), s),
        MethodView::Checkout(id, branch, oid) => (
            ReplyView::Checkout(
                id,
                branch,
                left_branch(
                    s.projects[daemon::project_position(s.projects, id, 0)->0].active_branch,
                    branch,
                    oid,
                ),
                oid,
            ),
            s,
        ),
    }
}

impl ResyncDaemon {
    /// A daemon that knows projects and publications, and has granted no lease.
    pub fn from_parts(
        binary_id: String,
        catalog: LocalCatalog,
        publications: PublicationQueue,
    ) -> (r: Self)
        ensures
            r@ == (ResyncDaemonView {
                binary_id: binary_id@,
                generation: catalog.catalog_generation,
                projects: state::project_views(catalog.projects@).map_values(
                    |p: LocalProjectView| daemon::migrated(p),
                ),
                publications: publication::publication_views(publications.publications@),
                queue_version: publications.version,
                leases: Map::empty(),
            }),
            r.publications == publications,
    {
        let mut catalog = catalog;
        migrate_projects(&mut catalog.projects);
        let r = ResyncDaemon { binary_id, catalog, publications, lease_projects: TextMap::new() };
        assert(r@.leases =~= Map::empty());
        r
    }

    /// The project that goes by a name.
    pub fn project_snapshot(&self, id: &str) -> (r: Result<&LocalProject, DaemonError>)
        ensures
            match r {
                Ok(project) => match daemon::project_position(self@.projects, id@, 0) {
                    Some(i) => 0 <= i < self@.projects.len() && project@ == self@.projects[i],
                    None => false,
                },
                Err(e) => daemon::project_position(self@.projects, id@, 0) is None && (
                e matches DaemonError::UnknownProject(name) && name@ == id@),
            },
    {
        match find_project(&self.catalog.projects, id) {
            Ok(i) => {
                assert(self@.projects[i as int] == self.catalog.projects@[i as int]@);
                Ok(&self.catalog.projects[i])
            },
            Err(e) => Err(e),
        }
    }

    fn status_of(&self, from: usize, to: usize) -> (r: Vec<(usize, QueueSummary)>)
        requires
            from <= to <= self.catalog.projects.len(),
        ensures
            status_views(r@) == statuses(self@, from as int, to as int),
    {
        let mut r: Vec<(usize, QueueSummary)> = Vec::new();
        let mut i: usize = from;
        while i < to
            invariant
                from <= i <= to <= self.catalog.projects.len(),
                r.len() == i - from,
                forall|j: int|
                    0 <= j < r.len() ==> (#[trigger] r@[j]).0 == from + j && r@[j].1@ == statuses(
                        self@,
                        from as int,
                        to as int,
                    )[j].1,
            decreases to - i,
        {
            assert(self@.projects[i as int] == self.catalog.projects@[i as int]@);
            let item = queue_summary(
                &self.publications,
                self.catalog.projects[i].project_id.as_str(),
            );
            r.push((i, item));
            i += 1;
        }
        assert(status_views(r@) =~= statuses(self@, from as int, to as int));
        r
    }

    fn register(&mut self, project: LocalProject, given: Option<u64>) -> (r: Reply)
        ensures
            answers(old(self)@, MethodView::Register(given), Some(project@)) == (
                r@,
                final(self)@,
            ),
    {
        let mut catalog = LocalCatalog { catalog_generation: 0, projects: Vec::new() };
        std::mem::swap(&mut catalog, &mut self.catalog);
        let id = project.project_id.clone();
        self.catalog = register_project(catalog, project, given);
        Reply::Registered(id, self.catalog.catalog_generation)
    }

    /// Answers a request; `project` is the project that it brings, where it brings one.
    pub fn handle(&mut self, request: &Json, project: Option<LocalProject>) -> (r: Result<
        Reply,
        DaemonError,
    >)
        ensures
            ({
                let s = old(self)@;
                let missing = daemon::first_missing(*request, daemon::required_fields(daemon::method_name(*request)));
                let method = daemon::parsed_method(*request);
                let brought = match project {
                    Some(p) => Some(p@),
                    None => None,
                };
                match r {
                    Ok(reply) => {
                        &&& missing is None
                        &&& method is Some
                        &&& method->0 is Register ==> brought is Some && json::field(
                            *request,
                            "project"@,
                        ) is Some
                        &&& looked_for(method->0) matches Some(id) ==> daemon::project_position(
                            s.projects,
                            id,
                            0,
                        ) is Some
                        &&& method->0 matches MethodView::Release(lease)
                            ==> s.leases.contains_key(lease)
                        &&& answers(s, method->0, brought) == (reply@, final(self)@)
                    },
                    Err(DaemonError::MissingField(name)) => missing == Some(name@)
                        && final(self)@ == s,
                    Err(DaemonError::UnknownMethod(name)) => method is None && name@
                        == daemon::method_name(*request) && final(self)@ == s,
                    Err(DaemonError::NoProject) => daemon::method_name(*request) == "registerProject"@ && (
                    json::field(*request, "project"@) is None || project is None) && final(self)@ == s,
                    Err(DaemonError::UnknownProject(name)) => missing is None && (
                    method matches Some(m) && looked_for(m) == Some(name@)) && daemon::project_position(
                        s.projects,
                        name@,
                        0,
                    ) is None && final(self)@ == s,
                    Err(DaemonError::UnknownLease) => missing is None && (
                    method matches Some(MethodView::Release(lease)) && !s.leases.contains_key(
                        lease,
                    )) && final(self)@ == s,
                    Err(_) => false,
                }
            }),
    {
        let method = match parse_method(request) {
            Ok(method) => method,
            Err(e) => {
                return Err(e);
            },
        };
        match method {
            Method::Ping => Ok(Reply::Pong(self.binary_id.clone())),
            Method::Register(given) => match project {
                Some(p) => Ok(self.register(p, given)),
                None => {
                    proof {
                        lemma_register_name(*request);
                    }
                    Err(DaemonError::NoProject)
                },
            },
            Method::Reload => Ok(Reply::Reload),
            Method::Status(id) => match id {
                Some(name) => match find_project(&self.catalog.projects, name.as_str()) {
                    Ok(i) => Ok(Reply::Status(self.status_of(i, i + 1))),
                    Err(e) => Err(e),
                },
                None => Ok(Reply::Status(self.status_of(0, self.catalog.projects.len()))),
            },
            Method::Acquire(id) => Ok(Reply::Acquire(id)),
            Method::Access(id) => match self.project_snapshot(id.as_str()) {
                Ok(p) => Ok(Reply::Access(access_state(p))),
                Err(e) => Err(e),
            },
            Method::Release(lease) => match release(&mut self.lease_projects, lease.as_str()) {
                Ok(id) => Ok(Reply::Released(id)),
                Err(e) => {
                    assert(self@.leases =~= old(self)@.leases);
                    Err(e)
                },
            },
            Method::Sync(id) => Ok(Reply::Sync(id)),
            Method::Publish(id, branch) => Ok(Reply::Publish(id, branch)),
            Method::Commit(id, branch, commit) => Ok(Reply::Queue(id, branch, commit)),
            Method::Checkout(id, branch, oid) => {
                let before = match self.project_snapshot(id.as_str()) {
                    Ok(p) => report_checkout(&p.active_branch, branch.as_str(), oid.as_str()),
                    Err(e) => {
                        return Err(e);
                    },
                };
                Ok(Reply::Checkout(id, branch, before, oid))
            },
        }
    }

    /// Records the branch that a project is on.
    pub fn record_checkout(&mut self, id: &str, branch: &str) -> (r: Result<(), DaemonError>)
        ensures
            match r {
                Ok(_) => match daemon::project_position(old(self)@.projects, id@, 0) {
                    Some(i) => final(self)@ == (ResyncDaemonView {
                        projects: old(self)@.projects.update(
                            i,
                            LocalProjectView {
                                active_branch: Some(branch@),
                                ..old(self)@.projects[i]
                            },
                        ),
                        ..old(self)@
                    }),
                    None => false,
                },
                Err(e) => daemon::project_position(old(self)@.projects, id@, 0) is None && (
                e matches DaemonError::UnknownProject(name) && name@ == id@) && final(self)@ == old(
                    self,
                )@,
            },
    {
        match find_project(&self.catalog.projects, id) {
            Ok(i) => {
                assert(self@.projects[i as int] == self.catalog.projects@[i as int]@);
                self.catalog.projects[i].active_branch = Some(branch.to_owned());
                assert(self@.projects =~= old(self)@.projects.update(
                    i as int,
                    LocalProjectView {
                        active_branch: Some(branch@),
                        ..old(self)@.projects[i as int]
                    },
                ));
                Ok(())
            },
            Err(e) => Err(e),
        }
    }

    /// Notes that a lease is on a project.
    pub fn grant_lease(&mut self, project_id: &str, lease: &str)
        ensures
            final(self)@ == (ResyncDaemonView {
                leases: old(self)@.leases.insert(lease@, project_id@),
                ..old(self)@
            }),
    {
        put_text(&mut self.lease_projects, lease, project_id);
    }

    /// Queues a publication; the commits of its project are not all on the remote then.
    pub fn queue_publication(&mut self, id: &str, publication: Publication) -> (r: Result<
        (),
        DaemonError,
    >)
        ensures
            final(self)@.publications == old(self)@.publications.push(publication@),
            final(self)@.leases == old(self)@.leases,
            final(self)@.generation == old(self)@.generation,
            final(self)@.binary_id == old(self)@.binary_id,
            final(self)@.queue_version == old(self)@.queue_version,
            match r {
                Ok(_) => match daemon::project_position(old(self)@.projects, id@, 0) {
                    Some(i) => final(self)@.projects == old(self)@.projects.update(
                        i,
                        LocalProjectView {
                            durability: "COMMITTED_UNPUBLISHED"@,
                            ..old(self)@.projects[i]
                        },
                    ),
                    None => false,
                },
                Err(e) => daemon::project_position(old(self)@.projects, id@, 0) is None && (
                e matches DaemonError::UnknownProject(name) && name@ == id@)
                    && final(self)@.projects == old(self)@.projects,
            },
    {
        let ghost view = publication@;
        self.publications.publications.push(publication);
        assert(self@.publications =~= old(self)@.publications.push(view));
        match find_project(&self.catalog.projects, id) {
            Ok(i) => {
                assert(self@.projects[i as int] == self.catalog.projects@[i as int]@);
                self.catalog.projects[i].durability = "COMMITTED_UNPUBLISHED".to_owned();
                assert(self@.projects =~= old(self)@.projects.update(
                    i as int,
                    LocalProjectView {
                        durability: "COMMITTED_UNPUBLISHED"@,
                        ..old(self)@.projects[i as int]
                    },
                ));
                Ok(())
            },
            Err(e) => Err(e),
        }
    }
}

proof fn lemma_register_name(request: Json)
    ensures
        daemon::parsed_method(request) matches Some(MethodView::Register(_)) ==> daemon::method_name(request)
            == "registerProject"@,
{
}

/// A registered project is what a request for its state is answered with, whatever was known
/// before, unless an earlier project has its identifier for a path.
pub proof fn law_registered_is_used(s: ResyncDaemonView, p: LocalProjectView, given: Option<u64>)
    requires
        forall|i: int| 0 <= i < s.projects.len() ==> (#[trigger] s.projects[i]).local_path
            != p.project_id,
    ensures
        ({
            let now = answers(s, MethodView::Register(given), Some(p)).1;
            answers(now, MethodView::Access(p.project_id), None).0 == ReplyView::Access(
                access_of(p),
            )
        }),
{
    let now = daemon::unrelated(s.projects, p).push(p);
    daemon::law_registered_is_found(s.projects, p);
    lemma_unrelated_from(s.projects, p);
    assert forall|i: int| 0 <= i < now.len() - 1 implies !daemon::goes_by(
        #[trigger] now[i],
        p.project_id,
    ) by {}
    lemma_position_last(now, p.project_id, 0);
}

proof fn lemma_unrelated_from(projects: Seq<LocalProjectView>, p: LocalProjectView)
    ensures
        forall|i: int|
            0 <= i < daemon::unrelated(projects, p).len() ==> projects.contains(
                #[trigger] daemon::unrelated(projects, p)[i],
            ),
    decreases projects.len(),
{
    if projects.len() > 0 {
        let front = projects.drop_last();
        lemma_unrelated_from(front, p);
        let kept = daemon::unrelated(projects, p);
        assert forall|i: int| 0 <= i < kept.len() implies projects.contains(#[trigger] kept[i]) by {
            if i < daemon::unrelated(front, p).len() {
                assert(front.contains(daemon::unrelated(front, p)[i]));
                let j = choose|j: int| 0 <= j < front.len() && front[j] == kept[i];
                assert(projects[j] == kept[i]);
            } else {
                assert(projects[projects.len() - 1] == kept[i]);
            }
        }
    }
}

proof fn lemma_position_last(projects: Seq<LocalProjectView>, id: Seq<char>, from: int)
    requires
        0 <= from < projects.len(),
        daemon::goes_by(projects.last(), id),
        forall|i: int| 0 <= i < projects.len() - 1 ==> !daemon::goes_by(#[trigger] projects[i], id),
    ensures
        daemon::project_position(projects, id, from) == Some(projects.len() - 1),
    decreases projects.len() - from,
{
    if from < projects.len() - 1 {
        lemma_position_last(projects, id, from + 1);
    }
}

} // verus!
