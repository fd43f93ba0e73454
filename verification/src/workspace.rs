//! Directories that hold several projects.
use vstd::prelude::*;
use crate::paths;
use crate::state;
use crate::text;
use crate::paths::{absolute_path, components_of, parent_of, same_path};
use crate::state::{LocalProject, LocalProjectView};
use crate::text::{cat2, cat3, cat4, cat5, copy_option, decimal_text, same_text};

verus! {

/// The name of the file that describes a workspace.
pub const WORKSPACE_MANIFEST_NAME: &'static str = ".resync-workspace.toml";

/// A project as a manifest names it.
#[derive(Debug, Clone, PartialEq, Eq)]
pub struct WorkspaceProjectDocument {
    pub path: String,
    pub project_id: Option<String>,
}

/// What a [`WorkspaceProjectDocument`] holds.
pub struct WorkspaceProjectDocumentView {
    pub path: Seq<char>,
    pub project_id: Option<Seq<char>>,
}

impl View for WorkspaceProjectDocument {
    type V = WorkspaceProjectDocumentView;

    open spec fn view(&self) -> WorkspaceProjectDocumentView {
        WorkspaceProjectDocumentView {
            path: self.path@,
            project_id: text::opt_view(self.project_id),
        }
    }
}

impl WorkspaceProjectDocument {
    /// A second value with the same contents.
    pub fn copy(&self) -> (r: Self)
        ensures
            r@ == self@,
    {
        WorkspaceProjectDocument {
            path: self.path.clone(),
            project_id: copy_option(&self.project_id),
        }
    }
}

/// What a manifest says.
#[derive(Debug, Clone, PartialEq, Eq)]
pub struct WorkspaceDocument {
    pub version: u32,
    pub project: Vec<WorkspaceProjectDocument>,
}

/// A project of a workspace.
#[derive(Debug, Clone, PartialEq, Eq)]
pub struct WorkspaceProject {
    pub project_id: String,
    pub local_path: String,
}

/// What a [`WorkspaceProject`] holds.
pub struct WorkspaceProjectView {
    pub project_id: Seq<char>,
    pub local_path: Seq<char>,
}

impl View for WorkspaceProject {
    type V = WorkspaceProjectView;

    open spec fn view(&self) -> WorkspaceProjectView {
        WorkspaceProjectView {
            project_id: self.project_id@,
            local_path: self.local_path@,
        }
    }
}

impl WorkspaceProject {
    /// A second value with the same contents.
    pub fn copy(&self) -> (r: Self)
        ensures
            r@ == self@,
    {
        WorkspaceProject {
            project_id: self.project_id.clone(),
            local_path: self.local_path.clone(),
        }
    }
}

/// A directory that holds several projects.
#[derive(Debug, Clone, PartialEq, Eq)]
pub struct Workspace {
    pub root: String,
    pub manifest_path: String,
    pub projects: Vec<WorkspaceProject>,
}

/// The contents of a list of projects.
pub open spec fn workspace_projects(list: Seq<WorkspaceProject>) -> Seq<WorkspaceProjectView> {
    list.map_values(|p: WorkspaceProject| p@)
}

/// The contents of the entries of a manifest.
pub open spec fn entry_documents(list: Seq<WorkspaceProjectDocument>) -> Seq<
    WorkspaceProjectDocumentView,
> {
    list.map_values(|p: WorkspaceProjectDocument| p@)
}

/// Why a manifest is not accepted.
#[derive(Debug, Clone, PartialEq, Eq)]
pub enum WorkspaceError {
    /// A version that is not known.
    Version(u32),
    /// No project.
    Empty,
    /// The manifest lies in no directory.
    NoDirectory,
    /// The manifest does not lie in the directory that was named.
    Elsewhere,
    /// A path that is not relative.
    Absolute(String),
    /// A path that cannot be resolved, for the reason given.
    Unresolved(String, String),
    /// A path outside of the workspace.
    Escapes(String),
    /// A path where no project is checked out.
    NotSubscribed(String),
    /// A path, the project that was expected there, and the one that is there.
    WrongProject(String, String, String),
    /// A path that occurs twice.
    RepeatedPath(String),
    /// A project that occurs twice.
    RepeatedProject(String),
}

/// What a [`WorkspaceError`] holds.
pub enum WorkspaceErrorView {
    Version(u32),
    Empty,
    NoDirectory,
    Elsewhere,
    Absolute(Seq<char>),
    Unresolved(Seq<char>, Seq<char>),
    Escapes(Seq<char>),
    NotSubscribed(Seq<char>),
    WrongProject(Seq<char>, Seq<char>, Seq<char>),
    RepeatedPath(Seq<char>),
    RepeatedProject(Seq<char>),
}

impl View for WorkspaceError {
    type V = WorkspaceErrorView;

    open spec fn view(&self) -> WorkspaceErrorView {
        match *self {
            WorkspaceError::Version(a) => WorkspaceErrorView::Version(a),
            WorkspaceError::Empty => WorkspaceErrorView::Empty,
            WorkspaceError::NoDirectory => WorkspaceErrorView::NoDirectory,
            WorkspaceError::Elsewhere => WorkspaceErrorView::Elsewhere,
            WorkspaceError::Absolute(a) => WorkspaceErrorView::Absolute(a@),
            WorkspaceError::Unresolved(a, b) => WorkspaceErrorView::Unresolved(a@, b@),
            WorkspaceError::Escapes(a) => WorkspaceErrorView::Escapes(a@),
            WorkspaceError::NotSubscribed(a) => WorkspaceErrorView::NotSubscribed(a@),
            WorkspaceError::WrongProject(a, b, c) => WorkspaceErrorView::WrongProject(a@, b@, c@),
            WorkspaceError::RepeatedPath(a) => WorkspaceErrorView::RepeatedPath(a@),
            WorkspaceError::RepeatedProject(a) => WorkspaceErrorView::RepeatedProject(a@),
        }
    }
}

/// What a [`WorkspaceError`] says.
pub open spec fn workspace_text(e: WorkspaceErrorView) -> Seq<char> {
    match e {
        WorkspaceErrorView::Version(n) => "unsupported workspace manifest version "@ + text::decimal(
            n as nat,
        ) + "; expected 1"@,
        WorkspaceErrorView::Empty => "workspace manifest must configure at least one project"@,
        WorkspaceErrorView::NoDirectory => "workspace manifest has no parent directory"@,
        WorkspaceErrorView::Elsewhere => "workspace manifest must be located directly beneath the workspace root"@,
        WorkspaceErrorView::Absolute(path) => "workspace project paths must be relative: "@ + path,
        WorkspaceErrorView::Unresolved(path, reason) => "resolve workspace project path "@ + path
            + ": "@ + reason,
        WorkspaceErrorView::Escapes(path) => "workspace project path escapes the workspace root: "@
            + path,
        WorkspaceErrorView::NotSubscribed(path) => "workspace project "@ + path
            + " is not a locally subscribed RepoSync checkout"@,
        WorkspaceErrorView::WrongProject(path, expected, actual) => "workspace project "@ + path
            + " expected ID "@ + expected + (", but the local checkout is "@ + actual),
        WorkspaceErrorView::RepeatedPath(path) => "workspace project path is configured more than once: "@
            + path,
        WorkspaceErrorView::RepeatedProject(id) => "workspace project ID is configured more than once: "@
            + id,
    }
}

impl WorkspaceError {
    /// The message of the error.
    pub fn message(&self) -> (r: String)
        ensures
            r@ == workspace_text(self@),
    {
        match self {
            WorkspaceError::Version(n) => {
                let number = decimal_text(*n as u64);
                cat3("unsupported workspace manifest version ", number.as_str(), "; expected 1")
            },
            WorkspaceError::Empty => {
                "workspace manifest must configure at least one project".to_owned()
            },
            WorkspaceError::NoDirectory => "workspace manifest has no parent directory".to_owned(),
            WorkspaceError::Elsewhere => {
                "workspace manifest must be located directly beneath the workspace root".to_owned()
            },
            WorkspaceError::Absolute(path) => {
                cat2("workspace project paths must be relative: ", path.as_str())
            },
            WorkspaceError::Unresolved(path, reason) => cat4(
                "resolve workspace project path ",
                path.as_str(),
                ": ",
                reason.as_str(),
            ),
            WorkspaceError::Escapes(path) => {
                cat2("workspace project path escapes the workspace root: ", path.as_str())
            },
            WorkspaceError::NotSubscribed(path) => cat3(
                "workspace project ",
                path.as_str(),
                " is not a locally subscribed RepoSync checkout",
            ),
            WorkspaceError::WrongProject(path, expected, actual) => {
                let end = cat2(", but the local checkout is ", actual.as_str());
                cat5(
                    "workspace project ",
                    path.as_str(),
                    " expected ID ",
                    expected.as_str(),
                    end.as_str(),
                )
            },
            WorkspaceError::RepeatedPath(path) => {
                cat2("workspace project path is configured more than once: ", path.as_str())
            },
            WorkspaceError::RepeatedProject(id) => {
                cat2("workspace project ID is configured more than once: ", id.as_str())
            },
        }
    }
}

/// Whether a path lies below a directory.
pub open spec fn lies_below(root: Seq<char>, path: Seq<char>) -> bool {
    paths::is_absolute(root) == paths::is_absolute(path) && paths::components(root).len() < paths::components(path).len()
        && paths::components(root).is_prefix_of(paths::components(path))
}

fn below(root: &str, path: &str) -> (r: bool)
    ensures
        r == lies_below(root@, path@),
{
    if absolute_path(root) != absolute_path(path) {
        return false;
    }
    let a = components_of(root);
    let b = components_of(path);
    let ghost x = paths::components(root@);
    let ghost y = paths::components(path@);
    assert(x.len() == a.len() && y.len() == b.len());
    if a.len() >= b.len() {
        return false;
    }
    let mut i: usize = 0;
    while i < a.len()
        invariant
            0 <= i <= a.len(),
            a.len() < b.len(),
            x == text::views(a@),
            y == text::views(b@),
            x.len() == a.len(),
            y.len() == b.len(),
            x == paths::components(root@),
            y == paths::components(path@),
            forall|j: int| 0 <= j < i ==> x[j] == #[trigger] y[j],
        decreases a.len() - i,
    {
        assert(x[i as int] == a@[i as int]@);
        assert(y[i as int] == b@[i as int]@);
        if !same_text(a[i].as_str(), b[i].as_str()) {
            assert(x[i as int] != y.subrange(0, x.len() as int)[i as int]);
            return false;
        }
        i += 1;
    }
    assert(x =~= y.subrange(0, x.len() as int));
    true
}

/// The position of the project that is checked out at a path, from `from` on; `paths` are the
/// paths of the projects, where they exist.
pub open spec fn checkout_position(
    paths: Seq<Option<Seq<char>>>,
    path: Seq<char>,
    from: int,
) -> Option<int>
    decreases paths.len() - from,
{
    if from < 0 || from >= paths.len() {
        None
    } else if paths[from] matches Some(there) && paths::same_place(there, path) {
        Some(from)
    } else {
        checkout_position(paths, path, from + 1)
    }
}

/// The contents of a list of texts that may be missing.
pub open spec fn opt_views(list: Seq<Option<String>>) -> Seq<Option<Seq<char>>> {
    list.map_values(|s: Option<String>| text::opt_view(s))
}

fn find_checkout(paths: &Vec<Option<String>>, path: &str) -> (r: Option<usize>)
    ensures
        match r {
            Some(i) => i < paths.len() && checkout_position(opt_views(paths@), path@, 0) == Some(
                i as int,
            ),
            None => checkout_position(opt_views(paths@), path@, 0) is None,
        },
{
    let ghost all = opt_views(paths@);
    let mut i: usize = 0;
    while i < paths.len()
        invariant
            0 <= i <= paths.len(),
            all == opt_views(paths@),
            checkout_position(all, path@, 0) == checkout_position(all, path@, i as int),
        decreases paths.len() - i,
    {
        assert(all[i as int] == text::opt_view(paths@[i as int]));
        let here = match &paths[i] {
            Some(there) => same_path(there.as_str(), path),
            None => false,
        };
        if here {
            return Some(i);
        }
        i += 1;
    }
    None
}

/// Whether a project is in a list, by its path.
pub open spec fn has_place(list: Seq<WorkspaceProjectView>, path: Seq<char>) -> bool {
    exists|i: int| 0 <= i < list.len() && paths::same_place((#[trigger] list[i]).local_path, path)
}

/// Whether a project is in a list, by its identifier.
pub open spec fn has_project(list: Seq<WorkspaceProjectView>, id: Seq<char>) -> bool {
    exists|i: int| 0 <= i < list.len() && (#[trigger] list[i]).project_id == id
}

/// What is known to resolve a manifest: where it lies, where the projects of this machine are, and
/// what their identifiers are.
pub struct Surroundings {
    pub root: Seq<char>,
    pub paths: Seq<Option<Seq<char>>>,
    pub ids: Seq<Seq<char>>,
}

/// The project that an entry of a manifest stands for, given the path that it resolves to and the
/// projects before it.
pub open spec fn resolved_entry(
    s: Surroundings,
    entry: WorkspaceProjectDocumentView,
    place: Result<Seq<char>, Seq<char>>,
    before: Seq<WorkspaceProjectView>,
) -> Result<WorkspaceProjectView, WorkspaceErrorView> {
    if paths::is_absolute(entry.path) {
        Err(WorkspaceErrorView::Absolute(entry.path))
    } else {
        match place {
            Err(reason) => Err(WorkspaceErrorView::Unresolved(entry.path, reason)),
            Ok(path) => if !lies_below(s.root, path) {
                Err(WorkspaceErrorView::Escapes(entry.path))
            } else {
                match checkout_position(s.paths, path, 0) {
                    None => Err(WorkspaceErrorView::NotSubscribed(entry.path)),
                    Some(i) => {
                        let id = s.ids[i];
                        if entry.project_id is Some && entry.project_id != Some(id) {
                            Err(
                                WorkspaceErrorView::WrongProject(
                                    entry.path,
                                    entry.project_id->0,
                                    id,
                                ),
                            )
                        } else if has_place(before, path) {
                            Err(WorkspaceErrorView::RepeatedPath(entry.path))
                        } else if has_project(before, id) {
                            Err(WorkspaceErrorView::RepeatedProject(id))
                        } else {
                            Ok(WorkspaceProjectView { project_id: id, local_path: path })
                        }
                    },
                }
            },
        }
    }
}

/// The projects that the first `n` entries stand for, or the first error.
pub open spec fn resolved_entries(
    s: Surroundings,
    entries: Seq<WorkspaceProjectDocumentView>,
    places: Seq<Result<Seq<char>, Seq<char>>>,
    n: int,
) -> Result<Seq<WorkspaceProjectView>, WorkspaceErrorView>
    decreases n,
{
    if n <= 0 {
        Ok(Seq::empty())
    } else {
        match resolved_entries(s, entries, places, n - 1) {
            Err(e) => Err(e),
            Ok(before) => match resolved_entry(s, entries[n - 1], places[n - 1], before) {
                Err(e) => Err(e),
                Ok(project) => Ok(before.push(project)),
            },
        }
    }
}

/// The contents of a list of resolved paths.
pub open spec fn place_views(list: Seq<Result<String, String>>) -> Seq<
    Result<Seq<char>, Seq<char>>,
> {
    list.map_values(
        |r: Result<String, String>|
            match r {
                Ok(path) => Ok::<Seq<char>, Seq<char>>(path@),
                Err(reason) => Err::<Seq<char>, Seq<char>>(reason@),
            },
    )
}

fn seen_path(list: &Vec<WorkspaceProject>, path: &str) -> (r: bool)
    ensures
        r == has_place(workspace_projects(list@), path@),
{
    let ghost all = workspace_projects(list@);
    let mut i: usize = 0;
    while i < list.len()
        invariant
            0 <= i <= list.len(),
            all == workspace_projects(list@),
            forall|j: int| 0 <= j < i ==> !paths::same_place((#[trigger] all[j]).local_path, path@),
        decreases list.len() - i,
    {
        assert(all[i as int] == list@[i as int]@);
        if same_path(list[i].local_path.as_str(), path) {
            return true;
        }
        i += 1;
    }
    false
}

fn seen_project(list: &Vec<WorkspaceProject>, id: &str) -> (r: bool)
    ensures
        r == has_project(workspace_projects(list@), id@),
{
    let ghost all = workspace_projects(list@);
    let mut i: usize = 0;
    while i < list.len()
        invariant
            0 <= i <= list.len(),
            all == workspace_projects(list@),
            forall|j: int| 0 <= j < i ==> (#[trigger] all[j]).project_id != id@,
        decreases list.len() - i,
    {
        assert(all[i as int] == list@[i as int]@);
        if same_text(list[i].project_id.as_str(), id) {
            return true;
        }
        i += 1;
    }
    false
}

fn resolve_entry(
    root: &str,
    projects: &Vec<LocalProject>,
    paths: &Vec<Option<String>>,
    entry: &WorkspaceProjectDocument,
    place: &Result<String, String>,
    before: &Vec<WorkspaceProject>,
) -> (r: Result<WorkspaceProject, WorkspaceError>)
    requires
        projects.len() == paths.len(),
    ensures
        ({
            let s = Surroundings {
                root: root@,
                paths: opt_views(paths@),
                ids: state::project_views(projects@).map_values(|p: LocalProjectView| p.project_id),
            };
            let expected = resolved_entry(
                s,
                entry@,
                match *place {
                    Ok(path) => Ok::<Seq<char>, Seq<char>>(path@),
                    Err(reason) => Err::<Seq<char>, Seq<char>>(reason@),
                },
                workspace_projects(before@),
            );
            match r {
                Ok(project) => expected == Ok::<WorkspaceProjectView, WorkspaceErrorView>(
                    project@,
                ),
                Err(e) => expected == Err::<WorkspaceProjectView, WorkspaceErrorView>(e@),
            }
        }),
{
    if absolute_path(entry.path.as_str()) {
        return Err(WorkspaceError::Absolute(entry.path.clone()));
    }
    let path = match place {
        Ok(path) => path,
        Err(reason) => {
            return Err(WorkspaceError::Unresolved(entry.path.clone(), reason.clone()));
        },
    };
    if !below(root, path.as_str()) {
        return Err(WorkspaceError::Escapes(entry.path.clone()));
    }
    let i = match find_checkout(paths, path.as_str()) {
        Some(i) => i,
        None => {
            return Err(WorkspaceError::NotSubscribed(entry.path.clone()));
        },
    };
    let id = projects[i].project_id.as_str();
    match &entry.project_id {
        Some(expected) => {
            if !same_text(expected.as_str(), id) {
                return Err(
                    WorkspaceError::WrongProject(
                        entry.path.clone(),
                        expected.clone(),
                        id.to_owned(),
                    ),
                );
            }
        },
        None => {},
    }
    if seen_path(before, path.as_str()) {
        return Err(WorkspaceError::RepeatedPath(entry.path.clone()));
    }
    if seen_project(before, id) {
        return Err(WorkspaceError::RepeatedProject(id.to_owned()));
    }
    Ok(WorkspaceProject { project_id: id.to_owned(), local_path: path.clone() })
}

/// The projects of a workspace, given where the manifest lies and what its paths resolve to. Every
/// project is one that is checked out on this machine, below the directory of the manifest, and
/// occurs once.
pub open spec fn workspace_of(
    manifest_path: Seq<char>,
    version: u32,
    entries: Seq<WorkspaceProjectDocumentView>,
    paths: Seq<Option<Seq<char>>>,
    ids: Seq<Seq<char>>,
    places: Seq<Result<Seq<char>, Seq<char>>>,
) -> Result<Seq<WorkspaceProjectView>, WorkspaceErrorView> {
    match paths::parent(manifest_path) {
        None => Err(WorkspaceErrorView::NoDirectory),
        Some(root) => if version != 1 {
            Err(WorkspaceErrorView::Version(version))
        } else if entries.len() == 0 {
            Err(WorkspaceErrorView::Empty)
        } else {
            resolved_entries(
                Surroundings { root, paths, ids },
                entries,
                places,
                entries.len() as int,
            )
        },
    }
}

/// Reads a manifest: `paths` are the canonical paths of the projects of this machine, where they
/// exist, and `places` is what the paths of the manifest resolve to.
pub fn load_workspace(
    manifest_path: &str,
    document: &WorkspaceDocument,
    projects: &Vec<LocalProject>,
    paths: &Vec<Option<String>>,
    places: &Vec<Result<String, String>>,
) -> (r: Result<Workspace, WorkspaceError>)
    requires
        projects.len() == paths.len(),
        document.project.len() == places.len(),
    ensures
        ({
            let expected = workspace_of(
                manifest_path@,
                document.version,
                entry_documents(document.project@),
                opt_views(paths@),
                state::project_views(projects@).map_values(|p: LocalProjectView| p.project_id),
                place_views(places@),
            );
            match r {
                Ok(workspace) => {
                    &&& expected == Ok::<Seq<WorkspaceProjectView>, WorkspaceErrorView>(
                        workspace_projects(workspace.projects@),
                    )
                    &&& paths::parent(manifest_path@) == Some(workspace.root@)
                    &&& workspace.manifest_path@ == manifest_path@
                },
                Err(e) => expected == Err::<Seq<WorkspaceProjectView>, WorkspaceErrorView>(e@),
            }
        }),
{
    let root = match parent_of(manifest_path) {
        Some(root) => root,
        None => {
            return Err(WorkspaceError::NoDirectory);
        },
    };
    if document.version != 1 {
        return Err(WorkspaceError::Version(document.version));
    }
    let entries = &document.project;
    if entries.len() == 0 {
        return Err(WorkspaceError::Empty);
    }
    let ghost s = Surroundings {
        root: root@,
        paths: opt_views(paths@),
        ids: state::project_views(projects@).map_values(|p: LocalProjectView| p.project_id),
    };
    let ghost all = entry_documents(entries@);
    let ghost there = place_views(places@);
    let mut found: Vec<WorkspaceProject> = Vec::new();
    let mut i: usize = 0;
    assert(workspace_projects(found@) =~= Seq::empty());
    while i < entries.len()
        invariant
            0 <= i <= entries.len(),
            entries.len() == places.len(),
            projects.len() == paths.len(),
            *entries == document.project,
            document.version == 1,
            document.project.len() > 0,
            paths::parent(manifest_path@) == Some(root@),
            s == (Surroundings {
                root: root@,
                paths: opt_views(paths@),
                ids: state::project_views(projects@).map_values(|p: LocalProjectView| p.project_id),
            }),
            all == entry_documents(entries@),
            there == place_views(places@),
            resolved_entries(s, all, there, i as int) == Ok::<
                Seq<WorkspaceProjectView>,
                WorkspaceErrorView,
            >(workspace_projects(found@)),
        decreases entries.len() - i,
    {
        assert(all[i as int] == entries@[i as int]@);
        let ghost before = found@;
        match resolve_entry(root.as_str(), projects, paths, &entries[i], &places[i], &found) {
            Ok(project) => {
                let ghost view = project@;
                found.push(project);
                assert(workspace_projects(found@) =~= workspace_projects(before).push(view));
            },
            Err(e) => {
                proof {
                    lemma_error_stays(s, all, there, i + 1, all.len() as int);
                }
                return Err(e);
            },
        }
        i += 1;
    }
    Ok(Workspace { root, manifest_path: manifest_path.to_owned(), projects: found })
}

proof fn lemma_error_stays(
    s: Surroundings,
    entries: Seq<WorkspaceProjectDocumentView>,
    places: Seq<Result<Seq<char>, Seq<char>>>,
    a: int,
    b: int,
)
    requires
        0 <= a <= b,
        resolved_entries(s, entries, places, a) is Err,
    ensures
        resolved_entries(s, entries, places, b) == resolved_entries(s, entries, places, a),
    decreases b - a,
{
    if a < b {
        lemma_error_stays(s, entries, places, a, b - 1);
    }
}

/// Whether a manifest lies in the directory that was named.
pub fn lies_in(workspace: &Workspace, root: &str) -> (r: Result<(), WorkspaceError>)
    ensures
        match r {
            Ok(_) => paths::same_place(workspace.root@, root@),
            Err(e) => !paths::same_place(workspace.root@, root@) && e is Elsewhere,
        },
{
    if same_path(workspace.root.as_str(), root) {
        Ok(())
    } else {
        Err(WorkspaceError::Elsewhere)
    }
}

/// What holds of the projects of a workspace.
pub open spec fn workspace_consistent(
    s: Surroundings,
    list: Seq<WorkspaceProjectView>,
) -> bool {
    &&& forall|i: int|
        0 <= i < list.len() ==> lies_below(s.root, (#[trigger] list[i]).local_path)
            && checkout_position(s.paths, list[i].local_path, 0) is Some
    &&& forall|i: int, j: int|
        0 <= i < j < list.len() ==> (#[trigger] list[i]).project_id != (
        #[trigger] list[j]).project_id && !paths::same_place(list[i].local_path, list[j].local_path)
}

proof fn lemma_consistent(
    s: Surroundings,
    entries: Seq<WorkspaceProjectDocumentView>,
    places: Seq<Result<Seq<char>, Seq<char>>>,
    n: int,
)
    requires
        0 <= n <= entries.len(),
    ensures
        resolved_entries(s, entries, places, n) matches Ok(list) ==> list.len() == n
            && workspace_consistent(s, list),
    decreases n,
{
    if n > 0 {
        lemma_consistent(s, entries, places, n - 1);
        match resolved_entries(s, entries, places, n - 1) {
            Ok(before) => match resolved_entry(s, entries[n - 1], places[n - 1], before) {
                Ok(project) => {
                    let list = before.push(project);
                    assert forall|i: int, j: int| 0 <= i < j < list.len() implies (
                    #[trigger] list[i]).project_id != (#[trigger] list[j]).project_id
                        && !paths::same_place(list[i].local_path, list[j].local_path) by {
                        assert(list[i] == before[i]);
                        if j < before.len() {
                            assert(list[j] == before[j]);
                        }
                    }
                },
                Err(_) => {},
            },
            Err(_) => {},
        }
    }
}

/// Every project of a workspace lies below its directory and is checked out on this machine, and
/// no path and no project occurs twice.
pub proof fn law_workspace_is_consistent(
    manifest_path: Seq<char>,
    version: u32,
    entries: Seq<WorkspaceProjectDocumentView>,
    paths: Seq<Option<Seq<char>>>,
    ids: Seq<Seq<char>>,
    places: Seq<Result<Seq<char>, Seq<char>>>,
)
    ensures
        workspace_of(manifest_path, version, entries, paths, ids, places) matches Ok(list) ==> (
        paths::parent(manifest_path) matches Some(root) && list.len() == entries.len() && list.len() > 0
            && workspace_consistent(Surroundings { root, paths, ids }, list)),
{
    match paths::parent(manifest_path) {
        Some(root) => {
            lemma_consistent(
                Surroundings { root, paths, ids },
                entries,
                places,
                entries.len() as int,
            );
        },
        None => {},
    }
}

} // verus!
