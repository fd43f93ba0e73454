//! Where state is kept, and what is kept there.
use vstd::prelude::*;
use crate::address;
use crate::paths;
use crate::text;
use crate::text_map;
use crate::address::{parse_url, UrlParts, UrlPartsView};
use crate::json::Json;
use crate::paths::join_path;
use crate::protocol::PROTOCOL_VERSION;
use crate::text::{copy_list, copy_option};
use crate::text_map::TextMap;

verus! {

/// The files and directories that hold the state of one user.
#[derive(Debug, Clone, PartialEq, Eq)]
pub struct StatePaths {
    pub root: String,
    pub config: String,
    pub credentials: String,
    pub keys: String,
    pub catalog: String,
    pub transactions: String,
    pub named_lease_receipts: String,
    pub daemon_lock: String,
    pub socket: String,
}

/// What a [`StatePaths`] holds.
pub struct StatePathsView {
    pub root: Seq<char>,
    pub config: Seq<char>,
    pub credentials: Seq<char>,
    pub keys: Seq<char>,
    pub catalog: Seq<char>,
    pub transactions: Seq<char>,
    pub named_lease_receipts: Seq<char>,
    pub daemon_lock: Seq<char>,
    pub socket: Seq<char>,
}

impl View for StatePaths {
    type V = StatePathsView;

    open spec fn view(&self) -> StatePathsView {
        StatePathsView {
            root: self.root@,
            config: self.config@,
            credentials: self.credentials@,
            keys: self.keys@,
            catalog: self.catalog@,
            transactions: self.transactions@,
            named_lease_receipts: self.named_lease_receipts@,
            daemon_lock: self.daemon_lock@,
            socket: self.socket@,
        }
    }
}

impl StatePaths {
    /// A second value with the same contents.
    pub fn copy(&self) -> (r: Self)
        ensures
            r@ == self@,
    {
        StatePaths {
            root: self.root.clone(),
            config: self.config.clone(),
            credentials: self.credentials.clone(),
            keys: self.keys.clone(),
            catalog: self.catalog.clone(),
            transactions: self.transactions.clone(),
            named_lease_receipts: self.named_lease_receipts.clone(),
            daemon_lock: self.daemon_lock.clone(),
            socket: self.socket.clone(),
        }
    }
}

/// The directory of the state: an explicit one, else the usual one below the home directory.
pub open spec fn directory_for(
    explicit: Option<Seq<char>>,
    home: Option<Seq<char>>,
    current: Seq<char>,
    macos: bool,
) -> Seq<char> {
    match explicit {
        Some(path) => paths::joined(current, path),
        None => paths::joined(
            match home {
                Some(path) => path,
                None => "."@,
            },
            if macos {
                "Library/Application Support/RepoSync"@
            } else {
                ".local/state/resync"@
            },
        ),
    }
}

/// Finds the directory of the state, given what the environment says.
pub fn state_directory(
    explicit: &Option<String>,
    home: &Option<String>,
    current: &str,
    macos: bool,
) -> (r: String)
    ensures
        r@ == directory_for(text::opt_view(*explicit), text::opt_view(*home), current@, macos),
{
    match explicit {
        Some(path) => join_path(current, path.as_str()),
        None => {
            let below = if macos {
                "Library/Application Support/RepoSync"
            } else {
                ".local/state/resync"
            };
            match home {
                Some(path) => join_path(path.as_str(), below),
                None => join_path(".", below),
            }
        },
    }
}

/// The paths below a directory; the socket may lie elsewhere.
pub open spec fn paths_below(root: Seq<char>, socket: Option<Seq<char>>) -> StatePathsView {
    StatePathsView {
        root,
        config: paths::joined(root, "config.json"@),
        credentials: paths::joined(root, "credentials.json"@),
        keys: paths::joined(root, "keys"@),
        catalog: paths::joined(root, "catalog.json"@),
        transactions: paths::joined(root, "transactions"@),
        named_lease_receipts: paths::joined(root, "named-leases"@),
        daemon_lock: paths::joined(root, "daemon.lock"@),
        socket: match socket {
            Some(path) => path,
            None => paths::joined(root, "daemon.sock"@),
        },
    }
}

/// The paths of the state below a directory.
pub fn state_paths(root: &str, socket: &Option<String>) -> (r: StatePaths)
    ensures
        r@ == paths_below(root@, text::opt_view(*socket)),
{
    StatePaths {
        root: root.to_owned(),
        config: join_path(root, "config.json"),
        credentials: join_path(root, "credentials.json"),
        keys: join_path(root, "keys"),
        catalog: join_path(root, "catalog.json"),
        transactions: join_path(root, "transactions"),
        named_lease_receipts: join_path(root, "named-leases"),
        daemon_lock: join_path(root, "daemon.lock"),
        socket: match socket {
            Some(path) => path.clone(),
            None => join_path(root, "daemon.sock"),
        },
    }
}

/// What is known of a provider that the user logged in to.
#[derive(Debug, Clone, Default, PartialEq, Eq)]
pub struct ProviderConfig {
    pub origin: String,
    pub service_id: Option<String>,
    pub device_id: Option<String>,
    pub device_name: Option<String>,
    pub public_key_path: Option<String>,
    pub logged_in_at: Option<String>,
}

/// What a [`ProviderConfig`] holds.
pub struct ProviderConfigView {
    pub origin: Seq<char>,
    pub service_id: Option<Seq<char>>,
    pub device_id: Option<Seq<char>>,
    pub device_name: Option<Seq<char>>,
    pub public_key_path: Option<Seq<char>>,
    pub logged_in_at: Option<Seq<char>>,
}

impl View for ProviderConfig {
    type V = ProviderConfigView;

    open spec fn view(&self) -> ProviderConfigView {
        ProviderConfigView {
            origin: self.origin@,
            service_id: text::opt_view(self.service_id),
            device_id: text::opt_view(self.device_id),
            device_name: text::opt_view(self.device_name),
            public_key_path: text::opt_view(self.public_key_path),
            logged_in_at: text::opt_view(self.logged_in_at),
        }
    }
}

impl ProviderConfig {
    /// A second value with the same contents.
    pub fn copy(&self) -> (r: Self)
        ensures
            r@ == self@,
    {
        ProviderConfig {
            origin: self.origin.clone(),
            service_id: copy_option(&self.service_id),
            device_id: copy_option(&self.device_id),
            device_name: copy_option(&self.device_name),
            public_key_path: copy_option(&self.public_key_path),
            logged_in_at: copy_option(&self.logged_in_at),
        }
    }
}

/// The providers and which of them is in use.
#[derive(Debug)]
pub struct Config {
    pub protocol: String,
    pub active_provider: Option<String>,
    pub providers: TextMap<ProviderConfig>,
    pub server: Option<String>,
    pub token: Option<String>,
}

/// What a [`Config`] holds.
pub struct ConfigView {
    pub protocol: Seq<char>,
    pub active_provider: Option<Seq<char>>,
    pub providers: Map<Seq<char>, ProviderConfigView>,
    pub server: Option<Seq<char>>,
    pub token: Option<Seq<char>>,
}

impl View for Config {
    type V = ConfigView;

    open spec fn view(&self) -> ConfigView {
        ConfigView {
            protocol: self.protocol@,
            active_provider: text::opt_view(self.active_provider),
            providers: self.providers@.map_values(|p: ProviderConfig| p@),
            server: text::opt_view(self.server),
            token: text::opt_view(self.token),
        }
    }
}

/// No provider at all.
pub open spec fn blank_config() -> ConfigView {
    ConfigView {
        protocol: PROTOCOL_VERSION@,
        active_provider: None,
        providers: Map::empty(),
        server: None,
        token: None,
    }
}

impl Default for Config {
    fn default() -> (r: Self)
        ensures
            r@ == blank_config(),
    {
        let r = Config {
            protocol: PROTOCOL_VERSION.to_owned(),
            active_provider: None,
            providers: TextMap::new(),
            server: None,
            token: None,
        };
        assert(r@.providers =~= Map::empty());
        r
    }
}

impl Config {
    /// Sets what is known of a provider.
    pub fn set_provider(&mut self, origin: &str, provider: ProviderConfig)
        ensures
            final(self)@ == (ConfigView {
                providers: old(self)@.providers.insert(origin@, provider@),
                ..old(self)@
            }),
    {
        self.providers.insert(origin.to_owned(), provider);
        assert(self@.providers =~= old(self)@.providers.insert(origin@, provider@));
    }
}

/// A provider of which only the origin and a name for the device are known.
pub open spec fn legacy_provider(origin: Seq<char>) -> ProviderConfigView {
    ProviderConfigView {
        origin,
        service_id: None,
        device_id: None,
        device_name: Some("legacy device"@),
        public_key_path: None,
        logged_in_at: None,
    }
}

/// A configuration in which the server of an older one, if there is no active provider, is the
/// active provider; `parts` are those of the URL of that server.
pub open spec fn upgraded(config: ConfigView, parts: Option<UrlPartsView>) -> Option<ConfigView> {
    if config.active_provider is Some || config.server is None {
        Some(config)
    } else {
        match parts {
            Some(url) => Some(
                ConfigView {
                    active_provider: Some(url.origin),
                    providers: config.providers.insert(url.origin, legacy_provider(url.origin)),
                    ..config
                },
            ),
            None => None,
        }
    }
}

/// Brings a configuration as it was stored up to date; none where its server is no URL.
pub fn load_config_raw(config: Config) -> (r: Option<Config>)
    ensures
        match r {
            Some(now) => upgraded(
                config@,
                match config@.server {
                    Some(server) => address::url_parts(server),
                    None => None,
                },
            ) == Some(now@),
            None => upgraded(
                config@,
                match config@.server {
                    Some(server) => address::url_parts(server),
                    None => None,
                },
            ) is None,
        },
{
    let parts = match &config.server {
        Some(server) => parse_url(server.as_str()),
        None => None,
    };
    upgrade_config(config, parts)
}

/// Brings a configuration up to date, given the parts of the URL of its server.
pub fn upgrade_config(config: Config, parts: Option<UrlParts>) -> (r: Option<Config>)
    ensures
        ({
            let url = match parts {
                Some(url) => Some(url@),
                None => None,
            };
            match r {
                Some(now) => upgraded(config@, url) == Some(now@),
                None => upgraded(config@, url) is None,
            }
        }),
{
    if config.active_provider.is_some() || config.server.is_none() {
        return Some(config);
    }
    match parts {
        Some(url) => {
            let mut now = config;
            let provider = ProviderConfig {
                origin: url.origin.clone(),
                service_id: None,
                device_id: None,
                device_name: Some("legacy device".to_owned()),
                public_key_path: None,
                logged_in_at: None,
            };
            now.active_provider = Some(url.origin.clone());
            now.set_provider(url.origin.as_str(), provider);
            Some(now)
        },
        None => None,
    }
}

/// Why a project is not moved automatically.
#[derive(Debug, Clone, Default, PartialEq, Eq)]
pub struct Conflict {
    pub kind: String,
    pub detail: String,
    pub paths: Vec<String>,
}

/// What a [`Conflict`] holds.
pub struct ConflictView {
    pub kind: Seq<char>,
    pub detail: Seq<char>,
    pub paths: Seq<Seq<char>>,
}

impl View for Conflict {
    type V = ConflictView;

    open spec fn view(&self) -> ConflictView {
        ConflictView {
            kind: self.kind@,
            detail: self.detail@,
            paths: text::views(self.paths@),
        }
    }
}

impl Conflict {
    /// A second value with the same contents.
    pub fn copy(&self) -> (r: Self)
        ensures
            r@ == self@,
    {
        Conflict {
            kind: self.kind.clone(),
            detail: self.detail.clone(),
            paths: copy_list(&self.paths),
        }
    }
}

/// A project as it is checked out on this machine.
#[derive(Debug)]
pub struct LocalProject {
    pub project_id: String,
    pub local_path: String,
    pub remote_url: String,
    pub remote_name: String,
    pub default_branch: String,
    pub server_generation: u64,
    pub advertised_heads: TextMap<String>,
    pub last_applied_heads: TextMap<String>,
    pub active_branch: Option<String>,
    pub workspace_generation: u64,
    pub state: String,
    pub durability: String,
    pub conflict: Option<Conflict>,
    pub last_error: Option<String>,
    pub service: Option<String>,
    pub checkout_id: Option<String>,
    /// Fields that older or newer versions stored.
    pub extra: TextMap<Json>,
}

/// What a [`LocalProject`] holds.
pub struct LocalProjectView {
    pub project_id: Seq<char>,
    pub local_path: Seq<char>,
    pub remote_url: Seq<char>,
    pub remote_name: Seq<char>,
    pub default_branch: Seq<char>,
    pub server_generation: u64,
    pub advertised_heads: Map<Seq<char>, Seq<char>>,
    pub last_applied_heads: Map<Seq<char>, Seq<char>>,
    pub active_branch: Option<Seq<char>>,
    pub workspace_generation: u64,
    pub state: Seq<char>,
    pub durability: Seq<char>,
    pub conflict: Option<ConflictView>,
    pub last_error: Option<Seq<char>>,
    pub service: Option<Seq<char>>,
    pub checkout_id: Option<Seq<char>>,
    pub extra: Map<Seq<char>, Json>,
}

impl View for LocalProject {
    type V = LocalProjectView;

    open spec fn view(&self) -> LocalProjectView {
        LocalProjectView {
            project_id: self.project_id@,
            local_path: self.local_path@,
            remote_url: self.remote_url@,
            remote_name: self.remote_name@,
            default_branch: self.default_branch@,
            server_generation: self.server_generation,
            advertised_heads: text_map::texts(self.advertised_heads@),
            last_applied_heads: text_map::texts(self.last_applied_heads@),
            active_branch: text::opt_view(self.active_branch),
            workspace_generation: self.workspace_generation,
            state: self.state@,
            durability: self.durability@,
            conflict: match self.conflict {
                Some(conflict) => Some(conflict@),
                None => None,
            },
            last_error: text::opt_view(self.last_error),
            service: text::opt_view(self.service),
            checkout_id: text::opt_view(self.checkout_id),
            extra: self.extra@,
        }
    }
}

/// A project of which only its identifier and its path are known.
pub open spec fn fresh_project(project_id: Seq<char>, local_path: Seq<char>) -> LocalProjectView {
    LocalProjectView {
        project_id,
        local_path,
        remote_url: Seq::empty(),
        remote_name: "resync"@,
        default_branch: "main"@,
        server_generation: 0,
        advertised_heads: Map::empty(),
        last_applied_heads: Map::empty(),
        active_branch: None,
        workspace_generation: 1,
        state: "CURRENT"@,
        durability: "REMOTELY_DURABLE"@,
        conflict: None,
        last_error: None,
        service: None,
        checkout_id: None,
        extra: Map::empty(),
    }
}

impl LocalProject {
    /// A project with its identifier and its path, and otherwise what holds where nothing is said.
    pub fn new(project_id: &str, local_path: &str) -> (r: Self)
        ensures
            r@ == fresh_project(project_id@, local_path@),
    {
        let r = LocalProject {
            project_id: project_id.to_owned(),
            local_path: local_path.to_owned(),
            remote_url: String::new(),
            remote_name: "resync".to_owned(),
            default_branch: "main".to_owned(),
            server_generation: 0,
            advertised_heads: TextMap::new(),
            last_applied_heads: TextMap::new(),
            active_branch: None,
            workspace_generation: 1,
            state: "CURRENT".to_owned(),
            durability: "REMOTELY_DURABLE".to_owned(),
            conflict: None,
            last_error: None,
            service: None,
            checkout_id: None,
            extra: TextMap::new(),
        };
        assert(r@.advertised_heads =~= Map::empty());
        assert(r@.last_applied_heads =~= Map::empty());
        r
    }

    /// The branch that the project is on, else its default branch.
    pub fn branch(&self) -> (r: String)
        ensures
            r@ == branch_of(self@),
    {
        match &self.active_branch {
            Some(branch) => branch.clone(),
            None => self.default_branch.clone(),
        }
    }
}

/// The branch that a project is on, else its default branch.
pub open spec fn branch_of(p: LocalProjectView) -> Seq<char> {
    match p.active_branch {
        Some(branch) => branch,
        None => p.default_branch,
    }
}

/// The projects of this machine.
#[derive(Debug)]
pub struct LocalCatalog {
    pub catalog_generation: u64,
    pub projects: Vec<LocalProject>,
}

/// The contents of a list of projects.
pub open spec fn project_views(projects: Seq<LocalProject>) -> Seq<LocalProjectView> {
    projects.map_values(|p: LocalProject| p@)
}

/// A configuration that was brought up to date stays as it is when it is loaded again.
pub proof fn law_loading_is_final(
    config: ConfigView,
    parts: Option<UrlPartsView>,
    again: Option<UrlPartsView>,
)
    ensures
        upgraded(config, parts) matches Some(now) ==> upgraded(now, again) == Some(now),
{
}

} // verus!
