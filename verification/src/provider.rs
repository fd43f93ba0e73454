//! Finding out what a provider offers, and logging in to it.
use vstd::prelude::*;
use crate::address;
use crate::credentials;
use crate::enroll;
use crate::json;
use crate::protocol;
use crate::text;
use crate::text_map;
use crate::address::join_url;
use crate::credentials::{canonical_origin, CredentialError, DeviceIdentity};
use crate::enroll::{EnrollStage, Enrollment};
use crate::json::{Json, JsonView};
use crate::protocol::{NamedLeasePolicy, PROTOCOL_VERSION, ProtocolError};
use crate::state::{Config, ConfigView, ProviderConfig, ProviderConfigView};
use crate::text::{cat2, cat3, copy_list, decimal_text, head_text, is_blank, same_text};
use crate::text_map::{copy_map, lookup, put_text, TextMap};

verus! {

/// The provider that is used where none is named.
pub const DEFAULT_PROVIDER: &'static str = "https://resync-hosted-production.up.railway.app";

/// What a provider says of itself.
#[derive(Debug)]
pub struct Discovery {
    pub protocol: String,
    pub service_id: String,
    pub auth_methods: Vec<String>,
    pub capabilities: Vec<String>,
    pub endpoints: TextMap<String>,
    pub named_lease_policy: Option<NamedLeasePolicy>,
    pub origin: String,
}

/// What a [`Discovery`] holds.
pub struct DiscoveryView {
    pub protocol: Seq<char>,
    pub service_id: Seq<char>,
    pub auth_methods: Seq<Seq<char>>,
    pub capabilities: Seq<Seq<char>>,
    pub endpoints: Map<Seq<char>, Seq<char>>,
    pub named_lease_policy: Option<NamedLeasePolicy>,
    pub origin: Seq<char>,
}

impl View for Discovery {
    type V = DiscoveryView;

    open spec fn view(&self) -> DiscoveryView {
        DiscoveryView {
            protocol: self.protocol@,
            service_id: self.service_id@,
            auth_methods: text::views(self.auth_methods@),
            capabilities: text::views(self.capabilities@),
            endpoints: text_map::texts(self.endpoints@),
            named_lease_policy: self.named_lease_policy,
            origin: self.origin@,
        }
    }
}

impl Discovery {
    /// A second value with the same contents.
    pub fn copy(&self) -> (r: Self)
        ensures
            r@ == self@,
    {
        Discovery {
            protocol: self.protocol.clone(),
            service_id: self.service_id.clone(),
            auth_methods: copy_list(&self.auth_methods),
            capabilities: copy_list(&self.capabilities),
            endpoints: copy_map(&self.endpoints),
            named_lease_policy: self.named_lease_policy,
            origin: self.origin.clone(),
        }
    }
}

/// Why a provider cannot be used.
#[derive(Debug, Clone, PartialEq, Eq)]
pub enum ProviderError {
    /// The discovery request was answered with this status.
    DiscoveryStatus(u16),
    /// Another protocol, or nothing to talk to.
    Incompatible,
    /// A policy that is not valid.
    Policy(ProtocolError),
    /// A URL that cannot be resolved.
    Address(String),
    /// The discovery lacks this endpoint.
    MissingEndpoint(String),
    /// The enrollment came without a token.
    NoToken,
    /// The provider is not accepted.
    Credential(CredentialError),
}

/// What a [`ProviderError`] says.
pub open spec fn provider_text(e: ProviderError) -> Seq<char> {
    match e {
        ProviderError::DiscoveryStatus(status) => "provider discovery failed ("@ + text::decimal(
            status as nat,
        ) + ")"@,
        ProviderError::Incompatible => {
            "provider does not advertise a compatible resync.v1 service"@
        },
        ProviderError::Policy(inner) => protocol::protocol_text(inner),
        ProviderError::Address(url) => "invalid provider address "@ + url@,
        ProviderError::MissingEndpoint(name) => "provider discovery is missing "@ + name@
            + " endpoint"@,
        ProviderError::NoToken => "provider enrollment returned no token"@,
        ProviderError::Credential(inner) => credentials::credential_text(inner),
    }
}

impl ProviderError {
    /// The message of the error.
    pub fn message(&self) -> (r: String)
        ensures
            r@ == provider_text(*self),
    {
        match self {
            ProviderError::DiscoveryStatus(status) => {
                let code = decimal_text(*status as u64);
                cat3("provider discovery failed (", code.as_str(), ")")
            },
            ProviderError::Incompatible => {
                "provider does not advertise a compatible resync.v1 service".to_owned()
            },
            ProviderError::Policy(inner) => inner.message(),
            ProviderError::Address(url) => cat2("invalid provider address ", url.as_str()),
            ProviderError::MissingEndpoint(name) => {
                cat3("provider discovery is missing ", name.as_str(), " endpoint")
            },
            ProviderError::NoToken => "provider enrollment returned no token".to_owned(),
            ProviderError::Credential(inner) => inner.message(),
        }
    }
}

/// The provider of the environment, else the default one.
pub fn default_provider(environment: &Option<String>) -> (r: String)
    ensures
        r@ == match *environment {
            Some(value) => value@,
            None => DEFAULT_PROVIDER@,
        },
{
    match environment {
        Some(value) => value.clone(),
        None => DEFAULT_PROVIDER.to_owned(),
    }
}

/// Where a provider describes itself.
#[derive(Debug)]
pub struct DiscoveryTarget {
    pub origin: String,
    pub url: String,
}

/// The origin of a provider and the URL of its description.
pub fn discovery_target(provider: &str) -> (r: Result<DiscoveryTarget, ProviderError>)
    ensures
        match r {
            Ok(target) => credentials::origin_of(provider@) == Some(target.origin@) && address::url_resolved(
                target.origin@,
                "/.well-known/resync"@,
            ) == Some(target.url@),
            Err(ProviderError::Credential(e)) => credentials::is_refusal(provider@, e),
            Err(ProviderError::Address(url)) => credentials::origin_of(provider@) == Some(url@)
                && address::url_resolved(url@, "/.well-known/resync"@) is None,
            Err(_) => false,
        },
{
    match canonical_origin(provider) {
        Ok(origin) => match join_url(origin.as_str(), "/.well-known/resync") {
            Some(url) => Ok(DiscoveryTarget { origin, url }),
            None => Err(ProviderError::Address(origin)),
        },
        Err(e) => Err(ProviderError::Credential(e)),
    }
}

/// Whether every endpoint can be resolved, seen from the origin.
pub open spec fn resolvable(endpoints: Map<Seq<char>, Seq<char>>, origin: Seq<char>) -> bool {
    forall|k: Seq<char>| #[trigger]
        endpoints.contains_key(k) ==> address::url_resolved(origin, endpoints[k]) is Some
}

/// Whether a text is an endpoint that cannot be resolved, seen from the origin.
pub open spec fn is_unresolvable(
    endpoints: Map<Seq<char>, Seq<char>>,
    origin: Seq<char>,
    url: Seq<char>,
) -> bool {
    address::url_resolved(origin, url) is None && exists|k: Seq<char>| #[trigger]
        endpoints.contains_key(k) && endpoints[k] == url
}

/// The endpoints as full URLs.
pub open spec fn resolved_endpoints(
    endpoints: Map<Seq<char>, Seq<char>>,
    origin: Seq<char>,
) -> Map<Seq<char>, Seq<char>> {
    Map::new(
        |k: Seq<char>| endpoints.contains_key(k),
        |k: Seq<char>| address::url_resolved(origin, endpoints[k])->0,
    )
}

/// A description that is of this protocol, has endpoints, and has no policy that is not valid.
pub open spec fn acceptable(d: DiscoveryView) -> bool {
    d.protocol == PROTOCOL_VERSION@ && d.endpoints.dom() != Set::<Seq<char>>::empty() && (
    d.named_lease_policy is Some ==> protocol::valid_policy(d.named_lease_policy->0))
}

fn resolve_endpoints(endpoints: &TextMap<String>, origin: &str) -> (r: Result<
    TextMap<String>,
    ProviderError,
>)
    ensures
        match r {
            Ok(map) => resolvable(text_map::texts(endpoints@), origin@) && text_map::texts(map@) == resolved_endpoints(
                text_map::texts(endpoints@),
                origin@,
            ),
            Err(e) => e matches ProviderError::Address(url) && is_unresolvable(
                text_map::texts(endpoints@),
                origin@,
                url@,
            ),
        },
{
    let ghost whole = text_map::texts(endpoints@);
    let mut map: TextMap<String> = TextMap::new();
    let mut i: usize = 0;
    assert(text_map::texts(map@) =~= Map::empty());
    while i < endpoints.len()
        invariant
            0 <= i <= endpoints.spec_len(),
            whole == text_map::texts(endpoints@),
            forall|k: Seq<char>| #[trigger]
                text_map::texts(map@).contains_key(k) <==> exists|j: int|
                    0 <= j < i && #[trigger] endpoints.key(j) == k,
            forall|k: Seq<char>| #[trigger]
                text_map::texts(map@).contains_key(k) ==> whole.contains_key(k) && address::url_resolved(
                    origin@,
                    whole[k],
                ) == Some(text_map::texts(map@)[k]),
        decreases endpoints.spec_len() - i,
    {
        let key = endpoints.key_at(i);
        let value = endpoints.value_at(i);
        assert(whole.contains_key(key@) && whole[key@] == value@);
        match join_url(origin, value.as_str()) {
            Some(url) => {
                let ghost before = text_map::texts(map@);
                put_text(&mut map, key, url.as_str());
                assert forall|k: Seq<char>| #[trigger]
                    text_map::texts(map@).contains_key(k) <==> exists|j: int|
                        0 <= j < i + 1 && #[trigger] endpoints.key(j) == k by {
                    if before.contains_key(k) {
                        let j = choose|j: int| 0 <= j < i && #[trigger] endpoints.key(j) == k;
                        assert(endpoints.key(j) == k);
                    }
                    if k == key@ {
                        assert(endpoints.key(i as int) == k);
                    }
                    if exists|j: int| 0 <= j < i + 1 && #[trigger] endpoints.key(j) == k {
                        let j = choose|j: int| 0 <= j < i + 1 && #[trigger] endpoints.key(j) == k;
                        if j < i {
                            assert(before.contains_key(k));
                        }
                    }
                }
            },
            None => {
                return Err(ProviderError::Address(value.clone()));
            },
        }
        i += 1;
    }
    proof {
        assert forall|k: Seq<char>| #[trigger] whole.contains_key(k) <==> text_map::texts(
            map@,
        ).contains_key(k) by {
            endpoints.keys_cover(k);
            if whole.contains_key(k) {
                let j = choose|j: int| 0 <= j < endpoints.spec_len() && #[trigger] endpoints.key(j) == k;
                assert(0 <= j < i && endpoints.key(j) == k);
            }
        }
        assert(text_map::texts(map@) =~= resolved_endpoints(whole, origin@));
    }
    Ok(map)
}

/// Accepts the description of a provider, with its endpoints as full URLs.
pub fn discover(document: Discovery, origin: &str) -> (r: Result<Discovery, ProviderError>)
    ensures
        match r {
            Ok(d) => acceptable(document@) && resolvable(document@.endpoints, origin@) && d@ == (
            DiscoveryView {
                endpoints: resolved_endpoints(document@.endpoints, origin@),
                origin: origin@,
                ..document@
            }),
            Err(ProviderError::Incompatible) => document@.protocol != PROTOCOL_VERSION@
                || document@.endpoints.dom() == Set::<Seq<char>>::empty(),
            Err(ProviderError::Policy(e)) => e == ProtocolError::InvalidTtlPolicy
                && document@.protocol == PROTOCOL_VERSION@ && document@.endpoints.dom() != Set::<
                Seq<char>,
            >::empty() && document.named_lease_policy is Some && !protocol::valid_policy(
                document.named_lease_policy->0,
            ),
            Err(ProviderError::Address(url)) => acceptable(document@) && is_unresolvable(
                document@.endpoints,
                origin@,
                url@,
            ),
            Err(_) => false,
        },
{
    let count = document.endpoints.len();
    proof {
        if count == 0 {
            assert forall|k: Seq<char>| !document@.endpoints.contains_key(k) by {
                document.endpoints.keys_cover(k);
            }
            assert(document@.endpoints.dom() =~= Set::empty());
        } else {
            let k = document.endpoints.key(0);
            document.endpoints.keys_cover(k);
            assert(document@.endpoints.contains_key(k));
        }
    }
    if !same_text(document.protocol.as_str(), PROTOCOL_VERSION) || count == 0 {
        return Err(ProviderError::Incompatible);
    }
    match &document.named_lease_policy {
        Some(policy) => match policy.validate() {
            Ok(()) => {},
            Err(e) => {
                return Err(ProviderError::Policy(e));
            },
        },
        None => {},
    }
    let endpoints = match resolve_endpoints(&document.endpoints, origin) {
        Ok(endpoints) => endpoints,
        Err(e) => {
            return Err(e);
        },
    };
    Ok(
        Discovery {
            protocol: document.protocol,
            service_id: document.service_id,
            auth_methods: document.auth_methods,
            capabilities: document.capabilities,
            endpoints,
            named_lease_policy: document.named_lease_policy,
            origin: origin.to_owned(),
        },
    )
}

/// An endpoint that must be there.
pub fn require_endpoint(discovery: &Discovery, name: &str) -> (r: Result<String, ProviderError>)
    ensures
        match r {
            Ok(url) => text_map::text_at(discovery@.endpoints, name@) == Some(url@),
            Err(e) => text_map::text_at(discovery@.endpoints, name@) is None && (
            e matches ProviderError::MissingEndpoint(missing) && missing@ == name@),
        },
{
    match lookup(&discovery.endpoints, name) {
        Some(url) => Ok(url),
        None => Err(ProviderError::MissingEndpoint(name.to_owned())),
    }
}

/// A reply of a provider.
#[derive(Debug, PartialEq, Eq)]
pub struct ProviderHttpResponse {
    pub status: u16,
    pub body: Json,
}

/// A reply of a provider that is no success.
#[derive(Debug, PartialEq, Eq)]
pub struct ProviderHttpError {
    pub status: u16,
    pub body: Json,
}

impl ProviderHttpError {
    /// The message of the error: what the provider said, else the status.
    pub fn message(&self) -> (r: String)
        ensures
            r@ == match json::text_field(self.body, "error"@) {
                Some(text) => text,
                None => "provider request failed ("@ + text::decimal(self.status as nat) + ")"@,
            },
    {
        match self.body.text_at("error") {
            Some(text) => text.to_owned(),
            None => {
                let code = decimal_text(self.status as u64);
                cat3("provider request failed (", code.as_str(), ")")
            },
        }
    }
}

/// A status that means success.
pub open spec fn is_success(status: u16) -> bool {
    200 <= status < 300
}

/// The body of a reply: nothing where there is no text, the document that the text is, or an
/// error with the start of the text.
pub open spec fn is_body(body: Json, text: Seq<char>, parsed: Option<Json>) -> bool {
    if text.len() == 0 {
        body is Null
    } else if parsed is Some {
        body == parsed->0
    } else {
        json::text_field(body, "error"@) == Some(text::head(text, 500))
    }
}

/// Sorts the reply to a request by its status.
pub fn provider_request(status: u16, text: &str, parsed: Option<Json>) -> (r: Result<
    ProviderHttpResponse,
    ProviderHttpError,
>)
    ensures
        match r {
            Ok(reply) => is_success(status) && reply.status == status && is_body(
                reply.body,
                text@,
                parsed,
            ),
            Err(e) => !is_success(status) && e.status == status && is_body(e.body, text@, parsed),
        },
{
    let body = if is_blank(text) {
        Json::Null
    } else {
        match parsed {
            Some(value) => value,
            None => {
                let fields = vec![("error".to_owned(), Json::Text(head_text(text, 500)))];
                assert(fields@[0].0@ == "error"@);
                assert(json::key_position(fields@, "error"@, 0) == Some(0int));
                Json::Object(fields)
            },
        }
    };
    if status < 200 || status >= 300 {
        Err(ProviderHttpError { status, body })
    } else {
        Ok(ProviderHttpResponse { status, body })
    }
}

/// Starts the enrollment of a device with a token.
pub fn enroll_with_token(bootstrap_token: &str, device_name: &str) -> (r: Enrollment)
    ensures
        r@ == enroll::enroll_start(bootstrap_token@, device_name@),
{
    let r = Enrollment {
        stage: EnrollStage::Discover,
        bootstrap: bootstrap_token.to_owned(),
        device_name: device_name.to_owned(),
        enroll_url: String::new(),
        catalog_url: String::new(),
        token: None,
        document: Json::Null,
        failure: None,
    };
    assert(r@ =~= enroll::enroll_start(bootstrap_token@, device_name@));
    r
}

/// The token of an enrollment.
pub fn enrollment_token(enrollment: &Json) -> (r: Result<String, ProviderError>)
    ensures
        match r {
            Ok(token) => json::text_field(*enrollment, "token"@) == Some(token@),
            Err(e) => json::text_field(*enrollment, "token"@) is None && e == ProviderError::NoToken,
        },
{
    match enrollment.text_at("token") {
        Some(token) => Ok(token.to_owned()),
        None => Err(ProviderError::NoToken),
    }
}

/// The identifiers of the first `n` projects of a catalog, without those that have none.
pub open spec fn hosted_ids(projects: Seq<Json>, n: int) -> Seq<JsonView>
    decreases n,
{
    if n <= 0 {
        Seq::empty()
    } else {
        match json::field(projects[n - 1], "project_id"@) {
            Some(id) => hosted_ids(projects, n - 1).push(id@),
            None => hosted_ids(projects, n - 1),
        }
    }
}

/// The identifiers of the projects in the reply of a catalog.
pub open spec fn listed_ids(catalog: Json) -> Seq<JsonView> {
    match json::field(catalog, "projects"@) {
        Some(Json::List(projects)) => hosted_ids(projects@, projects@.len() as int),
        _ => Seq::empty(),
    }
}

/// The enrollment of a device without an identifier that uses a token as it is.
pub open spec fn enrollment_by_token(
    device_name: Seq<char>,
    catalog: Json,
    token: Seq<char>,
) -> JsonView {
    JsonView::Object(
        seq![
            (
                "device"@,
                JsonView::Object(
                    seq![
                        ("id"@, JsonView::Null),
                        ("name"@, JsonView::Text(device_name)),
                        ("project_ids"@, JsonView::List(listed_ids(catalog))),
                    ],
                ),
            ),
            ("token"@, JsonView::Text(token)),
        ],
    )
}

/// What stands for an enrollment where a provider gives none: the token itself is used, by a device
/// without an identifier that may use what the catalog lists.
pub fn token_enrollment(device_name: &str, catalog: &Json, token: &str) -> (r: Json)
    ensures
        r@ == enrollment_by_token(device_name@, *catalog, token@),
        json::text_field(r, "token"@) == Some(token@),
{
    let mut ids: Vec<Json> = Vec::new();
    match catalog.get("projects") {
        Some(Json::List(projects)) => {
            let mut i: usize = 0;
            while i < projects.len()
                invariant
                    0 <= i <= projects.len(),
                    ids@.map_values(|id: Json| id@) == hosted_ids(projects@, i as int),
                decreases projects.len() - i,
            {
                let ghost before = ids@;
                match projects[i].get("project_id") {
                    Some(id) => {
                        let id = id.copy();
                        ids.push(id);
                        assert(ids@.map_values(|id: Json| id@) =~= before.map_values(
                            |id: Json| id@,
                        ).push(id@));
                    },
                    None => {},
                }
                i += 1;
            }
        },
        _ => {},
    }
    assert(ids@.map_values(|id: Json| id@) =~= listed_ids(*catalog));
    let ghost listed = ids@;
    let list = Json::List(ids);
    proof {
        reveal_with_fuel(json::json_view, 3);
    }
    assert(list@->List_0 =~= listed.map_values(|id: Json| id@));
    let device = Json::Object(
        vec![
            ("id".to_owned(), Json::Null),
            ("name".to_owned(), Json::Text(device_name.to_owned())),
            ("project_ids".to_owned(), list),
        ],
    );
    assert(device@->Object_0 =~= seq![
        ("id"@, JsonView::Null),
        ("name"@, JsonView::Text(device_name@)),
        ("project_ids"@, JsonView::List(listed_ids(*catalog))),
    ]);
    let r = Json::Object(
        vec![("device".to_owned(), device), ("token".to_owned(), Json::Text(token.to_owned()))],
    );
    proof {
        reveal_strlit("device");
        reveal_strlit("token");
        assert("device"@.len() != "token"@.len());
        reveal_with_fuel(json::key_position, 3);
    }
    assert(r@->Object_0 =~= seq![("device"@, device@), ("token"@, JsonView::Text(token@))]);
    r
}

/// A text of the device in an enrollment.
pub open spec fn device_field(enrollment: Json, key: Seq<char>) -> Option<Seq<char>> {
    match json::field(enrollment, "device"@) {
        Some(device) => json::text_field(device, key),
        None => None,
    }
}

fn device_text(enrollment: &Json, key: &str) -> (r: Option<String>)
    ensures
        text::opt_view(r) == device_field(*enrollment, key@),
{
    match enrollment.get("device") {
        Some(device) => match device.text_at(key) {
            Some(text) => Some(text.to_owned()),
            None => None,
        },
        None => None,
    }
}

/// The configuration after a login: the provider is the active one, and nothing is left of what
/// earlier versions stored.
pub open spec fn logged_in(
    config: ConfigView,
    discovery: DiscoveryView,
    enrollment: Json,
    public_key_path: Seq<char>,
    now: Seq<char>,
) -> ConfigView {
    ConfigView {
        server: None,
        token: None,
        active_provider: Some(discovery.origin),
        providers: config.providers.insert(
            discovery.origin,
            ProviderConfigView {
                origin: discovery.origin,
                service_id: Some(discovery.service_id),
                device_id: device_field(enrollment, "id"@),
                device_name: device_field(enrollment, "name"@),
                public_key_path: Some(public_key_path),
                logged_in_at: Some(now),
            },
        ),
        ..config
    }
}

/// Records a login.
pub fn store_provider_login(
    config: &mut Config,
    discovery: &Discovery,
    enrollment: &Json,
    key: &DeviceIdentity,
    now: &str,
)
    ensures
        final(config)@ == logged_in(
            old(config)@,
            discovery@,
            *enrollment,
            key.public_key_path@,
            now@,
        ),
{
    config.server = None;
    config.token = None;
    config.active_provider = Some(discovery.origin.clone());
    config.set_provider(
        discovery.origin.as_str(),
        ProviderConfig {
            origin: discovery.origin.clone(),
            service_id: Some(discovery.service_id.clone()),
            device_id: device_text(enrollment, "id"),
            device_name: device_text(enrollment, "name"),
            public_key_path: Some(key.public_key_path.clone()),
            logged_in_at: Some(now.to_owned()),
        },
    );
}

} // verus!
